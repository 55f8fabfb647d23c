//! From the text of a netlist to its statements.
//!
//! The grammar is defined by the spec functions of this file, from single tokens
//! (`device_kind_of`, `param_of`) up to whole texts (`parse_spec`). The executable
//! functions are proved to compute them.

use crate::netlist::ast::{
    clone_strings, AstView, ControlKind, ControlStmt, ControlView, DeviceKind,
    DeviceStmt, DeviceView, NetlistAst, Param, ParamView, ParseError, ParseErrorView, Stmt,
    StmtView,
};
use crate::span::{lemma_span, span};
use crate::text::{
    chars_are, chars_of, concat2, lines, lowercase, slice_views, split_lines, split_tokens,
    string_of, to_lowercase, tokens, trim, trim_slice,
};
use vstd::prelude::*;

verus! {

/// The kind of the device whose name starts with `c`, in either case.
pub open spec fn device_kind_of(c: char) -> DeviceKind {
    if c == 'R' || c == 'r' {
        DeviceKind::R
    } else if c == 'C' || c == 'c' {
        DeviceKind::C
    } else if c == 'L' || c == 'l' {
        DeviceKind::L
    } else if c == 'V' || c == 'v' {
        DeviceKind::V
    } else if c == 'I' || c == 'i' {
        DeviceKind::I
    } else if c == 'D' || c == 'd' {
        DeviceKind::D
    } else if c == 'M' || c == 'm' {
        DeviceKind::M
    } else if c == 'E' || c == 'e' {
        DeviceKind::E
    } else if c == 'G' || c == 'g' {
        DeviceKind::G
    } else if c == 'F' || c == 'f' {
        DeviceKind::F
    } else if c == 'H' || c == 'h' {
        DeviceKind::H
    } else if c == 'X' || c == 'x' {
        DeviceKind::X
    } else {
        DeviceKind::Unknown
    }
}

/// The kind of the device whose name starts with `c`.
pub fn map_device_kind(c: char) -> (kind: DeviceKind)
    ensures
        kind == device_kind_of(c),
{
    match c {
        'R' | 'r' => DeviceKind::R,
        'C' | 'c' => DeviceKind::C,
        'L' | 'l' => DeviceKind::L,
        'V' | 'v' => DeviceKind::V,
        'I' | 'i' => DeviceKind::I,
        'D' | 'd' => DeviceKind::D,
        'M' | 'm' => DeviceKind::M,
        'E' | 'e' => DeviceKind::E,
        'G' | 'g' => DeviceKind::G,
        'F' | 'f' => DeviceKind::F,
        'H' | 'h' => DeviceKind::H,
        'X' | 'x' => DeviceKind::X,
        _ => DeviceKind::Unknown,
    }
}

/// The kind of a control statement, by its command word in lower case.
pub open spec fn control_kind_of(command: Seq<char>) -> ControlKind {
    if command == ".param"@ {
        ControlKind::Param
    } else if command == ".model"@ {
        ControlKind::Model
    } else if command == ".subckt"@ {
        ControlKind::Subckt
    } else if command == ".ends"@ {
        ControlKind::Ends
    } else if command == ".include"@ {
        ControlKind::Include
    } else if command == ".op"@ {
        ControlKind::Op
    } else if command == ".dc"@ {
        ControlKind::Dc
    } else if command == ".tran"@ {
        ControlKind::Tran
    } else if command == ".end"@ {
        ControlKind::End
    } else {
        ControlKind::Other
    }
}

/// The kind of the control statement with the given command word.
pub fn map_control_kind(command: &[char]) -> (kind: ControlKind)
    ensures
        kind == control_kind_of(command@),
{
    if chars_are(command, ".param") {
        ControlKind::Param
    } else if chars_are(command, ".model") {
        ControlKind::Model
    } else if chars_are(command, ".subckt") {
        ControlKind::Subckt
    } else if chars_are(command, ".ends") {
        ControlKind::Ends
    } else if chars_are(command, ".include") {
        ControlKind::Include
    } else if chars_are(command, ".op") {
        ControlKind::Op
    } else if chars_are(command, ".dc") {
        ControlKind::Dc
    } else if chars_are(command, ".tran") {
        ControlKind::Tran
    } else if chars_are(command, ".end") {
        ControlKind::End
    } else {
        ControlKind::Other
    }
}

/// A token is a parameter when it holds an equals sign.
pub open spec fn is_param_token(t: Seq<char>) -> bool {
    span(t, |c: char| c != '=') < t.len()
}

/// The parameter of a token: the key is what stands before the first equals sign,
/// the value what stands after it.
pub open spec fn param_of(t: Seq<char>) -> ParamView {
    let k = span(t, |c: char| c != '=') as int;
    ParamView { key: t.take(k), value: t.skip(k + 1) }
}

/// The tokens without an equals sign, in order.
pub open spec fn args_of(toks: Seq<Seq<char>>) -> Seq<Seq<char>> {
    toks.filter(|t: Seq<char>| !is_param_token(t))
}

/// The parameters of the tokens with an equals sign, in order.
pub open spec fn params_of(toks: Seq<Seq<char>>) -> Seq<ParamView> {
    toks.filter(|t: Seq<char>| is_param_token(t)).map_values(|t: Seq<char>| param_of(t))
}

fn find_equals(t: &[char]) -> (k: usize)
    ensures
        k == span(t@, |c: char| c != '='),
        k <= t.len(),
{
    let mut k: usize = 0;
    while k < t.len() && t[k] != '='
        invariant
            k <= t.len(),
            forall|j: int| 0 <= j < k ==> #[trigger] t@[j] != '=',
        decreases t.len() - k,
    {
        k += 1;
    }
    proof {
        lemma_span(t@, |c: char| c != '=', k as int);
    }
    k
}

/// Parts tokens into positional arguments and parameters.
pub fn split_args_params(toks: &[&[char]]) -> (out: (Vec<String>, Vec<Param>))
    ensures
        out.0.deep_view() == args_of(slice_views(toks@)),
        out.1.deep_view() == params_of(slice_views(toks@)),
{
    let mut args: Vec<String> = Vec::new();
    let mut params: Vec<Param> = Vec::new();
    let ghost views = slice_views(toks@);
    let mut i: usize = 0;
    while i < toks.len()
        invariant
            i <= toks.len(),
            views == slice_views(toks@),
            args.deep_view() == args_of(views.take(i as int)),
            params.deep_view() == params_of(views.take(i as int)),
        decreases toks.len() - i,
    {
        let tok = toks[i];
        let k = find_equals(tok);
        let ghost done = views.take(i as int);
        proof {
            assert(views.take(i + 1) =~= done.push(tok@));
            done.lemma_filter_push(tok@, |t: Seq<char>| !is_param_token(t));
            done.lemma_filter_push(tok@, |t: Seq<char>| is_param_token(t));
        }
        if k < tok.len() {
            let key = string_of(&tok[0..k]);
            let value = string_of(&tok[k + 1..tok.len()]);
            let p = Param { key: key, value: value };
            params.push(p);
            proof {
                let kept = done.filter(|t: Seq<char>| is_param_token(t));
                assert(kept.push(tok@).map_values(|t: Seq<char>| param_of(t)) =~= kept.map_values(
                    |t: Seq<char>| param_of(t),
                ).push(param_of(tok@)));
            }
        } else {
            args.push(string_of(tok));
        }
        i += 1;
    }
    proof {
        assert(views.take(toks.len() as int) =~= views);
    }
    (args, params)
}

/// The fields that the positional arguments of a device line are split into.
pub struct FieldsView {
    pub nodes: Seq<Seq<char>>,
    pub model: Option<Seq<char>>,
    pub value: Option<Seq<char>>,
}

/// How the positional arguments of a device of a given kind are read.
///
/// - `R`, `C`, `L`, `V`, `I`: two nodes, then the value;
/// - `D`: two nodes, then the model;
/// - `M`: four nodes, then the model;
/// - `E`, `G`: four nodes, then the value;
/// - `F`, `H`: two nodes, the controlling source, then the value;
/// - `X`: nodes, and last the name of the subcircuit.
///
/// Where the arguments are too few for that, all of them are taken as nodes.
pub open spec fn device_fields(kind: DeviceKind, args: Seq<Seq<char>>) -> FieldsView {
    let n = args.len() as int;
    let all = FieldsView { nodes: args, model: None, value: None };
    match kind {
        DeviceKind::R | DeviceKind::C | DeviceKind::L | DeviceKind::V | DeviceKind::I => {
            if n >= 3 {
                FieldsView { nodes: args.take(2), model: None, value: Some(args[2]) }
            } else {
                all
            }
        },
        DeviceKind::D => {
            if n >= 3 {
                FieldsView { nodes: args.take(2), model: Some(args[2]), value: None }
            } else {
                all
            }
        },
        DeviceKind::M => {
            if n >= 5 {
                FieldsView { nodes: args.take(4), model: Some(args[4]), value: None }
            } else {
                all
            }
        },
        DeviceKind::E | DeviceKind::G => {
            if n >= 5 {
                FieldsView { nodes: args.take(4), model: None, value: Some(args[4]) }
            } else {
                all
            }
        },
        DeviceKind::F | DeviceKind::H => {
            if n >= 4 {
                FieldsView { nodes: args.take(2), model: None, value: Some(args[3]) }
            } else {
                all
            }
        },
        DeviceKind::X => {
            if n >= 2 {
                FieldsView { nodes: args.take(n - 1), model: Some(args[n - 1]), value: None }
            } else {
                all
            }
        },
        DeviceKind::Unknown => all,
    }
}

fn clone_prefix(v: &Vec<String>, n: usize) -> (r: Vec<String>)
    requires
        n <= v.len(),
    ensures
        r.deep_view() == v.deep_view().take(n as int),
{
    let mut r: Vec<String> = Vec::new();
    let mut i: usize = 0;
    while i < n
        invariant
            i <= n <= v.len(),
            r.len() == i,
            forall|k: int| 0 <= k < i ==> r@[k]@ == v@[k]@,
        decreases n - i,
    {
        r.push(v[i].clone());
        i += 1;
    }
    r
}

/// Splits the positional arguments of a device into nodes, model and value.
pub fn split_device_fields(kind: &DeviceKind, args: &Vec<String>) -> (out: (
    Vec<String>,
    Option<String>,
    Option<String>,
))
    ensures
        out.0.deep_view() == device_fields(*kind, args.deep_view()).nodes,
        out.1.deep_view() == device_fields(*kind, args.deep_view()).model,
        out.2.deep_view() == device_fields(*kind, args.deep_view()).value,
{
    let n = args.len();
    match kind {
        DeviceKind::R | DeviceKind::C | DeviceKind::L | DeviceKind::V | DeviceKind::I => {
            if n >= 3 {
                (clone_prefix(args, 2), None, Some(args[2].clone()))
            } else {
                (clone_strings(args), None, None)
            }
        },
        DeviceKind::D => {
            if n >= 3 {
                (clone_prefix(args, 2), Some(args[2].clone()), None)
            } else {
                (clone_strings(args), None, None)
            }
        },
        DeviceKind::M => {
            if n >= 5 {
                (clone_prefix(args, 4), Some(args[4].clone()), None)
            } else {
                (clone_strings(args), None, None)
            }
        },
        DeviceKind::E | DeviceKind::G => {
            if n >= 5 {
                (clone_prefix(args, 4), None, Some(args[4].clone()))
            } else {
                (clone_strings(args), None, None)
            }
        },
        DeviceKind::F | DeviceKind::H => {
            if n >= 4 {
                (clone_prefix(args, 2), None, Some(args[3].clone()))
            } else {
                (clone_strings(args), None, None)
            }
        },
        DeviceKind::X => {
            if n >= 2 {
                (clone_prefix(args, n - 1), Some(args[n - 1].clone()), None)
            } else {
                (clone_strings(args), None, None)
            }
        },
        DeviceKind::Unknown => (clone_strings(args), None, None),
    }
}

/// The controlling source of a device: the third argument of an `F` or `H` device.
pub open spec fn control_name(kind: DeviceKind, args: Seq<Seq<char>>) -> Option<Seq<char>> {
    if (kind is F || kind is H) && args.len() > 2 {
        Some(args[2])
    } else {
        None
    }
}

/// The controlling source of a device, if it names one.
pub fn extract_control_name(kind: &DeviceKind, args: &Vec<String>) -> (out: Option<String>)
    ensures
        out.deep_view() == control_name(*kind, args.deep_view()),
{
    match kind {
        DeviceKind::F | DeviceKind::H => {
            if args.len() > 2 {
                Some(args[2].clone())
            } else {
                None
            }
        },
        _ => None,
    }
}

/// An error at a line.
pub open spec fn error_at(line: nat, message: Seq<char>) -> ParseErrorView {
    ParseErrorView { line, message }
}

/// `errors`, with one more where `cond` holds.
pub open spec fn push_if(errors: Seq<ParseErrorView>, cond: bool, e: ParseErrorView) -> Seq<
    ParseErrorView,
> {
    if cond {
        errors.push(e)
    } else {
        errors
    }
}

/// What is wrong with the fields of a device, in the order of reporting.
///
/// A device of unknown kind is not looked at. A device without nodes gets that one
/// error. Else the number of nodes is held against the kind (two for `R`, `C`, `L`,
/// `V`, `I`, `D`, `F`, `H`; four for `E`, `G`; at least four for `M`), and then what the
/// kind needs must be there: a value, a model, a controlling source, a subcircuit name.
pub open spec fn device_errors(
    name: Seq<char>,
    kind: DeviceKind,
    n_nodes: nat,
    has_model: bool,
    has_control: bool,
    has_value: bool,
    line: nat,
) -> Seq<ParseErrorView> {
    let none = Seq::<ParseErrorView>::empty();
    let two = error_at(line, name + " 需要 2 个节点"@);
    let four = error_at(line, name + " 需要 4 个节点"@);
    let four_up = error_at(line, name + " 需要至少 4 个节点"@);
    let no_value = error_at(line, name + " 缺少数值"@);
    let no_gain = error_at(line, name + " 缺少增益值"@);
    let no_model = error_at(line, name + " 缺少模型名"@);
    let no_control = error_at(line, name + " 缺少控制源"@);
    let no_subckt = error_at(line, name + " 缺少子电路名"@);
    if kind is Unknown {
        none
    } else if n_nodes == 0 {
        seq![error_at(line, "器件缺少节点定义: "@ + name)]
    } else {
        match kind {
            DeviceKind::R | DeviceKind::C | DeviceKind::L | DeviceKind::V | DeviceKind::I => {
                push_if(push_if(none, n_nodes != 2, two), !has_value, no_value)
            },
            DeviceKind::D => push_if(push_if(none, n_nodes != 2, two), !has_model, no_model),
            DeviceKind::M => push_if(push_if(none, n_nodes < 4, four_up), !has_model, no_model),
            DeviceKind::E | DeviceKind::G => {
                push_if(push_if(none, n_nodes != 4, four), !has_value, no_gain)
            },
            DeviceKind::F | DeviceKind::H => {
                push_if(
                    push_if(push_if(none, n_nodes != 2, two), !has_control, no_control),
                    !has_value,
                    no_gain,
                )
            },
            DeviceKind::X => push_if(none, !has_model, no_subckt),
            DeviceKind::Unknown => none,
        }
    }
}

/// Records an error.
pub fn push_error(errors: &mut Vec<ParseError>, line: usize, message: String)
    ensures
        final(errors).deep_view() == old(errors).deep_view().push(
            error_at(line as nat, message@),
        ),
{
    errors.push(ParseError { line: line, message: message });
}

fn push_error_if(
    errors: &mut Vec<ParseError>,
    cond: bool,
    line: usize,
    name: &str,
    what: &str,
)
    ensures
        final(errors).deep_view() == push_if(
            old(errors).deep_view(),
            cond,
            error_at(line as nat, name@ + what@),
        ),
{
    if cond {
        push_error(errors, line, concat2(name, what));
    }
}

/// Records what is wrong with the fields of a device.
pub fn validate_device_fields(
    name: &str,
    kind: &DeviceKind,
    nodes: &Vec<String>,
    model: &Option<String>,
    control: &Option<String>,
    value: &Option<String>,
    line_no: usize,
    errors: &mut Vec<ParseError>,
)
    ensures
        final(errors).deep_view() == old(errors).deep_view() + device_errors(
            name@,
            *kind,
            nodes.len() as nat,
            model is Some,
            control is Some,
            value is Some,
            line_no as nat,
        ),
{
    if matches!(kind, DeviceKind::Unknown) {
        return;
    }
    if nodes.len() == 0 {
        push_error(errors, line_no, concat2("器件缺少节点定义: ", name));
        return;
    }
    let n = nodes.len();
    match kind {
        DeviceKind::R | DeviceKind::C | DeviceKind::L | DeviceKind::V | DeviceKind::I => {
            push_error_if(errors, n != 2, line_no, name, " 需要 2 个节点");
            push_error_if(errors, value.is_none(), line_no, name, " 缺少数值");
        },
        DeviceKind::D => {
            push_error_if(errors, n != 2, line_no, name, " 需要 2 个节点");
            push_error_if(errors, model.is_none(), line_no, name, " 缺少模型名");
        },
        DeviceKind::M => {
            push_error_if(errors, n < 4, line_no, name, " 需要至少 4 个节点");
            push_error_if(errors, model.is_none(), line_no, name, " 缺少模型名");
        },
        DeviceKind::E | DeviceKind::G => {
            push_error_if(errors, n != 4, line_no, name, " 需要 4 个节点");
            push_error_if(errors, value.is_none(), line_no, name, " 缺少增益值");
        },
        DeviceKind::F | DeviceKind::H => {
            push_error_if(errors, n != 2, line_no, name, " 需要 2 个节点");
            push_error_if(errors, control.is_none(), line_no, name, " 缺少控制源");
            push_error_if(errors, value.is_none(), line_no, name, " 缺少增益值");
        },
        DeviceKind::X => {
            push_error_if(errors, model.is_none(), line_no, name, " 缺少子电路名");
        },
        DeviceKind::Unknown => {},
    }
}

/// The parts of a list, with one blank between each two.
pub open spec fn join_spaced(parts: Seq<Seq<char>>) -> Seq<char>
    decreases parts.len(),
{
    if parts.len() == 0 {
        Seq::empty()
    } else if parts.len() == 1 {
        parts[0]
    } else {
        join_spaced(parts.drop_last()) + seq![' '] + parts.last()
    }
}

fn append_chars(out: &mut Vec<char>, s: &[char])
    ensures
        final(out)@ == old(out)@ + s@,
{
    let mut i: usize = 0;
    while i < s.len()
        invariant
            i <= s.len(),
            out@ == old(out)@ + s@.take(i as int),
        decreases s.len() - i,
    {
        out.push(s[i]);
        i += 1;
    }
}

fn join_args(args: &Vec<String>) -> (out: Vec<char>)
    ensures
        out@ == join_spaced(args.deep_view()),
{
    let mut out: Vec<char> = Vec::new();
    let ghost parts = args.deep_view();
    let mut i: usize = 0;
    while i < args.len()
        invariant
            i <= args.len(),
            parts == args.deep_view(),
            out@ == join_spaced(parts.take(i as int)),
        decreases args.len() - i,
    {
        if i > 0 {
            out.push(' ');
        }
        let piece = chars_of(args[i].as_str());
        append_chars(&mut out, piece.as_slice());
        proof {
            let now = parts.take(i + 1);
            assert(now.drop_last() =~= parts.take(i as int));
        }
        i += 1;
    }
    assert(parts.take(args.len() as int) =~= parts);
    out
}

/// What one statement adds to a netlist: the statement itself, a title where it
/// sets one, and the errors found in it.
pub struct Outcome {
    pub stmt: StmtView,
    pub title: Option<Seq<char>>,
    pub errors: Seq<ParseErrorView>,
}

/// The statement on a line whose first token starts with a dot.
///
/// The command is the first token in lower case. `.title` sets the title to the
/// arguments joined by blanks, unless there are none. `.model` needs a name and a
/// type, `.subckt` a name, and what follows the name are the ports.
pub open spec fn control_statement(
    line: Seq<char>,
    first: Seq<char>,
    rest: Seq<Seq<char>>,
    line_no: nat,
) -> Outcome {
    let command = lowercase(first);
    let args = args_of(rest);
    let kind = control_kind_of(command);
    let model_ok = kind is Model && args.len() >= 2;
    let subckt_ok = kind is Subckt && args.len() >= 1;
    Outcome {
        stmt: StmtView::Control(
            ControlView {
                command,
                kind,
                args,
                params: params_of(rest),
                model_name: if model_ok {
                    Some(args[0])
                } else {
                    None
                },
                model_type: if model_ok {
                    Some(args[1])
                } else {
                    None
                },
                subckt_name: if subckt_ok {
                    Some(args[0])
                } else {
                    None
                },
                subckt_ports: if subckt_ok {
                    args.skip(1)
                } else {
                    Seq::empty()
                },
                raw: line,
                line: line_no,
            },
        ),
        title: if command == ".title"@ && join_spaced(args).len() > 0 {
            Some(join_spaced(args))
        } else {
            None
        },
        errors: if kind is Model && !model_ok {
            seq![error_at(line_no, "model 语句缺少 name/type"@)]
        } else if kind is Subckt && !subckt_ok {
            seq![error_at(line_no, "subckt 语句缺少名称"@)]
        } else {
            Seq::empty()
        },
    }
}

/// The statement on a device line: the name is the first token and decides the kind,
/// the other tokens are split into parameters and positional arguments.
pub open spec fn device_statement(
    line: Seq<char>,
    first: Seq<char>,
    rest: Seq<Seq<char>>,
    line_no: nat,
) -> Outcome {
    let kind = device_kind_of(
        if first.len() > 0 {
            first[0]
        } else {
            ' '
        },
    );
    let args = args_of(rest);
    let fields = device_fields(kind, args);
    let control = control_name(kind, args);
    Outcome {
        stmt: StmtView::Device(
            DeviceView {
                name: first,
                kind,
                nodes: fields.nodes,
                model: fields.model,
                control,
                value: fields.value,
                params: params_of(rest),
                raw: line,
                line: line_no,
            },
        ),
        title: None,
        errors: push_if(
            Seq::empty(),
            kind is Unknown,
            error_at(line_no, "未知器件类型: "@ + first),
        ) + device_errors(
            first,
            kind,
            fields.nodes.len(),
            fields.model is Some,
            control is Some,
            fields.value is Some,
            line_no,
        ),
    }
}

/// The statement that a logical line holds.
pub open spec fn statement(line: Seq<char>, line_no: nat) -> Outcome {
    let toks = tokens(line);
    if toks.len() == 0 {
        Outcome { stmt: StmtView::Empty, title: None, errors: Seq::empty() }
    } else if toks[0].len() > 0 && toks[0][0] == '.' {
        control_statement(line, toks[0], toks.skip(1), line_no)
    } else {
        device_statement(line, toks[0], toks.skip(1), line_no)
    }
}

/// The title after a statement: the statement's, where it sets one.
pub open spec fn new_title(before: Option<Seq<char>>, set: Option<Seq<char>>) -> Option<
    Seq<char>,
> {
    if set is Some {
        set
    } else {
        before
    }
}

/// Appends a statement.
pub fn push_stmt(statements: &mut Vec<Stmt>, stmt: Stmt)
    ensures
        final(statements).deep_view() == old(statements).deep_view().push(stmt@),
{
    statements.push(stmt);
}

fn clone_suffix(v: &Vec<String>, from: usize) -> (r: Vec<String>)
    requires
        from <= v.len(),
    ensures
        r.deep_view() == v.deep_view().skip(from as int),
{
    let mut r: Vec<String> = Vec::new();
    let mut i: usize = from;
    while i < v.len()
        invariant
            from <= i <= v.len(),
            r.len() == i - from,
            forall|k: int| 0 <= k < i - from ==> r@[k]@ == v@[k + from]@,
        decreases v.len() - i,
    {
        r.push(v[i].clone());
        i += 1;
    }
    r
}

/// Reads a logical line as a statement: the statement is appended, its errors are
/// recorded, and the title is set where the statement sets one.
pub fn parse_statement(
    line: &[char],
    line_no: usize,
    title: &mut Option<String>,
    statements: &mut Vec<Stmt>,
    errors: &mut Vec<ParseError>,
)
    ensures
        final(statements).deep_view() == old(statements).deep_view().push(
            statement(line@, line_no as nat).stmt,
        ),
        final(title).deep_view() == new_title(
            old(title).deep_view(),
            statement(line@, line_no as nat).title,
        ),
        final(errors).deep_view() == old(errors).deep_view() + statement(
            line@,
            line_no as nat,
        ).errors,
{
    let toks = split_tokens(line);
    if toks.len() == 0 {
        push_stmt(statements, Stmt::Empty);
        return;
    }
    let first: &[char] = toks[0];
    let rest = &toks.as_slice()[1..toks.len()];
    assert(slice_views(rest@) =~= tokens(line@).skip(1));
    let (args, params) = split_args_params(rest);

    if first.len() > 0 && first[0] == '.' {
        let command = to_lowercase(first);
        let kind = map_control_kind(command.as_slice());
        let mut model_name: Option<String> = None;
        let mut model_type: Option<String> = None;
        let mut subckt_name: Option<String> = None;
        let mut subckt_ports: Vec<String> = Vec::new();
        assert(subckt_ports.deep_view() =~= Seq::<Seq<char>>::empty());

        if chars_are(command.as_slice(), ".title") {
            let joined = join_args(&args);
            if joined.len() > 0 {
                *title = Some(string_of(joined.as_slice()));
            }
        }
        if matches!(kind, ControlKind::Model) {
            if args.len() >= 2 {
                model_name = Some(args[0].clone());
                model_type = Some(args[1].clone());
            } else {
                push_error(errors, line_no, String::from_str("model 语句缺少 name/type"));
            }
        }
        if matches!(kind, ControlKind::Subckt) {
            if args.len() >= 1 {
                subckt_name = Some(args[0].clone());
                subckt_ports = clone_suffix(&args, 1);
            } else {
                push_error(errors, line_no, String::from_str("subckt 语句缺少名称"));
            }
        }
        push_stmt(
            statements,
            Stmt::Control(
                ControlStmt {
                    command: string_of(command.as_slice()),
                    kind: kind,
                    args: args,
                    params: params,
                    model_name: model_name,
                    model_type: model_type,
                    subckt_name: subckt_name,
                    subckt_ports: subckt_ports,
                    raw: string_of(line),
                    line: line_no,
                },
            ),
        );
        return;
    }
    let kind = map_device_kind(
        if first.len() > 0 {
            first[0]
        } else {
            ' '
        },
    );
    let name = string_of(first);
    if matches!(kind, DeviceKind::Unknown) {
        push_error(errors, line_no, concat2("未知器件类型: ", name.as_str()));
    }
    let (nodes, model, value) = split_device_fields(&kind, &args);
    let control = extract_control_name(&kind, &args);
    validate_device_fields(
        name.as_str(),
        &kind,
        &nodes,
        &model,
        &control,
        &value,
        line_no,
        errors,
    );
    push_stmt(
        statements,
        Stmt::Device(
            DeviceStmt {
                name: name,
                kind: kind,
                nodes: nodes,
                model: model,
                control: control,
                value: value,
                params: params,
                raw: string_of(line),
                line: line_no,
            },
        ),
    );
}

/// What has been read of a netlist so far. `pending` is the logical line that
/// continuation lines may still extend; it is empty where there is none.
pub struct ScanState {
    pub title: Option<Seq<char>>,
    pub statements: Seq<StmtView>,
    pub errors: Seq<ParseErrorView>,
    pub pending: Seq<char>,
}

/// The state after the pending line, if there is one, has been read as a statement
/// reported at `line_no`.
pub open spec fn flush(st: ScanState, line_no: nat) -> ScanState {
    if st.pending.len() > 0 {
        let out = statement(st.pending, line_no);
        ScanState {
            title: new_title(st.title, out.title),
            statements: st.statements.push(out.stmt),
            errors: st.errors + out.errors,
            pending: Seq::empty(),
        }
    } else {
        st
    }
}

/// A continuation line without its leading plus signs and the white space around
/// what follows them.
pub open spec fn continuation(t: Seq<char>) -> Seq<char> {
    trim(t.skip(span(t, |c: char| c == '+') as int))
}

/// The state after one more physical line, which is line `line_no` of the text.
///
/// The line is trimmed first. An empty line and a comment line (one that starts with
/// `*`) are statements at once, and leave the pending line as it is. A line that
/// starts with `+` extends the pending line by a blank and its own content; without a
/// pending line it is an error. Any other line ends the pending line, which is read as
/// a statement and reported at `line_no`, and becomes the pending line itself.
pub open spec fn scan_line(st: ScanState, raw: Seq<char>, line_no: nat) -> ScanState {
    let t = trim(raw);
    if t.len() == 0 {
        ScanState { statements: st.statements.push(StmtView::Empty), ..st }
    } else if t[0] == '*' {
        ScanState { statements: st.statements.push(StmtView::Comment(t)), ..st }
    } else if t[0] == '+' {
        if st.pending.len() == 0 {
            ScanState {
                errors: st.errors.push(error_at(line_no, "续行没有对应的上一行"@)),
                ..st
            }
        } else {
            ScanState { pending: st.pending + seq![' '] + continuation(t), ..st }
        }
    } else {
        ScanState { pending: t, ..flush(st, line_no) }
    }
}

/// The state after the given lines, numbered from 1.
pub open spec fn scan(all: Seq<Seq<char>>) -> ScanState
    decreases all.len(),
{
    if all.len() == 0 {
        ScanState {
            title: None,
            statements: Seq::empty(),
            errors: Seq::empty(),
            pending: Seq::empty(),
        }
    } else {
        scan_line(scan(all.drop_last()), all.last(), all.len())
    }
}

/// The syntax tree of a netlist text. The line that is still pending at the end is
/// reported at the number of the last line.
pub open spec fn parse_spec(input: Seq<char>) -> AstView {
    let all = lines(input);
    let end = flush(scan(all), all.len());
    AstView { title: end.title, statements: end.statements, errors: end.errors }
}

fn skip_plus(t: &[char]) -> (k: usize)
    ensures
        k == span(t@, |c: char| c == '+'),
        k <= t.len(),
{
    let mut k: usize = 0;
    while k < t.len() && t[k] == '+'
        invariant
            k <= t.len(),
            forall|j: int| 0 <= j < k ==> #[trigger] t@[j] == '+',
        decreases t.len() - k,
    {
        k += 1;
    }
    proof {
        lemma_span(t@, |c: char| c == '+', k as int);
    }
    k
}

/// Reads a netlist. Every line of the text becomes part of a statement or an error;
/// nothing is rejected as a whole.
pub fn parse_netlist(input: &str) -> (ast: NetlistAst)
    ensures
        ast@ == parse_spec(input@),
{
    let chars = chars_of(input);
    let all = split_lines(chars.as_slice());
    let ghost views = slice_views(all@);
    let mut title: Option<String> = None;
    let mut statements: Vec<Stmt> = Vec::new();
    let mut errors: Vec<ParseError> = Vec::new();
    let mut pending: Vec<char> = Vec::new();
    let mut index: usize = 0;
    while index < all.len()
        invariant
            index <= all.len(),
            views == slice_views(all@),
            views == lines(input@),
            title.deep_view() == scan(views.take(index as int)).title,
            statements.deep_view() == scan(views.take(index as int)).statements,
            errors.deep_view() == scan(views.take(index as int)).errors,
            pending@ == scan(views.take(index as int)).pending,
        decreases all.len() - index,
    {
        let line_no = index + 1;
        let raw: &[char] = all[index];
        let trimmed = trim_slice(raw);
        proof {
            let now = views.take(index + 1);
            assert(now.drop_last() =~= views.take(index as int));
        }
        if trimmed.len() == 0 {
            push_stmt(&mut statements, Stmt::Empty);
        } else if trimmed[0] == '*' {
            push_stmt(&mut statements, Stmt::Comment(string_of(trimmed)));
        } else if trimmed[0] == '+' {
            if pending.len() == 0 {
                push_error(&mut errors, line_no, String::from_str("续行没有对应的上一行"));
            } else {
                let k = skip_plus(trimmed);
                let more = trim_slice(&trimmed[k..trimmed.len()]);
                pending.push(' ');
                append_chars(&mut pending, more);
            }
        } else {
            if pending.len() > 0 {
                parse_statement(
                    pending.as_slice(),
                    line_no,
                    &mut title,
                    &mut statements,
                    &mut errors,
                );
            }
            pending = vstd::slice::slice_to_vec(trimmed);
        }
        index += 1;
    }
    proof {
        assert(views.take(all.len() as int) =~= views);
    }
    if pending.len() > 0 {
        parse_statement(pending.as_slice(), all.len(), &mut title, &mut statements, &mut errors);
    }
    NetlistAst { title: title, statements: statements, errors: errors }
}

} // verus!
