//! From the statements of a netlist to the flat list of its device instances:
//! subcircuit definitions are taken out, `.param` values are put in, and every use of
//! a subcircuit is replaced by the devices of its body.

use crate::netlist::ast::{
    clone_errors, clone_opt_string, clone_strings, AstView, ControlKind, ControlView, DeviceKind,
    DeviceStmt, DeviceView, ElabView, ElaboratedNetlist, NetlistAst, Param, ParamView,
    ParseError, ParseErrorView, Stmt, StmtView, SubcktDef, SubcktView,
};
use crate::netlist::parse::{error_at, push_error, push_if};
use crate::span::{lemma_span, lemma_span_props, span};
use crate::text::{concat2, decimal, decimal_string, lowercase, lowercase_string, same_text};
use vstd::prelude::*;

verus! {

/// The table that a list of definitions stands for: each key has the value of its
/// last definition.
pub open spec fn table_of(entries: Seq<ParamView>) -> Map<Seq<char>, Seq<char>>
    decreases entries.len(),
{
    if entries.len() == 0 {
        Map::empty()
    } else {
        table_of(entries.drop_last()).insert(entries.last().key, entries.last().value)
    }
}

/// Definitions after the first `i` that do not define `key` make no difference to it.
proof fn lemma_table_tail(entries: Seq<ParamView>, key: Seq<char>, i: int)
    requires
        0 <= i <= entries.len(),
        forall|k: int| i <= k < entries.len() ==> (#[trigger] entries[k]).key != key,
    ensures
        table_of(entries).contains_key(key) == table_of(entries.take(i)).contains_key(key),
        table_of(entries).contains_key(key) ==> table_of(entries)[key] == table_of(
            entries.take(i),
        )[key],
    decreases entries.len() - i,
{
    if i == entries.len() {
        assert(entries.take(i) =~= entries);
    } else {
        let fewer = entries.drop_last();
        lemma_table_tail(fewer, key, i);
        assert(fewer.take(i) =~= entries.take(i));
    }
}

/// Definitions by name. Later definitions of a name hide earlier ones.
#[derive(Debug, Clone)]
pub struct ParamTable {
    pub entries: Vec<Param>,
}

impl View for ParamTable {
    type V = Map<Seq<char>, Seq<char>>;

    open spec fn view(&self) -> Map<Seq<char>, Seq<char>> {
        table_of(self.entries.deep_view())
    }
}

impl ParamTable {
    /// The table without definitions.
    pub fn new() -> (table: Self)
        ensures
            table@ == Map::<Seq<char>, Seq<char>>::empty(),
            table.entries.deep_view() == Seq::<ParamView>::empty(),
    {
        ParamTable { entries: Vec::new() }
    }

    /// Defines `key` as `value`.
    pub fn insert(&mut self, key: String, value: String)
        ensures
            final(self)@ == old(self)@.insert(key@, value@),
            final(self).entries.deep_view() == old(self).entries.deep_view().push(
                ParamView { key: key@, value: value@ },
            ),
    {
        self.entries.push(Param { key: key, value: value });
        proof {
            let after = self.entries.deep_view();
            assert(after.drop_last() =~= old(self).entries.deep_view());
        }
    }

    /// What `key` is defined as, if it is defined.
    pub fn get(&self, key: &str) -> (out: Option<String>)
        ensures
            out.deep_view() == (if self@.contains_key(key@) {
                Some(self@[key@])
            } else {
                None
            }),
    {
        let ghost entries = self.entries.deep_view();
        let mut i: usize = self.entries.len();
        while i > 0
            invariant
                i <= self.entries.len(),
                entries == self.entries.deep_view(),
                forall|k: int| i <= k < entries.len() ==> (#[trigger] entries[k]).key != key@,
            decreases i,
        {
            i -= 1;
            if same_text(self.entries[i].key.as_str(), key) {
                proof {
                    lemma_table_tail(entries, key@, i + 1);
                }
                return Some(self.entries[i].value.clone());
            }
        }
        proof {
            lemma_table_tail(entries, key@, 0);
        }
        None
    }
}

/// What a token stands for under the definitions `m`: the definition of its
/// lower-cased form, if there is one.
pub open spec fn resolve(m: Map<Seq<char>, Seq<char>>, token: Seq<char>) -> Option<Seq<char>> {
    if m.contains_key(lowercase(token)) {
        Some(m[lowercase(token)])
    } else {
        None
    }
}

/// What a token stands for under the definitions, if it stands for anything.
pub fn resolve_param(params: &ParamTable, token: &str) -> (out: Option<String>)
    ensures
        out.deep_view() == resolve(params@, token@),
{
    let key = lowercase_string(token);
    params.get(key.as_str())
}

/// A token with its definition in its place, if it has one.
pub open spec fn substituted(m: Map<Seq<char>, Seq<char>>, token: Seq<char>) -> Seq<char> {
    match resolve(m, token) {
        Some(v) => v,
        None => token,
    }
}

/// A token that may be missing, with its definition in its place.
pub open spec fn substituted_opt(m: Map<Seq<char>, Seq<char>>, o: Option<Seq<char>>) -> Option<
    Seq<char>,
> {
    match o {
        Some(t) => Some(substituted(m, t)),
        None => None,
    }
}

/// The parameter with its value substituted.
pub open spec fn substituted_param(m: Map<Seq<char>, Seq<char>>) -> spec_fn(ParamView) -> ParamView {
    |p: ParamView| ParamView { key: p.key, value: substituted(m, p.value) }
}

/// A device with the definitions `m` put in: in its value, in its model and in the
/// value of each of its parameters.
pub open spec fn apply_params(m: Map<Seq<char>, Seq<char>>, d: DeviceView) -> DeviceView {
    DeviceView {
        value: substituted_opt(m, d.value),
        model: substituted_opt(m, d.model),
        params: d.params.map_values(substituted_param(m)),
        ..d
    }
}

fn substitute_opt(params: &ParamTable, o: &Option<String>) -> (out: Option<String>)
    ensures
        out.deep_view() == substituted_opt(params@, o.deep_view()),
{
    match o {
        Some(t) => {
            match resolve_param(params, t.as_str()) {
                Some(replaced) => Some(replaced),
                None => Some(t.clone()),
            }
        },
        None => None,
    }
}

/// Puts the definitions into a device.
pub fn apply_params_to_device(params: &ParamTable, device: &mut DeviceStmt)
    ensures
        final(device)@ == apply_params(params@, old(device)@),
{
    let value = substitute_opt(params, &device.value);
    device.value = value;
    let model = substitute_opt(params, &device.model);
    device.model = model;
    let ghost before = old(device).params.deep_view();
    let mut i: usize = 0;
    while i < device.params.len()
        invariant
            i <= device.params.len(),
            before == old(device).params.deep_view(),
            device.params.len() == before.len(),
            device.name == old(device).name,
            device.kind == old(device).kind,
            device.nodes == old(device).nodes,
            device.control == old(device).control,
            device.raw == old(device).raw,
            device.line == old(device).line,
            device.value.deep_view() == substituted_opt(params@, old(device).value.deep_view()),
            device.model.deep_view() == substituted_opt(params@, old(device).model.deep_view()),
            forall|k: int|
                0 <= k < i ==> (#[trigger] device.params@[k])@ == substituted_param(params@)(
                    before[k],
                ),
            forall|k: int|
                i <= k < before.len() ==> (#[trigger] device.params@[k])@ == before[k],
        decreases device.params.len() - i,
    {
        match resolve_param(params, device.params[i].value.as_str()) {
            Some(replaced) => {
                device.params[i].value = replaced;
            },
            None => {},
        }
        i += 1;
    }
    proof {
        assert(device.params.deep_view() =~= before.map_values(substituted_param(params@)));
    }
}

/// The definitions of all `.param` statements, in order, with lower-cased keys.
pub open spec fn param_entries(stmts: Seq<StmtView>) -> Seq<ParamView>
    decreases stmts.len(),
{
    if stmts.len() == 0 {
        Seq::empty()
    } else {
        param_entries(stmts.drop_last()) + entries_of(stmts.last())
    }
}

/// The definitions that one statement makes: those of a `.param` statement.
pub open spec fn entries_of(s: StmtView) -> Seq<ParamView> {
    match s {
        StmtView::Control(c) => if c.kind is Param {
            c.params.map_values(|p: ParamView| ParamView { key: lowercase(p.key), value: p.value })
        } else {
            Seq::empty()
        },
        _ => Seq::empty(),
    }
}

/// The table of the `.param` definitions of a list of statements.
pub open spec fn param_table(stmts: Seq<StmtView>) -> Map<Seq<char>, Seq<char>> {
    table_of(param_entries(stmts))
}

/// The table of the `.param` definitions of the statements.
pub fn build_param_table(statements: &Vec<Stmt>) -> (table: ParamTable)
    ensures
        table@ == param_table(statements.deep_view()),
{
    let mut table = ParamTable::new();
    let ghost all = statements.deep_view();
    let mut i: usize = 0;
    while i < statements.len()
        invariant
            i <= statements.len(),
            all == statements.deep_view(),
            table.entries.deep_view() == param_entries(all.take(i as int)),
        decreases statements.len() - i,
    {
        let ghost before = table.entries.deep_view();
        proof {
            assert(all.take(i + 1).drop_last() =~= all.take(i as int));
        }
        match &statements[i] {
            Stmt::Control(ctrl) => {
                if matches!(ctrl.kind, ControlKind::Param) {
                    let ghost defs = ctrl.params.deep_view();
                    let ghost lowered = entries_of(statements@[i as int]@);
                    let mut j: usize = 0;
                    while j < ctrl.params.len()
                        invariant
                            j <= ctrl.params.len(),
                            defs == ctrl.params.deep_view(),
                            lowered == defs.map_values(
                                |p: ParamView| ParamView { key: lowercase(p.key), value: p.value },
                            ),
                            table.entries.deep_view() == before + lowered.take(j as int),
                        decreases ctrl.params.len() - j,
                    {
                        let key = lowercase_string(ctrl.params[j].key.as_str());
                        let value = ctrl.params[j].value.clone();
                        table.insert(key, value);
                        j += 1;
                    }
                }
            },
            _ => {},
        }
        i += 1;
    }
    proof {
        assert(all.take(statements.len() as int) =~= all);
    }
    table
}

/// The pairs of a port and the node connected to it: ports and nodes are paired in
/// order, as far as both reach.
pub open spec fn port_pairs(ports: Seq<Seq<char>>, nodes: Seq<Seq<char>>) -> Seq<ParamView> {
    Seq::new(
        if ports.len() <= nodes.len() {
            ports.len()
        } else {
            nodes.len()
        },
        |i: int| ParamView { key: ports[i], value: nodes[i] },
    )
}

/// The name of a node of a subcircuit body in the instance `inst_name`: the node that
/// the port is connected to where the node is a port, else the node's own name behind
/// the name of the instance and a colon.
pub open spec fn mapped_node(inst_name: Seq<char>, ports: Map<Seq<char>, Seq<char>>) -> spec_fn(
    Seq<char>,
) -> Seq<char> {
    |node: Seq<char>|
        if ports.contains_key(node) {
            ports[node]
        } else {
            inst_name + ":"@ + node
        }
}

/// The name of a node of a subcircuit body in an instance, `port_map` connecting the
/// ports of the subcircuit to the nodes of the instance.
pub fn map_subckt_node(instance: &DeviceStmt, port_map: &ParamTable, node: &str) -> (out: String)
    ensures
        out@ == mapped_node(instance@.name, port_map@)(node@),
{
    match port_map.get(node) {
        Some(mapped) => mapped,
        None => {
            let mut out = concat2(instance.name.as_str(), ":");
            out.append(node);
            out
        },
    }
}

/// A device of a subcircuit body as a device of the instance `inst`: its name stands
/// behind the name of the instance and a dot, and its nodes are mapped.
pub open spec fn instantiated(inst: DeviceView, ports: Map<Seq<char>, Seq<char>>) -> spec_fn(
    DeviceView,
) -> DeviceView {
    |dev: DeviceView|
        DeviceView {
            name: inst.name + "."@ + dev.name,
            nodes: dev.nodes.map_values(mapped_node(inst.name, ports)),
            ..dev
        }
}

/// The devices among the statements, in order.
pub open spec fn devices_of(body: Seq<StmtView>) -> Seq<DeviceView>
    decreases body.len(),
{
    if body.len() == 0 {
        Seq::empty()
    } else {
        match body.last() {
            StmtView::Device(d) => devices_of(body.drop_last()).push(d),
            _ => devices_of(body.drop_last()),
        }
    }
}

/// The devices that an instance of a subcircuit stands for: the devices of the body,
/// each as a device of the instance. Other statements of the body are left out.
pub open spec fn expand(inst: DeviceView, def: SubcktView) -> Seq<DeviceView> {
    devices_of(def.body).map_values(
        instantiated(inst, table_of(port_pairs(def.ports, inst.nodes))),
    )
}

/// The error of an instance that connects another number of nodes than the
/// subcircuit has ports.
pub open spec fn expand_errors(inst: DeviceView, def: SubcktView) -> Seq<ParseErrorView> {
    push_if(
        Seq::empty(),
        def.ports.len() != inst.nodes.len(),
        error_at(
            inst.line,
            "子电路端口数量不匹配: "@ + def.name + " 期望 "@ + decimal(def.ports.len()) + " 实际 "@
                + decimal(inst.nodes.len()),
        ),
    )
}

fn push_device(devices: &mut Vec<DeviceStmt>, device: DeviceStmt)
    ensures
        final(devices).deep_view() == old(devices).deep_view().push(device@),
{
    devices.push(device);
}

/// The devices that an instance of a subcircuit stands for. A number of nodes that is
/// not the number of ports is recorded as an error.
pub fn expand_subckt_instance(
    instance: &DeviceStmt,
    def: &SubcktDef,
    errors: &mut Vec<ParseError>,
) -> (expanded: Vec<DeviceStmt>)
    ensures
        expanded.deep_view() == expand(instance@, def@),
        final(errors).deep_view() == old(errors).deep_view() + expand_errors(instance@, def@),
{
    if def.ports.len() != instance.nodes.len() {
        let mut message = concat2("子电路端口数量不匹配: ", def.name.as_str());
        message.append(" 期望 ");
        message.append(decimal_string(def.ports.len()).as_str());
        message.append(" 实际 ");
        message.append(decimal_string(instance.nodes.len()).as_str());
        push_error(errors, instance.line, message);
    }
    let ghost pairs = port_pairs(def@.ports, instance@.nodes);
    let mut port_map = ParamTable::new();
    let paired = if def.ports.len() <= instance.nodes.len() {
        def.ports.len()
    } else {
        instance.nodes.len()
    };
    let mut i: usize = 0;
    while i < paired
        invariant
            i <= paired,
            paired == pairs.len(),
            paired <= def.ports.len(),
            paired <= instance.nodes.len(),
            pairs == port_pairs(def@.ports, instance@.nodes),
            port_map.entries.deep_view() == pairs.take(i as int),
        decreases paired - i,
    {
        port_map.insert(def.ports[i].clone(), instance.nodes[i].clone());
        i += 1;
    }
    proof {
        assert(pairs.take(paired as int) =~= pairs);
    }
    let ghost ports = table_of(pairs);
    let ghost body = def.body.deep_view();
    let mut expanded: Vec<DeviceStmt> = Vec::new();
    let mut k: usize = 0;
    while k < def.body.len()
        invariant
            k <= def.body.len(),
            body == def.body.deep_view(),
            port_map@ == ports,
            expanded.deep_view() == devices_of(body.take(k as int)).map_values(
                instantiated(instance@, ports),
            ),
        decreases def.body.len() - k,
    {
        proof {
            assert(body.take(k + 1).drop_last() =~= body.take(k as int));
        }
        match &def.body[k] {
            Stmt::Device(dev) => {
                let mut name = concat2(instance.name.as_str(), ".");
                name.append(dev.name.as_str());
                let mut nodes: Vec<String> = Vec::new();
                let mut j: usize = 0;
                while j < dev.nodes.len()
                    invariant
                        j <= dev.nodes.len(),
                        port_map@ == ports,
                        nodes.len() == j,
                        forall|t: int|
                            0 <= t < j ==> (#[trigger] nodes@[t])@ == mapped_node(
                                instance@.name,
                                ports,
                            )(dev.nodes@[t]@),
                    decreases dev.nodes.len() - j,
                {
                    nodes.push(map_subckt_node(instance, &port_map, dev.nodes[j].as_str()));
                    j += 1;
                }
                proof {
                    assert(nodes.deep_view() =~= dev@.nodes.map_values(
                        mapped_node(instance@.name, ports),
                    ));
                }
                let cloned = DeviceStmt {
                    name: name,
                    kind: dev.kind,
                    nodes: nodes,
                    model: clone_opt_string(&dev.model),
                    control: clone_opt_string(&dev.control),
                    value: clone_opt_string(&dev.value),
                    params: crate::netlist::ast::clone_params(&dev.params),
                    raw: dev.raw.clone(),
                    line: dev.line,
                };
                push_device(&mut expanded, cloned);
            },
            _ => {},
        }
        k += 1;
    }
    proof {
        assert(body.take(def.body.len() as int) =~= body);
    }
    expanded
}

/// Whether a statement is an `.ends`.
pub open spec fn is_ends(s: StmtView) -> bool {
    match s {
        StmtView::Control(c) => c.kind is Ends,
        _ => false,
    }
}

/// The test for a statement to be another than an `.ends`.
pub open spec fn not_ends() -> spec_fn(StmtView) -> bool {
    |s: StmtView| !is_ends(s)
}

/// The `.subckt` statement that a statement is, if it is one.
pub open spec fn subckt_header(s: StmtView) -> Option<ControlView> {
    match s {
        StmtView::Control(c) => if c.kind is Subckt {
            Some(c)
        } else {
            None
        },
        _ => None,
    }
}

/// The name that a `.subckt` statement defines.
pub open spec fn defined_name(c: ControlView) -> Seq<char> {
    match c.subckt_name {
        Some(n) => n,
        None => "unknown"@,
    }
}

/// The statements of a netlist in three parts: what stands outside of subcircuit
/// definitions, the definitions, and the errors of definitions that are not closed.
pub struct Extracted {
    pub top: Seq<StmtView>,
    pub defs: Seq<SubcktView>,
    pub errors: Seq<ParseErrorView>,
}

/// Takes the subcircuit definitions out of a list of statements.
///
/// A definition starts at a `.subckt` statement. Its body is what follows up to the
/// next `.ends`, which is dropped, or up to the end of the list, which is an error
/// reported at the line of the `.subckt`. A `.subckt` inside a body is part of that
/// body.
pub open spec fn extract(stmts: Seq<StmtView>) -> Extracted
    decreases stmts.len(),
    via extract_decreases
{
    if stmts.len() == 0 {
        Extracted { top: Seq::empty(), defs: Seq::empty(), errors: Seq::empty() }
    } else {
        match subckt_header(stmts[0]) {
            Some(c) => {
                let after = stmts.drop_first();
                let n = span(after, not_ends()) as int;
                let closed = n < after.len();
                let rest = extract(
                    after.skip(
                        if closed {
                            n + 1
                        } else {
                            n
                        },
                    ),
                );
                Extracted {
                    top: rest.top,
                    defs: seq![
                        SubcktView {
                            name: defined_name(c),
                            ports: c.subckt_ports,
                            body: after.take(n),
                            line: c.line,
                        },
                    ] + rest.defs,
                    errors: push_if(
                        Seq::empty(),
                        !closed,
                        error_at(c.line, "subckt "@ + defined_name(c) + " 缺少 .ends"@),
                    ) + rest.errors,
                }
            },
            None => {
                let rest = extract(stmts.drop_first());
                Extracted { top: seq![stmts[0]] + rest.top, ..rest }
            },
        }
    }
}

#[via_fn]
proof fn extract_decreases(stmts: Seq<StmtView>) {
    if stmts.len() > 0 {
        lemma_span_props(stmts.drop_first(), not_ends());
    }
}

fn is_ends_stmt(s: &Stmt) -> (r: bool)
    ensures
        r == is_ends(s@),
{
    match s {
        Stmt::Control(c) => matches!(c.kind, ControlKind::Ends),
        _ => false,
    }
}

fn clone_stmt_range(v: &Vec<Stmt>, from: usize, to: usize) -> (r: Vec<Stmt>)
    requires
        from <= to <= v.len(),
    ensures
        r.deep_view() == v.deep_view().subrange(from as int, to as int),
{
    let mut r: Vec<Stmt> = Vec::new();
    let mut i: usize = from;
    while i < to
        invariant
            from <= i <= to <= v.len(),
            r.len() == i - from,
            forall|k: int| 0 <= k < i - from ==> r@[k]@ == v@[k + from]@,
        decreases to - i,
    {
        r.push(v[i].clone());
        i += 1;
    }
    r
}

/// Parts the statements into those outside of subcircuit definitions, the definitions,
/// and the errors of definitions that are not closed.
pub fn extract_subckts(statements: &Vec<Stmt>) -> (out: (
    Vec<Stmt>,
    Vec<SubcktDef>,
    Vec<ParseError>,
))
    ensures
        out.0.deep_view() == extract(statements.deep_view()).top,
        out.1.deep_view() == extract(statements.deep_view()).defs,
        out.2.deep_view() == extract(statements.deep_view()).errors,
{
    let mut top_level: Vec<Stmt> = Vec::new();
    let mut subckts: Vec<SubcktDef> = Vec::new();
    let mut errors: Vec<ParseError> = Vec::new();
    let ghost all = statements.deep_view();
    let mut idx: usize = 0;
    proof {
        assert(all.skip(0) =~= all);
    }
    while idx < statements.len()
        invariant
            idx <= statements.len(),
            all == statements.deep_view(),
            extract(all).top == top_level.deep_view() + extract(all.skip(idx as int)).top,
            extract(all).defs == subckts.deep_view() + extract(all.skip(idx as int)).defs,
            extract(all).errors == errors.deep_view() + extract(all.skip(idx as int)).errors,
        decreases statements.len() - idx,
    {
        let ghost here = all.skip(idx as int);
        let ghost after = here.drop_first();
        proof {
            assert(after =~= all.skip(idx + 1));
        }
        let header: Option<&crate::netlist::ast::ControlStmt> = match &statements[idx] {
            Stmt::Control(ctrl) => if matches!(ctrl.kind, ControlKind::Subckt) {
                Some(ctrl)
            } else {
                None
            },
            _ => None,
        };
        match header {
            Some(ctrl) => {
                let name = match &ctrl.subckt_name {
                    Some(n) => n.clone(),
                    None => String::from_str("unknown"),
                };
                let ports = clone_strings(&ctrl.subckt_ports);
                let line = ctrl.line;
                let start = idx + 1;
                let mut end = start;
                while end < statements.len() && !is_ends_stmt(&statements[end])
                    invariant
                        start <= end <= statements.len(),
                        all == statements.deep_view(),
                        forall|k: int| start <= k < end ==> !is_ends(#[trigger] all[k]),
                    decreases statements.len() - end,
                {
                    end += 1;
                }
                let body = clone_stmt_range(statements, start, end);
                let closed = end < statements.len();
                proof {
                    lemma_span(after, not_ends(), end - start);
                    assert(after.take(end - start) =~= all.subrange(start as int, end as int));
                    if closed {
                        assert(after.skip(end - start + 1) =~= all.skip(end + 1));
                    } else {
                        assert(after.skip(end - start) =~= all.skip(end as int));
                    }
                }
                if !closed {
                    let mut message = concat2("subckt ", name.as_str());
                    message.append(" 缺少 .ends");
                    push_error(&mut errors, line, message);
                }
                let def = SubcktDef { name: name, ports: ports, body: body, line: line };
                subckts.push(def);
                idx = if closed {
                    end + 1
                } else {
                    end
                };
            },
            None => {
                crate::netlist::parse::push_stmt(&mut top_level, statements[idx].clone());
                idx += 1;
            },
        }
    }
    (top_level, subckts, errors)
}

/// The text that the debug format of the standard library gives for an optional
/// string.
pub uninterp spec fn debug_text(model: Option<Seq<char>>) -> Seq<char>;

/// The debug format of an optional string, as `format!` with `{:?}` writes it. The
/// text depends on the value alone.
#[verifier::external_body]
fn debug_format(model: &Option<String>) -> (out: String)
    ensures
        out@ == debug_text(model.deep_view()),
{
    format!("{:?}", model)
}

/// The test for a definition to have another name than `name`.
pub open spec fn named_otherwise(name: Seq<char>) -> spec_fn(SubcktView) -> bool {
    |d: SubcktView| d.name != name
}

/// The definition that an `X` device uses: the first one with the name that the
/// device gives as its model.
pub open spec fn used_def(d: DeviceView, defs: Seq<SubcktView>) -> Option<SubcktView> {
    match d.model {
        Some(name) => {
            let at = span(defs, named_otherwise(name)) as int;
            if d.kind is X && at < defs.len() {
                Some(defs[at])
            } else {
                None
            }
        },
        None => None,
    }
}

/// The devices with the definitions `m` put in.
pub open spec fn all_applied(m: Map<Seq<char>, Seq<char>>, devices: Seq<DeviceView>) -> Seq<
    DeviceView,
> {
    devices.map_values(|d: DeviceView| apply_params(m, d))
}

/// What elaboration makes of statements: device instances, a number of control
/// statements, and errors.
pub struct Elaboration {
    pub instances: Seq<DeviceView>,
    pub controls: nat,
    pub errors: Seq<ParseErrorView>,
}

/// What one statement outside of subcircuit definitions contributes.
///
/// A device that uses a defined subcircuit stands for the devices of its expansion.
/// An `X` device without such a definition is an error and stays as it is. Any other
/// device stays as it is. The `.param` definitions are put into every resulting device.
/// A control statement is counted. Comments and empty statements contribute nothing.
pub open spec fn elaborate_one(
    s: StmtView,
    defs: Seq<SubcktView>,
    m: Map<Seq<char>, Seq<char>>,
) -> Elaboration {
    match s {
        StmtView::Device(d) => match used_def(d, defs) {
            Some(def) => Elaboration {
                instances: all_applied(m, expand(d, def)),
                controls: 0,
                errors: expand_errors(d, def),
            },
            None => Elaboration {
                instances: seq![apply_params(m, d)],
                controls: 0,
                errors: push_if(
                    Seq::empty(),
                    d.kind is X,
                    error_at(d.line, "子电路未定义: "@ + debug_text(d.model)),
                ),
            },
        },
        StmtView::Control(_) => Elaboration {
            instances: Seq::empty(),
            controls: 1,
            errors: Seq::empty(),
        },
        _ => Elaboration { instances: Seq::empty(), controls: 0, errors: Seq::empty() },
    }
}

/// What the statements outside of subcircuit definitions contribute, in order.
pub open spec fn elaborate_all(
    top: Seq<StmtView>,
    defs: Seq<SubcktView>,
    m: Map<Seq<char>, Seq<char>>,
) -> Elaboration
    decreases top.len(),
{
    if top.len() == 0 {
        Elaboration { instances: Seq::empty(), controls: 0, errors: Seq::empty() }
    } else {
        let before = elaborate_all(top.drop_last(), defs, m);
        let one = elaborate_one(top.last(), defs, m);
        Elaboration {
            instances: before.instances + one.instances,
            controls: before.controls + one.controls,
            errors: before.errors + one.errors,
        }
    }
}

/// The errors of a parsed netlist after elaboration: those of parsing, those of
/// subcircuit definitions that are not closed, and those of elaboration, in this order.
pub open spec fn elaboration_errors(ast: AstView) -> Seq<ParseErrorView> {
    let parts = extract(ast.statements);
    ast.errors + parts.errors + elaborate_all(
        parts.top,
        parts.defs,
        param_table(parts.top),
    ).errors
}

/// The elaboration of a parsed netlist, with the number of its errors.
pub open spec fn elaborate_spec(ast: AstView) -> ElabView {
    let parts = extract(ast.statements);
    let done = elaborate_all(parts.top, parts.defs, param_table(parts.top));
    ElabView {
        instances: done.instances,
        control_count: done.controls,
        error_count: elaboration_errors(ast).len(),
    }
}

fn find_subckt<'a>(subckts: &'a Vec<SubcktDef>, device: &DeviceStmt) -> (out: Option<
    &'a SubcktDef,
>)
    ensures
        out.deep_view() == used_def(device@, subckts.deep_view()),
{
    if !matches!(device.kind, DeviceKind::X) {
        return None;
    }
    match &device.model {
        Some(name) => {
            let ghost defs = subckts.deep_view();
            let mut i: usize = 0;
            while i < subckts.len()
                invariant
                    i <= subckts.len(),
                    defs == subckts.deep_view(),
                    device.kind is X,
                    device@.model == Some(name@),
                    forall|k: int| 0 <= k < i ==> (#[trigger] defs[k]).name != name@,
                decreases subckts.len() - i,
            {
                if same_text(subckts[i].name.as_str(), name.as_str()) {
                    proof {
                        lemma_span(defs, named_otherwise(name@), i as int);
                    }
                    return Some(&subckts[i]);
                }
                i += 1;
            }
            proof {
                lemma_span(defs, named_otherwise(name@), i as int);
            }
            None
        },
        None => None,
    }
}

fn append_errors(errors: &mut Vec<ParseError>, more: Vec<ParseError>)
    ensures
        final(errors).deep_view() == old(errors).deep_view() + more.deep_view(),
{
    let mut more = more;
    errors.append(&mut more);
}

/// Elaborates a parsed netlist.
pub fn elaborate_netlist(ast: &NetlistAst) -> (elab: ElaboratedNetlist)
    ensures
        elab@ == elaborate_spec(ast@),
{
    let (elab, _errors) = elaborate_with_errors(ast);
    elab
}

/// Elaborates a parsed netlist and hands out the errors that the elaboration counts.
pub fn elaborate_with_errors(ast: &NetlistAst) -> (out: (ElaboratedNetlist, Vec<ParseError>))
    ensures
        out.0@ == elaborate_spec(ast@),
        out.1.deep_view() == elaboration_errors(ast@),
{
    let mut errors = clone_errors(&ast.errors);
    let (top_level, subckts, subckt_errors) = extract_subckts(&ast.statements);
    append_errors(&mut errors, subckt_errors);
    let param_table = build_param_table(&top_level);
    let mut instances: Vec<DeviceStmt> = Vec::new();
    let mut control_count: usize = 0;
    let ghost top = top_level.deep_view();
    let ghost defs = subckts.deep_view();
    let ghost m = param_table@;
    let ghost found = errors.deep_view();
    let mut i: usize = 0;
    while i < top_level.len()
        invariant
            i <= top_level.len(),
            top == top_level.deep_view(),
            defs == subckts.deep_view(),
            m == param_table@,
            instances.deep_view() == elaborate_all(top.take(i as int), defs, m).instances,
            control_count == elaborate_all(top.take(i as int), defs, m).controls,
            control_count <= i,
            errors.deep_view() == found + elaborate_all(top.take(i as int), defs, m).errors,
        decreases top_level.len() - i,
    {
        let ghost instances_before = instances.deep_view();
        proof {
            assert(top.take(i + 1).drop_last() =~= top.take(i as int));
        }
        match &top_level[i] {
            Stmt::Device(device) => {
                match find_subckt(&subckts, device) {
                    Some(def) => {
                        let expanded = expand_subckt_instance(device, def, &mut errors);
                        let ghost list = expanded.deep_view();
                        let mut k: usize = 0;
                        let mut expanded = expanded;
                        while k < expanded.len()
                            invariant
                                k <= expanded.len(),
                                m == param_table@,
                                expanded.len() == list.len(),
                                forall|t: int|
                                    k <= t < list.len() ==> (#[trigger] expanded@[t])@ == list[t],
                                instances.deep_view() == instances_before + all_applied(
                                    m,
                                    list.take(k as int),
                                ),
                            decreases expanded.len() - k,
                        {
                            let mut inst = expanded[k].clone();
                            apply_params_to_device(&param_table, &mut inst);
                            push_device(&mut instances, inst);
                            k += 1;
                        }
                    },
                    None => {
                        if matches!(device.kind, DeviceKind::X) {
                            let message = concat2(
                                "子电路未定义: ",
                                debug_format(&device.model).as_str(),
                            );
                            push_error(&mut errors, device.line, message);
                        }
                        let mut fallback = device.clone();
                        apply_params_to_device(&param_table, &mut fallback);
                        push_device(&mut instances, fallback);
                    },
                }
            },
            Stmt::Control(_) => {
                control_count += 1;
            },
            _ => {
            },
        }
        i += 1;
    }
    proof {
        assert(top.take(top_level.len() as int) =~= top);
    }
    let elab = ElaboratedNetlist {
        instances: instances,
        control_count: control_count,
        error_count: errors.len(),
    };
    (elab, errors)
}

} // verus!
