//! The syntax tree of a netlist and the mathematical view of each of its types.

use vstd::prelude::*;

verus! {

/// What a control statement asks for, decided by its lower-cased command word.
#[derive(Debug, Clone, Copy, PartialEq, Eq)]
pub enum ControlKind {
    Param,
    Model,
    Subckt,
    Ends,
    Include,
    Op,
    Dc,
    Tran,
    End,
    Other,
}

/// The kind of a device, decided by the first letter of its name.
#[derive(Debug, Clone, Copy, PartialEq, Eq)]
pub enum DeviceKind {
    R,
    C,
    L,
    V,
    I,
    D,
    M,
    E,
    G,
    F,
    H,
    X,
    Unknown,
}

/// An error found while reading a netlist, with the line it is reported at.
#[derive(Debug)]
pub struct ParseError {
    pub line: usize,
    pub message: String,
}

/// The view of `ParseError`.
pub struct ParseErrorView {
    pub line: nat,
    pub message: Seq<char>,
}

impl View for ParseError {
    type V = ParseErrorView;

    open spec fn view(&self) -> ParseErrorView {
        ParseErrorView { line: self.line as nat, message: self.message@ }
    }
}

impl DeepView for ParseError {
    type V = ParseErrorView;

    open spec fn deep_view(&self) -> ParseErrorView {
        self@
    }
}

impl Clone for ParseError {
    fn clone(&self) -> (r: Self)
        ensures
            r@ == self@,
    {
        ParseError { line: self.line, message: self.message.clone() }
    }
}

/// A `key=value` token.
#[derive(Debug)]
pub struct Param {
    pub key: String,
    pub value: String,
}

/// The view of `Param`.
pub struct ParamView {
    pub key: Seq<char>,
    pub value: Seq<char>,
}

impl View for Param {
    type V = ParamView;

    open spec fn view(&self) -> ParamView {
        ParamView { key: self.key@, value: self.value@ }
    }
}

impl DeepView for Param {
    type V = ParamView;

    open spec fn deep_view(&self) -> ParamView {
        self@
    }
}

impl Clone for Param {
    fn clone(&self) -> (r: Self)
        ensures
            r@ == self@,
    {
        Param { key: self.key.clone(), value: self.value.clone() }
    }
}

/// One device line.
#[derive(Debug)]
pub struct DeviceStmt {
    pub name: String,
    pub kind: DeviceKind,
    pub nodes: Vec<String>,
    pub model: Option<String>,
    pub control: Option<String>,
    pub value: Option<String>,
    pub params: Vec<Param>,
    pub raw: String,
    pub line: usize,
}

/// The view of `DeviceStmt`.
pub struct DeviceView {
    pub name: Seq<char>,
    pub kind: DeviceKind,
    pub nodes: Seq<Seq<char>>,
    pub model: Option<Seq<char>>,
    pub control: Option<Seq<char>>,
    pub value: Option<Seq<char>>,
    pub params: Seq<ParamView>,
    pub raw: Seq<char>,
    pub line: nat,
}

impl View for DeviceStmt {
    type V = DeviceView;

    open spec fn view(&self) -> DeviceView {
        DeviceView {
            name: self.name@,
            kind: self.kind,
            nodes: self.nodes.deep_view(),
            model: self.model.deep_view(),
            control: self.control.deep_view(),
            value: self.value.deep_view(),
            params: self.params.deep_view(),
            raw: self.raw@,
            line: self.line as nat,
        }
    }
}

impl DeepView for DeviceStmt {
    type V = DeviceView;

    open spec fn deep_view(&self) -> DeviceView {
        self@
    }
}

impl Clone for DeviceStmt {
    fn clone(&self) -> (r: Self)
        ensures
            r@ == self@,
    {
        DeviceStmt {
            name: self.name.clone(),
            kind: self.kind,
            nodes: clone_strings(&self.nodes),
            model: clone_opt_string(&self.model),
            control: clone_opt_string(&self.control),
            value: clone_opt_string(&self.value),
            params: clone_params(&self.params),
            raw: self.raw.clone(),
            line: self.line,
        }
    }
}

/// One line that starts with a dot.
#[derive(Debug)]
pub struct ControlStmt {
    pub command: String,
    pub kind: ControlKind,
    pub args: Vec<String>,
    pub params: Vec<Param>,
    pub model_name: Option<String>,
    pub model_type: Option<String>,
    pub subckt_name: Option<String>,
    pub subckt_ports: Vec<String>,
    pub raw: String,
    pub line: usize,
}

/// The view of `ControlStmt`.
pub struct ControlView {
    pub command: Seq<char>,
    pub kind: ControlKind,
    pub args: Seq<Seq<char>>,
    pub params: Seq<ParamView>,
    pub model_name: Option<Seq<char>>,
    pub model_type: Option<Seq<char>>,
    pub subckt_name: Option<Seq<char>>,
    pub subckt_ports: Seq<Seq<char>>,
    pub raw: Seq<char>,
    pub line: nat,
}

impl View for ControlStmt {
    type V = ControlView;

    open spec fn view(&self) -> ControlView {
        ControlView {
            command: self.command@,
            kind: self.kind,
            args: self.args.deep_view(),
            params: self.params.deep_view(),
            model_name: self.model_name.deep_view(),
            model_type: self.model_type.deep_view(),
            subckt_name: self.subckt_name.deep_view(),
            subckt_ports: self.subckt_ports.deep_view(),
            raw: self.raw@,
            line: self.line as nat,
        }
    }
}

impl DeepView for ControlStmt {
    type V = ControlView;

    open spec fn deep_view(&self) -> ControlView {
        self@
    }
}

impl Clone for ControlStmt {
    fn clone(&self) -> (r: Self)
        ensures
            r@ == self@,
    {
        ControlStmt {
            command: self.command.clone(),
            kind: self.kind,
            args: clone_strings(&self.args),
            params: clone_params(&self.params),
            model_name: clone_opt_string(&self.model_name),
            model_type: clone_opt_string(&self.model_type),
            subckt_name: clone_opt_string(&self.subckt_name),
            subckt_ports: clone_strings(&self.subckt_ports),
            raw: self.raw.clone(),
            line: self.line,
        }
    }
}

/// One statement of a netlist.
#[derive(Debug)]
pub enum Stmt {
    Device(DeviceStmt),
    Control(ControlStmt),
    Comment(String),
    Empty,
}

/// The view of `Stmt`.
pub enum StmtView {
    Device(DeviceView),
    Control(ControlView),
    Comment(Seq<char>),
    Empty,
}

impl View for Stmt {
    type V = StmtView;

    open spec fn view(&self) -> StmtView {
        match self {
            Stmt::Device(d) => StmtView::Device(d@),
            Stmt::Control(c) => StmtView::Control(c@),
            Stmt::Comment(t) => StmtView::Comment(t@),
            Stmt::Empty => StmtView::Empty,
        }
    }
}

impl DeepView for Stmt {
    type V = StmtView;

    open spec fn deep_view(&self) -> StmtView {
        self@
    }
}

impl Clone for Stmt {
    fn clone(&self) -> (r: Self)
        ensures
            r@ == self@,
    {
        match self {
            Stmt::Device(d) => Stmt::Device(d.clone()),
            Stmt::Control(c) => Stmt::Control(c.clone()),
            Stmt::Comment(t) => Stmt::Comment(t.clone()),
            Stmt::Empty => Stmt::Empty,
        }
    }
}

/// A parsed netlist: its title, its statements and the errors found.
#[derive(Debug)]
pub struct NetlistAst {
    pub title: Option<String>,
    pub statements: Vec<Stmt>,
    pub errors: Vec<ParseError>,
}

/// The view of `NetlistAst`.
pub struct AstView {
    pub title: Option<Seq<char>>,
    pub statements: Seq<StmtView>,
    pub errors: Seq<ParseErrorView>,
}

impl View for NetlistAst {
    type V = AstView;

    open spec fn view(&self) -> AstView {
        AstView {
            title: self.title.deep_view(),
            statements: self.statements.deep_view(),
            errors: self.errors.deep_view(),
        }
    }
}

impl Clone for NetlistAst {
    fn clone(&self) -> (r: Self)
        ensures
            r@ == self@,
    {
        NetlistAst {
            title: clone_opt_string(&self.title),
            statements: clone_stmts(&self.statements),
            errors: clone_errors(&self.errors),
        }
    }
}

/// A subcircuit definition: the statements between `.subckt` and `.ends`.
#[derive(Debug)]
pub struct SubcktDef {
    pub name: String,
    pub ports: Vec<String>,
    pub body: Vec<Stmt>,
    pub line: usize,
}

/// The view of `SubcktDef`.
pub struct SubcktView {
    pub name: Seq<char>,
    pub ports: Seq<Seq<char>>,
    pub body: Seq<StmtView>,
    pub line: nat,
}

impl View for SubcktDef {
    type V = SubcktView;

    open spec fn view(&self) -> SubcktView {
        SubcktView {
            name: self.name@,
            ports: self.ports.deep_view(),
            body: self.body.deep_view(),
            line: self.line as nat,
        }
    }
}

impl DeepView for SubcktDef {
    type V = SubcktView;

    open spec fn deep_view(&self) -> SubcktView {
        self@
    }
}

impl Clone for SubcktDef {
    fn clone(&self) -> (r: Self)
        ensures
            r@ == self@,
    {
        SubcktDef {
            name: self.name.clone(),
            ports: clone_strings(&self.ports),
            body: clone_stmts(&self.body),
            line: self.line,
        }
    }
}

/// A netlist after elaboration: the flat list of device instances, and how many
/// control statements and errors there were.
#[derive(Debug)]
pub struct ElaboratedNetlist {
    pub instances: Vec<DeviceStmt>,
    pub control_count: usize,
    pub error_count: usize,
}

/// The view of `ElaboratedNetlist`.
pub struct ElabView {
    pub instances: Seq<DeviceView>,
    pub control_count: nat,
    pub error_count: nat,
}

impl View for ElaboratedNetlist {
    type V = ElabView;

    open spec fn view(&self) -> ElabView {
        ElabView {
            instances: self.instances.deep_view(),
            control_count: self.control_count as nat,
            error_count: self.error_count as nat,
        }
    }
}

impl Clone for ElaboratedNetlist {
    fn clone(&self) -> (r: Self)
        ensures
            r@ == self@,
    {
        ElaboratedNetlist {
            instances: clone_devices(&self.instances),
            control_count: self.control_count,
            error_count: self.error_count,
        }
    }
}

/// A copy of a string that may be missing.
pub fn clone_opt_string(o: &Option<String>) -> (r: Option<String>)
    ensures
        r.deep_view() == o.deep_view(),
{
    match o {
        Some(s) => Some(s.clone()),
        None => None,
    }
}

/// A copy of a list of strings.
pub fn clone_strings(v: &Vec<String>) -> (r: Vec<String>)
    ensures
        r.deep_view() == v.deep_view(),
{
    let mut r: Vec<String> = Vec::new();
    let mut i: usize = 0;
    while i < v.len()
        invariant
            i <= v.len(),
            r.len() == i,
            forall|k: int| 0 <= k < i ==> r@[k]@ == v@[k]@,
        decreases v.len() - i,
    {
        r.push(v[i].clone());
        i += 1;
    }
    r
}

/// A copy of a list of parameters.
pub fn clone_params(v: &Vec<Param>) -> (r: Vec<Param>)
    ensures
        r.deep_view() == v.deep_view(),
{
    let mut r: Vec<Param> = Vec::new();
    let mut i: usize = 0;
    while i < v.len()
        invariant
            i <= v.len(),
            r.len() == i,
            forall|k: int| 0 <= k < i ==> r@[k]@ == v@[k]@,
        decreases v.len() - i,
    {
        r.push(v[i].clone());
        i += 1;
    }
    r
}

/// A copy of a list of errors.
pub fn clone_errors(v: &Vec<ParseError>) -> (r: Vec<ParseError>)
    ensures
        r.deep_view() == v.deep_view(),
{
    let mut r: Vec<ParseError> = Vec::new();
    let mut i: usize = 0;
    while i < v.len()
        invariant
            i <= v.len(),
            r.len() == i,
            forall|k: int| 0 <= k < i ==> r@[k]@ == v@[k]@,
        decreases v.len() - i,
    {
        r.push(v[i].clone());
        i += 1;
    }
    r
}

/// A copy of a list of devices.
pub fn clone_devices(v: &Vec<DeviceStmt>) -> (r: Vec<DeviceStmt>)
    ensures
        r.deep_view() == v.deep_view(),
{
    let mut r: Vec<DeviceStmt> = Vec::new();
    let mut i: usize = 0;
    while i < v.len()
        invariant
            i <= v.len(),
            r.len() == i,
            forall|k: int| 0 <= k < i ==> r@[k]@ == v@[k]@,
        decreases v.len() - i,
    {
        r.push(v[i].clone());
        i += 1;
    }
    r
}

/// A copy of a list of statements.
pub fn clone_stmts(v: &Vec<Stmt>) -> (r: Vec<Stmt>)
    ensures
        r.deep_view() == v.deep_view(),
{
    let mut r: Vec<Stmt> = Vec::new();
    let mut i: usize = 0;
    while i < v.len()
        invariant
            i <= v.len(),
            r.len() == i,
            forall|k: int| 0 <= k < i ==> r@[k]@ == v@[k]@,
        decreases v.len() - i,
    {
        r.push(v[i].clone());
        i += 1;
    }
    r
}

} // verus!
