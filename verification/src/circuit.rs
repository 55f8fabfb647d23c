//! The circuit that the analyses work on: nodes with dense ids, device instances that
//! name their nodes by id, device models, and the analyses that the netlist asks for.
//!
//! Numbers stay text here, as they stand in the netlist.

use crate::names::{differs_from, distinct, find_name, intern_name, position_of};
use crate::netlist::ast::{
    clone_opt_string, ControlKind, ControlStmt, ControlView, DeviceStmt, DeviceView,
    ElaboratedNetlist, NetlistAst, Param, ParamView, Stmt, StmtView,
};
use crate::netlist::elaborate::{table_of, ParamTable};
use crate::span::{lemma_span, lemma_span_props, span};
use crate::text::{lowercase, lowercase_string, same_text};
use vstd::prelude::*;

verus! {

/// The id of a node: its position in the table of nodes.
#[derive(Debug, Clone, Copy, PartialEq, Eq, Hash)]
pub struct NodeId(pub usize);

/// The nodes of a circuit, by name. The reference node is named `0` and has the id 0.
#[derive(Debug, Clone)]
pub struct NodeTable {
    pub id_to_name: Vec<String>,
    pub gnd_id: NodeId,
}

impl View for NodeTable {
    type V = Seq<Seq<char>>;

    open spec fn view(&self) -> Seq<Seq<char>> {
        self.id_to_name.deep_view()
    }
}

impl NodeTable {
    /// Every name has one id, and the reference node is the first.
    pub open spec fn wf(&self) -> bool {
        &&& distinct(self@)
        &&& self@.len() > 0
        &&& self@[0] == "0"@
        &&& self.gnd_id.0 == 0
    }

    /// The table with the reference node alone.
    pub fn new() -> (table: Self)
        ensures
            table@ == seq!["0"@],
            table.wf(),
    {
        let mut names: Vec<String> = Vec::new();
        names.push(String::from_str("0"));
        NodeTable { id_to_name: names, gnd_id: NodeId(0) }
    }

    /// The id of the node `name`. A name that is new to the table gets the next id.
    pub fn ensure_node(&mut self, name: &str) -> (id: NodeId)
        ensures
            id.0 == position_of(old(self)@, name@),
            final(self)@ == (if id.0 < old(self)@.len() {
                old(self)@
            } else {
                old(self)@.push(name@)
            }),
            final(self)@[id.0 as int] == name@,
            final(self).gnd_id == old(self).gnd_id,
            old(self).wf() ==> final(self).wf(),
    {
        proof {
            lemma_span_props(self@, differs_from(name@));
        }
        let (id, _is_new) = intern_name(&mut self.id_to_name, name);
        NodeId(id)
    }

    /// The id of the node `name`, if there is such a node.
    pub fn lookup(&self, name: &str) -> (id: Option<NodeId>)
        ensures
            match id {
                Some(i) => i.0 == position_of(self@, name@) && i.0 < self@.len(),
                None => position_of(self@, name@) == self@.len(),
            },
    {
        match find_name(&self.id_to_name, name) {
            Some(i) => Some(NodeId(i)),
            None => None,
        }
    }
}

/// The kind of a device of a circuit.
#[derive(Debug, Clone, Copy, PartialEq, Eq)]
pub enum DeviceKind {
    R,
    C,
    L,
    V,
    I,
    D,
    M,
    E,
    G,
    F,
    H,
    X,
}

/// One device of a circuit.
#[derive(Debug, Clone)]
pub struct Instance {
    pub name: String,
    pub kind: DeviceKind,
    pub nodes: Vec<NodeId>,
    pub model: Option<String>,
    pub params: ParamTable,
    pub value: Option<String>,
    pub control: Option<String>,
    pub ac_mag: Option<String>,
    pub ac_phase: Option<String>,
}

/// The view of `Instance`.
pub struct InstanceView {
    pub name: Seq<char>,
    pub kind: DeviceKind,
    pub nodes: Seq<NodeId>,
    pub model: Option<Seq<char>>,
    pub params: Map<Seq<char>, Seq<char>>,
    pub value: Option<Seq<char>>,
    pub control: Option<Seq<char>>,
    pub ac_mag: Option<Seq<char>>,
    pub ac_phase: Option<Seq<char>>,
}

impl View for Instance {
    type V = InstanceView;

    open spec fn view(&self) -> InstanceView {
        InstanceView {
            name: self.name@,
            kind: self.kind,
            nodes: self.nodes@,
            model: self.model.deep_view(),
            params: self.params@,
            value: self.value.deep_view(),
            control: self.control.deep_view(),
            ac_mag: self.ac_mag.deep_view(),
            ac_phase: self.ac_phase.deep_view(),
        }
    }
}

impl DeepView for Instance {
    type V = InstanceView;

    open spec fn deep_view(&self) -> InstanceView {
        self@
    }
}

/// The test for an instance to have, but for the case of letters, another name than
/// `name`.
pub open spec fn named_otherwise(name: Seq<char>) -> spec_fn(InstanceView) -> bool {
    |i: InstanceView| lowercase(i.name) != lowercase(name)
}

/// The devices of a circuit, in the order of the netlist.
#[derive(Debug, Clone)]
pub struct InstanceTable {
    pub instances: Vec<Instance>,
}

impl View for InstanceTable {
    type V = Seq<InstanceView>;

    open spec fn view(&self) -> Seq<InstanceView> {
        self.instances.deep_view()
    }
}

impl InstanceTable {
    /// The table without devices.
    pub fn new() -> (table: Self)
        ensures
            table@ == Seq::<InstanceView>::empty(),
    {
        InstanceTable { instances: Vec::new() }
    }

    /// Appends a device.
    pub fn insert(&mut self, instance: Instance)
        ensures
            final(self)@ == old(self)@.push(instance@),
    {
        self.instances.push(instance);
    }

    /// The position of the first device named `name`, where the case of letters makes
    /// no difference.
    pub fn find(&self, name: &str) -> (at: Option<usize>)
        ensures
            match at {
                Some(i) => i == span(self@, named_otherwise(name@)) && i < self@.len(),
                None => span(self@, named_otherwise(name@)) == self@.len(),
            },
    {
        let wanted = lowercase_string(name);
        let ghost all = self@;
        let mut i: usize = 0;
        while i < self.instances.len()
            invariant
                i <= self.instances.len(),
                all == self@,
                wanted@ == lowercase(name@),
                forall|k: int| 0 <= k < i ==> named_otherwise(name@)(#[trigger] all[k]),
            decreases self.instances.len() - i,
        {
            let have = lowercase_string(self.instances[i].name.as_str());
            if same_text(have.as_str(), wanted.as_str()) {
                proof {
                    lemma_span(all, named_otherwise(name@), i as int);
                }
                return Some(i);
            }
            i += 1;
        }
        proof {
            lemma_span(all, named_otherwise(name@), i as int);
        }
        None
    }
}

/// A device model: a name, the type of device it describes, and parameters.
#[derive(Debug, Clone)]
pub struct Model {
    pub name: String,
    pub model_type: String,
    pub params: Vec<Param>,
}

/// The view of `Model`.
pub struct ModelView {
    pub name: Seq<char>,
    pub model_type: Seq<char>,
    pub params: Seq<ParamView>,
}

impl View for Model {
    type V = ModelView;

    open spec fn view(&self) -> ModelView {
        ModelView { name: self.name@, model_type: self.model_type@, params: self.params.deep_view() }
    }
}

impl DeepView for Model {
    type V = ModelView;

    open spec fn deep_view(&self) -> ModelView {
        self@
    }
}

/// The device models of a circuit.
#[derive(Debug, Clone)]
pub struct ModelTable {
    pub models: Vec<Model>,
}

/// How the frequencies of an analysis are spaced.
#[derive(Debug, Clone, Copy, PartialEq, Eq)]
pub enum AcSweepType {
    Dec,
    Oct,
    Lin,
}

/// An analysis that the netlist asks for. The numbers are the tokens of the netlist.
#[derive(Debug, Clone)]
pub enum Directive {
    Op,
    Dc { source: String, start: String, stop: String, step: String },
    Tran { tstep: String, tstop: String, tstart: Option<String>, tmax: Option<String> },
    Ac { sweep_type: AcSweepType, points: String, fstart: String, fstop: String },
}

/// The view of `Directive`.
pub enum DirectiveView {
    Op,
    Dc { source: Seq<char>, start: Seq<char>, stop: Seq<char>, step: Seq<char> },
    Tran {
        tstep: Seq<char>,
        tstop: Seq<char>,
        tstart: Option<Seq<char>>,
        tmax: Option<Seq<char>>,
    },
    Ac { sweep_type: AcSweepType, points: Seq<char>, fstart: Seq<char>, fstop: Seq<char> },
}

impl View for Directive {
    type V = DirectiveView;

    open spec fn view(&self) -> DirectiveView {
        match self {
            Directive::Op => DirectiveView::Op,
            Directive::Dc { source, start, stop, step } => DirectiveView::Dc {
                source: source@,
                start: start@,
                stop: stop@,
                step: step@,
            },
            Directive::Tran { tstep, tstop, tstart, tmax } => DirectiveView::Tran {
                tstep: tstep@,
                tstop: tstop@,
                tstart: tstart.deep_view(),
                tmax: tmax.deep_view(),
            },
            Directive::Ac { sweep_type, points, fstart, fstop } => DirectiveView::Ac {
                sweep_type: *sweep_type,
                points: points@,
                fstart: fstart@,
                fstop: fstop@,
            },
        }
    }
}

impl DeepView for Directive {
    type V = DirectiveView;

    open spec fn deep_view(&self) -> DirectiveView {
        self@
    }
}

/// The spacing that a word of an `.ac` statement names: `oct`, `lin`, and `dec` for
/// any other word.
pub open spec fn sweep_type_of(word: Seq<char>) -> AcSweepType {
    if lowercase(word) == "oct"@ {
        AcSweepType::Oct
    } else if lowercase(word) == "lin"@ {
        AcSweepType::Lin
    } else {
        AcSweepType::Dec
    }
}

/// The analysis that a control statement asks for.
///
/// - `.op`;
/// - `.dc` with a source, a start, a stop and a step;
/// - `.tran` with a step and a stop, and maybe a start and a largest step;
/// - `.ac` with a spacing, a number of points, and the first and the last frequency.
///
/// A statement with too few arguments asks for nothing.
pub open spec fn directive_of(c: ControlView) -> Option<DirectiveView> {
    let a = c.args;
    if c.command == ".op"@ {
        Some(DirectiveView::Op)
    } else if c.command == ".dc"@ {
        if a.len() >= 4 {
            Some(DirectiveView::Dc { source: a[0], start: a[1], stop: a[2], step: a[3] })
        } else {
            None
        }
    } else if c.command == ".tran"@ {
        if a.len() >= 2 {
            Some(
                DirectiveView::Tran {
                    tstep: a[0],
                    tstop: a[1],
                    tstart: if a.len() >= 3 {
                        Some(a[2])
                    } else {
                        None
                    },
                    tmax: if a.len() >= 4 {
                        Some(a[3])
                    } else {
                        None
                    },
                },
            )
        } else {
            None
        }
    } else if c.command == ".ac"@ {
        if a.len() >= 4 {
            Some(
                DirectiveView::Ac {
                    sweep_type: sweep_type_of(a[0]),
                    points: a[1],
                    fstart: a[2],
                    fstop: a[3],
                },
            )
        } else {
            None
        }
    } else {
        None
    }
}

/// The analysis that a control statement asks for, if it asks for one.
pub fn directive(ctrl: &ControlStmt) -> (out: Option<Directive>)
    ensures
        out.deep_view() == directive_of(ctrl@),
{
    let a = &ctrl.args;
    let n = a.len();
    let command = ctrl.command.as_str();
    if same_text(command, ".op") {
        Some(Directive::Op)
    } else if same_text(command, ".dc") {
        if n >= 4 {
            Some(
                Directive::Dc {
                    source: a[0].clone(),
                    start: a[1].clone(),
                    stop: a[2].clone(),
                    step: a[3].clone(),
                },
            )
        } else {
            None
        }
    } else if same_text(command, ".tran") {
        if n >= 2 {
            Some(
                Directive::Tran {
                    tstep: a[0].clone(),
                    tstop: a[1].clone(),
                    tstart: if n >= 3 {
                        Some(a[2].clone())
                    } else {
                        None
                    },
                    tmax: if n >= 4 {
                        Some(a[3].clone())
                    } else {
                        None
                    },
                },
            )
        } else {
            None
        }
    } else if same_text(command, ".ac") {
        if n >= 4 {
            let word = lowercase_string(a[0].as_str());
            let sweep_type = if same_text(word.as_str(), "oct") {
                AcSweepType::Oct
            } else if same_text(word.as_str(), "lin") {
                AcSweepType::Lin
            } else {
                AcSweepType::Dec
            };
            Some(
                Directive::Ac {
                    sweep_type: sweep_type,
                    points: a[1].clone(),
                    fstart: a[2].clone(),
                    fstop: a[3].clone(),
                },
            )
        } else {
            None
        }
    } else {
        None
    }
}

/// How many nodes, devices and models a circuit has.
#[derive(Debug, Clone, Copy, PartialEq, Eq)]
pub struct Summary {
    pub node_count: usize,
    pub device_count: usize,
    pub model_count: usize,
}

/// A circuit.
#[derive(Debug, Clone)]
pub struct Circuit {
    pub nodes: NodeTable,
    pub instances: InstanceTable,
    pub models: ModelTable,
    pub analysis: Vec<Directive>,
}

impl Circuit {
    /// The circuit without devices: the reference node alone.
    pub fn new() -> (circuit: Self)
        ensures
            circuit.nodes@ == seq!["0"@],
            circuit.nodes.wf(),
            circuit.instances@ == Seq::<InstanceView>::empty(),
            circuit.models.models@.len() == 0,
            circuit.analysis@.len() == 0,
    {
        Circuit {
            nodes: NodeTable::new(),
            instances: InstanceTable::new(),
            models: ModelTable { models: Vec::new() },
            analysis: Vec::new(),
        }
    }

    /// The counts of the circuit.
    pub fn summary(&self) -> (s: Summary)
        ensures
            s.node_count == self.nodes@.len(),
            s.device_count == self.instances@.len(),
            s.model_count == self.models.models@.len(),
    {
        Summary {
            node_count: self.nodes.id_to_name.len(),
            device_count: self.instances.instances.len(),
            model_count: self.models.models.len(),
        }
    }
}

/// The kind of a device of a netlist as the kind of a device of a circuit. A device of
/// unknown kind is no device of a circuit.
pub open spec fn circuit_kind(k: crate::netlist::ast::DeviceKind) -> Option<DeviceKind> {
    match k {
        crate::netlist::ast::DeviceKind::R => Some(DeviceKind::R),
        crate::netlist::ast::DeviceKind::C => Some(DeviceKind::C),
        crate::netlist::ast::DeviceKind::L => Some(DeviceKind::L),
        crate::netlist::ast::DeviceKind::V => Some(DeviceKind::V),
        crate::netlist::ast::DeviceKind::I => Some(DeviceKind::I),
        crate::netlist::ast::DeviceKind::D => Some(DeviceKind::D),
        crate::netlist::ast::DeviceKind::M => Some(DeviceKind::M),
        crate::netlist::ast::DeviceKind::E => Some(DeviceKind::E),
        crate::netlist::ast::DeviceKind::G => Some(DeviceKind::G),
        crate::netlist::ast::DeviceKind::F => Some(DeviceKind::F),
        crate::netlist::ast::DeviceKind::H => Some(DeviceKind::H),
        crate::netlist::ast::DeviceKind::X => Some(DeviceKind::X),
        crate::netlist::ast::DeviceKind::Unknown => None,
    }
}

fn kind_in_circuit(k: crate::netlist::ast::DeviceKind) -> (out: Option<DeviceKind>)
    ensures
        out == circuit_kind(k),
{
    match k {
        crate::netlist::ast::DeviceKind::R => Some(DeviceKind::R),
        crate::netlist::ast::DeviceKind::C => Some(DeviceKind::C),
        crate::netlist::ast::DeviceKind::L => Some(DeviceKind::L),
        crate::netlist::ast::DeviceKind::V => Some(DeviceKind::V),
        crate::netlist::ast::DeviceKind::I => Some(DeviceKind::I),
        crate::netlist::ast::DeviceKind::D => Some(DeviceKind::D),
        crate::netlist::ast::DeviceKind::M => Some(DeviceKind::M),
        crate::netlist::ast::DeviceKind::E => Some(DeviceKind::E),
        crate::netlist::ast::DeviceKind::G => Some(DeviceKind::G),
        crate::netlist::ast::DeviceKind::F => Some(DeviceKind::F),
        crate::netlist::ast::DeviceKind::H => Some(DeviceKind::H),
        crate::netlist::ast::DeviceKind::X => Some(DeviceKind::X),
        crate::netlist::ast::DeviceKind::Unknown => None,
    }
}

/// The model that a `.model` statement with a name and a type defines.
pub open spec fn model_of(s: StmtView) -> Option<ModelView> {
    match s {
        StmtView::Control(c) => match (c.model_name, c.model_type) {
            (Some(name), Some(model_type)) => if c.kind is Model {
                Some(ModelView { name, model_type, params: c.params })
            } else {
                None
            },
            _ => None,
        },
        _ => None,
    }
}

/// The models that the statements define, in order.
pub open spec fn models_of(stmts: Seq<StmtView>) -> Seq<ModelView>
    decreases stmts.len(),
{
    if stmts.len() == 0 {
        Seq::empty()
    } else {
        match model_of(stmts.last()) {
            Some(m) => models_of(stmts.drop_last()).push(m),
            None => models_of(stmts.drop_last()),
        }
    }
}

/// The analyses that the statements ask for, in order.
pub open spec fn directives_of(stmts: Seq<StmtView>) -> Seq<DirectiveView>
    decreases stmts.len(),
{
    if stmts.len() == 0 {
        Seq::empty()
    } else {
        let before = directives_of(stmts.drop_last());
        match stmts.last() {
            StmtView::Control(c) => match directive_of(c) {
                Some(d) => before.push(d),
                None => before,
            },
            _ => before,
        }
    }
}

/// A list of nodes connected to a table of nodes: the table afterwards, and the id of
/// each node of the list. The nodes are looked up in order, and a node that the table
/// does not hold yet is appended to it.
pub struct Connected {
    pub names: Seq<Seq<char>>,
    pub ids: Seq<NodeId>,
}

/// Connects the nodes, in order, to the table.
pub open spec fn connect(names: Seq<Seq<char>>, nodes: Seq<Seq<char>>) -> Connected
    decreases nodes.len(),
{
    if nodes.len() == 0 {
        Connected { names, ids: Seq::empty() }
    } else {
        let before = connect(names, nodes.drop_last());
        let at = position_of(before.names, nodes.last());
        Connected {
            names: if at < before.names.len() {
                before.names
            } else {
                before.names.push(nodes.last())
            },
            ids: before.ids.push(NodeId(at as usize)),
        }
    }
}

/// What connecting nodes to a table does: the table keeps its names at their places
/// and stays without repetitions, and every node gets the id at which the table holds
/// its name afterwards.
pub proof fn lemma_connect(names: Seq<Seq<char>>, nodes: Seq<Seq<char>>)
    ensures
        connect(names, nodes).names.len() >= names.len(),
        connect(names, nodes).names.take(names.len() as int) == names,
        distinct(names) ==> distinct(connect(names, nodes).names),
        connect(names, nodes).ids.len() == nodes.len(),
        forall|k: int|
            0 <= k < nodes.len() ==> {
                let id = (#[trigger] connect(names, nodes).ids[k]).0;
                &&& id < connect(names, nodes).names.len()
                &&& connect(names, nodes).names.len() <= usize::MAX ==> connect(
                    names,
                    nodes,
                ).names[id as int] == nodes[k]
            },
    decreases nodes.len(),
{
    let c = connect(names, nodes);
    if nodes.len() > 0 {
        let before = connect(names, nodes.drop_last());
        lemma_connect(names, nodes.drop_last());
        let last = nodes.last();
        let at = position_of(before.names, last);
        lemma_span_props(before.names, differs_from(last));
        if distinct(names) && at >= before.names.len() {
            assert forall|i: int, j: int| 0 <= i < j < c.names.len() implies c.names[i]
                != c.names[j] by {
            }
        }
    }
}

/// The parameters with their keys in lower case.
pub open spec fn lowered(params: Seq<ParamView>) -> Seq<ParamView> {
    params.map_values(|p: ParamView| ParamView { key: lowercase(p.key), value: p.value })
}

/// The test for a model to have, but for the case of letters, another name than
/// `name`.
pub open spec fn model_named_otherwise(name: Seq<char>) -> spec_fn(ModelView) -> bool {
    |m: ModelView| lowercase(m.name) != lowercase(name)
}

/// The model that a device names: the first one of that name, where the case of
/// letters makes no difference.
pub open spec fn used_model(d: DeviceView, models: Seq<ModelView>) -> Option<ModelView> {
    match d.model {
        Some(name) => {
            let at = span(models, model_named_otherwise(name)) as int;
            if at < models.len() {
                Some(models[at])
            } else {
                None
            }
        },
        None => None,
    }
}

/// The definitions behind the parameters of an instance, later ones hiding earlier
/// ones: `type` as the type of the model of the device in lower case, the parameters
/// of that model, and the parameters of the device itself. All keys are in lower case.
pub open spec fn instance_entries(d: DeviceView, models: Seq<ModelView>) -> Seq<ParamView> {
    match used_model(d, models) {
        Some(m) => seq![ParamView { key: "type"@, value: lowercase(m.model_type) }] + lowered(
            m.params,
        ) + lowered(d.params),
        None => lowered(d.params),
    }
}

/// The value of the first of the keys that the table defines.
pub open spec fn first_of(m: Map<Seq<char>, Seq<char>>, a: Seq<char>, b: Seq<char>) -> Option<
    Seq<char>,
> {
    if m.contains_key(a) {
        Some(m[a])
    } else if m.contains_key(b) {
        Some(m[b])
    } else {
        None
    }
}

/// The instance that a device of the netlist becomes, with the given kind and ids of
/// its nodes. The magnitude of its small-signal excitation is its parameter `acmag` or
/// else `ac`, the phase its parameter `acphase`.
pub open spec fn instance_of(
    d: DeviceView,
    kind: DeviceKind,
    ids: Seq<NodeId>,
    models: Seq<ModelView>,
) -> InstanceView {
    let params = table_of(instance_entries(d, models));
    InstanceView {
        name: d.name,
        kind,
        nodes: ids,
        model: d.model,
        params,
        value: d.value,
        control: d.control,
        ac_mag: first_of(params, "acmag"@, "ac"@),
        ac_phase: first_of(params, "acphase"@, "acphase"@),
    }
}

/// The nodes and the instances of a circuit.
pub struct Wiring {
    pub names: Seq<Seq<char>>,
    pub instances: Seq<InstanceView>,
}

/// The nodes and instances that a list of devices makes, starting from the reference
/// node alone. The devices are taken in order and each connects its nodes in order, so
/// that the ids of the nodes follow their first use in the netlist.
pub open spec fn wire(devices: Seq<DeviceView>, models: Seq<ModelView>) -> Wiring
    decreases devices.len(),
{
    if devices.len() == 0 {
        Wiring { names: seq!["0"@], instances: Seq::empty() }
    } else {
        let before = wire(devices.drop_last(), models);
        let d = devices.last();
        match circuit_kind(d.kind) {
            Some(kind) => {
                let c = connect(before.names, d.nodes);
                Wiring {
                    names: c.names,
                    instances: before.instances.push(instance_of(d, kind, c.ids, models)),
                }
            },
            None => before,
        }
    }
}

/// Every instance names nodes of the table: the ids of its nodes are below the number
/// of nodes.
pub open spec fn ids_in_range(instances: Seq<InstanceView>, n: nat) -> bool {
    forall|i: int, k: int|
        0 <= i < instances.len() && 0 <= k < instances[i].nodes.len() ==> (
        #[trigger] instances[i].nodes[k]).0 < n
}

/// The circuit that a list of devices makes has the reference node first, no name
/// twice, and instances that name nodes of its table.
pub proof fn lemma_wire(devices: Seq<DeviceView>, models: Seq<ModelView>)
    ensures
        wire(devices, models).names.len() > 0,
        wire(devices, models).names[0] == "0"@,
        distinct(wire(devices, models).names),
        ids_in_range(wire(devices, models).instances, wire(devices, models).names.len()),
    decreases devices.len(),
{
    let w = wire(devices, models);
    if devices.len() > 0 {
        let before = wire(devices.drop_last(), models);
        lemma_wire(devices.drop_last(), models);
        let d = devices.last();
        match circuit_kind(d.kind) {
            Some(kind) => {
                lemma_connect(before.names, d.nodes);
                assert forall|i: int, k: int|
                    0 <= i < w.instances.len() && 0 <= k < w.instances[i].nodes.len() implies (
                #[trigger] w.instances[i].nodes[k]).0 < w.names.len() by {
                }
            },
            None => {},
        }
    }
}

fn find_model<'a>(models: &'a Vec<Model>, name: &str) -> (out: Option<&'a Model>)
    ensures
        out.deep_view() == ({
            let at = span(models.deep_view(), model_named_otherwise(name@)) as int;
            if at < models.len() {
                Some(models.deep_view()[at])
            } else {
                None
            }
        }),
{
    let wanted = lowercase_string(name);
    let ghost all = models.deep_view();
    let mut i: usize = 0;
    while i < models.len()
        invariant
            i <= models.len(),
            all == models.deep_view(),
            wanted@ == lowercase(name@),
            forall|k: int| 0 <= k < i ==> model_named_otherwise(name@)(#[trigger] all[k]),
        decreases models.len() - i,
    {
        let have = lowercase_string(models[i].name.as_str());
        if same_text(have.as_str(), wanted.as_str()) {
            proof {
                lemma_span(all, model_named_otherwise(name@), i as int);
            }
            return Some(&models[i]);
        }
        i += 1;
    }
    proof {
        lemma_span(all, model_named_otherwise(name@), i as int);
    }
    None
}

fn insert_lowered(table: &mut ParamTable, params: &Vec<Param>)
    ensures
        final(table).entries.deep_view() == old(table).entries.deep_view() + lowered(
            params.deep_view(),
        ),
{
    let ghost before = table.entries.deep_view();
    let ghost low = lowered(params.deep_view());
    let mut j: usize = 0;
    while j < params.len()
        invariant
            j <= params.len(),
            low == lowered(params.deep_view()),
            table.entries.deep_view() == before + low.take(j as int),
        decreases params.len() - j,
    {
        let key = lowercase_string(params[j].key.as_str());
        let value = params[j].value.clone();
        table.insert(key, value);
        j += 1;
    }
}

fn first_defined(table: &ParamTable, a: &str, b: &str) -> (out: Option<String>)
    ensures
        out.deep_view() == first_of(table@, a@, b@),
{
    match table.get(a) {
        Some(v) => Some(v),
        None => table.get(b),
    }
}

fn make_instance(device: &DeviceStmt, kind: DeviceKind, ids: Vec<NodeId>, models: &Vec<Model>) -> (out:
    Instance)
    ensures
        out@ == instance_of(device@, kind, ids@, models.deep_view()),
{
    let mut params = ParamTable::new();
    match &device.model {
        Some(name) => {
            match find_model(models, name.as_str()) {
                Some(m) => {
                    params.insert(
                        String::from_str("type"),
                        lowercase_string(m.model_type.as_str()),
                    );
                    insert_lowered(&mut params, &m.params);
                },
                None => {},
            }
        },
        None => {},
    }
    insert_lowered(&mut params, &device.params);
    let ac_mag = first_defined(&params, "acmag", "ac");
    let ac_phase = first_defined(&params, "acphase", "acphase");
    Instance {
        name: device.name.clone(),
        kind: kind,
        nodes: ids,
        model: clone_opt_string(&device.model),
        params: params,
        value: clone_opt_string(&device.value),
        control: clone_opt_string(&device.control),
        ac_mag: ac_mag,
        ac_phase: ac_phase,
    }
}

fn connect_nodes(table: &mut NodeTable, nodes: &Vec<String>) -> (ids: Vec<NodeId>)
    ensures
        final(table)@ == connect(old(table)@, nodes.deep_view()).names,
        ids@ == connect(old(table)@, nodes.deep_view()).ids,
        final(table).gnd_id == old(table).gnd_id,
        old(table).wf() ==> final(table).wf(),
{
    let mut ids: Vec<NodeId> = Vec::new();
    let ghost all = nodes.deep_view();
    let ghost start = table@;
    let mut j: usize = 0;
    while j < nodes.len()
        invariant
            j <= nodes.len(),
            all == nodes.deep_view(),
            start == old(table)@,
            table@ == connect(start, all.take(j as int)).names,
            ids@ == connect(start, all.take(j as int)).ids,
            table.gnd_id == old(table).gnd_id,
            old(table).wf() ==> table.wf(),
        decreases nodes.len() - j,
    {
        proof {
            assert(all.take(j + 1).drop_last() =~= all.take(j as int));
        }
        let id = table.ensure_node(nodes[j].as_str());
        ids.push(id);
        j += 1;
    }
    proof {
        assert(all.take(nodes.len() as int) =~= all);
    }
    ids
}

/// Builds the circuit of an elaborated netlist: the nodes and instances of its devices,
/// and the models and analyses of the statements of the netlist.
pub fn build_circuit(ast: &NetlistAst, elab: &ElaboratedNetlist) -> (circuit: Circuit)
    ensures
        circuit.nodes.wf(),
        circuit.nodes@ == wire(elab@.instances, models_of(ast@.statements)).names,
        circuit.instances@ == wire(elab@.instances, models_of(ast@.statements)).instances,
        circuit.models.models.deep_view() == models_of(ast@.statements),
        circuit.analysis.deep_view() == directives_of(ast@.statements),
        ids_in_range(circuit.instances@, circuit.nodes@.len()),
{
    proof {
        lemma_wire(elab@.instances, models_of(ast@.statements));
    }
    let ghost stmts = ast@.statements;
    let mut models: Vec<Model> = Vec::new();
    let mut analysis: Vec<Directive> = Vec::new();
    let mut i: usize = 0;
    while i < ast.statements.len()
        invariant
            i <= ast.statements.len(),
            stmts == ast.statements.deep_view(),
            models.deep_view() == models_of(stmts.take(i as int)),
            analysis.deep_view() == directives_of(stmts.take(i as int)),
        decreases ast.statements.len() - i,
    {
        proof {
            assert(stmts.take(i + 1).drop_last() =~= stmts.take(i as int));
        }
        match &ast.statements[i] {
            Stmt::Control(ctrl) => {
                if matches!(ctrl.kind, ControlKind::Model) {
                    match (&ctrl.model_name, &ctrl.model_type) {
                        (Some(name), Some(model_type)) => {
                            let m = Model {
                                name: name.clone(),
                                model_type: model_type.clone(),
                                params: crate::netlist::ast::clone_params(&ctrl.params),
                            };
                            models.push(m);
                        },
                        _ => {},
                    }
                }
                match directive(ctrl) {
                    Some(d) => {
                        analysis.push(d);
                    },
                    None => {},
                }
            },
            _ => {},
        }
        i += 1;
    }
    proof {
        assert(stmts.take(ast.statements.len() as int) =~= stmts);
    }
    let ghost devices = elab@.instances;
    let ghost mods = models.deep_view();
    let mut nodes = NodeTable::new();
    let mut instances = InstanceTable::new();
    let mut k: usize = 0;
    while k < elab.instances.len()
        invariant
            k <= elab.instances.len(),
            devices == elab.instances.deep_view(),
            mods == models.deep_view(),
            nodes.wf(),
            nodes@ == wire(devices.take(k as int), mods).names,
            instances@ == wire(devices.take(k as int), mods).instances,
        decreases elab.instances.len() - k,
    {
        proof {
            assert(devices.take(k + 1).drop_last() =~= devices.take(k as int));
        }
        let device = &elab.instances[k];
        match kind_in_circuit(device.kind) {
            Some(kind) => {
                let ids = connect_nodes(&mut nodes, &device.nodes);
                let instance = make_instance(device, kind, ids, &models);
                instances.insert(instance);
            },
            None => {},
        }
        k += 1;
    }
    proof {
        assert(devices.take(elab.instances.len() as int) =~= devices);
    }
    Circuit {
        nodes: nodes,
        instances: instances,
        models: ModelTable { models: models },
        analysis: analysis,
    }
}

} // verus!
