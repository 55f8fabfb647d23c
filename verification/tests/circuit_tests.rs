use sim_core::bsim::MosType;
use sim_core::circuit::{
    build_circuit, AcSweepType, Circuit, DeviceKind, Directive, Instance, NodeId, NodeTable,
};
use sim_core::netlist::elaborate::ParamTable;
use sim_core::netlist::{elaborate_netlist, parse_netlist};
use sim_core::stamp::{mos_polarity, InstanceStamp, StampError};

fn built(input: &str) -> Circuit {
    let ast = parse_netlist(input);
    let elab = elaborate_netlist(&ast);
    build_circuit(&ast, &elab)
}

fn ids(inst: &Instance) -> Vec<usize> {
    inst.nodes.iter().map(|n| n.0).collect()
}

#[test]
fn node_table_starts_with_the_reference_node() {
    let mut t = NodeTable::new();
    assert_eq!(t.gnd_id, NodeId(0));
    assert_eq!(t.ensure_node("0"), NodeId(0));
    assert_eq!(t.ensure_node("in"), NodeId(1));
    assert_eq!(t.ensure_node("out"), NodeId(2));
    assert_eq!(t.ensure_node("in"), NodeId(1));
    assert_eq!(t.lookup("out"), Some(NodeId(2)));
    assert_eq!(t.lookup("OUT"), None);
    assert_eq!(t.id_to_name, vec!["0", "in", "out"]);
}

#[test]
fn nodes_are_numbered_by_first_use() {
    let c = built("V1 in 0 1\nR1 in out 1k\nR2 out 0 1k\n.op\n.end\n");
    assert_eq!(c.nodes.id_to_name, vec!["0", "in", "out"]);
    assert_eq!(c.instances.instances.len(), 3);
    assert_eq!(ids(&c.instances.instances[0]), vec![1, 0]);
    assert_eq!(ids(&c.instances.instances[1]), vec![1, 2]);
    assert_eq!(ids(&c.instances.instances[2]), vec![2, 0]);
    assert_eq!(c.instances.instances[1].kind, DeviceKind::R);
    assert_eq!(c.instances.instances[1].value.as_deref(), Some("1k"));
    let s = c.summary();
    assert_eq!((s.node_count, s.device_count, s.model_count), (3, 3, 0));
}

#[test]
fn instance_is_found_whatever_the_case() {
    let c = built("V1 a 0 1\nr1 a 0 1\nR1 a 0 2\n");
    assert_eq!(c.instances.find("v1"), Some(0));
    assert_eq!(c.instances.find("R1"), Some(1));
    assert_eq!(c.instances.find("V2"), None);
}

#[test]
fn unknown_devices_are_no_instances() {
    let c = built("Q1 a b c\nR1 a b 1\n");
    assert_eq!(c.instances.instances.len(), 1);
    assert_eq!(c.nodes.id_to_name, vec!["0", "a", "b"]);
}

#[test]
fn model_parameters_stand_behind_those_of_the_device() {
    let c = built(".model PCH pmos LEVEL=49 vth0=-0.7 W=2u\nM1 d g s b pch w=1u L=0.5u\n");
    assert_eq!(c.models.models.len(), 1);
    assert_eq!(c.models.models[0].name, "PCH");
    assert_eq!(c.models.models[0].model_type, "pmos");
    let m1 = &c.instances.instances[0];
    assert_eq!(m1.params.get("type").as_deref(), Some("pmos"));
    assert_eq!(m1.params.get("level").as_deref(), Some("49"));
    assert_eq!(m1.params.get("vth0").as_deref(), Some("-0.7"));
    assert_eq!(m1.params.get("w").as_deref(), Some("1u"));
    assert_eq!(m1.params.get("l").as_deref(), Some("0.5u"));
    assert_eq!(m1.params.get("W"), None);
    assert_eq!(mos_polarity(&m1.params), MosType::Pmos);
}

#[test]
fn excitation_comes_from_the_parameters() {
    let c = built("V1 in 0 0 acmag=1 acphase=45\nV2 in 0 0 ac=2\nV3 in 0 0\n");
    let v = &c.instances.instances;
    assert_eq!(v[0].ac_mag.as_deref(), Some("1"));
    assert_eq!(v[0].ac_phase.as_deref(), Some("45"));
    assert_eq!(v[1].ac_mag.as_deref(), Some("2"));
    assert_eq!(v[1].ac_phase, None);
    assert_eq!(v[2].ac_mag, None);
}

#[test]
fn analyses_of_the_netlist() {
    let c = built(".op\n.dc V1 0 5 0.1\n.tran 1u 5m\n.TRAN 1u 5m 0 2u\n.ac OCT 20 1 100k\n.ac dec 5 1 10\n.ac lin 3 1 2\n.dc V1 0\n.tran 1u\n.ac dec 5\n.end\n");
    assert_eq!(c.analysis.len(), 7);
    assert!(matches!(c.analysis[0], Directive::Op));
    match &c.analysis[1] {
        Directive::Dc { source, start, stop, step } => {
            assert_eq!((source.as_str(), start.as_str(), stop.as_str(), step.as_str()), ("V1", "0", "5", "0.1"));
        }
        other => panic!("unexpected {:?}", other),
    }
    match &c.analysis[2] {
        Directive::Tran { tstep, tstop, tstart, tmax } => {
            assert_eq!((tstep.as_str(), tstop.as_str()), ("1u", "5m"));
            assert_eq!(*tstart, None);
            assert_eq!(*tmax, None);
        }
        other => panic!("unexpected {:?}", other),
    }
    match &c.analysis[3] {
        Directive::Tran { tstart, tmax, .. } => {
            assert_eq!(tstart.as_deref(), Some("0"));
            assert_eq!(tmax.as_deref(), Some("2u"));
        }
        other => panic!("unexpected {:?}", other),
    }
    match &c.analysis[4] {
        Directive::Ac { sweep_type, points, fstart, fstop } => {
            assert_eq!(*sweep_type, AcSweepType::Oct);
            assert_eq!((points.as_str(), fstart.as_str(), fstop.as_str()), ("20", "1", "100k"));
        }
        other => panic!("unexpected {:?}", other),
    }
    assert!(matches!(c.analysis[5], Directive::Ac { sweep_type: AcSweepType::Dec, .. }));
    assert!(matches!(c.analysis[6], Directive::Ac { sweep_type: AcSweepType::Lin, .. }));
}

fn instance(kind: DeviceKind, n_nodes: usize, value: Option<&str>, control: Option<&str>) -> InstanceStamp {
    InstanceStamp {
        instance: Instance {
            name: "d".to_string(),
            kind,
            nodes: (0..n_nodes).map(NodeId).collect(),
            model: None,
            params: ParamTable::new(),
            value: value.map(String::from),
            control: control.map(String::from),
            ac_mag: None,
            ac_phase: None,
        },
    }
}

#[test]
fn structure_of_two_terminal_devices() {
    assert_eq!(instance(DeviceKind::R, 2, Some("1k"), None).check(false), Ok(()));
    assert_eq!(instance(DeviceKind::R, 3, Some("1k"), None).check(false), Err(StampError::InvalidNodes));
    assert_eq!(instance(DeviceKind::R, 2, None, None).check(false), Err(StampError::MissingValue));
    assert_eq!(instance(DeviceKind::V, 1, None, None).check(false), Err(StampError::InvalidNodes));
    assert_eq!(instance(DeviceKind::D, 2, None, None).check(false), Ok(()));
    assert_eq!(instance(DeviceKind::D, 1, None, None).check(true), Err(StampError::InvalidNodes));
}

#[test]
fn structure_of_reactive_devices_depends_on_the_analysis() {
    assert_eq!(instance(DeviceKind::C, 5, None, None).check(false), Ok(()));
    assert_eq!(instance(DeviceKind::C, 5, Some("1u"), None).check(true), Err(StampError::InvalidNodes));
    assert_eq!(instance(DeviceKind::C, 2, None, None).check(true), Err(StampError::MissingValue));
    assert_eq!(instance(DeviceKind::L, 2, None, None).check(false), Ok(()));
    assert_eq!(instance(DeviceKind::L, 2, None, None).check(true), Err(StampError::MissingValue));
    assert_eq!(instance(DeviceKind::L, 3, None, None).check(false), Err(StampError::InvalidNodes));
}

#[test]
fn structure_of_controlled_sources_and_mosfets() {
    assert_eq!(instance(DeviceKind::E, 4, Some("2"), None).check(false), Ok(()));
    assert_eq!(instance(DeviceKind::G, 2, Some("2"), None).check(false), Err(StampError::InvalidNodes));
    assert_eq!(instance(DeviceKind::F, 2, Some("2"), Some("V1")).check(false), Ok(()));
    assert_eq!(instance(DeviceKind::F, 2, Some("2"), None).check(false), Err(StampError::MissingValue));
    assert_eq!(instance(DeviceKind::H, 2, None, Some("V1")).check(false), Err(StampError::MissingValue));
    assert_eq!(instance(DeviceKind::M, 4, None, None).check(false), Ok(()));
    assert_eq!(instance(DeviceKind::M, 5, None, None).check(true), Ok(()));
    assert_eq!(instance(DeviceKind::M, 3, None, None).check(false), Err(StampError::InvalidNodes));
    assert_eq!(instance(DeviceKind::X, 0, None, None).check(false), Ok(()));
}

fn table(pairs: &[(&str, &str)]) -> ParamTable {
    let mut t = ParamTable::new();
    for (k, v) in pairs {
        t.insert(k.to_string(), v.to_string());
    }
    t
}

#[test]
fn polarity_of_a_mosfet() {
    assert_eq!(mos_polarity(&table(&[])), MosType::Nmos);
    assert_eq!(mos_polarity(&table(&[("type", "nmos")])), MosType::Nmos);
    assert_eq!(mos_polarity(&table(&[("type", "PMOS")])), MosType::Pmos);
    assert_eq!(mos_polarity(&table(&[("type", "xpmos49")])), MosType::Pmos);
    assert_eq!(mos_polarity(&table(&[("type", "P")])), MosType::Pmos);
    assert_eq!(mos_polarity(&table(&[("type", "pm")])), MosType::Nmos);
    assert_eq!(mos_polarity(&table(&[("pmos", "1")])), MosType::Pmos);
    assert_eq!(mos_polarity(&table(&[("type", "n"), ("pmos", "1")])), MosType::Nmos);
    assert_eq!(mos_polarity(&table(&[("type", "n"), ("type", "p")])), MosType::Pmos);
}

#[test]
fn devices_read_without_error_have_their_structure() {
    let text = "V1 in 0 1\nR1 in out 1k\nC1 out 0 1u\nL1 out x 1m\nD1 x 0 dm\nM1 a b c d nm\nE1 a 0 b 0 2\nG1 a 0 b 0 2\nF1 a 0 V1 3\nH1 b 0 V1 4\nI1 0 a 1m\n";
    let ast = parse_netlist(text);
    assert!(ast.errors.is_empty());
    let c = built(text);
    assert_eq!(c.instances.instances.len(), 11);
    for instance in c.instances.instances {
        let stamp = InstanceStamp { instance };
        assert_eq!(stamp.check(false), Ok(()));
        assert_eq!(stamp.check(true), Ok(()));
    }
}

#[test]
fn ids_of_instances_name_nodes_of_the_table() {
    let c = built("R1 a b 1\nR2 b c 1\nX1 c d e nowhere\nM1 a b c d m\n");
    let n = c.nodes.id_to_name.len();
    assert_eq!(n, 6);
    for instance in &c.instances.instances {
        for id in &instance.nodes {
            assert!(id.0 < n);
        }
    }
    assert_eq!(ids(&c.instances.instances[2]), vec![3, 4, 5]);
}
