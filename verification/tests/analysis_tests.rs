use sim_core::analysis::{
    build_ac_sweep, build_dc_sweep, extract_ac_sweep, extract_dc_sweep, select_analysis,
    select_dc_cmd, select_tran_cmd, AnalysisCmd, RequestError, SelectError, Selection,
};
use sim_core::circuit::AcSweepType;
use sim_core::result_store::{node_values, AnalysisType, RunId, RunResult, RunStatus};

fn dc() -> AnalysisCmd<f64> {
    AnalysisCmd::Dc { source: "V1".to_string(), start: 0.0, stop: 5.0, step: 0.5 }
}

fn tran() -> AnalysisCmd<f64> {
    AnalysisCmd::Tran { tstep: 1e-6, tstop: 5e-3, tstart: 0.0, tmax: 1e-4 }
}

fn ac() -> AnalysisCmd<f64> {
    AnalysisCmd::Ac { sweep_type: AcSweepType::Lin, points: 3, fstart: 1.0, fstop: 2.0 }
}

fn default_tran() -> AnalysisCmd<f64> {
    AnalysisCmd::Tran { tstep: 1e-6, tstop: 1e-5, tstart: 0.0, tmax: 1e-5 }
}

fn select(analysis: Option<&str>, from_netlist: Option<AnalysisCmd<f64>>) -> Result<Selection<f64>, SelectError> {
    select_analysis(
        &analysis.map(String::from),
        from_netlist,
        None,
        None,
        None,
        None,
        None,
        None,
        None,
        None,
        default_tran(),
    )
}

fn text(cmd: &AnalysisCmd<f64>) -> String {
    format!("{:?}", cmd)
}

#[test]
fn operating_point_is_chosen_when_asked_or_when_nothing_is_known() {
    let s = select(Some("op"), Some(dc())).unwrap();
    assert!(matches!(s.cmd, AnalysisCmd::Op));
    assert!(s.sweep.is_none() && s.ac.is_none());
    let s = select(None, None).unwrap();
    assert!(matches!(s.cmd, AnalysisCmd::Op));
    let s = select(Some("noise"), None).unwrap();
    assert!(matches!(s.cmd, AnalysisCmd::Op));
}

#[test]
fn analysis_of_the_netlist_is_chosen_without_a_wish() {
    let s = select(None, Some(dc())).unwrap();
    assert_eq!(text(&s.cmd), text(&dc()));
    let sweep = s.sweep.unwrap();
    assert_eq!((sweep.source.as_str(), sweep.start, sweep.stop, sweep.step), ("V1", 0.0, 5.0, 0.5));
    let s = select(None, Some(ac())).unwrap();
    assert_eq!(text(&s.cmd), text(&ac()));
    let a = s.ac.unwrap();
    assert_eq!((a.sweep_type, a.points, a.fstart, a.fstop), (AcSweepType::Lin, 3, 1.0, 2.0));
    let s = select(Some("other"), Some(tran())).unwrap();
    assert_eq!(text(&s.cmd), text(&tran()));
    assert!(s.sweep.is_none() && s.ac.is_none());
}

#[test]
fn sweep_of_the_caller_goes_before_that_of_the_netlist() {
    let s = select_analysis(
        &Some("dc".to_string()),
        Some(dc()),
        Some("V2".to_string()),
        Some(1.0),
        Some(2.0),
        Some(0.1),
        None,
        None,
        None,
        None,
        default_tran(),
    )
    .unwrap();
    assert_eq!(
        text(&s.cmd),
        text(&AnalysisCmd::Dc { source: "V2".to_string(), start: 1.0, stop: 2.0, step: 0.1 })
    );
    assert_eq!(s.sweep.unwrap().source, "V2");

    let s = select_analysis(
        &Some("dc".to_string()),
        Some(dc()),
        Some("V2".to_string()),
        None,
        Some(2.0),
        Some(0.1),
        None,
        None,
        None,
        None,
        default_tran(),
    )
    .unwrap();
    assert_eq!(text(&s.cmd), text(&dc()));
}

#[test]
fn sweep_without_numbers_is_an_error() {
    assert_eq!(select(Some("dc"), None).err(), Some(SelectError::DcNeedsSweep));
    assert_eq!(select(Some("dc"), Some(tran())).err(), Some(SelectError::DcNeedsSweep));
    assert_eq!(select(Some("ac"), None).err(), Some(SelectError::AcNeedsSweep));
    assert_eq!(select(Some("ac"), Some(dc())).err(), Some(SelectError::AcNeedsSweep));
}

#[test]
fn transient_analysis_falls_back_on_the_default() {
    let s = select(Some("tran"), Some(tran())).unwrap();
    assert_eq!(text(&s.cmd), text(&tran()));
    let s = select(Some("tran"), Some(dc())).unwrap();
    assert_eq!(text(&s.cmd), text(&default_tran()));
    let s = select(Some("tran"), None).unwrap();
    assert_eq!(text(&s.cmd), text(&default_tran()));
}

#[test]
fn frequency_sweep_of_the_caller() {
    let s = select_analysis(
        &Some("ac".to_string()),
        Some(ac()),
        None,
        None,
        None,
        None,
        Some("oct".to_string()),
        None,
        Some(10.0),
        Some(1e3),
        default_tran(),
    )
    .unwrap();
    let a = s.ac.unwrap();
    assert_eq!((a.sweep_type, a.points, a.fstart, a.fstop), (AcSweepType::Oct, 10, 10.0, 1e3));
    let a = build_ac_sweep(Some("LIN".to_string()), Some(7), Some(1.0), Some(2.0)).unwrap();
    assert_eq!((a.sweep_type, a.points), (AcSweepType::Dec, 7));
    let a = build_ac_sweep(Some("lin".to_string()), Some(7), Some(1.0), Some(2.0)).unwrap();
    assert_eq!(a.sweep_type, AcSweepType::Lin);
    assert!(build_ac_sweep(None, Some(7), None, Some(2.0)).is_none());
    assert!(build_ac_sweep(None, Some(7), Some(2.0), None::<f64>).is_none());
}

#[test]
fn sweeps_are_taken_from_their_own_kind_only() {
    assert!(extract_dc_sweep(Some(dc())).is_some());
    assert!(extract_dc_sweep(Some(ac())).is_none());
    assert!(extract_dc_sweep(None::<AnalysisCmd<f64>>).is_none());
    assert!(extract_ac_sweep(Some(ac())).is_some());
    assert!(extract_ac_sweep(Some(tran())).is_none());
    assert!(build_dc_sweep(Some("V".to_string()), Some(1), Some(2), None).is_none());
    assert!(build_dc_sweep(None, Some(1), Some(2), Some(3)).is_none());
    assert_eq!(build_dc_sweep(Some("V".to_string()), Some(1), Some(2), Some(3)).unwrap().step, 3);
}

#[test]
fn request_for_a_sweep_must_be_complete() {
    let netlist = vec![tran(), dc(), AnalysisCmd::Op];
    let full = select_dc_cmd(Some("V9".to_string()), Some(0.0), Some(1.0), Some(0.1), &netlist).unwrap();
    assert_eq!(text(&full), text(&AnalysisCmd::Dc { source: "V9".to_string(), start: 0.0, stop: 1.0, step: 0.1 }));
    assert_eq!(select_dc_cmd(None, Some(0.0), Some(1.0), Some(0.1), &netlist).err(), Some(RequestError::MissingSource));
    assert_eq!(select_dc_cmd(Some("V".to_string()), None, Some(1.0), Some(0.1), &netlist).err(), Some(RequestError::MissingStart));
    assert_eq!(select_dc_cmd(Some("V".to_string()), Some(1.0), None, Some(0.1), &netlist).err(), Some(RequestError::MissingStop));
    assert_eq!(select_dc_cmd(Some("V".to_string()), Some(1.0), Some(0.1), None, &netlist).err(), Some(RequestError::MissingStep));
    let from_netlist = select_dc_cmd(None, None, None, None, &netlist).unwrap();
    assert_eq!(text(&from_netlist), text(&dc()));
    assert_eq!(select_dc_cmd(None, None, None, None, &vec![tran()]).err(), Some(RequestError::NotProvided));
}

#[test]
fn request_for_a_transient_analysis() {
    let netlist = vec![dc(), tran()];
    let given = select_tran_cmd(Some(1.0), Some(9.0), None, None, 0.0, &netlist).unwrap();
    assert_eq!(text(&given), text(&AnalysisCmd::Tran { tstep: 1.0, tstop: 9.0, tstart: 0.0, tmax: 9.0 }));
    let given = select_tran_cmd(Some(1.0), Some(9.0), Some(2.0), Some(3.0), 0.0, &netlist).unwrap();
    assert_eq!(text(&given), text(&AnalysisCmd::Tran { tstep: 1.0, tstop: 9.0, tstart: 2.0, tmax: 3.0 }));
    assert_eq!(select_tran_cmd(None, Some(9.0), None, None, 0.0, &netlist).err(), Some(RequestError::MissingTstep));
    assert_eq!(select_tran_cmd(Some(9.0), None, None, None, 0.0, &netlist).err(), Some(RequestError::MissingTstop));
    let from_netlist = select_tran_cmd(None, None, Some(5.0), Some(6.0), 0.0, &netlist).unwrap();
    assert_eq!(text(&from_netlist), text(&tran()));
    assert_eq!(select_tran_cmd(None, None, None, None, 0.0, &vec![dc()]).err(), Some(RequestError::NotProvided));
}

#[test]
fn node_values_leave_out_the_auxiliary_unknowns() {
    assert_eq!(node_values(&vec![1.0, 2.0, 3.0, 4.0], 2, 0.0), vec![1.0, 2.0]);
    assert_eq!(node_values(&vec![1.0], 3, 0.5), vec![1.0, 0.5, 0.5]);
    assert_eq!(node_values(&Vec::<i32>::new(), 0, 0), Vec::<i32>::new());
}

#[test]
fn new_result_is_empty() {
    let r: RunResult<f64> = RunResult::new(AnalysisType::Ac, RunStatus::Failed, vec!["0".to_string()]);
    assert_eq!(r.id, RunId(0));
    assert_eq!(r.analysis, AnalysisType::Ac);
    assert_eq!(r.status, RunStatus::Failed);
    assert_eq!(r.iterations, 0);
    assert_eq!(r.node_names, vec!["0"]);
    assert!(r.solution.is_empty() && r.message.is_none() && r.sweep_var.is_none());
    assert!(r.sweep_values.is_empty() && r.sweep_solutions.is_empty());
    assert!(r.tran_times.is_empty() && r.tran_solutions.is_empty());
    assert!(r.ac_frequencies.is_empty() && r.ac_solutions.is_empty());
}
