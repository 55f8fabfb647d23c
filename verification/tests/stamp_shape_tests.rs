use sim_core::mna::{MnaBuilder, SparseBuilder};
use sim_core::psf::{psf_table, psf_text};
use sim_core::result_store::{AnalysisType, RunStatus};

fn count(b: &SparseBuilder<i32>, row: usize, col: usize, value: i32) -> usize {
    b.col_entries[col]
        .iter()
        .filter(|(r, v)| *r == row && *v == value)
        .count()
}

fn is_symmetric(b: &SparseBuilder<i32>, values: &[i32]) -> bool {
    for r in 0..b.n {
        for c in 0..b.n {
            for v in values {
                if count(b, r, c, *v) != count(b, c, r, *v) {
                    return false;
                }
            }
        }
    }
    true
}

#[test]
fn conductance_goes_to_four_places() {
    let mut mna = MnaBuilder::new(3, 0, 1);
    mna.context().stamp_conductance(1, 2, 5, -5);
    assert!(mna.builder.col_entries[0].is_empty());
    assert_eq!(mna.builder.col_entries[1], vec![(1, 5), (2, -5)]);
    assert_eq!(mna.builder.col_entries[2], vec![(2, 5), (1, -5)]);
}

#[test]
fn branch_goes_to_four_places() {
    let mut mna = MnaBuilder::new(2, 0, 1);
    {
        let mut ctx = mna.context();
        let k = ctx.allocate_aux("V1");
        ctx.stamp_branch(1, 0, k, 1, -1);
    }
    assert_eq!(mna.builder.col_entries[0], vec![(2, -1)]);
    assert_eq!(mna.builder.col_entries[1], vec![(2, 1)]);
    assert_eq!(mna.builder.col_entries[2], vec![(1, 1), (0, -1)]);
    assert_eq!(mna.rhs, vec![0, 0, 0]);
}

#[test]
fn transfer_goes_to_four_places() {
    let mut mna = MnaBuilder::new(4, 0, 1);
    mna.context().stamp_transfer(0, 1, 2, 3, 7, -7);
    assert!(mna.builder.col_entries[0].is_empty());
    assert!(mna.builder.col_entries[1].is_empty());
    assert_eq!(mna.builder.col_entries[2], vec![(0, 7), (1, -7)]);
    assert_eq!(mna.builder.col_entries[3], vec![(0, -7), (1, 7)]);
}

#[test]
fn network_of_resistors_and_sources_is_symmetric() {
    let mut mna = MnaBuilder::new(4, 0, 1);
    {
        let mut ctx = mna.context();
        ctx.stamp_conductance(1, 2, 3, -3);
        let k = ctx.allocate_aux("V1");
        ctx.stamp_branch(1, 0, k, 1, -1);
        ctx.stamp_conductance(2, 3, 4, -4);
        ctx.stamp_conductance(3, 0, 3, -3);
        let k = ctx.allocate_aux("V2");
        ctx.stamp_branch(3, 2, k, 1, -1);
    }
    let values = [1, -1, 3, -3, 4, -4];
    assert!(is_symmetric(&mna.builder, &values));
    mna.assemble(0);
    assert!(is_symmetric(&mna.builder, &values));
    assert_eq!(count(&mna.builder, 0, 0, 1), 1);
    assert_eq!(count(&mna.builder, 3, 2, -4), 1);
    assert_eq!(count(&mna.builder, 2, 3, -4), 1);
}

#[test]
fn transfer_is_not_symmetric() {
    let mut mna = MnaBuilder::new(4, 0, 1);
    mna.context().stamp_transfer(0, 1, 2, 3, 7, -7);
    assert!(!is_symmetric(&mna.builder, &[7, -7]));
}

#[test]
fn psf_text_writer_outputs_basic_content() {
    let names = vec!["0".to_string(), "n1".to_string()];
    let values: Vec<String> = [0.0, 1.0].iter().map(|v: &f64| format!("{}", v)).collect();
    let content = psf_text(AnalysisType::Op, RunStatus::Converged, 1, &names, &values);
    assert!(content.contains("PSF_TEXT"));
    assert!(content.contains("analysis=Op"));
    assert!(content.contains("n1 1"));
    assert_eq!(
        content,
        "PSF_TEXT\nanalysis=Op\nstatus=Converged\niterations=1\nsignals:\n- 0\n- n1\nvalues:\n0 0\nn1 1\n"
    );
}

#[test]
fn psf_text_names_values_without_a_signal() {
    let names = vec!["a".to_string()];
    let values = vec!["1".to_string(), "2".to_string(), "3".to_string()];
    let content = psf_text(AnalysisType::Tran, RunStatus::MaxIters, 120, &names, &values);
    assert_eq!(
        content,
        "PSF_TEXT\nanalysis=Tran\nstatus=MaxIters\niterations=120\nsignals:\n- a\nvalues:\na 1\nn1 2\nn2 3\n"
    );
    let content = psf_text(AnalysisType::Ac, RunStatus::Failed, 0, &Vec::new(), &Vec::new());
    assert_eq!(
        content,
        "PSF_TEXT\nanalysis=Ac\nstatus=Failed\niterations=0\nsignals:\nvalues:\n"
    );
    assert!(psf_text(AnalysisType::Dc, RunStatus::Failed, 0, &names, &Vec::new()).contains("analysis=Dc\n"));
}

#[test]
fn psf_table_lists_signals_and_rows() {
    let signals = vec!["time".to_string(), "in".to_string(), "out".to_string()];
    let rows = vec![
        vec!["0".to_string(), "1".to_string(), "0.5".to_string()],
        vec!["1e-6".to_string()],
        Vec::new(),
    ];
    let content = psf_table("Transient Analysis", &signals, &rows);
    assert_eq!(
        content,
        "PSF_TEXT\n[Transient Analysis]\npoints = 3\n[Signals]\ntime\nin\nout\n[Data]\n0 1 0.5\n1e-6\n\n"
    );
    assert!(content.contains("[Transient Analysis]"));
    assert!(content.contains("points ="));
    assert!(content.contains("[Signals]"));
    assert!(content.contains("time"));
    assert!(content.contains("[Data]"));
}
