use sim_core::mna::{AuxVarTable, MnaBuilder, SparseBuilder};

#[test]
fn aux_table_numbers_names_in_order() {
    let mut table = AuxVarTable::new();
    assert_eq!(table.lookup("V1"), None);
    assert_eq!(table.allocate_with_flag("V1"), (0, true));
    assert_eq!(table.allocate_with_flag("L1"), (1, true));
    assert_eq!(table.allocate_with_flag("V1"), (0, false));
    assert_eq!(table.allocate("E1"), 2);
    assert_eq!(table.lookup("L1"), Some(1));
    assert_eq!(table.lookup("l1"), None);
    assert_eq!(table.id_to_name, vec!["V1", "L1", "E1"]);
}

#[test]
fn builder_ignores_columns_outside() {
    let mut b = SparseBuilder::new(2);
    b.insert(2, 0, 7u8);
    b.insert(0, 5, 9u8);
    assert_eq!(b.col_entries[0], vec![(5, 9)]);
    assert!(b.col_entries[1].is_empty());
    assert_eq!(b.n, 2);
}

#[test]
fn builder_grows_and_never_shrinks() {
    let mut b = SparseBuilder::new(2);
    b.insert(1, 0, 1i32);
    b.resize(4);
    assert_eq!(b.n, 4);
    assert_eq!(b.col_entries.len(), 4);
    assert_eq!(b.col_entries[1], vec![(0, 1)]);
    b.resize(1);
    assert_eq!(b.n, 4);
    assert_eq!(b.col_entries.len(), 4);
    b.insert(3, 3, 2);
    assert_eq!(b.col_entries[3], vec![(3, 2)]);
}

#[test]
fn clear_values_keeps_the_pattern() {
    let mut b = SparseBuilder::new(2);
    b.insert(0, 1, 2.5);
    b.insert(0, 0, -1.0);
    b.insert(1, 1, 4.0);
    b.clear_values(0.0);
    assert_eq!(b.col_entries[0], vec![(1, 0.0), (0, 0.0)]);
    assert_eq!(b.col_entries[1], vec![(1, 0.0)]);
}

#[test]
fn finalize_orders_rows_and_keeps_duplicates_in_order() {
    let mut b = SparseBuilder::new(3);
    b.insert(0, 2, 'a');
    b.insert(0, 0, 'b');
    b.insert(0, 2, 'c');
    b.insert(0, 1, 'd');
    b.insert(0, 0, 'e');
    b.insert(2, 1, 'f');
    let (ap, ai, ax) = b.finalize();
    assert_eq!(ap, vec![0, 5, 5, 6]);
    assert_eq!(ai, vec![0, 0, 1, 2, 2, 1]);
    assert_eq!(ax, vec!['b', 'e', 'd', 'a', 'c', 'f']);
    assert_eq!(b.col_entries[0], vec![(0, 'b'), (0, 'e'), (1, 'd'), (2, 'a'), (2, 'c')]);
}

#[test]
fn finalize_of_an_empty_matrix() {
    let mut b: SparseBuilder<f64> = SparseBuilder::new(0);
    let (ap, ai, ax) = b.finalize();
    assert_eq!(ap, vec![0]);
    assert!(ai.is_empty());
    assert!(ax.is_empty());
}

#[test]
fn new_system_has_one_row_for_each_node() {
    let mna = MnaBuilder::new(3, 0.0, 1.0);
    assert_eq!(mna.node_count, 3);
    assert_eq!(mna.size, 3);
    assert_eq!(mna.rhs, vec![0.0, 0.0, 0.0]);
    assert_eq!(mna.builder.n, 3);
    assert!(mna.aux.id_to_name.is_empty());
}

#[test]
fn auxiliary_unknown_grows_the_system_once() {
    let mut mna = MnaBuilder::new(2, 0.0, 1.0);
    {
        let mut ctx = mna.context();
        assert_eq!(ctx.gmin, 0.0);
        assert_eq!(ctx.source_scale, 1.0);
        let k = ctx.allocate_aux("V1");
        assert_eq!(k, 2);
        ctx.add(0, k, 1.0);
        ctx.add(k, 0, 1.0);
        assert_eq!(ctx.allocate_aux("V1"), 2);
        assert_eq!(ctx.allocate_aux("L1"), 3);
    }
    assert_eq!(mna.builder.n, 4);
    assert_eq!(mna.rhs.len(), 4);
    assert_eq!(mna.aux.id_to_name, vec!["V1", "L1"]);
    assert_eq!(mna.builder.col_entries[2], vec![(0, 1.0)]);
    assert_eq!(mna.builder.col_entries[0], vec![(2, 1.0)]);
}

#[test]
fn context_carries_the_given_scalars() {
    let mut mna = MnaBuilder::new(1, 0.0, 1.0);
    let ctx = mna.context_with(1e-6, 0.5);
    assert_eq!(ctx.gmin, 1e-6);
    assert_eq!(ctx.source_scale, 0.5);
    assert_eq!(ctx.node_count, 1);
}

#[test]
fn assemble_pins_the_reference_node() {
    let mut mna = MnaBuilder::new(2, 0.0, 1.0);
    {
        let mut ctx = mna.context();
        ctx.add(1, 1, 0.5);
        ctx.add(0, 1, -0.5);
    }
    let (ap, ai, ax) = mna.assemble(0);
    assert_eq!(ap, vec![0, 1, 3]);
    assert_eq!(ai, vec![0, 0, 1]);
    assert_eq!(ax, vec![1.0, -0.5, 0.5]);
}

#[test]
fn assembled_pattern_passes_the_check_of_the_solver() {
    let mut mna = MnaBuilder::new(3, 0.0, 1.0);
    {
        let mut ctx = mna.context();
        ctx.stamp_conductance(1, 2, 1e-3, -1e-3);
        let k = ctx.allocate_aux("V1");
        ctx.stamp_branch(1, 0, k, 1.0, -1.0);
    }
    let (ap, ai, ax) = mna.assemble(0);
    assert_eq!(sim_core::solver::check_pattern(mna.builder.n, &ap, &ai), Ok(()));
    assert_eq!(ax.len(), ai.len());
    assert_eq!(ap.len(), 5);
    let again = mna.builder.finalize();
    assert_eq!(again, (ap, ai, ax));
}

#[test]
fn entry_outside_the_rows_fails_the_check_of_the_solver() {
    let mut b = SparseBuilder::new(2);
    b.insert(0, 7, 1.0);
    let (ap, ai, _ax) = b.finalize();
    assert_eq!(ai, vec![7]);
    assert_eq!(
        sim_core::solver::check_pattern(2, &ap, &ai),
        Err(sim_core::solver::SolverError::AnalyzeFailed)
    );
}
