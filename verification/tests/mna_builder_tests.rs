use sim_core::mna::{AuxVarTable, SparseBuilder};

#[test]
fn aux_var_table_allocates_unique_ids() {
    let mut table = AuxVarTable::new();
    let id1 = table.allocate("V1");
    let id2 = table.allocate("V2");
    let id1_again = table.allocate("V1");
    assert_eq!(id1, id1_again);
    assert_ne!(id1, id2);
}

#[test]
fn sparse_builder_accepts_inserts() {
    let mut builder = SparseBuilder::new(3);
    builder.insert(0, 0, 1.0);
    builder.insert(1, 0, -1.0);
    assert_eq!(builder.col_entries[0].len(), 1);
    assert_eq!(builder.col_entries[1].len(), 1);
}
