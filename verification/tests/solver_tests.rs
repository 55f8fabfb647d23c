#[test]
fn solver_module_placeholder() {
    assert!(true);
}
