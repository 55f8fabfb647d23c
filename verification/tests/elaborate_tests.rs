use sim_core::netlist::{elaborate_netlist, elaborate_with_errors, parse_netlist};

#[test]
fn definitions_are_taken_out_of_the_instances() {
    let ast = parse_netlist(".subckt buf in out\nR1 in out 1k\nC1 out 0 1p\n.ends\nR9 x y 1\n");
    let elab = elaborate_netlist(&ast);
    assert_eq!(elab.instances.len(), 1);
    assert_eq!(elab.instances[0].name, "R9");
    assert_eq!(elab.control_count, 0);
    assert_eq!(elab.error_count, 0);
}

#[test]
fn expansion_maps_ports_and_names_inner_nodes() {
    let input = ".subckt rc in out\nR1 in mid 1k\nC1 mid out 1p\n.op\n.ends\nXa n1 n2 rc\nXb n2 n3 rc\n";
    let elab = elaborate_netlist(&parse_netlist(input));
    let names: Vec<&str> = elab.instances.iter().map(|d| d.name.as_str()).collect();
    assert_eq!(names, vec!["Xa.R1", "Xa.C1", "Xb.R1", "Xb.C1"]);
    assert_eq!(elab.instances[0].nodes, vec!["n1", "Xa:mid"]);
    assert_eq!(elab.instances[1].nodes, vec!["Xa:mid", "n2"]);
    assert_eq!(elab.instances[2].nodes, vec!["n2", "Xb:mid"]);
    assert_eq!(elab.instances[3].value.as_deref(), Some("1p"));
    assert_eq!(elab.error_count, 0);
}

#[test]
fn undefined_subcircuit_is_an_error_and_the_device_stays() {
    let ast = parse_netlist("X1 a b nope\n");
    let (elab, errors) = elaborate_with_errors(&ast);
    assert_eq!(elab.instances.len(), 1);
    assert_eq!(elab.instances[0].name, "X1");
    assert_eq!(elab.error_count, 1);
    assert_eq!(errors.len(), 1);
    assert_eq!(errors[0].line, 1);
    assert_eq!(errors[0].message, "子电路未定义: Some(\"nope\")");
}

#[test]
fn instance_without_a_name_of_subcircuit_reports_none() {
    let ast = parse_netlist("X1 a\n");
    let (elab, errors) = elaborate_with_errors(&ast);
    assert_eq!(elab.error_count, 2);
    assert_eq!(errors[0].message, "X1 缺少子电路名");
    assert_eq!(errors[1].message, "子电路未定义: None");
}

#[test]
fn port_count_mismatch_is_an_error_with_both_counts() {
    let input = ".subckt wide a b c d e f g h i j k l\nR1 a l 1\n.ends\nX1 n1 n2 wide\n";
    let (elab, errors) = elaborate_with_errors(&parse_netlist(input));
    assert_eq!(elab.error_count, 1);
    assert_eq!(errors[0].line, 4);
    assert_eq!(errors[0].message, "子电路端口数量不匹配: wide 期望 12 实际 2");
    assert_eq!(elab.instances.len(), 1);
    assert_eq!(elab.instances[0].nodes, vec!["n1", "X1:l"]);
}

#[test]
fn unclosed_definition_is_an_error_at_its_first_line() {
    let input = "R0 a b 1\n.subckt open p\nR1 p 0 1\n";
    let (elab, errors) = elaborate_with_errors(&parse_netlist(input));
    assert_eq!(elab.instances.len(), 1);
    assert_eq!(elab.error_count, 1);
    assert_eq!(errors[0].line, 3);
    assert_eq!(errors[0].message, "subckt open 缺少 .ends");
}

#[test]
fn definition_without_a_name_is_called_unknown() {
    let input = ".subckt\nR1 p 0 1\n";
    let (_elab, errors) = elaborate_with_errors(&parse_netlist(input));
    assert_eq!(errors.len(), 2);
    assert_eq!(errors[0].message, "subckt 语句缺少名称");
    assert_eq!(errors[1].message, "subckt unknown 缺少 .ends");
}

#[test]
fn later_definitions_of_a_parameter_win() {
    let input = ".param rval=1k\n.param RVAL=2k cap=3p\nR1 a b Rval\nC1 a b CAP w=rval\n";
    let elab = elaborate_netlist(&parse_netlist(input));
    assert_eq!(elab.instances[0].value.as_deref(), Some("2k"));
    assert_eq!(elab.instances[1].value.as_deref(), Some("3p"));
    assert_eq!(elab.instances[1].params[0].key, "w");
    assert_eq!(elab.instances[1].params[0].value, "2k");
    assert_eq!(elab.control_count, 2);
}

#[test]
fn parameters_reach_model_names_and_expanded_devices() {
    let input = ".param dm=fast r=5\n.subckt s a\nD1 a 0 dm\nR1 a 0 r\n.ends\nX1 n s\n";
    let elab = elaborate_netlist(&parse_netlist(input));
    assert_eq!(elab.instances.len(), 2);
    assert_eq!(elab.instances[0].model.as_deref(), Some("fast"));
    assert_eq!(elab.instances[1].value.as_deref(), Some("5"));
}

#[test]
fn parse_errors_are_counted_by_elaboration() {
    let ast = parse_netlist("R1 a\nQ1 x\n");
    let elab = elaborate_netlist(&ast);
    assert_eq!(ast.errors.len(), 3);
    assert_eq!(elab.error_count, 3);
    assert_eq!(elab.instances.len(), 2);
}

#[test]
fn first_definition_of_a_subcircuit_is_used() {
    let input = ".subckt s a\nR1 a 0 1\n.ends\n.subckt s a\nC1 a 0 1\n.ends\nX1 n s\n";
    let elab = elaborate_netlist(&parse_netlist(input));
    assert_eq!(elab.instances.len(), 1);
    assert_eq!(elab.instances[0].name, "X1.R1");
}
