use sim_core::netlist::{parse_netlist, ControlKind, ControlStmt, DeviceKind, DeviceStmt, Stmt};

fn devices(input: &str) -> Vec<DeviceStmt> {
    let ast = parse_netlist(input);
    let mut out = Vec::new();
    for stmt in ast.statements {
        if let Stmt::Device(d) = stmt {
            out.push(d);
        }
    }
    out
}

fn controls(input: &str) -> Vec<ControlStmt> {
    let ast = parse_netlist(input);
    let mut out = Vec::new();
    for stmt in ast.statements {
        if let Stmt::Control(c) = stmt {
            out.push(c);
        }
    }
    out
}

fn messages(input: &str) -> Vec<(usize, String)> {
    parse_netlist(input)
        .errors
        .into_iter()
        .map(|e| (e.line, e.message))
        .collect()
}

#[test]
fn empty_text_has_no_statement() {
    let ast = parse_netlist("");
    assert!(ast.statements.is_empty());
    assert!(ast.errors.is_empty());
    assert_eq!(ast.title, None);
}

#[test]
fn blank_and_comment_lines_are_statements() {
    let ast = parse_netlist("\n   \n* note\n");
    assert_eq!(ast.statements.len(), 3);
    assert!(matches!(ast.statements[0], Stmt::Empty));
    assert!(matches!(ast.statements[1], Stmt::Empty));
    match &ast.statements[2] {
        Stmt::Comment(text) => assert_eq!(text, "* note"),
        other => panic!("unexpected {:?}", other),
    }
}

#[test]
fn continuation_extends_the_pending_line() {
    let ds = devices("R1 in out\n+ 1k\n");
    assert_eq!(ds.len(), 1);
    assert_eq!(ds[0].raw, "R1 in out 1k");
    assert_eq!(ds[0].value.as_deref(), Some("1k"));
    assert_eq!(ds[0].nodes, vec!["in".to_string(), "out".to_string()]);
}

#[test]
fn continuation_drops_all_leading_plus_signs() {
    let ds = devices("R1 in\n++  out   \n+1k");
    assert_eq!(ds.len(), 1);
    assert_eq!(ds[0].raw, "R1 in out 1k");
}

#[test]
fn continuation_passes_over_comments() {
    let ast = parse_netlist("R1 in out\n* between\n+ 1k\n");
    assert_eq!(ast.statements.len(), 2);
    assert!(matches!(ast.statements[0], Stmt::Comment(_)));
    match &ast.statements[1] {
        Stmt::Device(d) => assert_eq!(d.value.as_deref(), Some("1k")),
        other => panic!("unexpected {:?}", other),
    }
}

#[test]
fn continuation_without_a_line_is_an_error() {
    assert_eq!(
        messages("+ 1k\nR1 a b 1\n"),
        vec![(1, "续行没有对应的上一行".to_string())]
    );
}

#[test]
fn statement_is_reported_at_the_line_that_ends_it() {
    let ds = devices("R1 a b 1\nR2 b c 2\n\nR3 c d 3\n");
    assert_eq!(ds.len(), 3);
    assert_eq!(ds[0].line, 2);
    assert_eq!(ds[1].line, 4);
    assert_eq!(ds[2].line, 4);
}

#[test]
fn carriage_returns_are_no_part_of_a_line() {
    let ds = devices("R1 a b 1k\r\nR2 b 0 2k\r\n");
    assert_eq!(ds.len(), 2);
    assert_eq!(ds[0].raw, "R1 a b 1k");
    assert_eq!(ds[1].value.as_deref(), Some("2k"));
}

#[test]
fn title_is_the_joined_arguments() {
    let ast = parse_netlist(".TITLE  my   first circuit\n.title\n");
    assert_eq!(ast.title.as_deref(), Some("my first circuit"));
    let ast = parse_netlist(".title a=b\n");
    assert_eq!(ast.title, None);
}

#[test]
fn command_is_lower_cased_and_classified() {
    let cs = controls(".PARAM x=1\n.Model m t\n.SUBCKT s\n.ends\n.include f\n.op\n.DC v 0 1 1\n.tran 1 2\n.end\n.ac dec 1 1 2\n");
    let kinds: Vec<ControlKind> = cs.iter().map(|c| c.kind).collect();
    assert_eq!(
        kinds,
        vec![
            ControlKind::Param,
            ControlKind::Model,
            ControlKind::Subckt,
            ControlKind::Ends,
            ControlKind::Include,
            ControlKind::Op,
            ControlKind::Dc,
            ControlKind::Tran,
            ControlKind::End,
            ControlKind::Other,
        ]
    );
    assert_eq!(cs[0].command, ".param");
    assert_eq!(cs[6].command, ".dc");
    assert_eq!(cs[6].raw, ".DC v 0 1 1");
}

#[test]
fn tokens_with_equals_sign_are_parameters() {
    let ds = devices("M1 d g s b nmos W=1u l=0.1u k==v =x\n");
    assert_eq!(ds.len(), 1);
    let d = &ds[0];
    assert_eq!(d.kind, DeviceKind::M);
    assert_eq!(d.nodes, vec!["d", "g", "s", "b"]);
    assert_eq!(d.model.as_deref(), Some("nmos"));
    let pairs: Vec<(String, String)> = d
        .params
        .iter()
        .map(|p| (p.key.clone(), p.value.clone()))
        .collect();
    assert_eq!(
        pairs,
        vec![
            ("W".to_string(), "1u".to_string()),
            ("l".to_string(), "0.1u".to_string()),
            ("k".to_string(), "=v".to_string()),
            ("".to_string(), "x".to_string()),
        ]
    );
}

#[test]
fn device_kind_follows_the_first_letter() {
    let ds = devices("r1 a b 1\nC1 a b 1\nl1 a b 1\nV1 a b 1\ni1 a b 1\nD1 a b m\nm1 a b c d m\nE1 a b c d 1\ng1 a b c d 1\nF1 a b v 1\nh1 a b v 1\nX1 a s\n");
    let kinds: Vec<DeviceKind> = ds.iter().map(|d| d.kind).collect();
    assert_eq!(
        kinds,
        vec![
            DeviceKind::R,
            DeviceKind::C,
            DeviceKind::L,
            DeviceKind::V,
            DeviceKind::I,
            DeviceKind::D,
            DeviceKind::M,
            DeviceKind::E,
            DeviceKind::G,
            DeviceKind::F,
            DeviceKind::H,
            DeviceKind::X,
        ]
    );
    assert!(parse_netlist("r1 a b 1\nC1 a b 1\nF1 a b v 1\nX1 a s\n").errors.is_empty());
}

#[test]
fn fields_of_each_kind() {
    let ds = devices("F1 p n Vc 10\nX1 a b c sub\nE1 p n cp cn 2\nD1 a k dmod\n");
    assert_eq!(ds[0].nodes, vec!["p", "n"]);
    assert_eq!(ds[0].control.as_deref(), Some("Vc"));
    assert_eq!(ds[0].value.as_deref(), Some("10"));
    assert_eq!(ds[1].nodes, vec!["a", "b", "c"]);
    assert_eq!(ds[1].model.as_deref(), Some("sub"));
    assert_eq!(ds[1].control, None);
    assert_eq!(ds[2].nodes, vec!["p", "n", "cp", "cn"]);
    assert_eq!(ds[2].value.as_deref(), Some("2"));
    assert_eq!(ds[3].nodes, vec!["a", "k"]);
    assert_eq!(ds[3].model.as_deref(), Some("dmod"));
    assert_eq!(ds[3].value, None);
}

#[test]
fn unknown_device_is_reported_and_kept() {
    let ast = parse_netlist("Q1 c b e npn\n");
    assert_eq!(ast.errors.len(), 1);
    assert_eq!(ast.errors[0].line, 1);
    assert_eq!(ast.errors[0].message, "未知器件类型: Q1");
    match &ast.statements[0] {
        Stmt::Device(d) => {
            assert_eq!(d.kind, DeviceKind::Unknown);
            assert_eq!(d.nodes, vec!["c", "b", "e", "npn"]);
        }
        other => panic!("unexpected {:?}", other),
    }
}

#[test]
fn missing_fields_are_named() {
    assert_eq!(
        messages("R1 in 10k\nM1 d g s nmos\n.end\n"),
        vec![
            (2, "R1 缺少数值".to_string()),
            (3, "M1 缺少模型名".to_string()),
        ]
    );
    assert_eq!(messages("R1\n"), vec![(1, "器件缺少节点定义: R1".to_string())]);
    assert_eq!(
        messages("C1 a\n"),
        vec![
            (1, "C1 需要 2 个节点".to_string()),
            (1, "C1 缺少数值".to_string()),
        ]
    );
    assert_eq!(
        messages("D1 a\n"),
        vec![
            (1, "D1 需要 2 个节点".to_string()),
            (1, "D1 缺少模型名".to_string()),
        ]
    );
    assert_eq!(
        messages("M1 a b\n"),
        vec![
            (1, "M1 需要至少 4 个节点".to_string()),
            (1, "M1 缺少模型名".to_string()),
        ]
    );
    assert_eq!(
        messages("E1 a b c\n"),
        vec![
            (1, "E1 需要 4 个节点".to_string()),
            (1, "E1 缺少增益值".to_string()),
        ]
    );
    assert_eq!(
        messages("H1 a b c\n"),
        vec![
            (1, "H1 需要 2 个节点".to_string()),
            (1, "H1 缺少增益值".to_string()),
        ]
    );
    assert_eq!(
        messages("F1 a\n"),
        vec![
            (1, "F1 需要 2 个节点".to_string()),
            (1, "F1 缺少控制源".to_string()),
            (1, "F1 缺少增益值".to_string()),
        ]
    );
    assert_eq!(messages("X1 a\n"), vec![(1, "X1 缺少子电路名".to_string())]);
}

#[test]
fn model_and_subckt_need_their_names() {
    assert_eq!(
        messages(".model onlyname\n.subckt\n"),
        vec![
            (2, "model 语句缺少 name/type".to_string()),
            (2, "subckt 语句缺少名称".to_string()),
        ]
    );
    let cs = controls(".model onlyname\n.subckt s\n");
    assert_eq!(cs[0].model_name, None);
    assert_eq!(cs[0].model_type, None);
    assert_eq!(cs[1].subckt_name.as_deref(), Some("s"));
    assert!(cs[1].subckt_ports.is_empty());
}

#[test]
fn unusual_white_space_separates_tokens() {
    let ds = devices("R1\u{a0}a\tb\u{3000}1k\n");
    assert_eq!(ds.len(), 1);
    assert_eq!(ds[0].nodes, vec!["a", "b"]);
    assert_eq!(ds[0].value.as_deref(), Some("1k"));
}
