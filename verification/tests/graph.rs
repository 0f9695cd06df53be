use shapes::dag_node::GraphNode;
use shapes::ids::{ConstraintId, DagType, NodeType, ShapeId};
use shapes::model::{
    Binding, Constraint, Enforcement, Intent, ParentRef, Realization, Shape, ShapeChildRef,
    ShapeRef, Status, YamlKind, YamlValue,
};
use shapes::store::{LoadError, NodeFile, Store};
use shapes::tree::tree;
use shapes::validate::validate;
use shapes::walk::{ancestors, descendants, effective_constraints, shapes_for_constraint};

fn intent(kind: &str) -> Intent {
    Intent {
        kind: kind.into(),
        summary: "s".into(),
        source: YamlValue { kind: YamlKind::String, text: "human".into(), canon: "human".into() },
        uris: vec![],
        extra: vec![],
    }
}

fn shape(id: u64, parents: &[u64], children: &[u64], constraints: &[u64]) -> Shape {
    Shape {
        id: ShapeId::new(id),
        name: format!("shape-{id}"),
        description: format!("shape-{id}"),
        profile: None,
        version: None,
        predecessors: vec![],
        status: Status::proposed(),
        intent: intent("feature"),
        constraints: constraints.iter().map(|c| ConstraintId::new(*c)).collect(),
        realization: vec![],
        evidence: vec![],
        provenance: vec![],
        amendment_log: vec![],
        parents: parents.iter().map(|p| ParentRef { id: ShapeId::new(*p), role: None, reason: None }).collect(),
        children: children
            .iter()
            .map(|c| ShapeChildRef { shape: ShapeRef::Id(ShapeId::new(*c)), role: None, reason: None })
            .collect(),
        metadata: vec![],
    }
}

fn constraint(id: u64) -> Constraint {
    Constraint {
        id: ConstraintId::new(id),
        name: format!("constraint-{id}"),
        description: "c".into(),
        kind: "invariant".into(),
        rule: "r".into(),
        enforcement: Enforcement::Machine,
        profile: None,
        version: None,
        status: Status::proposed(),
        intent: intent("invariant"),
        realization: vec![],
        evidence: vec![],
        provenance: vec![],
        amendment_log: vec![],
        parents: vec![],
        children: vec![],
        metadata: vec![],
    }
}

fn store(shapes: Vec<Shape>, constraints: Vec<Constraint>) -> Store {
    Store {
        shapes: shapes.into_iter().map(|s| NodeFile { id: s.id.get(), node: Ok(s) }).collect(),
        constraints: constraints.into_iter().map(|c| NodeFile { id: c.id.get(), node: Ok(c) }).collect(),
        amendments: vec![],
        profiles: vec![],
    }
}

/// 1 -> 2 -> 3, with reciprocal parent links.
fn chain() -> Store {
    store(
        vec![shape(1, &[], &[2], &[5]), shape(2, &[1], &[3], &[6]), shape(3, &[2], &[], &[])],
        vec![constraint(5), constraint(6)],
    )
}

#[test]
fn walks_are_breadth_first_and_exclude_the_start() {
    let st = chain();
    assert_eq!(ancestors(&st, DagType::Shape, 3).unwrap(), vec![2, 1]);
    assert_eq!(descendants(&st, DagType::Shape, 1).unwrap(), vec![2, 3]);
    assert_eq!(descendants(&st, DagType::Shape, 3).unwrap(), Vec::<u64>::new());
}

#[test]
fn walk_from_missing_node_fails() {
    let st = chain();
    assert!(matches!(
        ancestors(&st, DagType::Shape, 99),
        Err(LoadError::NotFound { node_type: NodeType::Shape, id: 99 })
    ));
}

#[test]
fn walk_terminates_on_cycles() {
    let st = store(vec![shape(1, &[2], &[2], &[]), shape(2, &[1], &[1], &[])], vec![]);
    assert_eq!(descendants(&st, DagType::Shape, 1).unwrap(), vec![2, 1]);
}

#[test]
fn effective_constraints_inherit_from_ancestors() {
    let st = chain();
    let rows = effective_constraints(&st, 3);
    let got: Vec<(u64, u64, bool, String)> = rows
        .iter()
        .map(|r| (r.constraint_id.get(), r.source_shape_id.get(), r.inherited, r.constraint_name.clone()))
        .collect();
    assert_eq!(
        got,
        vec![(6, 2, true, "constraint-6".to_string()), (5, 1, true, "constraint-5".to_string())]
    );
    let own = effective_constraints(&st, 2);
    assert_eq!(own[0].constraint_id.get(), 6);
    assert!(!own[0].inherited);
}

#[test]
fn shapes_for_constraint_include_descendants() {
    let st = chain();
    let rows = shapes_for_constraint(&st, 5).unwrap();
    let got: Vec<(u64, bool)> = rows.iter().map(|r| (r.shape_id.get(), r.inherited)).collect();
    assert_eq!(got, vec![(1, false), (2, true), (3, true)]);
    assert!(matches!(
        shapes_for_constraint(&st, 42),
        Err(LoadError::NotFound { node_type: NodeType::Constraint, id: 42 })
    ));
}

#[test]
fn validate_reports_shape_cycle() {
    let st = store(vec![shape(1, &[2], &[2], &[]), shape(2, &[1], &[1], &[])], vec![]);
    let issues = validate(&st, &None);
    assert!(
        issues.iter().any(|i| i.invariant == "INV-001"
            && i.node_type == "shape"
            && i.node_id == "2"
            && i.message == "cycle detected: 2 -> 1"),
        "{issues:?}"
    );
}

#[test]
fn validate_accepts_acyclic_reciprocal_graph() {
    let st = chain();
    let issues = validate(&st, &None);
    assert!(issues.is_empty(), "{issues:?}");
}

#[test]
fn validate_reports_dangling_refs_with_messages() {
    let st = store(vec![shape(1, &[7], &[8], &[9])], vec![]);
    let issues = validate(&st, &None);
    let find = |inv: &str| issues.iter().find(|i| i.invariant == inv).map(|i| i.message.clone());
    assert_eq!(find("INV-003"), Some("references non-existent constraint 9".to_string()));
    assert_eq!(find("INV-004"), Some("references non-existent parent shape 7".to_string()));
    assert_eq!(find("INV-005"), Some("references non-existent child shape 8".to_string()));
}

#[test]
fn validate_reports_parse_failures_and_duplicates() {
    let mut st = store(vec![shape(1, &[], &[], &[]), shape(1, &[], &[], &[])], vec![]);
    st.constraints.push(NodeFile { id: 4, node: Err("bad yaml".into()) });
    let issues = validate(&st, &None);
    assert!(issues.iter().any(|i| i.invariant == "INV-011" && i.message == "duplicate id 1"), "{issues:?}");
    assert!(
        issues.iter().any(|i| i.invariant == "PARSE" && i.node_type == "constraint" && i.node_id == "4"),
        "{issues:?}"
    );
}

#[test]
fn validate_checks_url_bindings() {
    let mut s = shape(1, &[], &[], &[]);
    s.realization = vec![Realization {
        bindings: vec![
            Binding { scheme: "url".into(), value: "https://ok.example/x".into(), metadata: vec![] },
            Binding { scheme: "url".into(), value: "https://a b".into(), metadata: vec![] },
            Binding { scheme: "url".into(), value: "ftp://x".into(), metadata: vec![] },
            Binding { scheme: "url".into(), value: "https://".into(), metadata: vec![] },
            Binding { scheme: "url".into(), value: "nourl".into(), metadata: vec![] },
        ],
        role: "primary".into(),
    }];
    let st = store(vec![s], vec![]);
    let issues = validate(&st, &None);
    let msgs: Vec<String> = issues.iter().filter(|i| i.invariant == "INV-018").map(|i| i.message.clone()).collect();
    assert_eq!(
        msgs,
        vec![
            "realization[0].bindings[1]: url 'https://a b' contains whitespace".to_string(),
            "realization[0].bindings[2]: url 'ftp://x' has unsupported scheme 'ftp'; allowed: http, https, git, ssh".to_string(),
            "realization[0].bindings[3]: url 'https://' has empty authority/path after 'https://'".to_string(),
            "realization[0].bindings[4]: url 'nourl' is not a well-formed absolute URL (missing scheme://)".to_string(),
        ]
    );
}

#[test]
fn validate_checks_path_bindings() {
    let mut s = shape(1, &[], &[], &[]);
    s.realization = vec![Realization {
        bindings: vec![
            Binding { scheme: "path".into(), value: "src/lib.rs".into(), metadata: vec![] },
            Binding { scheme: "path".into(), value: "/etc/passwd".into(), metadata: vec![] },
            Binding { scheme: "path".into(), value: "../outside".into(), metadata: vec![] },
            Binding { scheme: "path".into(), value: "src/missing.rs".into(), metadata: vec![] },
        ],
        role: "primary".into(),
    }];
    let st = store(vec![s], vec![]);
    let existing = Some(vec!["src/lib.rs".to_string()]);
    let issues = validate(&st, &existing);
    let msgs: Vec<String> = issues.iter().filter(|i| i.invariant == "INV-017").map(|i| i.message.clone()).collect();
    assert_eq!(
        msgs,
        vec![
            "realization[0].bindings[1]: path '/etc/passwd' is absolute; bindings must be repo-relative".to_string(),
            "realization[0].bindings[2]: path '../outside' escapes the workspace root".to_string(),
            "realization[0].bindings[3]: path 'src/missing.rs' does not resolve to an existing file or directory".to_string(),
        ]
    );
}

#[test]
fn tree_draws_children_under_roots() {
    let st = store(vec![shape(1, &[], &[2], &[]), shape(2, &[1], &[], &[])], vec![]);
    let (lines, failed) = tree(&st, DagType::Shape, None, 10);
    assert!(failed.is_none());
    assert_eq!(
        lines,
        vec![
            "shape:1 shape-1 [proposed] kind=feature".to_string(),
            "└── shape:2 shape-2 [proposed] kind=feature".to_string(),
        ]
    );
    let (shallow, _) = tree(&st, DagType::Shape, Some(1), 0);
    assert_eq!(shallow, vec!["shape:1 shape-1 [proposed] kind=feature".to_string()]);
}

#[test]
fn graph_node_reads_identity_status_and_intent() {
    let s = shape(7, &[], &[], &[]);
    assert_eq!(s.raw_id(), 7);
    assert_eq!(GraphNode::name(&s), "shape-7");
    assert!(matches!(GraphNode::status(&s), Status::Proposed(_)));
    assert_eq!(GraphNode::intent(&s).kind, "feature");
    let c = constraint(3);
    assert_eq!(c.raw_id(), 3);
    assert_eq!(GraphNode::name(&c), "constraint-3");
    assert_eq!(GraphNode::intent(&c).kind, "invariant");
}

#[test]
fn url_whitespace_follows_unicode_white_space() {
    use_check_url();
}

fn use_check_url() {
    let ideographic = shapes::binding_checks::check_url_value("https://a\u{3000}b").unwrap();
    assert!(ideographic.ends_with("contains whitespace"), "{ideographic}");
    let nbsp = shapes::binding_checks::check_url_value("https://a\u{a0}b").unwrap();
    assert!(nbsp.ends_with("contains whitespace"), "{nbsp}");
    assert_eq!(shapes::binding_checks::check_url_value("https://a\u{200b}b"), None);
    assert_eq!(shapes::binding_checks::check_url_value("https://example.com"), None);
    for c in ['\t', '\n', '\u{b}', '\u{c}', '\r', ' ', '\u{85}', '\u{1680}', '\u{2000}', '\u{200a}', '\u{2028}', '\u{2029}', '\u{202f}', '\u{205f}'] {
        assert!(c.is_whitespace());
        assert!(shapes::binding_checks::check_url_value(&format!("https://a{c}b")).is_some());
    }
    for c in '\u{0}'..='\u{3100}' {
        let flagged = shapes::binding_checks::check_url_value(&format!("https://a{c}b"))
            .is_some_and(|m| m.ends_with("contains whitespace"));
        assert_eq!(flagged, c.is_whitespace(), "{:?}", c);
    }
}

#[test]
fn path_bindings_are_skipped_without_a_workspace_root() {
    let mut s = shape(1, &[], &[], &[]);
    s.realization = vec![Realization {
        bindings: vec![
            Binding { scheme: "path".into(), value: "../outside".into(), metadata: vec![] },
            Binding { scheme: "path".into(), value: "missing.rs".into(), metadata: vec![] },
        ],
        role: "primary".into(),
    }];
    let st = store(vec![s], vec![]);
    assert!(validate(&st, &None).iter().all(|i| i.invariant != "INV-017"));
    let checked = validate(&st, &Some(vec![]));
    assert_eq!(checked.iter().filter(|i| i.invariant == "INV-017").count(), 2);
}
