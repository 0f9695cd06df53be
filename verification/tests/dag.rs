use shapes::ids::{AmendmentId, ConstraintId, ShapeId};
use shapes::issues::ValidationIssue;
use shapes::model::{
    Amendment, AmendmentTargets, Archived, InitiatedBy, InitiatedType, Intent, ParentRef, Shape,
    Status, YamlKind, YamlValue,
};
use shapes::store::{NodeFile, Store};
use shapes::validate::validate;

fn make_shape(id: u64) -> Shape {
    Shape {
        id: ShapeId::new(id),
        name: format!("shape-{id}"),
        description: format!("shape-{id}"),
        profile: None,
        version: None,
        predecessors: vec![],
        status: Status::proposed(),
        intent: Intent {
            kind: "feature".into(),
            summary: format!("shape-{id}"),
            source: YamlValue { kind: YamlKind::String, text: "human".into(), canon: "human".into() },
            uris: vec![],
            extra: vec![],
        },
        constraints: vec![],
        realization: vec![],
        evidence: vec![],
        provenance: vec![],
        amendment_log: vec![],
        parents: vec![],
        children: vec![],
        metadata: vec![],
    }
}

fn make_amendment(id: u64, shape_targets: Vec<u64>) -> Amendment {
    Amendment {
        id: AmendmentId::new(id),
        name: format!("amendment-{id}"),
        description: format!("amendment-{id}"),
        targets: AmendmentTargets {
            shape_ids: shape_targets.into_iter().map(ShapeId::new).collect(),
            constraint_ids: vec![],
            profile_ids: vec![],
        },
        status: Status::proposed(),
        version_impact: None,
        intent: Intent {
            kind: "amendment".into(),
            summary: format!("amendment-{id}"),
            source: YamlValue { kind: YamlKind::String, text: "ai".into(), canon: "ai".into() },
            uris: vec![],
            extra: vec![],
        },
        constraints: vec![],
        realization: vec![],
        evidence: vec![],
        provenance: vec![],
        initiated_by: InitiatedBy {
            initiated_type: InitiatedType::Ai,
            identity: None,
            provenance: None,
        },
        archived: Archived::No,
        metadata: vec![],
    }
}

fn store_of(shapes: Vec<Shape>, amendments: Vec<Amendment>) -> Store {
    Store {
        shapes: shapes.into_iter().map(|s| NodeFile { id: s.id.get(), node: Ok(s) }).collect(),
        constraints: vec![],
        amendments: amendments
            .into_iter()
            .map(|a| NodeFile { id: a.id.get(), node: Ok(a) })
            .collect(),
        profiles: vec![],
    }
}

fn run(store: &Store) -> Vec<ValidationIssue> {
    validate(store, &None)
}

#[test]
fn dag_validate_detects_dangling_constraint_ref() {
    let mut shape = make_shape(1);
    shape.constraints = vec![ConstraintId::new(999)];
    let store = store_of(vec![shape], vec![]);

    let issues = run(&store);
    assert!(issues.iter().any(|i| i.invariant == "INV-003"));
}

#[test]
fn dag_validate_clean_graph() {
    let store = store_of(vec![], vec![]);
    let issues = run(&store);
    assert!(issues.is_empty());
}

#[test]
fn tests_validate_detects_dangling_constraint_ref() {
    let mut shape = make_shape(1);
    shape.constraints = vec![ConstraintId::new(999)];
    let store = store_of(vec![shape], vec![]);

    let issues = run(&store);
    assert!(issues.iter().any(|i| i.invariant == "INV-003"));
}

#[test]
fn tests_validate_clean_graph() {
    let store = store_of(vec![], vec![]);
    let issues = run(&store);
    assert!(issues.is_empty());
}

#[test]
fn validate_detects_missing_child_in_parent() {
    // Shape 1 names 2 as its parent, but 2 does not list 1 as a child.
    let mut a = make_shape(1);
    a.parents = vec![ParentRef { id: ShapeId::new(2), role: None, reason: None }];
    let b = make_shape(2);
    let store = store_of(vec![a, b], vec![]);

    let issues = run(&store);
    assert!(
        issues
            .iter()
            .any(|i| i.invariant == "INV-009" && i.node_id == "1" && i.message.contains("parent")),
        "expected INV-009 parent-without-child violation, got {issues:?}"
    );
}

#[test]
fn validate_detects_missing_amendment_in_log() {
    // Amendment 10 targets shape 1, but the shape's amendment log is empty.
    let shape = make_shape(1);
    let amendment = make_amendment(10, vec![1]);
    let store = store_of(vec![shape], vec![amendment]);

    let issues = run(&store);
    assert!(
        issues
            .iter()
            .any(|i| i.invariant == "INV-019" && i.node_type == "amendment" && i.node_id == "10"),
        "expected INV-019 missing-log violation, got {issues:?}"
    );
}

#[test]
fn validate_detects_orphan_entry_in_amendment_log() {
    // The shape logs amendment 10, which does not target it.
    let mut shape = make_shape(1);
    shape.amendment_log = vec![AmendmentId::new(10)];
    let amendment = make_amendment(10, vec![]);
    let store = store_of(vec![shape], vec![amendment]);

    let issues = run(&store);
    assert!(
        issues
            .iter()
            .any(|i| i.invariant == "INV-019" && i.node_type == "shape" && i.node_id == "1"),
        "expected INV-019 orphan-log-entry violation, got {issues:?}"
    );
}

#[test]
fn validate_accepts_reciprocal_amendment_log() {
    let mut shape = make_shape(1);
    shape.amendment_log = vec![AmendmentId::new(10)];
    let amendment = make_amendment(10, vec![1]);
    let store = store_of(vec![shape], vec![amendment]);

    let issues = run(&store);
    assert!(
        !issues.iter().any(|i| i.invariant == "INV-019"),
        "expected no INV-019 issues, got {issues:?}"
    );
}
