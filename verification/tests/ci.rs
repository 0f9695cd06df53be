use shapes::ci::{BaseTree, HeadAmendment, WorkTree, ci_check, collect_satisfied_targets};
use shapes::error::{CiCheckError, CliError};
use shapes::ids::{AmendmentId, ConstraintId, NodeType, ProfileId, ShapeId};
use shapes::issues::ValidationIssue;
use shapes::model::{
    Amendment, AmendmentTargets, Archived, Binding, Constraint, Enforcement, InitiatedBy, InitiatedType,
    Intent, MapEntry, Profile, Realization, Shape, ShapeChildRef, ShapeRef, Status, StatusDetail,
    YamlKind, YamlValue,
};
use shapes::templates::KitKind;

fn intent(kind: &str, summary: &str) -> Intent {
    Intent {
        kind: kind.into(),
        summary: summary.into(),
        source: YamlValue { kind: YamlKind::String, text: "human".into(), canon: "human".into() },
        uris: vec![],
        extra: vec![],
    }
}

fn shape(id: u64, status: Status) -> Shape {
    Shape {
        id: ShapeId::new(id),
        name: format!("shape-{id}"),
        description: format!("shape-{id}"),
        profile: None,
        version: None,
        predecessors: vec![],
        status,
        intent: intent("feature", "s"),
        constraints: vec![],
        realization: vec![],
        evidence: vec![],
        provenance: vec![],
        amendment_log: vec![],
        parents: vec![],
        children: vec![],
        metadata: vec![],
    }
}

fn constraint(id: u64, status: Status, rule: &str) -> Constraint {
    Constraint {
        id: ConstraintId::new(id),
        name: format!("constraint-{id}"),
        description: format!("constraint-{id}"),
        kind: "invariant".into(),
        rule: rule.into(),
        enforcement: Enforcement::Manual,
        profile: None,
        version: None,
        status,
        intent: intent("invariant", "s"),
        realization: vec![],
        evidence: vec![],
        provenance: vec![],
        amendment_log: vec![],
        parents: vec![],
        children: vec![],
        metadata: vec![],
    }
}

fn amendment(id: u64, shape_targets: Vec<u64>) -> Amendment {
    Amendment {
        id: AmendmentId::new(id),
        name: format!("amendment-{id}"),
        description: format!("amendment-{id}"),
        targets: AmendmentTargets {
            shape_ids: shape_targets.into_iter().map(ShapeId::new).collect(),
            constraint_ids: vec![],
            profile_ids: vec![],
        },
        status: Status::proposed(),
        version_impact: None,
        intent: intent("amendment", "a"),
        constraints: vec![],
        realization: vec![],
        evidence: vec![],
        provenance: vec![],
        initiated_by: InitiatedBy { initiated_type: InitiatedType::Ai, identity: None, provenance: None },
        archived: Archived::No,
        metadata: vec![],
    }
}

fn promoted() -> Status {
    Status::Promoted(StatusDetail::empty())
}

fn at(path: &str, a: Amendment) -> HeadAmendment {
    HeadAmendment { path: path.into(), amendment: a }
}

fn base_tree(shapes: Vec<Shape>, constraints: Vec<Constraint>, amendments: Vec<Amendment>) -> BaseTree {
    BaseTree { shapes, constraints, profiles: vec![], amendments }
}

fn work_tree(shapes: Vec<Shape>, constraints: Vec<Constraint>, amendments: Vec<HeadAmendment>) -> WorkTree {
    WorkTree { shapes, constraints, profiles: vec![], amendments }
}

fn check(base: &BaseTree, head: &WorkTree) -> (Vec<ValidationIssue>, Result<(), CliError>) {
    ci_check(base, head, ".shapes", &vec![".shapes/x.yaml".to_string()], false)
}

fn codes(issues: &[ValidationIssue]) -> Vec<(String, String, String)> {
    issues.iter().map(|i| (i.invariant.clone(), i.node_type.clone(), i.node_id.clone())).collect()
}

/// The profile `shapes init --kit software` seeds as id 1.
fn seeded_profile() -> Profile {
    let kit = KitKind::Software.kit();
    kit.build_profile(ProfileId::new(1), &format!("{} starter profile", kit.name))
}

/// A store fresh from `shapes init --kit software`, plus `shapes`,
/// `constraints` and `amendments` on top.
fn init_base(shapes: Vec<Shape>, constraints: Vec<Constraint>, amendments: Vec<Amendment>) -> BaseTree {
    BaseTree { shapes, constraints, profiles: vec![seeded_profile()], amendments }
}

fn init_work(shapes: Vec<Shape>, constraints: Vec<Constraint>, amendments: Vec<HeadAmendment>) -> WorkTree {
    WorkTree { shapes, constraints, profiles: vec![seeded_profile()], amendments }
}

/// What `shapes create shape --name <name> --kind feature --summary s` writes.
fn created_shape(id: u64, name: &str) -> Shape {
    let mut s = shape(id, Status::proposed());
    s.name = name.into();
    s.description = name.into();
    s.profile = Some(ProfileId::new(1));
    s
}

/// A promoted shape 1 named `name`, as `promoted_shape_on_base` leaves it.
fn promoted_shape(name: &str) -> Shape {
    let mut s = created_shape(1, name);
    s.status = promoted();
    s
}

/// What `shapes create amendment --name <name> --target-shape <id> --summary <summary>` writes.
fn created_amendment(id: u64, name: &str, shape_targets: Vec<u64>, profile_targets: Vec<u64>, summary: &str) -> Amendment {
    let mut a = amendment(id, shape_targets);
    a.name = name.into();
    a.description = name.into();
    a.targets.profile_ids = profile_targets.into_iter().map(ProfileId::new).collect();
    a.intent.summary = summary.into();
    a
}

/// The stderr lines `shapes ci-check` prints for a failing check.
fn stderr_of(issues: &[ValidationIssue], outcome: &Result<(), CliError>) -> String {
    let mut s = String::new();
    for i in issues {
        s.push_str(&i.render());
        s.push('\n');
    }
    if let Err(e) = outcome {
        s.push_str(&e.message());
        s.push('\n');
    }
    s
}

/// Runs the check the way `ci_check_fails` does: no
/// `--require-shapes-changes`, exit code 2 expected; returns stderr.
fn ci_check_fails(base: &BaseTree, head: &WorkTree) -> String {
    let (issues, outcome) = ci_check(base, head, ".shapes", &vec![".shapes/shapes/1-promoted.yaml".to_string()], false);
    match &outcome {
        Err(e) => assert_eq!(e.exit_code(), 2),
        Ok(()) => panic!("expected failure, got none: {issues:?}"),
    }
    stderr_of(&issues, &outcome)
}

fn ci_check_passes(base: &BaseTree, head: &WorkTree, require: bool) {
    let (issues, outcome) = ci_check(base, head, ".shapes", &vec![".shapes/shapes/1-x.yaml".to_string()], require);
    assert!(issues.is_empty(), "{issues:?}");
    assert!(outcome.is_ok());
}

#[test]
fn ci_001_no_shapes_changes_is_flagged() {
    let base = init_base(vec![], vec![], vec![]);
    let head = init_work(vec![], vec![], vec![]);
    // Only README.md changed: nothing under .shapes/.
    let (issues, outcome) = ci_check(&base, &head, ".shapes", &vec![], true);
    assert_eq!(issues.len(), 1);
    assert_eq!(issues[0].invariant, "CI-001");
    assert_eq!(issues[0].node_type, "pull-request");
    assert_eq!(issues[0].node_id, "-");
    assert_eq!(
        issues[0].message,
        "PR has no changes under .shapes (required by --require-shapes-changes)"
    );
    assert!(matches!(outcome, Err(CliError::CiCheck(CiCheckError::IssuesFound { count: 1 }))));
    assert_eq!(outcome.unwrap_err().exit_code(), 2);
}

#[test]
fn ci_001_off_by_default_passes() {
    let base = init_base(vec![], vec![], vec![]);
    let head = init_work(vec![], vec![], vec![]);
    let (issues, outcome) = ci_check(&base, &head, ".shapes", &vec![], false);
    assert!(issues.is_empty());
    assert!(outcome.is_ok());
}

#[test]
fn ci_001_with_shapes_changes_passes() {
    let base = init_base(vec![], vec![], vec![]);
    let head = init_work(vec![created_shape(1, "Touched")], vec![], vec![]);
    let (issues, outcome) =
        ci_check(&base, &head, ".shapes", &vec![".shapes/shapes/1-touched.yaml".to_string()], true);
    assert!(issues.is_empty(), "{issues:?}");
    assert!(outcome.is_ok());
}

#[test]
fn ci_002_proposed_shape_modification_is_not_flagged() {
    let base = init_base(vec![created_shape(1, "Drafty")], vec![], vec![]);
    let mut edited = created_shape(1, "Drafty");
    edited.intent.summary = "totally new summary".into();
    let head = init_work(vec![edited], vec![], vec![]);
    ci_check_passes(&base, &head, false);
}

#[test]
fn ci_002_promoted_shape_intent_change_without_amendment_fires() {
    let base = init_base(vec![promoted_shape("Promoted")], vec![], vec![]);
    let mut edited = promoted_shape("Promoted");
    edited.intent.summary = "rewritten".into();
    let head = init_work(vec![edited], vec![], vec![]);
    let stderr = ci_check_fails(&base, &head);
    assert!(stderr.contains("CI-002") && stderr.contains("1"), "expected CI-002 for promoted shape: {stderr}");
}

#[test]
fn ci_002_canonical_constraint_rule_change_without_amendment_fires() {
    let mut on_base = constraint(1, Status::canonical(), "old text");
    on_base.name = "RuleX".into();
    let mut edited = constraint(1, Status::canonical(), "new text completely different");
    edited.name = "RuleX".into();
    let base = init_base(vec![], vec![on_base], vec![]);
    let head = init_work(vec![], vec![edited], vec![]);
    let stderr = ci_check_fails(&base, &head);
    assert!(stderr.contains("CI-002") && stderr.contains("1"), "expected CI-002 for canonical constraint: {stderr}");
    assert!(stderr.contains("constraint 1 was modified on a canonical base"), "{stderr}");
}

#[test]
fn ci_002_promoted_shape_change_with_satisfying_amendment_passes() {
    let base = init_base(vec![promoted_shape("Promoted")], vec![], vec![]);
    let mut edited = promoted_shape("Promoted");
    edited.intent.summary = "rewritten".into();
    let fix = created_amendment(1, "fix", vec![1], vec![], "fixes the promoted shape");
    let head = init_work(vec![edited], vec![], vec![at(".shapes/amendments/1-fix.yaml", fix)]);
    ci_check_passes(&base, &head, false);
}

#[test]
fn ci_002_realization_only_change_fires() {
    let base = init_base(vec![promoted_shape("Promoted")], vec![], vec![]);
    let mut edited = promoted_shape("Promoted");
    edited.realization = vec![Realization {
        bindings: vec![Binding {
            scheme: "path".into(),
            value: "Cargo.toml".into(),
            metadata: vec![MapEntry {
                key: "summary".into(),
                value: YamlValue { kind: YamlKind::String, text: "arbitrary realization".into(), canon: "arbitrary realization".into() },
            }],
        }],
        role: "primary".into(),
    }];
    let head = init_work(vec![edited], vec![], vec![]);
    let stderr = ci_check_fails(&base, &head);
    assert!(stderr.contains("CI-002") && stderr.contains("1"), "expected CI-002 for realization-only change: {stderr}");
}

#[test]
fn ci_002_promoted_shape_constraint_list_change_fires() {
    let base = init_base(vec![promoted_shape("Promoted")], vec![], vec![]);
    let mut edited = promoted_shape("Promoted");
    edited.constraints = vec![ConstraintId::new(99)];
    let head = init_work(vec![edited], vec![], vec![]);
    let stderr = ci_check_fails(&base, &head);
    assert!(stderr.contains("CI-002") && stderr.contains("1"), "expected CI-002 for constraint list change: {stderr}");
}

#[test]
fn ci_002_promoted_shape_deletion_fires() {
    let base = init_base(vec![promoted_shape("Promoted")], vec![], vec![]);
    let head = init_work(vec![], vec![], vec![]);
    let stderr = ci_check_fails(&base, &head);
    assert!(
        stderr.contains("CI-002") && stderr.contains("1") && stderr.contains("deleted"),
        "expected CI-002 deletion: {stderr}"
    );
    assert!(stderr.contains("shape 1 was deleted on a promoted base, but no amendment in this PR targets it"));
}

#[test]
fn ci_002_new_shape_in_pr_does_not_require_amendment() {
    let base = init_base(vec![], vec![], vec![]);
    let head = init_work(vec![created_shape(1, "Brandnew")], vec![], vec![]);
    ci_check_passes(&base, &head, true);
}

#[test]
fn ci_003_modified_amendment_fires_and_does_not_satisfy_ci_002() {
    let prior = created_amendment(1, "PriorFix", vec![1], vec![], "fixed yesterday");
    let base = init_base(vec![promoted_shape("Promoted")], vec![], vec![prior.clone()]);
    let mut edited = promoted_shape("Promoted");
    edited.intent.summary = "rewritten".into();
    let mut tampered = prior;
    tampered.name = "TamperedName".into();
    let head = init_work(vec![edited], vec![], vec![at(".shapes/amendments/1-priorfix.yaml", tampered)]);
    let stderr = ci_check_fails(&base, &head);
    assert!(stderr.contains("CI-003"), "expected CI-003 fired: {stderr}");
    assert!(
        stderr.contains("CI-002"),
        "expected CI-002 to still fire because the modified amendment does not satisfy: {stderr}"
    );
}

#[test]
fn ci_002_canonical_profile_name_change_without_amendment_fires() {
    let base = init_base(vec![], vec![], vec![]);
    let mut renamed = seeded_profile();
    renamed.name = "renamed".into();
    let head = WorkTree { shapes: vec![], constraints: vec![], profiles: vec![renamed], amendments: vec![] };
    let stderr = ci_check_fails(&base, &head);
    assert!(stderr.contains("CI-002") && stderr.contains("profile 1"), "expected CI-002 for canonical profile: {stderr}");
}

#[test]
fn ci_002_canonical_profile_change_with_satisfying_amendment_passes() {
    let base = init_base(vec![], vec![], vec![]);
    let mut renamed = seeded_profile();
    renamed.name = "renamed".into();
    let fix = created_amendment(1, "fix", vec![], vec![1], "fixes the canonical profile");
    let head = WorkTree {
        shapes: vec![],
        constraints: vec![],
        profiles: vec![renamed],
        amendments: vec![at(".shapes/amendments/1-fix.yaml", fix)],
    };
    ci_check_passes(&base, &head, false);
}

#[test]
fn ci_003_deleted_amendment_fires() {
    let prior = created_amendment(1, "PriorFix", vec![1], vec![], "fixed yesterday");
    let base = init_base(vec![promoted_shape("Promoted")], vec![], vec![prior]);
    let head = init_work(vec![promoted_shape("Promoted")], vec![], vec![]);
    let stderr = ci_check_fails(&base, &head);
    assert!(
        stderr.contains("CI-003") && stderr.contains("deleted") && stderr.contains("amendment 1"),
        "expected CI-003 for deleted amendment: {stderr}"
    );
    assert!(!stderr.contains("CI-002"), "{stderr}");
}

#[test]
fn ci_003_archive_only_change_passes() {
    let prior = created_amendment(1, "PriorFix", vec![1], vec![], "fixed yesterday");
    let base = init_base(vec![promoted_shape("Promoted")], vec![], vec![prior.clone()]);
    let mut archived = prior;
    archived.archived = Archived::yes();
    let head = init_work(vec![promoted_shape("Promoted")], vec![], vec![at(".shapes/amendments/1-priorfix.yaml", archived)]);
    ci_check_passes(&base, &head, false);
}

#[test]
fn ci_003_archive_plus_other_field_change_fires() {
    let prior = created_amendment(1, "PriorFix", vec![1], vec![], "fixed yesterday");
    let base = init_base(vec![promoted_shape("Promoted")], vec![], vec![prior.clone()]);
    let mut tampered = prior;
    tampered.archived = Archived::yes();
    tampered.name = "TamperedName".into();
    let head = init_work(vec![promoted_shape("Promoted")], vec![], vec![at(".shapes/amendments/1-priorfix.yaml", tampered)]);
    let stderr = ci_check_fails(&base, &head);
    assert!(stderr.contains("CI-003"), "expected CI-003 when archived + other field changed: {stderr}");
}

#[test]
fn ci_002_full_shapes_dir_deletion_fires() {
    let base = init_base(vec![promoted_shape("Promoted")], vec![], vec![]);
    let head = WorkTree { shapes: vec![], constraints: vec![], profiles: vec![], amendments: vec![] };
    let stderr = ci_check_fails(&base, &head);
    assert!(
        stderr.contains("CI-002") && stderr.contains("shape 1") && stderr.contains("deleted"),
        "expected CI-002 deletion for full .shapes/ removal: {stderr}"
    );
}

#[test]
fn ci_check_clean_stderr() {
    let base = init_base(vec![promoted_shape("Promoted")], vec![], vec![]);
    let mut edited = promoted_shape("Promoted");
    edited.intent.summary = "snapshot fixture rewrite".into();
    let mut satisfy = created_amendment(1, "satisfy", vec![1], vec![], "rewrite promoted intent");
    satisfy.intent.source = YamlValue { kind: YamlKind::String, text: "ai".into(), canon: "ai".into() };
    let head = init_work(vec![edited], vec![], vec![at(".shapes/amendments/1-satisfy.yaml", satisfy)]);
    let (issues, outcome) = ci_check(&base, &head, ".shapes", &vec![".shapes/shapes/1-promoted.yaml".to_string()], false);
    assert!(issues.is_empty(), "{issues:?}");
    assert!(outcome.is_ok());
}

#[test]
fn ci_check_ci001_stderr() {
    let base = init_base(vec![], vec![], vec![]);
    let head = init_work(vec![], vec![], vec![]);
    let (issues, outcome) = ci_check(&base, &head, ".shapes", &vec![], true);
    assert_eq!(outcome.as_ref().unwrap_err().exit_code(), 2);
    assert_eq!(
        stderr_of(&issues, &outcome),
        "[error] [CI-001] pull-request:- — PR has no changes under .shapes (required by --require-shapes-changes)\n\
         1 ci-check issue(s) found\n"
    );
}

#[test]
fn ci_check_ci002_stderr() {
    let base = init_base(vec![promoted_shape("Promoted")], vec![], vec![]);
    let mut edited = promoted_shape("Promoted");
    edited.intent.summary = "snapshot fixture rewrite".into();
    let head = init_work(vec![edited], vec![], vec![]);
    assert_eq!(
        ci_check_fails(&base, &head),
        "[error] [CI-002] shape:1 — shape 1 was modified on a promoted base, but no amendment in this PR targets it\n\
         1 ci-check issue(s) found\n"
    );
}

#[test]
fn promoted_shape_rename_without_amendment_fires() {
    let base = base_tree(vec![shape(1, promoted())], vec![], vec![]);
    let mut edited = shape(1, promoted());
    edited.name = "renamed".into();
    let head = work_tree(vec![edited], vec![], vec![]);
    let (issues, outcome) = check(&base, &head);
    assert_eq!(codes(&issues), vec![("CI-002".into(), "shape".into(), "1".into())]);
    assert_eq!(
        issues[0].message,
        "shape 1 was modified on a promoted base, but no amendment in this PR targets it"
    );
    assert!(matches!(outcome, Err(CliError::CiCheck(CiCheckError::IssuesFound { count: 1 }))));
}

#[test]
fn new_amendment_targeting_the_shape_satisfies_ci002() {
    let base = base_tree(vec![shape(1, promoted())], vec![], vec![]);
    let mut edited = shape(1, promoted());
    edited.name = "renamed".into();
    let head = work_tree(vec![edited], vec![], vec![at(".shapes/amendments/2-a.yaml", amendment(2, vec![1]))]);
    let (issues, outcome) = check(&base, &head);
    assert!(issues.is_empty(), "{issues:?}");
    assert!(outcome.is_ok());
}

#[test]
fn amendment_targeting_another_shape_does_not_satisfy() {
    let base = base_tree(vec![shape(1, promoted())], vec![], vec![]);
    let mut edited = shape(1, promoted());
    edited.description = "changed".into();
    let head = work_tree(vec![edited], vec![], vec![at(".shapes/amendments/2-a.yaml", amendment(2, vec![7]))]);
    let (issues, _) = check(&base, &head);
    assert_eq!(codes(&issues), vec![("CI-002".into(), "shape".into(), "1".into())]);
}

#[test]
fn unmonitored_fields_may_change_freely() {
    let base = base_tree(vec![shape(1, promoted())], vec![], vec![]);
    let mut edited = shape(1, Status::canonical());
    edited.version = Some("2".into());
    edited.amendment_log = vec![AmendmentId::new(4)];
    let head = work_tree(vec![edited], vec![], vec![]);
    let (issues, outcome) = check(&base, &head);
    assert!(issues.is_empty(), "{issues:?}");
    assert!(outcome.is_ok());
}

#[test]
fn inline_child_edit_counts_as_a_change() {
    let mut base_shape = shape(1, promoted());
    base_shape.children = vec![ShapeChildRef {
        shape: ShapeRef::Inline(Box::new(shape(9, Status::proposed()))),
        role: None,
        reason: None,
    }];
    let mut child = shape(9, Status::proposed());
    child.metadata = vec![];
    child.name = "other".into();
    let mut head_shape = shape(1, promoted());
    head_shape.children = vec![ShapeChildRef { shape: ShapeRef::Inline(Box::new(child)), role: None, reason: None }];
    let base = base_tree(vec![base_shape], vec![], vec![]);
    let head = work_tree(vec![head_shape], vec![], vec![]);
    let (issues, _) = check(&base, &head);
    assert_eq!(codes(&issues), vec![("CI-002".into(), "shape".into(), "1".into())]);
}

#[test]
fn renamed_amendment_file_is_unchanged() {
    let base = base_tree(vec![], vec![], vec![amendment(5, vec![1])]);
    let head = work_tree(vec![], vec![], vec![at(".shapes/amendments/5-new-name.yaml", amendment(5, vec![1]))]);
    let (issues, outcome) = check(&base, &head);
    assert!(issues.is_empty());
    assert!(outcome.is_ok());
}

#[test]
fn later_file_with_same_id_stands_for_it() {
    let mut first = shape(1, promoted());
    first.name = "first".into();
    let base = base_tree(vec![first, shape(1, promoted())], vec![], vec![]);
    let head = work_tree(vec![shape(1, promoted())], vec![], vec![]);
    let (issues, _) = check(&base, &head);
    assert!(issues.is_empty(), "{issues:?}");
}

#[test]
fn satisfied_targets_come_from_new_amendments_only() {
    let base = vec![amendment(1, vec![10])];
    let mut extra = amendment(2, vec![21, 20, 21]);
    extra.targets.constraint_ids = vec![ConstraintId::new(30)];
    let head = vec![at("a", amendment(1, vec![10])), at("b", extra)];
    let mut issues = Vec::new();
    let sat = collect_satisfied_targets(&base, &head, &mut issues);
    assert!(issues.is_empty());
    assert_eq!(sat.ids(NodeType::Shape), vec![20, 21]);
    assert_eq!(sat.ids(NodeType::Constraint), vec![30]);
    assert!(sat.ids(NodeType::Profile).is_empty());
}

#[test]
fn reordered_nested_mapping_is_unchanged() {
    let mut on_base = promoted_shape("Promoted");
    on_base.intent.extra = vec![MapEntry {
        key: "limits".into(),
        value: YamlValue { kind: YamlKind::Mapping, text: "a: 1\nb: 2".into(), canon: "a: 1\nb: 2".into() },
    }];
    let mut reordered = promoted_shape("Promoted");
    reordered.intent.extra = vec![MapEntry {
        key: "limits".into(),
        value: YamlValue { kind: YamlKind::Mapping, text: "b: 2\na: 1".into(), canon: "a: 1\nb: 2".into() },
    }];
    let base = init_base(vec![on_base], vec![], vec![]);
    let head = init_work(vec![reordered], vec![], vec![]);
    ci_check_passes(&base, &head, false);
    let mut changed = promoted_shape("Promoted");
    changed.intent.extra = vec![MapEntry {
        key: "limits".into(),
        value: YamlValue { kind: YamlKind::Mapping, text: "a: 1\nb: 3".into(), canon: "a: 1\nb: 3".into() },
    }];
    let head = init_work(vec![changed], vec![], vec![]);
    assert!(ci_check_fails(&base, &head).contains("CI-002"));
}
