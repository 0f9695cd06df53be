use shapes::create::{CreateAmendmentArgs, CreateProfileArgs, archive, create_amendment, create_profile, unarchive};
use shapes::ids::{AmendmentId, ConstraintId, NodeType, ProfileId, ShapeId};
use shapes::migrate::{
    AmendmentDoc, ArchivedEdit, ArchivedField, MigrateError, migrate_0_1_to_0_2, run_migrations,
};
use shapes::model::{Archived, InitiatedType, Intent, Shape, Status, YamlKind, YamlValue};
use shapes::queries::{PatchedLog, list, patch_amendment_log};
use shapes::scaffold::{yaml_block, yaml_string};
use shapes::store::{NodeFile, Store};
use shapes::templates::KitKind;
use shapes::version::StoreVersion;

fn shape(id: u64, kind: &str, status: Status) -> Shape {
    Shape {
        id: ShapeId::new(id),
        name: format!("shape-{id}"),
        description: "d".into(),
        profile: None,
        version: None,
        predecessors: vec![],
        status,
        intent: Intent {
            kind: kind.into(),
            summary: "s".into(),
            source: YamlValue { kind: YamlKind::String, text: "human".into(), canon: "human".into() },
            uris: vec![],
            extra: vec![],
        },
        constraints: vec![],
        realization: vec![],
        evidence: vec![],
        provenance: vec![],
        amendment_log: vec![],
        parents: vec![],
        children: vec![],
        metadata: vec![],
    }
}

fn empty_store() -> Store {
    Store { shapes: vec![], constraints: vec![], amendments: vec![], profiles: vec![] }
}

#[test]
fn list_filters_by_status_and_kind() {
    let mut st = empty_store();
    st.shapes = vec![
        NodeFile { id: 1, node: Ok(shape(1, "feature", Status::proposed())) },
        NodeFile { id: 2, node: Ok(shape(2, "bugfix", Status::canonical())) },
    ];
    let all = list(&st, None, &None, &None).unwrap();
    let rows: Vec<(String, u64, String, String)> =
        all.iter().map(|e| (e.node_type.clone(), e.id, e.status.clone(), e.kind.clone())).collect();
    assert_eq!(
        rows,
        vec![
            ("shape".to_string(), 1, "proposed".to_string(), "feature".to_string()),
            ("shape".to_string(), 2, "canonical".to_string(), "bugfix".to_string()),
        ]
    );
    let canon = list(&st, Some(NodeType::Shape), &Some("canonical".to_string()), &None).unwrap();
    assert_eq!(canon.len(), 1);
    assert_eq!(canon[0].id, 2);
    let feature = list(&st, None, &None, &Some("feature".to_string())).unwrap();
    assert_eq!(feature.len(), 1);
    assert_eq!(feature[0].name, "shape-1");
}

#[test]
fn list_fails_on_unparsable_node() {
    let mut st = empty_store();
    st.shapes = vec![NodeFile { id: 3, node: Err("broken".into()) }];
    assert!(list(&st, None, &None, &None).is_err());
    assert!(list(&st, Some(NodeType::Constraint), &None, &None).unwrap().is_empty());
}

#[test]
fn amendment_log_patching() {
    match patch_amendment_log(&vec![1, 2, 3], &vec![2], false) {
        PatchedLog::Filtered(v) => assert_eq!(v, vec![1, 3]),
        _ => panic!("expected a filtered log"),
    }
    match patch_amendment_log(&vec![1, 2], &vec![2], true) {
        PatchedLog::Annotated(v) => assert_eq!(v, vec![(1, false), (2, true)]),
        _ => panic!("expected an annotated log"),
    }
    assert!(matches!(patch_amendment_log(&vec![2], &vec![2], false), PatchedLog::Removed));
}

#[test]
fn create_amendment_from_flags() {
    let args = CreateAmendmentArgs {
        name: Some("Tighten auth".into()),
        target_shapes: vec![ShapeId::new(4)],
        target_constraints: vec![ConstraintId::new(2)],
        target_profiles: vec![],
        summary: None,
        source: "human".into(),
        version_impact: None,
        description: None,
        from: None,
    };
    let a = create_amendment(AmendmentId::new(9), args);
    assert_eq!(a.id.get(), 9);
    assert_eq!(a.name, "Tighten auth");
    assert_eq!(a.description, "Tighten auth");
    assert_eq!(a.intent.summary, "Tighten auth");
    assert_eq!(a.intent.kind, "amendment");
    assert_eq!(a.targets.shape_ids, vec![ShapeId::new(4)]);
    assert!(matches!(a.status, Status::Proposed(_)));
    assert!(matches!(a.initiated_by.initiated_type, InitiatedType::Human));
    assert!(matches!(a.archived, Archived::No));
}

#[test]
fn archive_and_unarchive_toggle_only_the_flag() {
    let args = CreateAmendmentArgs {
        name: Some("A".into()),
        target_shapes: vec![],
        target_constraints: vec![],
        target_profiles: vec![],
        summary: Some("sum".into()),
        source: "ai".into(),
        version_impact: None,
        description: Some("desc".into()),
        from: None,
    };
    let a = create_amendment(AmendmentId::new(1), args);
    let archived = archive(a, Some("superseded".into()));
    assert!(archived.is_archived());
    assert!(matches!(&archived.archived, Archived::Yes(Some(r)) if r == "superseded"));
    let again = archive(archived, None);
    assert!(matches!(&again.archived, Archived::Yes(Some(r)) if r == "superseded"));
    let archived = again;
    assert_eq!(archived.description, "desc");
    let back = unarchive(archived);
    assert!(!back.is_archived());
    assert_eq!(back.intent.summary, "sum");
}

#[test]
fn create_profile_takes_next_id_and_kit() {
    let st = empty_store();
    let p = create_profile(&st, &CreateProfileArgs { name: Some("Team".into()), kit: None, from: None });
    assert_eq!(p.id, ProfileId::new(1));
    assert_eq!(p.name, "Team");
    let q = create_profile(
        &st,
        &CreateProfileArgs { name: Some("Research".into()), kit: Some(KitKind::Research), from: None },
    );
    assert_eq!(q.name, "Research");
}

#[test]
fn migrations_chain_to_current() {
    let steps = run_migrations(StoreVersion::new(0, 1, 0)).unwrap();
    assert_eq!(steps.len(), 1);
    assert_eq!(steps[0].to, StoreVersion::new(0, 2, 0));
    assert!(run_migrations(StoreVersion::new(0, 2, 0)).unwrap().is_empty());
    let newer = run_migrations(StoreVersion::new(0, 3, 0)).unwrap_err();
    assert_eq!(newer, MigrateError::Newer { on_disk: StoreVersion::new(0, 3, 0) });
    assert_eq!(
        newer.message(),
        "store version 0.3.0 is newer than this CLI supports (0.2.0). Upgrade the `shapes` binary instead of downgrading the store."
    );
    let unknown = run_migrations(StoreVersion::new(0, 0, 5)).unwrap_err();
    assert_eq!(
        unknown.message(),
        "unknown store version 0.0.5. This CLI knows how to migrate to 0.2.0 but has no registered step from 0.0.5."
    );
}

#[test]
fn archived_flags_become_reasons() {
    let docs = vec![
        AmendmentDoc { path: "a/1.yaml".into(), archived: ArchivedField::Flag(true) },
        AmendmentDoc { path: "a/2.yaml".into(), archived: ArchivedField::Missing },
        AmendmentDoc { path: "a/3.yaml".into(), archived: ArchivedField::Flag(false) },
        AmendmentDoc { path: "a/4.yaml".into(), archived: ArchivedField::Detail },
    ];
    let (edits, result, failure) = migrate_0_1_to_0_2(&docs);
    assert!(failure.is_none());
    assert!(matches!(&edits[0], ArchivedEdit::SetReason(r) if r == "Migrated from legacy boolean field — please update"));
    assert!(matches!(edits[1], ArchivedEdit::Keep));
    assert!(matches!(edits[2], ArchivedEdit::Remove));
    assert!(matches!(edits[3], ArchivedEdit::Keep));
    assert_eq!(result.changed_files, vec!["a/1.yaml".to_string(), "a/3.yaml".to_string()]);
    assert_eq!(result.action_items.len(), 1);
}

#[test]
fn unexpected_archived_value_stops_the_step() {
    let docs = vec![
        AmendmentDoc { path: "a/1.yaml".into(), archived: ArchivedField::Missing },
        AmendmentDoc { path: "a/2.yaml".into(), archived: ArchivedField::Other("String(\"x\")".into()) },
    ];
    let (edits, result, failure) = migrate_0_1_to_0_2(&docs);
    assert_eq!(edits.len(), 1);
    assert!(result.changed_files.is_empty());
    assert!(result.action_items.is_empty());
    assert_eq!(
        failure.unwrap(),
        "unexpected `archived` value in a/2.yaml: String(\"x\") — expected bool or mapping"
    );
}

#[test]
fn yaml_scalars_are_quoted_and_blocked() {
    assert_eq!(yaml_string("plain"), "\"plain\"");
    assert_eq!(yaml_string("say \"hi\"\\"), "\"say \\\"hi\\\"\\\\\"");
    assert_eq!(yaml_block("line one\nline two"), "|\n    line one\n    line two");
    assert_eq!(yaml_block(""), "|");
}

use shapes::create::{CreateShapeArgs, create_shape};
use shapes::error::{CliError, CreateError};

fn software_store() -> Store {
    let profile = KitKind::Software.kit().build_profile(ProfileId::new(1), "Software starter profile");
    let mut st = empty_store();
    st.profiles = vec![NodeFile { id: 1, node: Ok(profile) }];
    st
}

fn shape_args(kind: Option<&str>) -> CreateShapeArgs {
    CreateShapeArgs {
        name: Some("Login flow".into()),
        kind: kind.map(|k| k.to_string()),
        summary: Some("users sign in".into()),
        source: "human".into(),
        profile: None,
        description: None,
        kit: None,
        store_kit: Some(KitKind::Software),
        from: None,
    }
}

#[test]
fn create_shape_defaults_kind_from_profile() {
    let st = software_store();
    let c = create_shape(&st, &shape_args(None), ProfileId::new(1)).unwrap();
    assert_eq!(c.id, 1);
    assert_eq!(c.name, "Login flow");
    assert!(c.yaml.contains("id: 1\nname: \"Login flow\"\n"), "{}", c.yaml);
    assert!(c.yaml.contains("profile: 1\nstatus: proposed\nintent:\n  kind: \"feature\"\n"), "{}", c.yaml);
    assert!(c.yaml.contains("  summary: \"users sign in\"\n  source: \"human\"\n"), "{}", c.yaml);
}

#[test]
fn create_shape_rejects_kind_outside_allow_list() {
    let st = software_store();
    match create_shape(&st, &shape_args(Some("nonsense")), ProfileId::new(1)) {
        Err(CliError::Create(e)) => {
            assert!(matches!(&e, CreateError::InvalidKind { kind, profile_id: 1, .. } if kind == "nonsense"));
            assert!(e.message().starts_with("kind 'nonsense' not allowed by profile 1 — allowed: "), "{}", e.message());
        },
        _ => panic!("expected an invalid-kind error"),
    }
}

#[test]
fn create_shape_needs_a_loadable_profile() {
    let st = empty_store();
    match create_shape(&st, &shape_args(None), ProfileId::new(3)) {
        Err(CliError::Other(m)) => assert_eq!(
            m,
            "failed to load active profile 3 referenced by .shapes/meta.yaml: profile 3 not found"
        ),
        _ => panic!("expected a profile-load error"),
    }
}

use shapes::create::{CreateCommand, CreateOutcome, create};

#[test]
fn create_dispatches_by_kind() {
    let mut st = software_store();
    st.shapes = vec![NodeFile { id: 4, node: Ok(shape(4, "feature", Status::proposed())) }];
    let mut from_file = shape_args(None);
    from_file.from = Some("new.yaml".into());
    match create(&st, CreateCommand::Shape(from_file), ProfileId::new(1)).unwrap() {
        CreateOutcome::FromFile { node_type, id, path } => {
            assert_eq!(node_type, NodeType::Shape);
            assert_eq!(id, 5);
            assert_eq!(path, "new.yaml");
        },
        other => panic!("unexpected {other:?}"),
    }
    match create(&st, CreateCommand::Shape(shape_args(None)), ProfileId::new(1)).unwrap() {
        CreateOutcome::Scaffold { node_type, created } => {
            assert_eq!(node_type, NodeType::Shape);
            assert_eq!(created.id, 5);
        },
        other => panic!("unexpected {other:?}"),
    }
    let profile = CreateProfileArgs { name: Some("Second".into()), kit: Some(KitKind::Minimal), from: None };
    match create(&st, CreateCommand::Profile(profile), ProfileId::new(1)).unwrap() {
        CreateOutcome::Profile(p) => assert_eq!(p.id, ProfileId::new(2)),
        other => panic!("unexpected {other:?}"),
    }
}

use shapes::ids::DagType;
use shapes::model::{Constraint, Enforcement, MapEntry, ParentRef, ShapeChildRef, ShapeRef};
use shapes::queries::get;
use shapes::tree::tree;
use shapes::validate::validate;
use shapes::walk::{ancestors, descendants, effective_constraints};

fn text(s: &str) -> YamlValue {
    YamlValue { kind: YamlKind::String, text: s.into(), canon: s.into() }
}

fn field(key: &str, value: &str) -> MapEntry {
    MapEntry { key: key.into(), value: text(value) }
}

/// A shape as `shapes create shape --from -` reads it.
fn shape_from_yaml(id: u64, name: &str, kind: &str) -> Shape {
    let mut s = shape(id, kind, Status::proposed());
    s.name = name.into();
    s.intent.extra = vec![field("goals", "g"), field("rationale", "r")];
    s
}

fn amendment_args(name: &str, shapes: Vec<u64>, summary: &str) -> CreateAmendmentArgs {
    CreateAmendmentArgs {
        name: Some(name.into()),
        target_shapes: shapes.into_iter().map(ShapeId::new).collect(),
        target_constraints: vec![],
        target_profiles: vec![],
        summary: Some(summary.into()),
        source: "ai".into(),
        version_impact: None,
        description: None,
        from: None,
    }
}

#[test]
fn amendment_create_via_flags_succeeds() {
    let mut st = software_store();
    let mut target = shape_args(Some("feature"));
    target.name = Some("Target".into());
    let created = create_shape(&st, &target, ProfileId::new(1)).unwrap();
    assert_eq!(created.id, 1);
    st.shapes = vec![NodeFile { id: 1, node: Ok(shape(1, "feature", Status::proposed())) }];
    match create(&st, CreateCommand::Amendment(amendment_args("Test Amendment", vec![1], "what changed")), ProfileId::new(1))
        .unwrap()
    {
        CreateOutcome::Amendment(a) => {
            assert_eq!(a.id, AmendmentId::new(1));
            assert_eq!(a.name, "Test Amendment");
            assert_eq!(a.targets.shape_ids, vec![ShapeId::new(1)]);
            assert_eq!(a.intent.summary, "what changed");
        },
        other => panic!("unexpected {other:?}"),
    }
}

/// The store after `shapes create profile --name Strict`: the seeded
/// profile 1 and the new profile 2.
fn store_with_strict_profile() -> Store {
    let mut st = software_store();
    match create(
        &st,
        CreateCommand::Profile(CreateProfileArgs { name: Some("Strict".into()), kit: None, from: None }),
        ProfileId::new(1),
    )
    .unwrap()
    {
        CreateOutcome::Profile(p) => {
            assert_eq!(p.id, ProfileId::new(2));
            st.profiles.push(NodeFile { id: 2, node: Ok(p) });
        },
        other => panic!("unexpected {other:?}"),
    }
    st
}

#[test]
fn profile_kind_validation_rejects_disallowed_kind() {
    let st = store_with_strict_profile();
    let mut args = shape_args(Some("nonsense"));
    args.name = Some("BadKind".into());
    args.profile = Some(1);
    match create_shape(&st, &args, ProfileId::new(1)) {
        Err(CliError::Create(e)) => {
            let stderr = e.message();
            assert!(stderr.contains("not allowed") && stderr.contains("nonsense"), "expected kind rejection, got: {stderr}");
        },
        _ => panic!("expected kind rejection"),
    }
}

#[test]
fn profile_kind_validation_accepts_allowed_kind() {
    let st = store_with_strict_profile();
    let mut args = shape_args(Some("feature"));
    args.name = Some("GoodKind".into());
    args.profile = Some(1);
    assert!(create_shape(&st, &args, ProfileId::new(1)).is_ok());
}

#[test]
fn list_and_tree_and_inheritance_work_after_linking_parent_and_child() {
    let mut st = software_store();
    let rule = Constraint {
        id: ConstraintId::new(1),
        name: "TheRule".into(),
        description: "d".into(),
        kind: "invariant".into(),
        rule: "r".into(),
        enforcement: Enforcement::Machine,
        profile: None,
        version: None,
        status: Status::proposed(),
        intent: Intent {
            kind: "invariant".into(),
            summary: "s".into(),
            source: text("human"),
            uris: vec![],
            extra: vec![field("rationale", "r"), field("impact_if_violated", "i")],
        },
        realization: vec![],
        evidence: vec![],
        provenance: vec![],
        amendment_log: vec![],
        parents: vec![],
        children: vec![],
        metadata: vec![],
    };
    let mut parent = shape_from_yaml(1, "parent-shape", "service");
    parent.children = vec![ShapeChildRef {
        shape: ShapeRef::Id(ShapeId::new(2)),
        role: Some("component".into()),
        reason: None,
    }];
    parent.constraints = vec![ConstraintId::new(1)];
    let mut child = shape_from_yaml(2, "child-shape", "feature");
    child.parents = vec![ParentRef { id: ShapeId::new(1), role: Some("component".into()), reason: None }];
    st.constraints = vec![NodeFile { id: 1, node: Ok(rule) }];
    st.shapes = vec![NodeFile { id: 1, node: Ok(parent) }, NodeFile { id: 2, node: Ok(child) }];

    let issues = validate(&st, &None);
    assert!(issues.is_empty(), "{issues:?}");

    let names: Vec<String> = list(&st, Some(NodeType::Shape), &None, &None).unwrap().into_iter().map(|e| e.name).collect();
    assert!(names.contains(&"parent-shape".to_string()));
    assert!(names.contains(&"child-shape".to_string()));

    let services: Vec<String> = list(&st, Some(NodeType::Shape), &None, &Some("service".to_string()))
        .unwrap()
        .into_iter()
        .map(|e| e.name)
        .collect();
    assert!(services.contains(&"parent-shape".to_string()));
    assert!(!services.contains(&"child-shape".to_string()));

    let (lines, failed) = tree(&st, DagType::Shape, None, 10);
    assert!(failed.is_none());
    let tree_out = lines.join("\n");
    assert!(tree_out.contains("parent-shape"));
    assert!(tree_out.contains("child-shape"));

    assert!(ancestors(&st, DagType::Shape, 2).unwrap().contains(&1), "ancestors should include 1");
    assert!(descendants(&st, DagType::Shape, 1).unwrap().contains(&2), "descendants should include 2");

    let inherited: Vec<String> = effective_constraints(&st, 2).into_iter().map(|r| r.constraint_name).collect();
    assert!(inherited.contains(&"TheRule".to_string()), "child should inherit TheRule from parent: {inherited:?}");
}

#[test]
fn validate_detects_dangling_child_reference() {
    let mut st = software_store();
    let mut lonely = shape_from_yaml(1, "lonely", "feature");
    lonely.children = vec![ShapeChildRef {
        shape: ShapeRef::Id(ShapeId::new(999)),
        role: Some("component".into()),
        reason: None,
    }];
    st.shapes = vec![NodeFile { id: 1, node: Ok(lonely) }];
    let issues = validate(&st, &None);
    assert!(!issues.is_empty());
    let err = CliError::Validation(shapes::error::ValidationError::IssuesFound { count: issues.len() });
    assert_eq!(err.exit_code(), 2);
}

#[test]
fn get_missing_id_returns_not_found_error() {
    let st = software_store();
    let err = get(&st, NodeType::Shape, 999, false).unwrap_err();
    assert!(err.message().to_lowercase().contains("not found"), "got: {}", err.message());
}

#[test]
fn validate_supports_json_format() {
    let st = software_store();
    assert!(validate(&st, &None).is_empty());
}

use shapes::create::{CreateConstraintArgs, create_constraint};

/// The store `shapes init --kit <kit>` leaves: the seeded profile 1.
fn fresh_store(kit: KitKind) -> Store {
    let k = kit.kit();
    let profile = k.build_profile(ProfileId::new(1), &format!("{} starter profile", k.name));
    let mut st = empty_store();
    st.profiles = vec![NodeFile { id: 1, node: Ok(profile) }];
    st
}

/// The scaffold `shapes create shape --name <name> [--kind <kind>]`
/// writes in a store initialised with `store_kit`.
fn shape_scaffold(store_kit: KitKind, per_call: Option<KitKind>, name: &str, kind: Option<&str>) -> String {
    let st = fresh_store(store_kit);
    let args = CreateShapeArgs {
        name: Some(name.into()),
        kind: kind.map(|k| k.to_string()),
        summary: None,
        source: "human".into(),
        profile: None,
        description: None,
        kit: per_call,
        store_kit: Some(store_kit),
        from: None,
    };
    create_shape(&st, &args, ProfileId::new(1)).unwrap().yaml
}

#[test]
fn software_shape_scaffold_has_required_fields_and_stubs() {
    let yaml = shape_scaffold(KitKind::Software, None, "AuthService", Some("service"));
    assert!(yaml.contains("template: software"), "missing template header: {yaml}");
    assert!(yaml.contains("description: |\n    TODO:"), "missing description TODO");
    assert!(yaml.contains("goals: |\n    TODO:"), "missing goals TODO");
    assert!(yaml.contains("rationale: |\n    TODO:"), "missing rationale TODO");
    assert!(yaml.contains("# non_goals:"), "non_goals should be commented");
    assert!(yaml.contains("# requirements:"), "requirements should be commented");
    assert!(yaml.contains("# parents:"), "parents stub missing");
    assert!(yaml.contains("# children:"), "children stub missing");
    assert!(yaml.contains("# constraints:"), "constraints stub missing");
    assert!(yaml.contains("# realization:"), "realization stub missing");
}

#[test]
fn software_constraint_scaffold_has_rule_and_evidence_stub() {
    let st = fresh_store(KitKind::Software);
    let args = CreateConstraintArgs {
        name: Some("NoUnsafeBlocks".into()),
        kind: Some("invariant".into()),
        rule: None,
        enforcement: Enforcement::Manual,
        summary: None,
        source: "human".into(),
        intent_kind: None,
        profile: None,
        description: None,
        kit: None,
        store_kit: Some(KitKind::Software),
        from: None,
    };
    let yaml = create_constraint(&st, &args, ProfileId::new(1)).unwrap().yaml;
    assert!(yaml.contains("template: software"));
    assert!(yaml.contains("rule: |\n    TODO:"), "rule should be a TODO block");
    assert!(yaml.contains("rationale: |\n    TODO:"), "rationale required for software constraints");
    assert!(yaml.contains("# impact_if_violated:"), "impact stub missing");
    assert!(yaml.contains("# evidence:"), "evidence stub missing");
    assert!(yaml.contains("enforcement: manual"), "default enforcement should be manual");
}

#[test]
fn research_template_uses_research_field_hints() {
    let yaml = shape_scaffold(KitKind::Research, None, "DecayExperiment", None);
    assert!(yaml.contains("template: research"));
    assert!(yaml.contains("hypotheses: |\n    TODO:"));
    assert!(yaml.contains("success_criteria: |\n    TODO:"));
    assert!(yaml.contains("methodology: |\n    TODO:"));
    assert!(yaml.contains("kind: \"experiment\""));
}

#[test]
fn editorial_template_uses_editorial_field_hints() {
    let yaml = shape_scaffold(KitKind::Editorial, None, "Chapter1", None);
    assert!(yaml.contains("template: editorial"));
    assert!(yaml.contains("themes: |\n    TODO:"));
    assert!(yaml.contains("target_audience: |\n    TODO:"));
    assert!(yaml.contains("tone: |\n    TODO:"));
    assert!(yaml.contains("kind: \"chapter\""));
}

#[test]
fn minimal_template_only_requires_rationale() {
    let yaml = shape_scaffold(KitKind::Minimal, None, "Bare", Some("anything"));
    assert!(yaml.contains("template: minimal"));
    assert!(yaml.contains("rationale: |\n    TODO:"));
    assert!(!yaml.contains("# Suggested shape kinds"));
}

#[test]
fn per_call_template_override_does_not_modify_meta() {
    let st = fresh_store(KitKind::Software);
    let args = CreateShapeArgs {
        name: Some("OneOff".into()),
        kind: None,
        summary: None,
        source: "human".into(),
        profile: None,
        description: None,
        kit: Some(KitKind::Research),
        store_kit: Some(KitKind::Software),
        from: None,
    };
    let yaml = create_shape(&st, &args, ProfileId::new(1)).unwrap().yaml;
    assert!(yaml.contains("template: research"), "override should produce research scaffold");
    assert_eq!(args.store_kit, Some(KitKind::Software), "meta should be unchanged");
}
