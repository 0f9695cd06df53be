use shapes::ids::{ProfileId, ShapeId};
use shapes::model::{
    FieldDef, FieldGroup, FieldSection, Intent, MapEntry, Profile, ProfileFields, Shape, Status,
    YamlKind, YamlValue,
};
use shapes::store::{NodeFile, Store};
use shapes::templates::KitKind;
use shapes::validate::validate;

fn def(name: &str, ty: Option<&str>, required: bool) -> FieldDef {
    FieldDef { name: name.into(), description: "d".into(), field_type: ty.map(|t| t.to_string()), required }
}

fn text(s: &str) -> YamlValue {
    YamlValue { kind: YamlKind::String, text: s.into(), canon: s.into() }
}

fn profile(id: u64, section: FieldSection) -> Profile {
    Profile {
        id: ProfileId::new(id),
        name: "p".into(),
        description: "p".into(),
        version: None,
        status: Status::canonical(),
        intent: Intent { kind: "profile".into(), summary: "p".into(), source: text("human"), uris: vec![], extra: vec![] },
        provenance: vec![],
        lifecycle: None,
        fields: Some(ProfileFields { shape: Some(section), constraint: None }),
        versioning: None,
        amendment_rules: None,
        amendment_log: vec![],
        metadata: vec![],
    }
}

fn section() -> FieldSection {
    FieldSection {
        default_kind: Some("feature".into()),
        intent: Some(FieldGroup {
            fields: vec![def("goal", Some("string"), true), def("priority", Some("integer"), false)],
            kinds: vec![def("feature", None, false), def("service", None, false)],
            sources: vec![def("human", None, false)],
        }),
        status: None,
        constraints: None,
        realization: None,
        evidence: None,
        provenance: None,
        metadata: None,
    }
}

fn shape(kind: &str, source: YamlValue, extra: Vec<MapEntry>) -> Shape {
    Shape {
        id: ShapeId::new(1),
        name: "s".into(),
        description: "s".into(),
        profile: Some(ProfileId::new(1)),
        version: None,
        predecessors: vec![],
        status: Status::proposed(),
        intent: Intent { kind: kind.into(), summary: "s".into(), source, uris: vec![], extra },
        constraints: vec![],
        realization: vec![],
        evidence: vec![],
        provenance: vec![],
        amendment_log: vec![],
        parents: vec![],
        children: vec![],
        metadata: vec![],
    }
}

fn store(shapes: Vec<Shape>, profiles: Vec<Profile>) -> Store {
    Store {
        shapes: shapes.into_iter().map(|s| NodeFile { id: s.id.get(), node: Ok(s) }).collect(),
        constraints: vec![],
        amendments: vec![],
        profiles: profiles.into_iter().map(|p| NodeFile { id: p.id.get(), node: Ok(p) }).collect(),
    }
}

fn messages(st: &Store, inv: &str) -> Vec<String> {
    validate(st, &None).iter().filter(|i| i.invariant == inv).map(|i| i.message.clone()).collect()
}

#[test]
fn kind_and_source_outside_allow_lists() {
    let st = store(vec![shape("bogus", text("robot"), vec![MapEntry { key: "goal".into(), value: text("x") }])], vec![profile(1, section())]);
    assert_eq!(messages(&st, "INV-012"), vec!["intent.kind 'bogus' not in profile allow-list (feature, service)".to_string()]);
    assert_eq!(messages(&st, "INV-013"), vec!["intent.source 'robot' not in profile allow-list (human)".to_string()]);
}

#[test]
fn non_string_source_with_allow_list() {
    let number = YamlValue { kind: YamlKind::Number { integral: true }, text: "7".into(), canon: "7".into() };
    let st = store(vec![shape("feature", number, vec![MapEntry { key: "goal".into(), value: text("x") }])], vec![profile(1, section())]);
    assert_eq!(
        messages(&st, "INV-013"),
        vec!["intent.source must be a string when profile defines an allow-list".to_string()]
    );
}

#[test]
fn required_field_and_type_checks() {
    let st = store(
        vec![shape("feature", text("human"), vec![MapEntry { key: "priority".into(), value: text("high") }])],
        vec![profile(1, section())],
    );
    assert_eq!(messages(&st, "INV-010"), vec!["missing required intent field 'goal' (defined by profile)".to_string()]);
    assert_eq!(
        messages(&st, "INV-015"),
        vec!["intent.priority has type string, expected integer (declared by profile)".to_string()]
    );
}

#[test]
fn conforming_shape_passes_profile_checks() {
    let extra = vec![
        MapEntry { key: "goal".into(), value: text("ship it") },
        MapEntry { key: "priority".into(), value: YamlValue { kind: YamlKind::Number { integral: true }, text: "2".into(), canon: "2".into() } },
    ];
    let st = store(vec![shape("service", text("human"), extra)], vec![profile(1, section())]);
    let issues = validate(&st, &None);
    assert!(issues.is_empty(), "{issues:?}");
}

#[test]
fn profile_self_consistency() {
    let mut sec = section();
    sec.default_kind = Some("epic".into());
    if let Some(g) = sec.intent.as_mut() {
        g.kinds.push(def("feature", None, false));
    }
    let st = store(vec![], vec![profile(1, sec)]);
    assert_eq!(
        messages(&st, "INV-016"),
        vec![
            "fields.shape.default_kind 'epic' is not in fields.shape.intent.kinds allow-list".to_string(),
            "fields.shape.intent.kinds contains duplicate name 'feature'".to_string(),
        ]
    );
}

#[test]
fn seeded_kit_profiles_are_self_consistent() {
    for kit in [KitKind::Software, KitKind::Research, KitKind::Editorial, KitKind::Minimal] {
        let p = kit.kit().build_profile(ProfileId::new(1), "seeded");
        let st = store(vec![], vec![p]);
        assert!(messages(&st, "INV-016").is_empty());
    }
}
