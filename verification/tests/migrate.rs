use shapes::migrate::{AmendmentDoc, ArchivedEdit, ArchivedField, migrate_0_1_to_0_2, registry, run_migrations};
use shapes::preflight::check_store_version;
use shapes::queries::list;
use shapes::store::{NodeFile, Store};
use shapes::templates::KitKind;
use shapes::version::{StoreVersion, current_store_version};

/// The store `shapes init --kit software` leaves: the seeded profile only.
fn fresh_store() -> Store {
    let kit = KitKind::Software.kit();
    let profile = kit.build_profile(shapes::ids::ProfileId::new(1), &format!("{} starter profile", kit.name));
    Store { shapes: vec![], constraints: vec![], amendments: vec![], profiles: vec![NodeFile { id: 1, node: Ok(profile) }] }
}

fn legacy(id: u64) -> AmendmentDoc {
    AmendmentDoc { path: format!(".shapes/amendments/{id}-legacy.yaml"), archived: ArchivedField::Flag(true) }
}

fn current(id: u64) -> AmendmentDoc {
    AmendmentDoc { path: format!(".shapes/amendments/{id}-current.yaml"), archived: ArchivedField::Detail }
}

fn unarchived(id: u64) -> AmendmentDoc {
    AmendmentDoc { path: format!(".shapes/amendments/{id}-unarchived.yaml"), archived: ArchivedField::Missing }
}

#[test]
fn registry_is_contiguous_and_terminates_at_current_version() {
    let steps = registry();
    assert!(!steps.is_empty(), "registry must have at least one step");

    for window in steps.windows(2) {
        assert_eq!(
            window[0].to, window[1].from,
            "migration chain must be contiguous: {:?} -> {:?} but next step starts at {:?}",
            window[0].from, window[0].to, window[1].from
        );
    }

    let last = steps.last().expect("registry is non-empty");
    assert_eq!(
        last.to,
        current_store_version(),
        "last migration step must terminate at the current store version"
    );
}

#[test]
fn registry_steps_only_upgrade_forward() {
    for step in registry() {
        assert!(
            step.from < step.to,
            "migration step {:?} -> {:?} must move forward",
            step.from,
            step.to,
        );
    }
}

#[test]
fn migrate_rewrites_legacy_boolean_archived_to_structured_form() {
    let steps = run_migrations(StoreVersion::new(0, 1, 0)).unwrap();
    assert_eq!(steps.len(), 1);
    assert_eq!(steps[0].from.to_string(), "0.1.0");
    assert_eq!(steps[0].to.to_string(), "0.2.0");
    let (edits, result, failure) = migrate_0_1_to_0_2(&vec![legacy(100)]);
    assert!(failure.is_none());
    match &edits[0] {
        ArchivedEdit::SetReason(r) => assert!(r.contains("Migrated from legacy boolean field"), "{r}"),
        other => panic!("expected structured archived form, got {other:?}"),
    }
    assert_eq!(result.changed_files.len(), 1);
    assert!(result.changed_files[0].contains("100-legacy.yaml"));
    assert_eq!(result.action_items.len(), 1);
    assert!(result.action_items[0].contains("archived.reason"));
    assert!(check_store_version(&steps[0].to).is_ok());
}

#[test]
fn migrate_is_idempotent_on_already_current_store() {
    assert!(run_migrations(current_store_version()).unwrap().is_empty());
    assert_eq!(current_store_version().to_string(), "0.2.0");
}

#[test]
fn version_gate_blocks_regular_commands_on_outdated_store() {
    let err = check_store_version(&StoreVersion::new(0, 1, 0)).unwrap_err();
    assert!(err.contains("store is at version 0.1.0"), "error should name the on-disk version: {err}");
    assert!(err.contains("expects 0.2.0"), "error should name the expected version: {err}");
    assert!(err.contains("shapes migrate"), "error must point at the migrate command: {err}");
}

#[test]
fn migrate_handles_mixed_state_stores() {
    let (edits, result, failure) = migrate_0_1_to_0_2(&vec![legacy(200), current(201), unarchived(202)]);
    assert!(failure.is_none());
    assert!(matches!(&edits[0], ArchivedEdit::SetReason(_)));
    assert!(matches!(edits[1], ArchivedEdit::Keep), "already-current file must be left byte-identical");
    assert!(matches!(edits[2], ArchivedEdit::Keep), "unarchived file must be left byte-identical");
    let listed = result.changed_files.join("\n");
    assert!(listed.contains("200-legacy.yaml"), "legacy file should be listed as modified: {listed}");
    assert!(!listed.contains("201-current.yaml"), "already-current file should NOT be modified: {listed}");
    assert!(!listed.contains("202-unarchived.yaml"), "unarchived file should NOT be modified: {listed}");
}

#[test]
fn migrate_followed_by_list_works_end_to_end() {
    let steps = run_migrations(StoreVersion::new(0, 1, 0)).unwrap();
    let (_, _, failure) = migrate_0_1_to_0_2(&vec![legacy(300)]);
    assert!(failure.is_none());
    let version = steps.last().unwrap().to;
    assert!(check_store_version(&version).is_ok());
    let st = fresh_store();
    let rows = list(&st, None, &None, &None).unwrap();
    assert_eq!(rows.len(), 1);
    assert_eq!(rows[0].node_type, "profile");
}
