use shapes::preflight::{
    SchemaDrift, check_store_version, drift_message, fmt_outcome, parse_max_version, preflight,
    schema_drift,
};
use shapes::ids::DagType;
use shapes::store::{NodeFile, Store};
use shapes::templates::KitKind;
use shapes::tree::{no_nodes_message, tree};
use shapes::version::{StoreVersion, current_store_version};

/// The store `shapes init --kit software` leaves: the seeded profile only.
fn fresh_store() -> Store {
    let kit = KitKind::Software.kit();
    let profile = kit.build_profile(shapes::ids::ProfileId::new(1), &format!("{} starter profile", kit.name));
    Store { shapes: vec![], constraints: vec![], amendments: vec![], profiles: vec![NodeFile { id: 1, node: Ok(profile) }] }
}

/// The stdout of `shapes preflight` with the version line normalised,
/// for a store at `on_disk` (no update check).
fn preflight_stdout(on_disk: StoreVersion) -> String {
    let plan = preflight("0.0.0", &None, &schema_drift(&on_disk), true, false);
    let mut out = String::new();
    for line in &plan.lines {
        if line.starts_with("Shapes CLI v") {
            out.push_str("Shapes CLI v[X.Y.Z]");
        } else {
            out.push_str(line);
        }
        out.push('\n');
    }
    assert!(!plan.show_tree);
    out
}

#[test]
fn reads_max_version_from_registry_reply() {
    let body = r#"{"crate":{"id":"shapes-cli","max_version":"1.4.2","newest_version":"1.4.2"}}"#;
    assert_eq!(parse_max_version(body), Some("1.4.2".to_string()));
}

#[test]
fn max_version_missing_or_unterminated() {
    assert_eq!(parse_max_version(r#"{"crate":{}}"#), None);
    assert_eq!(parse_max_version(r#"{"max_version":"1.0"#), None);
    assert_eq!(parse_max_version(""), None);
}

#[test]
fn max_version_takes_first_occurrence() {
    let body = r#""max_version":"0.9.0" "max_version":"2.0.0""#;
    assert_eq!(parse_max_version(body), Some("0.9.0".to_string()));
}

#[test]
fn drift_against_current_version() {
    assert!(schema_drift(&StoreVersion::new(0, 2, 0)).is_none());
    assert!(matches!(schema_drift(&StoreVersion::new(0, 1, 0)), Some(SchemaDrift::Outdated(_))));
    assert!(matches!(schema_drift(&StoreVersion::new(0, 10, 0)), Some(SchemaDrift::Newer(_))));
}

#[test]
fn drift_messages() {
    assert_eq!(
        drift_message(&SchemaDrift::Outdated(StoreVersion::new(0, 1, 0))),
        "MIGRATION NEEDED: Run `shapes migrate` — .shapes/ store is at version 0.1.0 but this CLI expects 0.2.0."
    );
    assert_eq!(
        drift_message(&SchemaDrift::Newer(StoreVersion::new(0, 3, 0))),
        "STORE AHEAD OF CLI: Run `cargo install shapes-cli` — .shapes/ store is at version 0.3.0 but this CLI only supports up to 0.2.0."
    );
}

#[test]
fn preamble_with_drift_stops_before_tree() {
    let plan = preflight("1.0.0", &None, &Some(SchemaDrift::Outdated(StoreVersion::new(0, 1, 0))), true, false);
    assert_eq!(plan.lines.len(), 3);
    assert_eq!(plan.lines[0], "Shapes CLI v1.0.0");
    assert_eq!(plan.lines[1], "");
    assert!(plan.lines[2].starts_with("MIGRATION NEEDED"));
    assert!(!plan.show_tree);
}

#[test]
fn preamble_update_notice() {
    let plan = preflight("1.0.0", &Some("1.1.0".to_string()), &None, true, false);
    assert_eq!(
        plan.lines,
        vec![
            "Shapes CLI v1.0.0".to_string(),
            "UPDATE AVAILABLE: v1.1.0 — run: cargo install shapes-cli".to_string(),
            "".to_string(),
        ]
    );
    assert!(plan.show_tree);
    let same = preflight("1.0.0", &Some("1.0.0".to_string()), &None, true, false);
    assert_eq!(same.lines, vec!["Shapes CLI v1.0.0".to_string(), "".to_string()]);
}

#[test]
fn preamble_without_store() {
    let plan = preflight("1.0.0", &None, &None, false, false);
    assert_eq!(
        plan.lines,
        vec![
            "Shapes CLI v1.0.0".to_string(),
            "".to_string(),
            "No .shapes/ directory found in this project.".to_string(),
            "Run /shapes:shapes-init to bootstrap the shapes graph.".to_string(),
        ]
    );
    assert!(!plan.show_tree);
    let init = preflight("1.0.0", &None, &None, false, true);
    assert_eq!(init.lines, vec!["Shapes CLI v1.0.0".to_string()]);
    assert!(!init.show_tree);
    let init_existing = preflight("1.0.0", &None, &None, true, true);
    assert_eq!(init_existing.lines[2], "NOTE: .shapes/ already exists in this project.");
    assert!(init_existing.show_tree);
}

#[test]
fn store_version_gate() {
    assert!(check_store_version(&StoreVersion::new(0, 2, 0)).is_ok());
    assert_eq!(
        check_store_version(&StoreVersion::new(0, 1, 0)).unwrap_err(),
        ".shapes/ store is at version 0.1.0 but this CLI expects 0.2.0. Run `shapes migrate` to upgrade."
    );
}

#[test]
fn fmt_check_outcome() {
    assert!(fmt_outcome(false, 3).is_ok());
    assert!(fmt_outcome(true, 0).is_ok());
    assert_eq!(
        fmt_outcome(true, 2).unwrap_err(),
        "2 file(s) not in canonical format (run `shapes fmt` to fix)"
    );
}

#[test]
fn preflight_on_current_store_prints_tree() {
    let st = fresh_store();
    let plan = preflight("0.3.1", &None, &schema_drift(&current_store_version()), true, false);
    let stdout = plan.lines.join("\n");
    assert!(stdout.contains("Shapes CLI v"), "stdout should include the version line: {stdout}");
    assert!(!stdout.contains("MIGRATION NEEDED"), "current store should NOT emit a drift warning: {stdout}");
    assert!(!stdout.contains("STORE AHEAD OF CLI"), "current store should NOT emit a drift warning: {stdout}");
    assert!(plan.show_tree);
    let (lines, failed) = tree(&st, DagType::Shape, None, 10);
    assert!(lines.is_empty() && failed.is_none());
    assert_eq!(no_nodes_message(DagType::Shape), "No shape nodes found.");
}

#[test]
fn preflight_without_shapes_dir_prints_init_guidance() {
    let plan = preflight("0.3.1", &None, &None, false, false);
    let stdout = plan.lines.join("\n");
    assert!(stdout.contains("No .shapes/ directory found"), "stdout should include the no-shapes-dir guidance: {stdout}");
    assert!(stdout.contains("shapes-init"), "stdout should point at shapes-init: {stdout}");
    assert!(!stdout.contains("MIGRATION NEEDED"), "no-shapes-dir path should NOT warn about drift: {stdout}");
}

#[test]
fn preflight_outdated_stdout() {
    assert_eq!(
        preflight_stdout(StoreVersion::new(0, 1, 0)),
        "Shapes CLI v[X.Y.Z]\n\nMIGRATION NEEDED: Run `shapes migrate` — .shapes/ store is at version 0.1.0 but this CLI expects 0.2.0.\n"
    );
}

#[test]
fn preflight_newer_stdout() {
    assert_eq!(
        preflight_stdout(StoreVersion::new(999, 0, 0)),
        "Shapes CLI v[X.Y.Z]\n\nSTORE AHEAD OF CLI: Run `cargo install shapes-cli` — .shapes/ store is at version 999.0.0 but this CLI only supports up to 0.2.0.\n"
    );
}
