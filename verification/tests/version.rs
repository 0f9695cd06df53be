use shapes::version::{StoreVersion, StoreVersionParseError};

#[test]
fn parses_well_formed_version() {
    let v: StoreVersion = "0.2.0".parse().unwrap();
    assert_eq!(v, StoreVersion::new(0, 2, 0));
}

#[test]
fn display_roundtrips() {
    let v = StoreVersion::new(1, 20, 300);
    assert_eq!(v.to_string(), "1.20.300");
    assert_eq!(v.to_string().parse::<StoreVersion>().unwrap(), v);
}

#[test]
fn rejects_too_few_components() {
    assert!(matches!(
        "0.2".parse::<StoreVersion>(),
        Err(StoreVersionParseError::InvalidShape { .. })
    ));
}

#[test]
fn rejects_too_many_components() {
    assert!(matches!(
        "0.2.0.1".parse::<StoreVersion>(),
        Err(StoreVersionParseError::InvalidShape { .. })
    ));
}

#[test]
fn rejects_non_numeric_component() {
    assert!(matches!(
        "0.x.0".parse::<StoreVersion>(),
        Err(StoreVersionParseError::InvalidComponent {
            component: "minor",
            ..
        })
    ));
}

#[test]
fn rejects_empty_input() {
    assert!(matches!(
        "".parse::<StoreVersion>(),
        Err(StoreVersionParseError::InvalidComponent {
            component: "major",
            ..
        })
    ));
}

#[test]
fn numeric_ordering_handles_two_digit_components() {
    let v019 = StoreVersion::new(0, 1, 9);
    let v020 = StoreVersion::new(0, 2, 0);
    let v0100 = StoreVersion::new(0, 10, 0);

    assert!(v019 < v020);
    assert!(v020 < v0100);
    // String comparison would give "0.10.0" < "0.2.0" — verify the
    // struct ordering disagrees and is numerically correct.
    assert!(v020.to_string() > v0100.to_string());
}

#[test]
fn parse_accepts_plus_sign_and_reports_overflow() {
    assert_eq!("+1.2.3".parse::<StoreVersion>().unwrap(), StoreVersion::new(1, 2, 3));
    assert_eq!(
        "0.4294967296.0".parse::<StoreVersion>(),
        Err(StoreVersionParseError::InvalidComponent {
            input: "0.4294967296.0".to_string(),
            component: "minor",
            kind: shapes::version::IntErrorKind::PosOverflow,
        })
    );
    assert!("1.2.-3".parse::<StoreVersion>().is_err());
}

#[test]
fn version_ordering_helper_agrees_with_ord() {
    let a = StoreVersion::new(0, 1, 9);
    let b = StoreVersion::new(0, 2, 0);
    assert!(a.is_older_than(&b));
    assert!(!b.is_older_than(&a));
    assert!(!a.is_older_than(&a));
}
