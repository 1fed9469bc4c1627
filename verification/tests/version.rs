use pacmine::create::Version;

#[test]
fn parses_a_plain_version() {
    let v = Version::from_str("1.21.0").unwrap();
    assert_eq!(v.major, 1);
    assert_eq!(v.minor, 21);
    assert_eq!(v.patch, 0);
}

#[test]
fn renders_a_version() {
    let v = Version { major: 1, minor: 21, patch: 0 };
    assert_eq!(v.to_string(), "1.21.0");
    let v = Version { major: 4294967295, minor: 0, patch: 10 };
    assert_eq!(v.to_string(), "4294967295.0.10");
}

#[test]
fn round_trips_a_rendered_version() {
    let v = Version { major: 12, minor: 3, patch: 456 };
    let parsed = Version::from_str(&v.to_string()).unwrap();
    assert_eq!(parsed, v);
}

#[test]
fn rejects_too_few_components() {
    let e = Version::from_str("1.2").unwrap_err();
    assert_eq!(e, "The version number must be in x.x.x format");
}

#[test]
fn rejects_too_many_components() {
    let e = Version::from_str("1.2.3.4").unwrap_err();
    assert_eq!(e, "The version number must be in x.x.x format");
}

#[test]
fn rejects_a_non_numeric_major() {
    let e = Version::from_str("a.2.3").unwrap_err();
    assert_eq!(e, "Invalid major version number:a");
}

#[test]
fn rejects_a_non_numeric_minor() {
    let e = Version::from_str("1.b.3").unwrap_err();
    assert_eq!(e, "Invalid minor version number:b");
}

#[test]
fn rejects_a_non_numeric_patch() {
    let e = Version::from_str("1.2.c").unwrap_err();
    assert_eq!(e, "Invalid patch version number:c");
}

#[test]
fn rejects_an_overflowing_component() {
    let e = Version::from_str("1.99999999999.3").unwrap_err();
    assert_eq!(e, "Invalid minor version number:99999999999");
}

#[test]
fn rejects_empty_components() {
    let e = Version::from_str("..").unwrap_err();
    assert_eq!(e, "Invalid major version number:");
}

#[test]
fn accepts_a_plus_signed_component() {
    let v = Version::from_str("+1.2.3").unwrap();
    assert_eq!(v.major, 1);
}
