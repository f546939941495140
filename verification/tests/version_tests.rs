use wasupdate::version::parse_version;
use wasupdate::version::to_version_string;
use wasupdate::version::SemVer;

#[test]
fn parse_plain_version() {
    let v = parse_version("1.2.3").unwrap();
    assert_eq!(v.major, 1);
    assert_eq!(v.minor, 2);
    assert_eq!(v.patch, 3);
    assert_eq!(v.pre, "");
    assert_eq!(v.build, "");
}

#[test]
fn parse_full_version() {
    let v = parse_version("10.0.230-alpha.1+build5").unwrap();
    assert_eq!(v.major, 10);
    assert_eq!(v.minor, 0);
    assert_eq!(v.patch, 230);
    assert_eq!(v.pre, "alpha.1");
    assert_eq!(v.build, "build5");
}

#[test]
fn parse_rejects_junk() {
    assert!(parse_version("not-a-version").is_err());
    assert!(parse_version("").is_err());
    assert!(parse_version("1.2").is_err());
}

#[test]
fn version_string_round_trip() {
    let v = parse_version("10.0.230-alpha.1+build5").unwrap();
    assert_eq!(to_version_string(&v), "10.0.230-alpha.1+build5");
    let w = parse_version("0.9.0").unwrap();
    assert_eq!(to_version_string(&w), "0.9.0");
}

#[test]
fn version_equality_is_structural() {
    let a = parse_version("1.0.0").unwrap();
    let b = parse_version("1.0.0+different").unwrap();
    let c = parse_version("1.0.0").unwrap();
    assert!(a == c);
    assert!(a != b);
}

#[test]
fn version_string_of_literal_fields() {
    let v = SemVer {
        major: 0,
        minor: 0,
        patch: 0,
        pre: String::new(),
        build: String::new(),
    };
    assert_eq!(to_version_string(&v), "0.0.0");
}
