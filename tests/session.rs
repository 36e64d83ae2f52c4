use statix::session::{parse_version, SessionInfo, Version};

#[test]
fn parse_trivial() {
    let v = "1.6.1".parse::<Version>().ok();
    assert!(v.is_some());
}

#[test]
fn parse() {
    let v = "2.4pre20211006_53e4794".parse::<Version>().ok();
    assert!(v.is_some());
}

#[test]
fn compare_trivial() {
    let v1 = "1.6.1".parse::<Version>().ok();
    let v2 = "1.7.2".parse::<Version>().ok();
    assert!(v2 > v1);
}

#[test]
fn compare() {
    let v1 = "1.7".parse::<Version>().ok();
    let v2 = "2.4pre20211006_53e4794".parse::<Version>().ok();
    assert!(v2 >= v1);
}

#[test]
fn version_fields_are_read() {
    let v = parse_version("2.4pre20211006_53e4794").unwrap();
    assert_eq!((v.major, v.minor, v.patch), (2, 4, None));
    let v = parse_version("1.6.1").unwrap();
    assert_eq!((v.major, v.minor, v.patch), (1, 6, Some(1)));
}

#[test]
fn version_needs_major_and_minor() {
    assert!(parse_version("2").is_none());
    assert!(parse_version("x.4").is_none());
    assert!(parse_version("2.").is_none());
    assert!(parse_version("").is_none());
    assert!(parse_version("70000.1").is_none());
}

#[test]
fn version_order_is_lexicographic() {
    let a = parse_version("1.9.9").unwrap();
    let b = parse_version("2.0").unwrap();
    assert!(a < b);
    let c = parse_version("2.5").unwrap();
    let d = parse_version("2.5.0").unwrap();
    assert!(c == d);
    let e = parse_version("2.10").unwrap();
    assert!(e > c);
}

#[test]
fn session_keeps_its_version() {
    let v = parse_version("2.6").unwrap();
    let s = SessionInfo::from_version(v);
    assert!(*s.version() == v);
    assert_eq!(statix::session::default_nix_version(), "2.4");
}
