use statix::session::{parse_version, SessionInfo};
use statix::single::{pos_to_byte, single, SingleFixErr};

fn session() -> SessionInfo {
    SessionInfo::from_version(parse_version("2.4").unwrap())
}

#[test]
fn empty_inherit_is_removed_with_its_whitespace() {
    let src = "{\n  a = 1;\n  inherit;\n}";
    let r = single(3, 2, src, &session()).ok().expect("a fix");
    assert_eq!(r.src, "{\n  a = 1;\n}");
}

#[test]
fn single_fix_outside_any_suggestion_is_no_op() {
    let r = single(1, 0, "{ a = 1; }", &session());
    assert!(matches!(r, Err(SingleFixErr::NoOp)));
}

#[test]
fn single_fix_beyond_the_text_is_out_of_bounds() {
    let r = single(1, 50, "[] ++ x", &session());
    assert!(matches!(r, Err(SingleFixErr::OutOfBounds(1, 50))));
}

#[test]
fn single_fix_applies_one_suggestion() {
    let r = single(1, 3, "[ ([] ++ x) ([] ++ y) ]", &session()).ok().expect("a fix");
    assert_eq!(r.src, "[ (x) ([] ++ y) ]");
}

#[test]
fn position_to_offset() {
    let src = "ab\ncd\nef".as_bytes();
    assert_eq!(pos_to_byte(1, 0, src).ok(), Some(0));
    assert_eq!(pos_to_byte(2, 1, src).ok(), Some(4));
    assert_eq!(pos_to_byte(3, 1, src).ok(), Some(7));
    assert!(matches!(pos_to_byte(3, 2, src), Err(SingleFixErr::OutOfBounds(3, 2))));
    assert!(matches!(pos_to_byte(9, 0, src), Err(SingleFixErr::OutOfBounds(9, 0))));
}

#[test]
fn same_position_gives_same_fix() {
    let a = single(1, 0, "!(a == b)", &session()).ok().unwrap().src;
    let b = single(1, 0, "!(a == b)", &session()).ok().unwrap().src;
    assert_eq!(a, b);
    assert_eq!(a, "a != b");
}

#[test]
fn single_fix_keeps_error_payloads() {
    let r = single(2, 9, "ab\ncd", &session());
    assert!(matches!(r, Err(SingleFixErr::OutOfBounds(2, 9))));
    let big = (u32::MAX as usize) + 1;
    assert!(matches!(single(1, big, "ab", &session()), Err(SingleFixErr::Conversion(c)) if c == big));
}
