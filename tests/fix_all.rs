use statix::fix::{all_with, FixErr};
use statix::registry::lint_map;
use statix::session::{parse_version, SessionInfo};

fn session(v: &str) -> SessionInfo {
    SessionInfo::from_version(parse_version(v).unwrap())
}

fn fix_all(src: &str, v: &str) -> (String, Vec<u32>) {
    let r = all_with(src, &lint_map(), &session(v)).ok().expect("fix-all succeeds");
    (r.src, r.fixed.iter().map(|f| f.code).collect())
}

#[test]
fn negated_equality_becomes_inequality() {
    let (out, codes) = fix_all("!(a == b)", "2.4");
    assert_eq!(out, "a != b");
    assert_eq!(codes, vec![18]);
}

#[test]
fn empty_list_concat_is_removed() {
    let (out, codes) = fix_all("[] ++ something", "2.4");
    assert_eq!(out, "something");
    assert_eq!(codes, vec![23]);
    let (out, _) = fix_all("something ++ []", "2.4");
    assert_eq!(out, "something");
}

#[test]
fn fix_all_twice_changes_nothing() {
    let (once, _) = fix_all("[ (!(a == b)) ([] ++ x) ]", "2.4");
    let (twice, codes) = fix_all(&once, "2.4");
    assert_eq!(once, twice);
    assert!(codes.is_empty());
}

#[test]
fn nested_fixes_take_several_rounds() {
    let (out, codes) = fix_all("[] ++ ([] ++ x)", "2.4");
    assert_eq!(out, "x");
    assert_eq!(codes, vec![23, 23, 8]);
}

#[test]
fn unparsable_text_is_left_alone() {
    let r = all_with("let in", &lint_map(), &session("2.4"));
    assert!(matches!(r, Err(FixErr::SyntaxError)));
}

#[test]
fn nothing_to_fix_gives_no_edits() {
    let (out, codes) = fix_all("{ a = 1; }", "2.4");
    assert_eq!(out, "{ a = 1; }");
    assert!(codes.is_empty());
}

#[test]
fn group_by_is_gated_on_version() {
    let (out, _) = fix_all("lib.groupBy f xs", "2.4");
    assert_eq!(out, "lib.groupBy f xs");
    let (out, codes) = fix_all("lib.groupBy f xs", "2.5");
    assert_eq!(out, "builtins.groupBy f xs");
    assert_eq!(codes, vec![15]);
    let (out, _) = fix_all("lib.groupBy f xs", "2.6.0");
    assert_eq!(out, "builtins.groupBy f xs");
}

#[test]
fn zip_attrs_with_is_gated_on_version() {
    let (out, _) = fix_all("lib.zipAttrsWith f xs", "2.5");
    assert_eq!(out, "lib.zipAttrsWith f xs");
    let (out, codes) = fix_all("lib.zipAttrsWith f xs", "2.6");
    assert_eq!(out, "builtins.zipAttrsWith f xs");
    assert_eq!(codes, vec![16]);
}

#[test]
fn builtins_group_by_is_not_reported() {
    let (out, codes) = fix_all("builtins.groupBy f xs", "2.6");
    assert_eq!(out, "builtins.groupBy f xs");
    assert!(codes.is_empty());
}

#[test]
fn trail_lists_every_round_in_order() {
    let r = all_with("[ ([] ++ a) ] ++ []", &lint_map(), &session("2.4")).ok().unwrap();
    let trail: Vec<(u32, u32, u32)> = r.fixed.iter().map(|f| (f.code, f.at.start, f.at.end)).collect();
    assert_eq!(trail[0], (23, 0, 19));
    assert_eq!(r.src, "[ a ]");
    assert!(trail.len() >= 3);
}
