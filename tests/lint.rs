use statix::lint::lint;
use statix::session::{parse_version, SessionInfo};

fn session(v: &str) -> SessionInfo {
    SessionInfo::from_version(parse_version(v).unwrap())
}

#[test]
fn syntax_error_and_unrelated_report() {
    let r = lint(0, "{ a = [] ++ x; } }", &session("2.4")).ok().expect("no internal error");
    let codes: Vec<u32> = r.reports.iter().map(|x| x.code).collect();
    assert_eq!(codes.iter().filter(|c| **c == 0).count(), 1, "{:?}", codes);
    assert!(codes.contains(&23));
    let syntax = r.reports.iter().find(|x| x.code == 0).unwrap();
    assert_eq!(syntax.note, "syntax error");
    assert_eq!(statix::explain::explain(0).ok(), Some(syntax.note));
    assert!(syntax.diagnostics[0].suggestion.is_none());
}

#[test]
fn long_pattern_fires_no_gated_rule_under_old_version() {
    let src = "{ lib, a, b, c, d, e, f }: lib.groupBy a b";
    let old: Vec<u32> = lint(0, src, &session("2.4")).ok().expect("no internal error").reports.iter().map(|x| x.code).collect();
    assert!(!old.contains(&15) && !old.contains(&16));
    let new: Vec<u32> = lint(0, src, &session("2.6")).ok().expect("no internal error").reports.iter().map(|x| x.code).collect();
    assert!(new.contains(&15));
}

#[test]
fn report_of_empty_list_concat() {
    let r = lint(7, "[] ++ x", &session("2.4")).ok().expect("no internal error");
    assert_eq!(r.file_id, 7);
    assert_eq!(r.reports.len(), 1);
    let rep = &r.reports[0];
    assert_eq!(rep.code, 23);
    assert_eq!(rep.note, "Unnecessary concatenation with empty list");
    let d = &rep.diagnostics[0];
    assert_eq!((d.at.start, d.at.end), (0, 7));
    let s = d.suggestion.as_ref().unwrap();
    assert_eq!(s.fix.as_deref(), Some("x".as_bytes()));
}

#[test]
fn group_by_message_names_the_set() {
    let r = lint(0, "lib.groupBy", &session("2.5")).ok().expect("no internal error");
    let rep = r.reports.iter().find(|x| x.code == 15).unwrap();
    assert_eq!(rep.diagnostics[0].message, "Prefer `builtins.groupBy` over `lib.groupBy`");
}

#[test]
fn every_range_lies_in_the_text() {
    let src = "{ a = a; b = [] ++ x; inherit; c = (1); d.e = 1; d.f = 2; d.g = 3; } }";
    let r = lint(0, src, &session("2.6")).ok().expect("no internal error");
    assert!(r.reports.len() >= 5);
    for rep in &r.reports {
        for d in &rep.diagnostics {
            assert!(d.at.start as usize <= src.len() && d.at.end as usize <= src.len());
            if let Some(s) = &d.suggestion {
                assert!(s.at.start as usize <= src.len() && s.at.end as usize <= src.len());
            }
        }
    }
}
