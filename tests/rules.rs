use statix::fix::all_with;
use statix::lint::lint;
use statix::registry::{lint_map, lint_map_without};
use statix::report::Report;
use statix::session::{parse_version, SessionInfo};

fn session() -> SessionInfo {
    SessionInfo::from_version(parse_version("2.4").unwrap())
}

fn fixed(src: &str) -> String {
    all_with(src, &lint_map(), &session()).ok().expect("fix-all succeeds").src
}

fn reports(src: &str, code: u32) -> Vec<Report> {
    lint(0, src, &session()).ok().expect("no internal error").reports.into_iter().filter(|r| r.code == code).collect()
}

fn fix_text(r: &Report) -> String {
    let s = r.diagnostics.iter().find_map(|d| d.suggestion.as_ref()).unwrap();
    String::from_utf8(s.fix.clone().unwrap_or_default()).unwrap()
}

#[test]
fn bool_comparison_with_true() {
    assert_eq!(fixed("x == true"), "x");
    assert_eq!(fixed("false != x"), "x");
}

#[test]
fn bool_comparison_negates() {
    assert_eq!(fixed("x != true"), "!x");
    assert_eq!(fixed("f x == false"), "!f x");
    assert_eq!(fixed("x + 1 == false"), "!(x + 1)");
    let r = reports("y == true", 1);
    assert_eq!(r[0].diagnostics[0].message, "Comparing `y` with boolean literal `true`");
}

#[test]
fn empty_let_in_keeps_body() {
    assert_eq!(fixed("let in x"), "x");
    let r = reports("let # note\nin x", 2);
    assert_eq!(r.len(), 1);
    assert!(r[0].diagnostics[0].suggestion.is_none());
}

#[test]
fn manual_inherit_and_inherit_from() {
    assert_eq!(fixed("{ a = a; }"), "{ inherit a; }");
    assert_eq!(fixed("{ a = b.a; }"), "{ inherit (b) a; }");
    assert_eq!(fixed("{ a = b.c; }"), "{ a = b.c; }");
}

#[test]
fn legacy_let_becomes_rec() {
    let r = reports("let { body = x; x = 1; }", 5);
    assert_eq!(r.len(), 1);
    assert_eq!(fix_text(&r[0]), "(rec {\n  body = x;\n  x = 1;\n}).body");
}

#[test]
fn collapsible_let_in_merges() {
    assert_eq!(fixed("let a = 1; in let b = 2; in a + b"), "let a = 1;  b = 2; in a + b");
    let r = reports("let a = 1; in let b = 2; in a + b", 6);
    assert_eq!(r[0].diagnostics.len(), 2);
}

#[test]
fn eta_reduction_drops_lambda() {
    assert_eq!(fixed("map (x: f x) xs"), "map f xs");
    assert_eq!(fixed("map (x: x x) xs"), "map (x: x x) xs");
    let r = reports("x: f x", 7);
    assert_eq!(r[0].diagnostics[0].message, "Found eta-reduction: `f`");
}

#[test]
fn useless_parens_are_removed() {
    assert_eq!(fixed("{ a = (1); }"), "{ a = 1; }");
    assert_eq!(fixed("let x = 1; in (x)"), "let x = 1; in x");
    assert_eq!(fixed("f ([ 1 ])"), "f [ 1 ]");
    assert_eq!(fixed("f (g 1)"), "f (g 1)");
}

#[test]
fn empty_pattern_becomes_underscore() {
    assert_eq!(fixed("{ ... }: 1"), "_: 1");
    assert_eq!(fixed("{ ... }: { imports = [ ]; }"), "{ ... }: { imports = [ ]; }");
}

#[test]
fn redundant_pattern_bind_keeps_name() {
    assert_eq!(fixed("{ ... } @ inputs: inputs"), "inputs: inputs");
}

#[test]
fn unquoted_uri_is_quoted() {
    assert_eq!(fixed("https://example.com"), "\"https://example.com\"");
}

#[test]
fn empty_inherit_is_deleted() {
    assert_eq!(fixed("{ inherit; a = 1; }"), "{ a = 1; }");
    assert_eq!(fixed("{ inherit a; }"), "{ inherit a; }");
}

#[test]
fn deprecated_to_path_is_reported_only() {
    let r = reports("builtins.toPath \"/a\"", 17);
    assert_eq!(r.len(), 1);
    assert!(r[0].diagnostics[0].suggestion.is_none());
    assert_eq!(
        r[0].diagnostics[0].message,
        "`builtins.toPath` is deprecated, see `:doc builtins.toPath` within the REPL for more"
    );
}

#[test]
fn useless_has_attr_uses_or() {
    assert_eq!(fixed("if x ? a then x.a else d"), "x.a or d");
    assert_eq!(fixed("if x ? a then x.a else 1"), "x.a or (1)");
    assert_eq!(fixed("if x ? a then x.b else d"), "if x ? a then x.b else d");
}

#[test]
fn repeated_keys_three_times() {
    let r = reports("{ a.b = 1; a.c = 2; a.d = 3; }", 20);
    assert_eq!(r.len(), 1);
    let d = &r[0].diagnostics;
    assert_eq!(d.len(), 3);
    assert_eq!(d[0].message, "The key `a` is first assigned here ...");
    assert_eq!(d[1].message, "... repeated here ...");
    assert_eq!(d[2].message, "... and here. Try `a = { b=...; c=...; d=...; }` instead.");
    assert_eq!((d[0].at.start, d[0].at.end), (2, 5));
}

#[test]
fn repeated_keys_counts_the_rest() {
    let r = reports("{ a.b = 1; a.c = 2; a.d = 3; a.e = 4; a.f = 5; }", 20);
    assert_eq!(r.len(), 1);
    assert_eq!(
        r[0].diagnostics[2].message,
        "... and here (`2` occurrences omitted). Try `a = { b=...; c=...; d=...; }` instead."
    );
    let r = reports("{ a.b = 1; a.c = 2; a.d = 3; a.e = 4; }", 20);
    assert!(r[0].diagnostics[2].message.starts_with("... and here (`1` occurrence omitted)."));
    assert!(reports("rec { a.b = 1; a.c = 2; a.d = 3; }", 20).is_empty());
    assert!(reports("{ a.b = 1; a.c = 2; }", 20).is_empty());
}

#[test]
fn disabled_rules_do_not_fire() {
    let map = lint_map_without(&vec!["bool_comparison".to_string()]);
    let r = all_with("x == true", &map, &session()).ok().unwrap();
    assert_eq!(r.src, "x == true");
    assert!(map.rules.iter().all(|l| l.name() != "bool_comparison"));
    assert_eq!(map.rules.len() + 1, lint_map().rules.len());
}
