//! The rules: their metadata, what each reports on an element, and the list
//! in registration order.
use vstd::prelude::*;
use crate::make::opt_view;
use crate::report::{DiagnosticModel, InternalError, Report, ReportModel, Suggestion, SuggestionModel};
use crate::session::{SessionInfo, Version};
use crate::syntax::{
    children_in, ranges_in_text, wf_tree, KindClass, SyntaxTree, TextRange, TreeModel, NODE_IDENT,
    NODE_APPLY, NODE_ATTRPATH_VALUE, NODE_BIN_OP, NODE_IF_ELSE, NODE_INHERIT, NODE_LAMBDA, NODE_LEGACY_LET, NODE_LET_IN, NODE_PAREN, NODE_PATTERN, NODE_SELECT, NODE_UNARY_OP, TOKEN_URI,
};

mod bool_comparison;
mod bool_simplification;
mod deprecated_to_path;
mod empty_inherit;
mod empty_let_in;
mod empty_list_concat;
mod eta_reduction;
mod faster_builtins;
mod let_in;
mod manual_inherit;
mod patterns;
mod repeated_keys;
mod unquoted_uri;
mod useless_has_attr;
mod useless_parens;

verus! {

/// The rules that this linter knows.
#[derive(Copy, Clone, Debug, PartialEq, Eq, Structural)]
pub enum Lint {
    BoolComparison,
    EmptyLetIn,
    ManualInherit,
    ManualInheritFrom,
    LegacyLetSyntax,
    CollapsibleLetIn,
    EtaReduction,
    UselessParens,
    EmptyPattern,
    RedundantPatternBind,
    UnquotedUri,
    EmptyInherit,
    DeprecatedToPath,
    BoolSimplification,
    UselessHasAttr,
    RepeatedKeys,
    EmptyListConcat,
    FasterGroupBy,
    FasterZipAttrsWith,
}

/// Each rule's unique name.
pub open spec fn lint_name(l: Lint) -> Seq<char> {
    match l {
        Lint::BoolComparison => "bool_comparison"@,
        Lint::EmptyLetIn => "empty_let_in"@,
        Lint::ManualInherit => "manual_inherit"@,
        Lint::ManualInheritFrom => "manual_inherit_from"@,
        Lint::LegacyLetSyntax => "legacy_let_syntax"@,
        Lint::CollapsibleLetIn => "collapsible_let_in"@,
        Lint::EtaReduction => "eta_reduction"@,
        Lint::UselessParens => "useless_parens"@,
        Lint::EmptyPattern => "empty_pattern"@,
        Lint::RedundantPatternBind => "redundant_pattern_bind"@,
        Lint::UnquotedUri => "unquoted_uri"@,
        Lint::EmptyInherit => "empty_inherit"@,
        Lint::DeprecatedToPath => "deprecated_to_path"@,
        Lint::BoolSimplification => "bool_simplification"@,
        Lint::UselessHasAttr => "useless_has_attr"@,
        Lint::RepeatedKeys => "repeated_keys"@,
        Lint::EmptyListConcat => "empty_list_concat"@,
        Lint::FasterGroupBy => "faster_groupby"@,
        Lint::FasterZipAttrsWith => "faster_zipattrswith"@,
    }
}

/// The note that heads each rule's reports.
pub open spec fn lint_note(l: Lint) -> Seq<char> {
    match l {
        Lint::BoolComparison => "Unnecessary comparison with boolean"@,
        Lint::EmptyLetIn => "Useless let-in expression"@,
        Lint::ManualInherit => "Assignment instead of inherit"@,
        Lint::ManualInheritFrom => "Assignment instead of inherit from"@,
        Lint::LegacyLetSyntax => "Using undocumented `let` syntax"@,
        Lint::CollapsibleLetIn => "These let-in expressions are collapsible"@,
        Lint::EtaReduction => "This function expression is eta reducible"@,
        Lint::UselessParens => "These parentheses can be omitted"@,
        Lint::EmptyPattern => "Found empty pattern in function argument"@,
        Lint::RedundantPatternBind => "Found redundant pattern bind in function argument"@,
        Lint::UnquotedUri => "Found unquoted URI expression"@,
        Lint::EmptyInherit => "Found empty inherit statement"@,
        Lint::DeprecatedToPath => "Found usage of deprecated builtin toPath"@,
        Lint::BoolSimplification => "This boolean expression can be simplified"@,
        Lint::UselessHasAttr => "This `if` expression can be simplified with `or`"@,
        Lint::RepeatedKeys => "Avoid repeated keys in attribute sets"@,
        Lint::EmptyListConcat => "Unnecessary concatenation with empty list"@,
        Lint::FasterGroupBy => "Found lib.groupBy"@,
        Lint::FasterZipAttrsWith => "Found lib.zipAttrsWith"@,
    }
}

/// Each rule's stable code; 0 is kept for syntax errors.
pub open spec fn lint_code(l: Lint) -> u32 {
    match l {
        Lint::BoolComparison => 1,
        Lint::EmptyLetIn => 2,
        Lint::ManualInherit => 3,
        Lint::ManualInheritFrom => 4,
        Lint::LegacyLetSyntax => 5,
        Lint::CollapsibleLetIn => 6,
        Lint::EtaReduction => 7,
        Lint::UselessParens => 8,
        Lint::EmptyPattern => 10,
        Lint::RedundantPatternBind => 11,
        Lint::UnquotedUri => 12,
        Lint::EmptyInherit => 14,
        Lint::DeprecatedToPath => 17,
        Lint::BoolSimplification => 18,
        Lint::UselessHasAttr => 19,
        Lint::RepeatedKeys => 20,
        Lint::EmptyListConcat => 23,
        Lint::FasterGroupBy => 15,
        Lint::FasterZipAttrsWith => 16,
    }
}

/// Each rule's documentation, which `explain` gives for its code.
pub open spec fn lint_explanation(l: Lint) -> Seq<char> {
    match l {
        Lint::BoolComparison => "## What it does\nChecks for expressions of the form `x == true`, `x != true` and\nsuggests using the variable directly.\n\n## Why is this bad?\nUnnecessary code.\n\n## Example\nInstead of checking the value of `x`:\n\n```nix\nif x == true then 0 else 1\n```\n\nUse `x` directly:\n\n```nix\nif x then 0 else 1\n```"@,
        Lint::EmptyLetIn => "## What it does\nChecks for `let-in` expressions which create no new bindings.\n\n## Why is this bad?\n`let-in` expressions that create no new bindings are useless.\nThese are probably remnants from debugging or editing expressions.\n\n## Example\n\n```nix\nlet in pkgs.statix\n```\n\nPreserve only the body of the `let-in` expression:\n\n```nix\npkgs.statix\n```"@,
        Lint::ManualInherit => "## What it does\nChecks for bindings of the form `a = a`.\n\n## Why is this bad?\nIf the aim is to bring attributes from a larger scope into\nthe current scope, prefer an inherit statement.\n\n## Example\n\n```nix\nlet\n  a = 2;\nin\n  { a = a; b = 3; }\n```\n\nTry `inherit` instead:\n\n```nix\nlet\n  a = 2;\nin\n  { inherit a; b = 3; }\n```"@,
        Lint::ManualInheritFrom => "## What it does\nChecks for bindings of the form `a = someAttr.a`.\n\n## Why is this bad?\nIf the aim is to extract or bring attributes of an attrset into\nscope, prefer an inherit statement.\n\n## Example\n\n```nix\nlet\n  mtl = pkgs.haskellPackages.mtl;\nin\n  null\n```\n\nTry `inherit` instead:\n\n```nix\nlet\n  inherit (pkgs.haskellPackages) mtl;\nin\n  null\n```"@,
        Lint::LegacyLetSyntax => "## What it does\nChecks for legacy-let syntax that was never formalized.\n\n## Why is this bad?\nThis syntax construct is undocumented, refrain from using it.\n\n## Example\n\nLegacy let syntax makes use of an attribute set annotated with\n`let` and expects a `body` attribute.\n```nix\nlet {\n  body = x + y;\n  x = 2;\n  y = 3;\n}\n```\n\nThis is trivially representible via `rec`, which is documented\nand more widely known:\n\n```nix\nrec {\n  body = x + y;\n  x = 2;\n  y = 3;\n}.body\n```"@,
        Lint::CollapsibleLetIn => "## What it does\nChecks for `let-in` expressions whose body is another `let-in`\nexpression.\n\n## Why is this bad?\nUnnecessary code, the `let-in` expressions can be merged.\n\n## Example\n\n```nix\nlet\n  a = 2;\nin\nlet\n  b = 3;\nin\n  a + b\n```\n\nMerge both `let-in` expressions:\n\n```nix\nlet\n  a = 2;\n  b = 3;\nin\n  a + b\n```"@,
        Lint::EtaReduction => "## What it does\nChecks for eta-reducible functions, i.e.: converts lambda\nexpressions into free standing functions where applicable.\n\n## Why is this bad?\nOftentimes, eta-reduction results in code that is more natural\nto read.\n\n## Example\n\n```nix\nlet\n  double = i: 2 * i;\nin\nmap (x: double x) [ 1 2 3 ]\n```\n\nThe lambda passed to the `map` function is eta-reducible, and the\nresult reads more naturally:\n\n```nix\nlet\n  double = i: 2 * i;\nin\nmap double [ 1 2 3 ]\n```"@,
        Lint::UselessParens => "## What it does\nChecks for unnecessary parentheses.\n\n## Why is this bad?\nUnnecessarily parenthesized code is hard to read.\n\n## Example\n\n```nix\nlet\n  double = (x: 2 * x);\n  ls = map (double) [ 1 2 3 ];\nin\n  (2 + 3)\n```\n\nRemove unnecessary parentheses:\n\n```nix\nlet\n  double = x: 2 * x;\n  ls = map double [ 1 2 3 ];\nin\n  2 + 3\n```"@,
        Lint::EmptyPattern => "## What it does\nChecks for an empty variadic pattern: `{...}`, in a function\nargument.\n\n## Why is this bad?\nThe intention with empty patterns is not instantly obvious. Prefer\nan underscore identifier instead, to indicate that the argument\nis being ignored.\n\n## Example\n\n```nix\nclient = { ... }: {\n  services.irmaseal-pkg.enable = true;\n};\n```\n\nReplace the empty variadic pattern with `_` to indicate that you\nintend to ignore the argument:\n\n```nix\nclient = _: {\n  services.irmaseal-pkg.enable = true;\n};\n```"@,
        Lint::RedundantPatternBind => "## What it does\nChecks for binds of the form `inputs @ { ... }` in function\narguments.\n\n## Why is this bad?\nThe variadic pattern here is redundant, as it does not capture\nanything.\n\n## Example\n\n```nix\ninputs @ { ... }: inputs.nixpkgs\n```\n\nRemove the pattern altogether:\n\n```nix\ninputs: inputs.nixpkgs\n```"@,
        Lint::UnquotedUri => "## What it does\nChecks for URI expressions that are not quoted.\n\n## Why is this bad?\nThe Nix language has a special syntax for URLs even though quoted\nstrings can also be used to represent them. Unlike paths, URLs do\nnot have any special properties in the Nix expression language\nthat would make the difference useful. Moreover, using variable\nexpansion in URLs requires some URLs to be quoted strings anyway.\nSo the most consistent approach is to always use quoted strings to\nrepresent URLs. Additionally, a semicolon immediately after the\nURL can be mistaken for a part of URL by language-agnostic tools\nsuch as terminal emulators.\n\nSee RFC 00045 [1] for more.\n\n[1]: https://github.com/NixOS/rfcs/blob/master/rfcs/0045-deprecate-url-syntax.md\n\n## Example\n\n```nix\ninputs = {\n  gitignore.url = github:hercules-ci/gitignore.nix;\n}\n```\n\nQuote the URI expression:\n\n```nix\ninputs = {\n  gitignore.url = \"github:hercules-ci/gitignore.nix\";\n}\n```"@,
        Lint::EmptyInherit => "## What it does\nChecks for empty inherit statements.\n\n## Why is this bad?\nUseless code, probably the result of a refactor.\n\n## Example\n\n```nix\ninherit;\n```\n\nRemove it altogether."@,
        Lint::DeprecatedToPath => "## What it does\nChecks for usage of the `toPath` function.\n\n## Why is this bad?\n`toPath` is deprecated.\n\n## Example\n\n```nix\nbuiltins.toPath \"/path\"\n```\n\nTry these instead:\n\n```nix\n# to convert the string to an absolute path:\n/. + \"/path\"\n# => /abc\n\n# to convert the string to a path relative to the current directory:\n./. + \"/bin\"\n# => /home/np/statix/bin\n```"@,
        Lint::BoolSimplification => "## What it does\nChecks for boolean expressions that can be simplified.\n\n## Why is this bad?\nComplex booleans affect readibility.\n\n## Example\n```nix\nif !(x == y) then 0 else 1\n```\n\nUse `!=` instead:\n\n```nix\nif x != y then 0 else 1\n```"@,
        Lint::UselessHasAttr => "## What it does\nChecks for expressions that use the \"has attribute\" operator: `?`,\nwhere the `or` operator would suffice.\n\n## Why is this bad?\nThe `or` operator is more readable.\n\n## Example\n```nix\nif x ? a then x.a else some_default\n```\n\nUse `or` instead:\n\n```nix\nx.a or some_default\n```"@,
        Lint::RepeatedKeys => "## What it does\nChecks for keys in attribute sets with repetitive keys, and suggests using\nan attribute set instead.\n\n## Why is this bad?\nAvoiding repetetion helps improve readibility.\n\n## Example\n```nix\n{\n  foo.a = 1;\n  foo.b = 2;\n  foo.c = 3;\n}\n```\n\nDon't repeat.\n```nix\n{\n  foo = {\n    a = 1;\n    b = 2;\n    c = 3;\n  };\n}\n```"@,
        Lint::EmptyListConcat => "## What it does\nChecks for concatenations to empty lists\n\n## Why is this bad?\nConcatenation with the empty list is a no-op.\n\n## Example\n```nix\n[] ++ something\n```\n\nRemove the operation:\n\n```nix\nsomething\n```"@,
        Lint::FasterGroupBy => "## What it does\nChecks for `lib.groupBy`.\n\n## Why is this bad?\nNix 2.5 introduces `builtins.groupBy` which is faster and does\nnot require a lib import.\n\n## Example\n\n```nix\nlib.groupBy (x: if x > 2 then \"big\" else \"small\") [ 1 2 3 4 5 6 ];\n# { big = [ 3 4 5 6 ]; small = [ 1 2 ]; }\n```\n\nReplace `lib.groupBy` with `builtins.groupBy`:\n\n```nix\nbuiltins.groupBy (x: if x > 2 then \"big\" else \"small\") [ 1 2 3 4 5 6 ];\n```"@,
        Lint::FasterZipAttrsWith => "## What it does\nChecks for `lib.zipAttrsWith`.\n\n## Why is this bad?\nNix 2.6 introduces `builtins.zipAttrsWith` which is faster and does\nnot require a lib import.\n\n## Example\n\n```nix\nlib.zipAttrsWith (name: values: values) [ {a = \"x\";} {a = \"y\"; b = \"z\";} ]\n# { a = [\"x\" \"y\"]; b = [\"z\"] }\n```\n\nReplace `lib.zipAttrsWith` with `builtins.zipAttrsWith`:\n\n```nix\nbuiltins.zipAttrsWith (name: values: values) [ {a = \"x\";} {a = \"y\"; b = \"z\";} ]\n```"@,
    }
}

/// The kinds of element that each rule is dispatched on.
pub open spec fn lint_kinds(l: Lint) -> Seq<u16> {
    match l {
        Lint::BoolComparison => seq![NODE_BIN_OP],
        Lint::EmptyLetIn => seq![NODE_LET_IN],
        Lint::ManualInherit => seq![NODE_ATTRPATH_VALUE],
        Lint::ManualInheritFrom => seq![NODE_ATTRPATH_VALUE],
        Lint::LegacyLetSyntax => seq![NODE_LEGACY_LET],
        Lint::CollapsibleLetIn => seq![NODE_LET_IN],
        Lint::EtaReduction => seq![NODE_LAMBDA],
        Lint::UselessParens => seq![NODE_ATTRPATH_VALUE, NODE_PAREN, NODE_LET_IN],
        Lint::EmptyPattern => seq![NODE_LAMBDA],
        Lint::RedundantPatternBind => seq![NODE_PATTERN],
        Lint::UnquotedUri => seq![TOKEN_URI],
        Lint::EmptyInherit => seq![NODE_INHERIT],
        Lint::DeprecatedToPath => seq![NODE_APPLY],
        Lint::BoolSimplification => seq![NODE_UNARY_OP],
        Lint::UselessHasAttr => seq![NODE_IF_ELSE],
        Lint::RepeatedKeys => seq![NODE_ATTRPATH_VALUE],
        Lint::EmptyListConcat => seq![NODE_BIN_OP],
        Lint::FasterGroupBy => seq![NODE_SELECT],
        Lint::FasterZipAttrsWith => seq![NODE_SELECT],
    }
}

/// The version from which a rule applies, for the rules that depend on one.
pub open spec fn lint_gate(l: Lint) -> Option<Version> {
    match l {
        Lint::FasterGroupBy => Some(Version { major: 2, minor: 5, patch: None }),
        Lint::FasterZipAttrsWith => Some(Version { major: 2, minor: 6, patch: None }),
        _ => None,
    }
}

/// A report of rule `l` with one diagnostic that carries a suggestion.
pub open spec fn fix_report(
    l: Lint,
    at: TextRange,
    message: Seq<char>,
    fix_at: TextRange,
    fix: Option<Seq<u8>>,
) -> ReportModel {
    ReportModel {
        note: lint_note(l),
        code: lint_code(l),
        diagnostics: seq![
            DiagnosticModel {
                at,
                message,
                suggestion: Some(SuggestionModel { at: fix_at, fix }),
            },
        ],
    }
}

/// A report of rule `l` with one diagnostic and no suggestion.
pub open spec fn note_report(l: Lint, at: TextRange, message: Seq<char>) -> ReportModel {
    ReportModel {
        note: lint_note(l),
        code: lint_code(l),
        diagnostics: seq![DiagnosticModel { at, message, suggestion: None }],
    }
}

/// A rule fires with report `r`.
pub open spec fn fires(r: ReportModel) -> Result<Option<ReportModel>, InternalError> {
    Ok(Some(r))
}

/// What a rule's run comes to: nothing, a report, or an internal error.
pub open spec fn outcome_view(r: Result<Option<Report>, InternalError>) -> Result<Option<ReportModel>, InternalError> {
    match r {
        Ok(Some(x)) => Ok(Some(x@)),
        Ok(None) => Ok(None),
        Err(e) => Err(e),
    }
}

/// The attribute of the path `path`, where it has exactly one and that one is
/// an identifier.
pub open spec fn single_ident_attr(els: Seq<crate::syntax::Element>, path: int) -> Option<usize> {
    let attrs = children_in(els, path, KindClass::Attr);
    if attrs.len() == 1 && els[attrs[0] as int].kind == NODE_IDENT {
        Some(attrs[0])
    } else {
        None
    }
}

pub fn single_ident_attr_at(t: &SyntaxTree, path: usize) -> (r: Option<usize>)
    requires
        wf_tree(t),
        path < t.elements@.len(),
    ensures
        r == single_ident_attr(t.elements@, path as int),
        r matches Some(x) ==> x < t.elements@.len(),
{
    let attrs = t.children_in(path, KindClass::Attr);
    if attrs.len() == 1 && t.kind(attrs[0]) == NODE_IDENT {
        Some(attrs[0])
    } else {
        None
    }
}

/// What rule `l` reports on element `i` of `t`, under a session of version `v`:
/// nothing, a report, or an internal error where a replacement could not be made.
#[verifier::opaque]
pub open spec fn rule_report(l: Lint, t: TreeModel, i: int, v: Version) -> Result<Option<ReportModel>, InternalError> {
    match l {
        Lint::BoolComparison => bool_comparison::spec_report(t, i),
        Lint::EmptyLetIn => empty_let_in::spec_report(t, i),
        Lint::ManualInherit => manual_inherit::spec_report(t, i),
        Lint::ManualInheritFrom => manual_inherit::spec_report_from(t, i),
        Lint::LegacyLetSyntax => let_in::spec_report_legacy(t, i),
        Lint::CollapsibleLetIn => let_in::spec_report_collapsible(t, i),
        Lint::EtaReduction => eta_reduction::spec_report(t, i),
        Lint::UselessParens => useless_parens::spec_report(t, i),
        Lint::EmptyPattern => patterns::spec_report_empty(t, i),
        Lint::RedundantPatternBind => patterns::spec_report_bind(t, i),
        Lint::UnquotedUri => unquoted_uri::spec_report(t, i),
        Lint::EmptyInherit => empty_inherit::spec_report(t, i),
        Lint::DeprecatedToPath => deprecated_to_path::spec_report(t, i),
        Lint::BoolSimplification => bool_simplification::spec_report(t, i),
        Lint::UselessHasAttr => useless_has_attr::spec_report(t, i),
        Lint::RepeatedKeys => repeated_keys::spec_report(t, i),
        Lint::EmptyListConcat => empty_list_concat::spec_report(t, i),
        Lint::FasterGroupBy => faster_builtins::spec_report(t, i, v, Lint::FasterGroupBy),
        Lint::FasterZipAttrsWith => faster_builtins::spec_report(t, i, v, Lint::FasterZipAttrsWith),
    }
}

impl Lint {
    /// This rule's unique name.
    pub fn name(&self) -> (r: &'static str)
        ensures
            r@ == lint_name(*self),
    {
        match self {
            Lint::BoolComparison => "bool_comparison",
            Lint::EmptyLetIn => "empty_let_in",
            Lint::ManualInherit => "manual_inherit",
            Lint::ManualInheritFrom => "manual_inherit_from",
            Lint::LegacyLetSyntax => "legacy_let_syntax",
            Lint::CollapsibleLetIn => "collapsible_let_in",
            Lint::EtaReduction => "eta_reduction",
            Lint::UselessParens => "useless_parens",
            Lint::EmptyPattern => "empty_pattern",
            Lint::RedundantPatternBind => "redundant_pattern_bind",
            Lint::UnquotedUri => "unquoted_uri",
            Lint::EmptyInherit => "empty_inherit",
            Lint::DeprecatedToPath => "deprecated_to_path",
            Lint::BoolSimplification => "bool_simplification",
            Lint::UselessHasAttr => "useless_has_attr",
            Lint::RepeatedKeys => "repeated_keys",
            Lint::EmptyListConcat => "empty_list_concat",
            Lint::FasterGroupBy => "faster_groupby",
            Lint::FasterZipAttrsWith => "faster_zipattrswith",
        }
    }

    /// The note that heads this rule's reports.
    pub fn note(&self) -> (r: &'static str)
        ensures
            r@ == lint_note(*self),
    {
        match self {
            Lint::BoolComparison => "Unnecessary comparison with boolean",
            Lint::EmptyLetIn => "Useless let-in expression",
            Lint::ManualInherit => "Assignment instead of inherit",
            Lint::ManualInheritFrom => "Assignment instead of inherit from",
            Lint::LegacyLetSyntax => "Using undocumented `let` syntax",
            Lint::CollapsibleLetIn => "These let-in expressions are collapsible",
            Lint::EtaReduction => "This function expression is eta reducible",
            Lint::UselessParens => "These parentheses can be omitted",
            Lint::EmptyPattern => "Found empty pattern in function argument",
            Lint::RedundantPatternBind => "Found redundant pattern bind in function argument",
            Lint::UnquotedUri => "Found unquoted URI expression",
            Lint::EmptyInherit => "Found empty inherit statement",
            Lint::DeprecatedToPath => "Found usage of deprecated builtin toPath",
            Lint::BoolSimplification => "This boolean expression can be simplified",
            Lint::UselessHasAttr => "This `if` expression can be simplified with `or`",
            Lint::RepeatedKeys => "Avoid repeated keys in attribute sets",
            Lint::EmptyListConcat => "Unnecessary concatenation with empty list",
            Lint::FasterGroupBy => "Found lib.groupBy",
            Lint::FasterZipAttrsWith => "Found lib.zipAttrsWith",
        }
    }

    /// This rule's stable code.
    pub fn code(&self) -> (r: u32)
        ensures
            r == lint_code(*self),
    {
        match self {
            Lint::BoolComparison => 1,
            Lint::EmptyLetIn => 2,
            Lint::ManualInherit => 3,
            Lint::ManualInheritFrom => 4,
            Lint::LegacyLetSyntax => 5,
            Lint::CollapsibleLetIn => 6,
            Lint::EtaReduction => 7,
            Lint::UselessParens => 8,
            Lint::EmptyPattern => 10,
            Lint::RedundantPatternBind => 11,
            Lint::UnquotedUri => 12,
            Lint::EmptyInherit => 14,
            Lint::DeprecatedToPath => 17,
            Lint::BoolSimplification => 18,
            Lint::UselessHasAttr => 19,
            Lint::RepeatedKeys => 20,
            Lint::EmptyListConcat => 23,
            Lint::FasterGroupBy => 15,
            Lint::FasterZipAttrsWith => 16,
        }
    }

    /// The kinds of element that this rule is dispatched on.
    pub fn match_kind(&self) -> (r: Vec<u16>)
        ensures
            r@ == lint_kinds(*self),
    {
        let r = match self {
            Lint::BoolComparison => vec![NODE_BIN_OP],
            Lint::EmptyLetIn => vec![NODE_LET_IN],
            Lint::ManualInherit => vec![NODE_ATTRPATH_VALUE],
            Lint::ManualInheritFrom => vec![NODE_ATTRPATH_VALUE],
            Lint::LegacyLetSyntax => vec![NODE_LEGACY_LET],
            Lint::CollapsibleLetIn => vec![NODE_LET_IN],
            Lint::EtaReduction => vec![NODE_LAMBDA],
            Lint::UselessParens => vec![NODE_ATTRPATH_VALUE, NODE_PAREN, NODE_LET_IN],
            Lint::EmptyPattern => vec![NODE_LAMBDA],
            Lint::RedundantPatternBind => vec![NODE_PATTERN],
            Lint::UnquotedUri => vec![TOKEN_URI],
            Lint::EmptyInherit => vec![NODE_INHERIT],
            Lint::DeprecatedToPath => vec![NODE_APPLY],
            Lint::BoolSimplification => vec![NODE_UNARY_OP],
            Lint::UselessHasAttr => vec![NODE_IF_ELSE],
            Lint::RepeatedKeys => vec![NODE_ATTRPATH_VALUE],
            Lint::EmptyListConcat => vec![NODE_BIN_OP],
            Lint::FasterGroupBy => vec![NODE_SELECT],
            Lint::FasterZipAttrsWith => vec![NODE_SELECT],
        };
        assert(r@ =~= lint_kinds(*self));
        r
    }

    /// Whether this rule is dispatched on elements of kind `k`.
    pub fn match_with(&self, k: u16) -> (r: bool)
        ensures
            r == lint_kinds(*self).contains(k),
    {
        let kinds = self.match_kind();
        let mut i: usize = 0;
        while i < kinds.len()
            invariant
                0 <= i <= kinds.len(),
                kinds@ == lint_kinds(*self),
                forall|j: int| 0 <= j < i ==> kinds@[j] != k,
            decreases kinds.len() - i,
        {
            if kinds[i] == k {
                return true;
            }
            i = i + 1;
        }
        false
    }

    /// The documentation of this rule.
    pub fn explanation(&self) -> (r: &'static str)
        ensures
            r@ == lint_explanation(*self),
    {
        match self {
            Lint::BoolComparison => "## What it does\nChecks for expressions of the form `x == true`, `x != true` and\nsuggests using the variable directly.\n\n## Why is this bad?\nUnnecessary code.\n\n## Example\nInstead of checking the value of `x`:\n\n```nix\nif x == true then 0 else 1\n```\n\nUse `x` directly:\n\n```nix\nif x then 0 else 1\n```",
            Lint::EmptyLetIn => "## What it does\nChecks for `let-in` expressions which create no new bindings.\n\n## Why is this bad?\n`let-in` expressions that create no new bindings are useless.\nThese are probably remnants from debugging or editing expressions.\n\n## Example\n\n```nix\nlet in pkgs.statix\n```\n\nPreserve only the body of the `let-in` expression:\n\n```nix\npkgs.statix\n```",
            Lint::ManualInherit => "## What it does\nChecks for bindings of the form `a = a`.\n\n## Why is this bad?\nIf the aim is to bring attributes from a larger scope into\nthe current scope, prefer an inherit statement.\n\n## Example\n\n```nix\nlet\n  a = 2;\nin\n  { a = a; b = 3; }\n```\n\nTry `inherit` instead:\n\n```nix\nlet\n  a = 2;\nin\n  { inherit a; b = 3; }\n```",
            Lint::ManualInheritFrom => "## What it does\nChecks for bindings of the form `a = someAttr.a`.\n\n## Why is this bad?\nIf the aim is to extract or bring attributes of an attrset into\nscope, prefer an inherit statement.\n\n## Example\n\n```nix\nlet\n  mtl = pkgs.haskellPackages.mtl;\nin\n  null\n```\n\nTry `inherit` instead:\n\n```nix\nlet\n  inherit (pkgs.haskellPackages) mtl;\nin\n  null\n```",
            Lint::LegacyLetSyntax => "## What it does\nChecks for legacy-let syntax that was never formalized.\n\n## Why is this bad?\nThis syntax construct is undocumented, refrain from using it.\n\n## Example\n\nLegacy let syntax makes use of an attribute set annotated with\n`let` and expects a `body` attribute.\n```nix\nlet {\n  body = x + y;\n  x = 2;\n  y = 3;\n}\n```\n\nThis is trivially representible via `rec`, which is documented\nand more widely known:\n\n```nix\nrec {\n  body = x + y;\n  x = 2;\n  y = 3;\n}.body\n```",
            Lint::CollapsibleLetIn => "## What it does\nChecks for `let-in` expressions whose body is another `let-in`\nexpression.\n\n## Why is this bad?\nUnnecessary code, the `let-in` expressions can be merged.\n\n## Example\n\n```nix\nlet\n  a = 2;\nin\nlet\n  b = 3;\nin\n  a + b\n```\n\nMerge both `let-in` expressions:\n\n```nix\nlet\n  a = 2;\n  b = 3;\nin\n  a + b\n```",
            Lint::EtaReduction => "## What it does\nChecks for eta-reducible functions, i.e.: converts lambda\nexpressions into free standing functions where applicable.\n\n## Why is this bad?\nOftentimes, eta-reduction results in code that is more natural\nto read.\n\n## Example\n\n```nix\nlet\n  double = i: 2 * i;\nin\nmap (x: double x) [ 1 2 3 ]\n```\n\nThe lambda passed to the `map` function is eta-reducible, and the\nresult reads more naturally:\n\n```nix\nlet\n  double = i: 2 * i;\nin\nmap double [ 1 2 3 ]\n```",
            Lint::UselessParens => "## What it does\nChecks for unnecessary parentheses.\n\n## Why is this bad?\nUnnecessarily parenthesized code is hard to read.\n\n## Example\n\n```nix\nlet\n  double = (x: 2 * x);\n  ls = map (double) [ 1 2 3 ];\nin\n  (2 + 3)\n```\n\nRemove unnecessary parentheses:\n\n```nix\nlet\n  double = x: 2 * x;\n  ls = map double [ 1 2 3 ];\nin\n  2 + 3\n```",
            Lint::EmptyPattern => "## What it does\nChecks for an empty variadic pattern: `{...}`, in a function\nargument.\n\n## Why is this bad?\nThe intention with empty patterns is not instantly obvious. Prefer\nan underscore identifier instead, to indicate that the argument\nis being ignored.\n\n## Example\n\n```nix\nclient = { ... }: {\n  services.irmaseal-pkg.enable = true;\n};\n```\n\nReplace the empty variadic pattern with `_` to indicate that you\nintend to ignore the argument:\n\n```nix\nclient = _: {\n  services.irmaseal-pkg.enable = true;\n};\n```",
            Lint::RedundantPatternBind => "## What it does\nChecks for binds of the form `inputs @ { ... }` in function\narguments.\n\n## Why is this bad?\nThe variadic pattern here is redundant, as it does not capture\nanything.\n\n## Example\n\n```nix\ninputs @ { ... }: inputs.nixpkgs\n```\n\nRemove the pattern altogether:\n\n```nix\ninputs: inputs.nixpkgs\n```",
            Lint::UnquotedUri => "## What it does\nChecks for URI expressions that are not quoted.\n\n## Why is this bad?\nThe Nix language has a special syntax for URLs even though quoted\nstrings can also be used to represent them. Unlike paths, URLs do\nnot have any special properties in the Nix expression language\nthat would make the difference useful. Moreover, using variable\nexpansion in URLs requires some URLs to be quoted strings anyway.\nSo the most consistent approach is to always use quoted strings to\nrepresent URLs. Additionally, a semicolon immediately after the\nURL can be mistaken for a part of URL by language-agnostic tools\nsuch as terminal emulators.\n\nSee RFC 00045 [1] for more.\n\n[1]: https://github.com/NixOS/rfcs/blob/master/rfcs/0045-deprecate-url-syntax.md\n\n## Example\n\n```nix\ninputs = {\n  gitignore.url = github:hercules-ci/gitignore.nix;\n}\n```\n\nQuote the URI expression:\n\n```nix\ninputs = {\n  gitignore.url = \"github:hercules-ci/gitignore.nix\";\n}\n```",
            Lint::EmptyInherit => "## What it does\nChecks for empty inherit statements.\n\n## Why is this bad?\nUseless code, probably the result of a refactor.\n\n## Example\n\n```nix\ninherit;\n```\n\nRemove it altogether.",
            Lint::DeprecatedToPath => "## What it does\nChecks for usage of the `toPath` function.\n\n## Why is this bad?\n`toPath` is deprecated.\n\n## Example\n\n```nix\nbuiltins.toPath \"/path\"\n```\n\nTry these instead:\n\n```nix\n# to convert the string to an absolute path:\n/. + \"/path\"\n# => /abc\n\n# to convert the string to a path relative to the current directory:\n./. + \"/bin\"\n# => /home/np/statix/bin\n```",
            Lint::BoolSimplification => "## What it does\nChecks for boolean expressions that can be simplified.\n\n## Why is this bad?\nComplex booleans affect readibility.\n\n## Example\n```nix\nif !(x == y) then 0 else 1\n```\n\nUse `!=` instead:\n\n```nix\nif x != y then 0 else 1\n```",
            Lint::UselessHasAttr => "## What it does\nChecks for expressions that use the \"has attribute\" operator: `?`,\nwhere the `or` operator would suffice.\n\n## Why is this bad?\nThe `or` operator is more readable.\n\n## Example\n```nix\nif x ? a then x.a else some_default\n```\n\nUse `or` instead:\n\n```nix\nx.a or some_default\n```",
            Lint::RepeatedKeys => "## What it does\nChecks for keys in attribute sets with repetitive keys, and suggests using\nan attribute set instead.\n\n## Why is this bad?\nAvoiding repetetion helps improve readibility.\n\n## Example\n```nix\n{\n  foo.a = 1;\n  foo.b = 2;\n  foo.c = 3;\n}\n```\n\nDon't repeat.\n```nix\n{\n  foo = {\n    a = 1;\n    b = 2;\n    c = 3;\n  };\n}\n```",
            Lint::EmptyListConcat => "## What it does\nChecks for concatenations to empty lists\n\n## Why is this bad?\nConcatenation with the empty list is a no-op.\n\n## Example\n```nix\n[] ++ something\n```\n\nRemove the operation:\n\n```nix\nsomething\n```",
            Lint::FasterGroupBy => "## What it does\nChecks for `lib.groupBy`.\n\n## Why is this bad?\nNix 2.5 introduces `builtins.groupBy` which is faster and does\nnot require a lib import.\n\n## Example\n\n```nix\nlib.groupBy (x: if x > 2 then \"big\" else \"small\") [ 1 2 3 4 5 6 ];\n# { big = [ 3 4 5 6 ]; small = [ 1 2 ]; }\n```\n\nReplace `lib.groupBy` with `builtins.groupBy`:\n\n```nix\nbuiltins.groupBy (x: if x > 2 then \"big\" else \"small\") [ 1 2 3 4 5 6 ];\n```",
            Lint::FasterZipAttrsWith => "## What it does\nChecks for `lib.zipAttrsWith`.\n\n## Why is this bad?\nNix 2.6 introduces `builtins.zipAttrsWith` which is faster and does\nnot require a lib import.\n\n## Example\n\n```nix\nlib.zipAttrsWith (name: values: values) [ {a = \"x\";} {a = \"y\"; b = \"z\";} ]\n# { a = [\"x\" \"y\"]; b = [\"z\"] }\n```\n\nReplace `lib.zipAttrsWith` with `builtins.zipAttrsWith`:\n\n```nix\nbuiltins.zipAttrsWith (name: values: values) [ {a = \"x\";} {a = \"y\"; b = \"z\";} ]\n```",
        }
    }

    /// An empty report of this rule.
    pub fn report(&self) -> (r: Report)
        ensures
            r@ == (ReportModel { note: lint_note(*self), code: lint_code(*self), diagnostics: Seq::empty() }),
    {
        Report::new(self.note(), self.code())
    }

    /// A report of this rule with one diagnostic that carries a suggestion.
    pub fn fix_report(
        &self,
        at: TextRange,
        message: String,
        fix_at: TextRange,
        fix: Option<Vec<u8>>,
    ) -> (r: Report)
        ensures
            r@ == fix_report(*self, at, message@, fix_at, opt_view(fix)),
    {
        let s = match fix {
            Some(v) => Suggestion::with_replacement(fix_at, v),
            None => Suggestion::with_empty(fix_at),
        };
        let r = self.report().suggest(at, message, s);
        assert(r@.diagnostics =~= fix_report(*self, at, message@, fix_at, opt_view(fix)).diagnostics);
        r
    }

    /// A report of this rule with one diagnostic and no suggestion.
    pub fn note_report(&self, at: TextRange, message: String) -> (r: Report)
        ensures
            r@ == note_report(*self, at, message@),
    {
        let r = self.report().diagnostic(at, message);
        assert(r@.diagnostics =~= note_report(*self, at, message@).diagnostics);
        r
    }

    /// What this rule reports on element `i` of `t` under `sess`.
    pub fn validate(&self, t: &SyntaxTree, i: usize, sess: &SessionInfo) -> (r: Result<Option<Report>, InternalError>)
        requires
            wf_tree(t),
            i < t.elements@.len(),
        ensures
            outcome_view(r) == rule_report(*self, t@, i as int, sess.nix_version),
    {
        proof {
            reveal(rule_report);
        }
        match self {
            Lint::BoolComparison => bool_comparison::validate(t, i),
            Lint::EmptyLetIn => empty_let_in::validate(t, i),
            Lint::ManualInherit => manual_inherit::validate(t, i),
            Lint::ManualInheritFrom => manual_inherit::validate_from(t, i),
            Lint::LegacyLetSyntax => let_in::validate_legacy(t, i),
            Lint::CollapsibleLetIn => let_in::validate_collapsible(t, i),
            Lint::EtaReduction => eta_reduction::validate(t, i),
            Lint::UselessParens => useless_parens::validate(t, i),
            Lint::EmptyPattern => patterns::validate_empty(t, i),
            Lint::RedundantPatternBind => patterns::validate_bind(t, i),
            Lint::UnquotedUri => unquoted_uri::validate(t, i),
            Lint::EmptyInherit => empty_inherit::validate(t, i),
            Lint::DeprecatedToPath => deprecated_to_path::validate(t, i),
            Lint::BoolSimplification => bool_simplification::validate(t, i),
            Lint::UselessHasAttr => useless_has_attr::validate(t, i),
            Lint::RepeatedKeys => repeated_keys::validate(t, i),
            Lint::EmptyListConcat => empty_list_concat::validate(t, i),
            Lint::FasterGroupBy => faster_builtins::validate(t, i, sess, Lint::FasterGroupBy),
            Lint::FasterZipAttrsWith => faster_builtins::validate(t, i, sess, Lint::FasterZipAttrsWith),
        }
    }
}

/// The range lies within a text of `len` bytes.
pub open spec fn range_within(r: TextRange, len: int) -> bool {
    r.start <= len && r.end <= len
}

/// Every range of report `r`, of its diagnostics and of their suggestions, lies
/// within a text of `len` bytes.
pub open spec fn report_within(r: ReportModel, len: int) -> bool {
    forall|k: int|
        0 <= k < r.diagnostics.len() ==> range_within((#[trigger] r.diagnostics[k]).at, len) && match r.diagnostics[k].suggestion {
            Some(s) => range_within(s.at, len),
            None => true,
        }
}

/// On a tree whose ranges lie within its text, so do those of every report.
pub proof fn lemma_rule_report_within(l: Lint, t: TreeModel, i: int, v: Version)
    requires
        ranges_in_text(t),
        0 <= i < t.elements.len(),
    ensures
        match rule_report(l, t, i, v) {
            Ok(Some(r)) => report_within(r, t.text.len() as int),
            _ => true,
        },
{
    reveal(rule_report);
    match l {
        Lint::BoolComparison => bool_comparison::lemma_within(t, i),
        Lint::EmptyLetIn => empty_let_in::lemma_within(t, i),
        Lint::ManualInherit => manual_inherit::lemma_within(t, i),
        Lint::ManualInheritFrom => manual_inherit::lemma_within_from(t, i),
        Lint::LegacyLetSyntax => let_in::lemma_within_legacy(t, i),
        Lint::CollapsibleLetIn => let_in::lemma_within_collapsible(t, i),
        Lint::EtaReduction => eta_reduction::lemma_within(t, i),
        Lint::UselessParens => useless_parens::lemma_within(t, i),
        Lint::EmptyPattern => patterns::lemma_within_empty(t, i),
        Lint::RedundantPatternBind => patterns::lemma_within_bind(t, i),
        Lint::UnquotedUri => unquoted_uri::lemma_within(t, i),
        Lint::EmptyInherit => empty_inherit::lemma_within(t, i),
        Lint::DeprecatedToPath => deprecated_to_path::lemma_within(t, i),
        Lint::BoolSimplification => bool_simplification::lemma_within(t, i),
        Lint::UselessHasAttr => useless_has_attr::lemma_within(t, i),
        Lint::RepeatedKeys => repeated_keys::lemma_within(t, i),
        Lint::EmptyListConcat => empty_list_concat::lemma_within(t, i),
        Lint::FasterGroupBy => faster_builtins::lemma_within(t, i, v, Lint::FasterGroupBy),
        Lint::FasterZipAttrsWith => faster_builtins::lemma_within(t, i, v, Lint::FasterZipAttrsWith),
    }
}

/// A rule gated on a version reports nothing under a session of an earlier
/// version; a rule gated from 2.5 is silent under 2.4.x.
pub proof fn law_gated_rule_silent_before_gate(l: Lint, t: TreeModel, i: int, v: Version)
    requires
        lint_gate(l) matches Some(g) && !crate::session::version_at_least(v, g),
    ensures
        rule_report(l, t, i, v) == Ok::<Option<ReportModel>, InternalError>(None),
{
    reveal(rule_report);
}

/// Every rule, in registration order.
pub open spec fn all_lints() -> Seq<Lint> {
    seq![
        Lint::BoolComparison,
        Lint::EmptyLetIn,
        Lint::ManualInherit,
        Lint::ManualInheritFrom,
        Lint::LegacyLetSyntax,
        Lint::CollapsibleLetIn,
        Lint::EtaReduction,
        Lint::UselessParens,
        Lint::EmptyPattern,
        Lint::RedundantPatternBind,
        Lint::UnquotedUri,
        Lint::EmptyInherit,
        Lint::DeprecatedToPath,
        Lint::BoolSimplification,
        Lint::UselessHasAttr,
        Lint::RepeatedKeys,
        Lint::EmptyListConcat,
        Lint::FasterGroupBy,
        Lint::FasterZipAttrsWith,
    ]
}

/// Every rule, in registration order.
pub fn lints() -> (r: Vec<Lint>)
    ensures
        r@ == all_lints(),
{
    let r = vec![
        Lint::BoolComparison,
        Lint::EmptyLetIn,
        Lint::ManualInherit,
        Lint::ManualInheritFrom,
        Lint::LegacyLetSyntax,
        Lint::CollapsibleLetIn,
        Lint::EtaReduction,
        Lint::UselessParens,
        Lint::EmptyPattern,
        Lint::RedundantPatternBind,
        Lint::UnquotedUri,
        Lint::EmptyInherit,
        Lint::DeprecatedToPath,
        Lint::BoolSimplification,
        Lint::UselessHasAttr,
        Lint::RepeatedKeys,
        Lint::EmptyListConcat,
        Lint::FasterGroupBy,
        Lint::FasterZipAttrsWith,
    ];
    assert(r@ =~= all_lints());
    r
}

} // verus!
