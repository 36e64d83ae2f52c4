//! `builtins.toPath` and `toPath`: deprecated.
use vstd::prelude::*;
use vstd::string::StringSliceAdditionalSpecFns;
use crate::lints::{note_report, outcome_view, fires, Lint};
use crate::report::{InternalError, append_bytes, lossy_text, text_from_bytes, Report, ReportModel};
use crate::syntax::{TreeModel, nth_child, text_of, wf_tree, KindClass, SyntaxTree, NODE_APPLY};

verus! {

/// On an application of `builtins.toPath` or `toPath`: reported, with no fix.
pub open spec fn spec_report(t: TreeModel, i: int) -> Result<Option<ReportModel>, InternalError> {
    let els = t.elements;
    match nth_child(els, i, KindClass::Expr, 0) {
        Some(f) => {
            let name = text_of(t, f as int);
            if els[i].kind != NODE_APPLY || (name != "builtins.toPath".spec_bytes() && name != "toPath".spec_bytes()) {
                Ok(None)
            } else {
                fires(
                    note_report(
                        Lint::DeprecatedToPath,
                        els[i].range,
                        lossy_text(
                            "`".spec_bytes() + name
                                + "` is deprecated, see `:doc builtins.toPath` within the REPL for more".spec_bytes(),
                        ),
                    ),
                )
            }
        },
        None => Ok(None),
    }
}

pub fn validate(t: &SyntaxTree, i: usize) -> (r: Result<Option<Report>, InternalError>)
    requires
        wf_tree(t),
        i < t.elements@.len(),
    ensures
        outcome_view(r) == spec_report(t@, i as int),
{
    let f = match t.nth_child(i, KindClass::Expr, 0) {
        Some(x) => x,
        None => return Ok(None),
    };
    if t.kind(i) != NODE_APPLY || (!t.text_is(f, "builtins.toPath") && !t.text_is(f, "toPath")) {
        return Ok(None);
    }
    let mut m: Vec<u8> = Vec::new();
    append_bytes(&mut m, "`".as_bytes());
    append_bytes(&mut m, t.text(f).as_slice());
    append_bytes(&mut m, "` is deprecated, see `:doc builtins.toPath` within the REPL for more".as_bytes());
    Ok(Some(Lint::DeprecatedToPath.note_report(t.range(i), text_from_bytes(m.as_slice()))))
}

/// The ranges of what this rule reports lie within the text.
pub proof fn lemma_within(t: TreeModel, i: int)
    requires
        crate::syntax::ranges_in_text(t),
        0 <= i < t.elements.len(),
    ensures
        match spec_report(t, i) {
            Ok(Some(r)) => crate::lints::report_within(r, t.text.len() as int),
            _ => true,
        },
{
    broadcast use crate::syntax::lemma_nth_child_bound, crate::syntax::lemma_children_in_bound,
        crate::syntax::lemma_children_of_bound;
}

} // verus!
