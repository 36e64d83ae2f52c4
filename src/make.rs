//! Node synthesis: a replacement is made by writing the smallest snippet that
//! holds a node of the wanted kind, parsing it on its own, and taking the text
//! of the first node of that kind.
use vstd::prelude::*;
use vstd::string::StringSliceAdditionalSpecFns;
use vstd::utf8::{valid_utf8, decode_utf8, decode_utf8_encode_utf8};
use crate::syntax::{
    Element, span, syntax_errors, tree_of, parses, parse_tree, NODE_PAREN, NODE_STRING, NODE_UNARY_OP,
    NODE_IDENT, NODE_SELECT, NODE_BIN_OP, NODE_INHERIT, NODE_ATTR_SET,
};
use crate::report::append_bytes;

verus! {

/// Relies on `String::from_utf8`: it succeeds exactly on well-formed UTF-8, and
/// then holds the decoded text.
#[verifier::external_body]
pub(crate) fn string_from_utf8(b: Vec<u8>) -> (r: Option<String>)
    ensures
        r is Some <==> valid_utf8(b@),
        r matches Some(s) ==> s@ == decode_utf8(b@),
{
    String::from_utf8(b).ok()
}

/// The first element of kind `k` at index `j` or later, in preorder.
pub open spec fn first_of_kind_from(els: Seq<Element>, k: u16, j: int) -> Option<int>
    decreases els.len() - j,
{
    if j < 0 || j >= els.len() {
        None
    } else if els[j].kind == k {
        Some(j)
    } else {
        first_of_kind_from(els, k, j + 1)
    }
}

/// The text of the first node of kind `k` in the tree of `snippet`, where the
/// snippet is well-formed UTF-8 short enough for 32-bit offsets, parses without
/// error and holds such a node.
pub open spec fn synthesized(snippet: Seq<u8>, k: u16) -> Option<Seq<u8>> {
    if snippet.len() > u32::MAX || !valid_utf8(snippet) || syntax_errors(decode_utf8(snippet)).len() != 0 {
        None
    } else {
        let els = tree_of(decode_utf8(snippet));
        match first_of_kind_from(els, k, 0) {
            Some(i) => Some(span(snippet, els[i].range)),
            None => None,
        }
    }
}

pub open spec fn opt_view(r: Option<Vec<u8>>) -> Option<Seq<u8>> {
    match r {
        Some(v) => Some(v@),
        None => None,
    }
}

/// Parses `snippet` and takes the text of its first node of kind `k`.
pub fn synthesize(snippet: Vec<u8>, k: u16) -> (r: Option<Vec<u8>>)
    ensures
        opt_view(r) == synthesized(snippet@, k),
{
    let ghost bytes = snippet@;
    if snippet.len() > 0xFFFF_FFFF {
        return None;
    }
    let src = match string_from_utf8(snippet) {
        Some(s) => s,
        None => return None,
    };
    proof {
        decode_utf8_encode_utf8(bytes);
    }
    if !parses(src.as_str()) {
        return None;
    }
    let t = parse_tree(src.as_str());
    assert(t.text@ == bytes);
    let mut j: usize = 0;
    while j < t.len()
        invariant
            bytes == snippet@,
            bytes.len() <= u32::MAX,
            valid_utf8(bytes),
            syntax_errors(decode_utf8(bytes)).len() == 0,
            t.elements@ == tree_of(decode_utf8(bytes)),
            t.text@ == bytes,
            0 <= j <= t.elements@.len(),
            first_of_kind_from(t.elements@, k, 0) == first_of_kind_from(t.elements@, k, j as int),
        decreases t.elements@.len() - j,
    {
        if t.kind(j) == k {
            return Some(t.text(j));
        }
        j = j + 1;
    }
    None
}

/// `a`, then `b`.
pub fn cat2(a: &[u8], b: &[u8]) -> (r: Vec<u8>)
    ensures
        r@ == a@ + b@,
{
    let mut v: Vec<u8> = Vec::new();
    append_bytes(&mut v, a);
    append_bytes(&mut v, b);
    assert(v@ =~= a@ + b@);
    v
}

/// `a`, then `b`, then `c`.
pub fn cat3(a: &[u8], b: &[u8], c: &[u8]) -> (r: Vec<u8>)
    ensures
        r@ == a@ + b@ + c@,
{
    let mut v = cat2(a, b);
    append_bytes(&mut v, c);
    v
}

/// `(node)`
pub fn parenthesize(node: &[u8]) -> (r: Option<Vec<u8>>)
    ensures
        opt_view(r) == synthesized("(".spec_bytes() + node@ + ")".spec_bytes(), NODE_PAREN),
{
    synthesize(cat3("(".as_bytes(), node, ")".as_bytes()), NODE_PAREN)
}

/// `"node"`
pub fn quote(node: &[u8]) -> (r: Option<Vec<u8>>)
    ensures
        opt_view(r) == synthesized("\"".spec_bytes() + node@ + "\"".spec_bytes(), NODE_STRING),
{
    synthesize(cat3("\"".as_bytes(), node, "\"".as_bytes()), NODE_STRING)
}

/// `!node`
pub fn unary_not(node: &[u8]) -> (r: Option<Vec<u8>>)
    ensures
        opt_view(r) == synthesized("!".spec_bytes() + node@, NODE_UNARY_OP),
{
    synthesize(cat2("!".as_bytes(), node), NODE_UNARY_OP)
}

/// An identifier.
pub fn ident(text: &str) -> (r: Option<Vec<u8>>)
    ensures
        opt_view(r) == synthesized(text.spec_bytes(), NODE_IDENT),
{
    let mut v: Vec<u8> = Vec::new();
    append_bytes(&mut v, text.as_bytes());
    assert(v@ =~= text.spec_bytes());
    synthesize(v, NODE_IDENT)
}

/// `set.index`
pub fn select(set: &[u8], index: &[u8]) -> (r: Option<Vec<u8>>)
    ensures
        opt_view(r) == synthesized(set@ + ".".spec_bytes() + index@, NODE_SELECT),
{
    synthesize(cat3(set, ".".as_bytes(), index), NODE_SELECT)
}

/// `lhs op rhs`
pub fn binary(lhs: &[u8], op: &str, rhs: &[u8]) -> (r: Option<Vec<u8>>)
    ensures
        opt_view(r) == synthesized(
            lhs@ + " ".spec_bytes() + op.spec_bytes() + " ".spec_bytes() + rhs@,
            NODE_BIN_OP,
        ),
{
    let mut v = cat3(lhs, " ".as_bytes(), op.as_bytes());
    append_bytes(&mut v, " ".as_bytes());
    append_bytes(&mut v, rhs);
    synthesize(v, NODE_BIN_OP)
}

/// `set.index or default`
pub fn or_default(set: &[u8], index: &[u8], default: &[u8]) -> (r: Option<Vec<u8>>)
    ensures
        opt_view(r) == synthesized(
            set@ + ".".spec_bytes() + index@ + " or ".spec_bytes() + default@,
            NODE_SELECT,
        ),
{
    let mut v = cat3(set, ".".as_bytes(), index);
    append_bytes(&mut v, " or ".as_bytes());
    append_bytes(&mut v, default);
    synthesize(v, NODE_SELECT)
}

/// The members of `xs`, each after a space.
pub open spec fn spaced(xs: Seq<Seq<u8>>) -> Seq<u8>
    decreases xs.len(),
{
    if xs.len() == 0 {
        Seq::empty()
    } else {
        spaced(xs.drop_last()) + " ".spec_bytes() + xs.last()
    }
}

fn spaced_bytes(xs: &Vec<Vec<u8>>) -> (r: Vec<u8>)
    ensures
        r@ == spaced(xs.deep_view()),
{
    let mut v: Vec<u8> = Vec::new();
    let mut i: usize = 0;
    while i < xs.len()
        invariant
            0 <= i <= xs.len(),
            v@ == spaced(xs.deep_view().take(i as int)),
        decreases xs.len() - i,
    {
        assert(xs.deep_view().take(i + 1).drop_last() =~= xs.deep_view().take(i as int));
        append_bytes(&mut v, " ".as_bytes());
        append_bytes(&mut v, xs[i].as_slice());
        i = i + 1;
    }
    assert(xs.deep_view().take(xs.len() as int) =~= xs.deep_view());
    v
}

/// `inherit a b c;`, made from `{ inherit a b c; }`.
pub fn inherit_stmt(idents: &Vec<Vec<u8>>) -> (r: Option<Vec<u8>>)
    ensures
        opt_view(r) == synthesized(
            "{ inherit".spec_bytes() + spaced(idents.deep_view()) + "; }".spec_bytes(),
            NODE_INHERIT,
        ),
{
    synthesize(cat3("{ inherit".as_bytes(), spaced_bytes(idents).as_slice(), "; }".as_bytes()), NODE_INHERIT)
}

/// `inherit (from) a b c;`, made from `{ inherit (from) a b c; }`.
pub fn inherit_from_stmt(from: &[u8], idents: &Vec<Vec<u8>>) -> (r: Option<Vec<u8>>)
    ensures
        opt_view(r) == synthesized(
            "{ inherit (".spec_bytes() + from@ + ")".spec_bytes() + spaced(idents.deep_view())
                + "; }".spec_bytes(),
            NODE_INHERIT,
        ),
{
    let mut v = cat3("{ inherit (".as_bytes(), from, ")".as_bytes());
    append_bytes(&mut v, spaced_bytes(idents).as_slice());
    append_bytes(&mut v, "; }".as_bytes());
    synthesize(v, NODE_INHERIT)
}

/// The members of `xs`, each on a line of its own, indented by two spaces.
pub open spec fn indented_lines(xs: Seq<Seq<u8>>) -> Seq<u8>
    decreases xs.len(),
{
    if xs.len() == 0 {
        Seq::empty()
    } else {
        indented_lines(xs.drop_last()) + "  ".spec_bytes() + xs.last() + "\n".spec_bytes()
    }
}

fn indented_bytes(xs: &Vec<Vec<u8>>) -> (r: Vec<u8>)
    ensures
        r@ == indented_lines(xs.deep_view()),
{
    let mut v: Vec<u8> = Vec::new();
    let mut i: usize = 0;
    while i < xs.len()
        invariant
            0 <= i <= xs.len(),
            v@ == indented_lines(xs.deep_view().take(i as int)),
        decreases xs.len() - i,
    {
        assert(xs.deep_view().take(i + 1).drop_last() =~= xs.deep_view().take(i as int));
        append_bytes(&mut v, "  ".as_bytes());
        append_bytes(&mut v, xs[i].as_slice());
        append_bytes(&mut v, "\n".as_bytes());
        i = i + 1;
    }
    assert(xs.deep_view().take(xs.len() as int) =~= xs.deep_view());
    v
}

/// An attribute set of the given bindings, one per line: first the inherits,
/// then the other entries; with `rec` before it where asked.
pub fn attrset(inherits: &Vec<Vec<u8>>, entries: &Vec<Vec<u8>>, recursive: bool) -> (r: Option<
    Vec<u8>,
>)
    ensures
        opt_view(r) == synthesized(
            (if recursive {
                "rec {\n".spec_bytes()
            } else {
                "{\n".spec_bytes()
            }) + indented_lines(inherits.deep_view()) + indented_lines(entries.deep_view())
                + "}".spec_bytes(),
            NODE_ATTR_SET,
        ),
{
    let head = if recursive {
        "rec {\n"
    } else {
        "{\n"
    };
    let mut v = cat3(head.as_bytes(), indented_bytes(inherits).as_slice(), indented_bytes(entries).as_slice());
    append_bytes(&mut v, "}".as_bytes());
    synthesize(v, NODE_ATTR_SET)
}

} // verus!
