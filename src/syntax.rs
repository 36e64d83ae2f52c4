//! The syntax tree that the rules read: the parser's elements in preorder, each
//! with its kind, its byte range, its parent and the end of its subtree.
use vstd::prelude::*;
use vstd::string::StringSliceAdditionalSpecFns;
use rnix::parser::ParseError as E;

verus! {

// Kinds of the parser's elements, by their number in its kind enumeration.
pub const TOKEN_COMMENT: u16 = 0;
pub const TOKEN_WHITESPACE: u16 = 2;
pub const TOKEN_IN: u16 = 6;
pub const TOKEN_LET: u16 = 8;
pub const TOKEN_OR: u16 = 9;
pub const TOKEN_REC: u16 = 10;
pub const TOKEN_ELLIPSIS: u16 = 22;
pub const TOKEN_CONCAT: u16 = 27;
pub const TOKEN_INVERT: u16 = 28;
pub const TOKEN_UPDATE: u16 = 29;
pub const TOKEN_ADD: u16 = 30;
pub const TOKEN_SUB: u16 = 31;
pub const TOKEN_EQUAL: u16 = 35;
pub const TOKEN_NOT_EQUAL: u16 = 41;
pub const TOKEN_OR_OR: u16 = 42;
pub const TOKEN_URI: u16 = 49;
pub const NODE_APPLY: u16 = 53;
pub const NODE_ASSERT: u16 = 54;
pub const NODE_ATTRPATH: u16 = 55;
pub const NODE_DYNAMIC: u16 = 56;
pub const NODE_ERROR: u16 = 57;
pub const NODE_IDENT: u16 = 58;
pub const NODE_IF_ELSE: u16 = 59;
pub const NODE_SELECT: u16 = 60;
pub const NODE_INHERIT: u16 = 61;
pub const NODE_INHERIT_FROM: u16 = 62;
pub const NODE_STRING: u16 = 63;
pub const NODE_LAMBDA: u16 = 65;
pub const NODE_IDENT_PARAM: u16 = 66;
pub const NODE_LEGACY_LET: u16 = 67;
pub const NODE_LET_IN: u16 = 68;
pub const NODE_LIST: u16 = 69;
pub const NODE_BIN_OP: u16 = 70;
pub const NODE_PAREN: u16 = 71;
pub const NODE_PATTERN: u16 = 72;
pub const NODE_PAT_BIND: u16 = 73;
pub const NODE_PAT_ENTRY: u16 = 74;
pub const NODE_ROOT: u16 = 75;
pub const NODE_ATTR_SET: u16 = 76;
pub const NODE_ATTRPATH_VALUE: u16 = 77;
pub const NODE_UNARY_OP: u16 = 78;
pub const NODE_LITERAL: u16 = 79;
pub const NODE_WITH: u16 = 80;
pub const NODE_PATH: u16 = 81;
pub const NODE_HAS_ATTR: u16 = 82;

/// A byte range `start..end` of a text.
#[derive(Copy, Clone, Debug, PartialEq, Eq, Structural)]
pub struct TextRange {
    pub start: u32,
    pub end: u32,
}

impl TextRange {
    pub fn new(start: u32, end: u32) -> (r: TextRange)
        ensures
            r == (TextRange { start, end }),
    {
        TextRange { start, end }
    }

    /// Whether `offset` lies in `start..end`.
    pub fn contains(&self, offset: u32) -> (r: bool)
        ensures
            r == (self.start <= offset && offset < self.end),
    {
        self.start <= offset && offset < self.end
    }
}

/// One element of a tree: a node or a token.
#[derive(Copy, Clone, Debug, PartialEq, Eq, Structural)]
pub struct Element {
    pub kind: u16,
    pub range: TextRange,
    /// The index of the enclosing node, if any.
    pub parent: Option<usize>,
    /// One past the index of the last element of this element's subtree.
    pub subtree_end: usize,
}

/// A parsed text: its bytes, and its elements in preorder.
pub struct SyntaxTree {
    pub text: Vec<u8>,
    pub elements: Vec<Element>,
}

/// What a tree stands for: the bytes and the elements.
pub struct TreeModel {
    pub text: Seq<u8>,
    pub elements: Seq<Element>,
}

impl View for SyntaxTree {
    type V = TreeModel;

    open spec fn view(&self) -> TreeModel {
        TreeModel { text: self.text@, elements: self.elements@ }
    }
}

/// A parse error, with the range that it concerns.
pub struct ParseError {
    pub at: TextRange,
    pub message: String,
}

/// The parser's walk over a text, in preorder: for each element, an entry event
/// `(true, kind, start, end)` and, after its subtree, an exit event `(false, ...)`.
pub uninterp spec fn syntax_events(src: Seq<char>) -> Seq<(bool, u16, u32, u32)>;

/// The parser's errors on a text: each message, and the range, where the error has one.
pub uninterp spec fn syntax_errors(src: Seq<char>) -> Seq<(Seq<char>, Option<(u32, u32)>)>;

/// Relies on rnix's `Root::parse` and rowan's `preorder_with_tokens`: the walk
/// over the tree that the parser builds, each event turned into plain values.
/// Offsets are 32-bit (rowan's `TextSize`), so the text must fit them; every
/// element's range lies within the text.
#[verifier::external_body]
fn parser_events(src: &str) -> (r: Vec<(bool, u16, u32, u32)>)
    requires
        src.spec_bytes().len() <= u32::MAX,
    ensures
        r@ == syntax_events(src@),
        forall|k: int| 0 <= k < r@.len() ==> (#[trigger] r@[k]).2 <= r@[k].3 && r@[k].3 <= src.spec_bytes().len(),
{
    rnix::Root::parse(src).syntax().preorder_with_tokens().map(|event| match event {
        rnix::WalkEvent::Enter(e) => (true, e.kind() as u16, e.text_range()),
        rnix::WalkEvent::Leave(e) => (false, e.kind() as u16, e.text_range()),
    }).map(|(enter, kind, r)| (enter, kind, u32::from(r.start()), u32::from(r.end()))).collect()
}

/// Relies on rnix's `Root::parse` and its `ParseError`: each error's message,
/// and its range where the error variant carries one. Offsets are 32-bit
/// (rowan's `TextSize`), so the text must fit them.
#[verifier::external_body]
fn parser_errors(src: &str) -> (r: Vec<(String, Option<(u32, u32)>)>)
    requires
        src.spec_bytes().len() <= u32::MAX,
    ensures
        r.deep_view() == syntax_errors(src@),
        forall|k: int| 0 <= k < r@.len() ==> raw_range_within((#[trigger] r@[k]).1, src.spec_bytes().len() as int),
{
    rnix::Root::parse(src).errors().iter().map(|e| (e.to_string(), match e {
        E::Unexpected(r) => Some(*r),
        E::UnexpectedExtra(r) => Some(*r),
        E::UnexpectedWanted(_, r, _) => Some(*r),
        E::UnexpectedDoubleBind(r) => Some(*r),
        E::DuplicatedArgs(r, _) => Some(*r),
        _ => None,
    })).map(|(m, r)| (m, r.map(|r| (u32::from(r.start()), u32::from(r.end()))))).collect()
}

/// A parse error's range, where it has one, lies within a text of `len` bytes.
pub open spec fn raw_range_within(o: Option<(u32, u32)>, len: int) -> bool {
    match o {
        Some((s, e)) => s <= e && e <= len,
        None => true,
    }
}

/// The range of a parse error: its own, or the empty range at the start of the
/// text where the parser gives none (an unexpected end of input).
pub open spec fn error_range(raw: Option<(u32, u32)>) -> TextRange {
    match raw {
        Some((s, e)) => TextRange { start: s, end: e },
        None => TextRange { start: 0, end: 0 },
    }
}

pub open spec fn build_step(st: (Seq<Element>, Seq<usize>), ev: (bool, u16, u32, u32)) -> (
    Seq<Element>,
    Seq<usize>,
) {
    let (els, stack) = st;
    if ev.0 {
        let k = els.len();
        let parent = if stack.len() == 0 {
            None
        } else {
            Some(stack.last())
        };
        (
            els.push(
                Element {
                    kind: ev.1,
                    range: TextRange { start: ev.2, end: ev.3 },
                    parent,
                    subtree_end: (k + 1) as usize,
                },
            ),
            stack.push(k as usize),
        )
    } else if stack.len() == 0 || stack.last() >= els.len() {
        st
    } else {
        let k = stack.last() as int;
        let e = els[k];
        (
            els.update(
                k,
                Element {
                    kind: e.kind,
                    range: e.range,
                    parent: e.parent,
                    subtree_end: els.len() as usize,
                },
            ),
            stack.drop_last(),
        )
    }
}

/// The elements and the open nodes after a prefix of the walk: an entry event
/// appends an element (a leaf, until its exit) whose parent is the innermost
/// open node; an exit event closes that node, whose subtree then ends at the
/// current number of elements.
pub open spec fn build(evs: Seq<(bool, u16, u32, u32)>) -> (Seq<Element>, Seq<usize>)
    decreases evs.len(),
{
    if evs.len() == 0 {
        (Seq::empty(), Seq::empty())
    } else {
        build_step(build(evs.drop_last()), evs.last())
    }
}

/// The elements of the tree that the parser builds for `src`.
pub open spec fn tree_of(src: Seq<char>) -> Seq<Element> {
    build(syntax_events(src)).0
}

/// Every subtree ends after its root and within the tree, and every parent comes
/// before its children.
pub open spec fn wf_elements(els: Seq<Element>) -> bool {
    forall|j: int|
        0 <= j < els.len() ==> {
            &&& j < #[trigger] els[j].subtree_end <= els.len()
            &&& match els[j].parent {
                Some(p) => p < j,
                None => true,
            }
        }
}

/// Every element's range lies within the text.
pub open spec fn ranges_in_text(t: TreeModel) -> bool {
    forall|j: int|
        0 <= j < t.elements.len() ==> (#[trigger] t.elements[j]).range.start <= t.elements[j].range.end
            && t.elements[j].range.end <= t.text.len()
}

pub open spec fn wf_tree(t: &SyntaxTree) -> bool {
    wf_elements(t.elements@)
}

fn build_elements(events: &Vec<(bool, u16, u32, u32)>, limit: usize) -> (r: Vec<Element>)
    requires
        forall|k: int| 0 <= k < events@.len() ==> (#[trigger] events@[k]).2 <= events@[k].3 && events@[k].3 <= limit,
    ensures
        r@ == build(events@).0,
        wf_elements(r@),
        forall|j: int| 0 <= j < r@.len() ==> (#[trigger] r@[j]).range.start <= r@[j].range.end && r@[j].range.end <= limit,
{
    let mut els: Vec<Element> = Vec::new();
    let mut stack: Vec<usize> = Vec::new();
    let mut i: usize = 0;
    while i < events.len()
        invariant
            0 <= i <= events.len(),
            (els@, stack@) == build(events@.take(i as int)),
            wf_elements(els@),
            els.len() <= i,
            forall|k: int| 0 <= k < events@.len() ==> (#[trigger] events@[k]).2 <= events@[k].3 && events@[k].3 <= limit,
            forall|j: int| 0 <= j < els@.len() ==> (#[trigger] els@[j]).range.start <= els@[j].range.end && els@[j].range.end <= limit,
            forall|s: int| 0 <= s < stack.len() ==> #[trigger] stack@[s] < els.len(),
        decreases events.len() - i,
    {
        assert(events@.take(i + 1).drop_last() =~= events@.take(i as int));
        let ev = events[i];
        let (enter, kind, start, end) = ev;
        if enter {
            let k = els.len();
            let parent = if stack.len() == 0 {
                None
            } else {
                Some(stack[stack.len() - 1])
            };
            let ghost old_els = els@;
            els.push(Element { kind, range: TextRange { start, end }, parent, subtree_end: k + 1 });
            stack.push(k);
            assert forall|j: int| 0 <= j < els@.len() implies {
                &&& j < #[trigger] els@[j].subtree_end <= els@.len()
                &&& match els@[j].parent {
                    Some(p) => p < j,
                    None => true,
                }
            } by {
                if j < k {
                    assert(els@[j] == old_els[j]);
                }
            }
        } else if stack.len() > 0 && stack[stack.len() - 1] < els.len() {
            let k = stack.pop().unwrap();
            let e = els[k];
            let n = els.len();
            let ghost old_els = els@;
            els[k] = Element { kind: e.kind, range: e.range, parent: e.parent, subtree_end: n };
            assert forall|j: int| 0 <= j < els@.len() implies {
                &&& j < #[trigger] els@[j].subtree_end <= els@.len()
                &&& match els@[j].parent {
                    Some(p) => p < j,
                    None => true,
                }
            } by {
                if j != k {
                    assert(els@[j] == old_els[j]);
                }
            }
        }
        i = i + 1;
    }
    assert(events@.take(events.len() as int) =~= events@);
    els
}

fn copy_bytes(s: &[u8]) -> (r: Vec<u8>)
    ensures
        r@ == s@,
{
    let mut r: Vec<u8> = Vec::new();
    let mut i: usize = 0;
    while i < s.len()
        invariant
            0 <= i <= s.len(),
            r@ == s@.take(i as int),
        decreases s.len() - i,
    {
        r.push(s[i]);
        i = i + 1;
    }
    assert(s@.take(s.len() as int) =~= s@);
    r
}

/// Parses `src`: its tree, which the parser builds whatever errors it finds.
pub fn parse_tree(src: &str) -> (r: SyntaxTree)
    requires
        src.spec_bytes().len() <= u32::MAX,
    ensures
        r.text@ == src.spec_bytes(),
        r.elements@ == tree_of(src@),
        r@ == tree_model(src@),
        wf_tree(&r),
        ranges_in_text(r@),
{
    let events = parser_events(src);
    let elements = build_elements(&events, src.as_bytes().len());
    SyntaxTree { text: copy_bytes(src.as_bytes()), elements }
}

/// The errors that the parser finds in `src`, in its order.
pub fn parse_errors(src: &str) -> (r: Vec<ParseError>)
    requires
        src.spec_bytes().len() <= u32::MAX,
    ensures
        forall|k: int|
            0 <= k < syntax_errors(src@).len() ==> raw_range_within(
                (#[trigger] syntax_errors(src@)[k]).1,
                src.spec_bytes().len() as int,
            ),
        r@.len() == syntax_errors(src@).len(),
        forall|k: int|
            0 <= k < r@.len() ==> (#[trigger] r@[k]).at == error_range(syntax_errors(src@)[k].1)
                && r@[k].message@ == syntax_errors(src@)[k].0,
{
    let raw = parser_errors(src);
    assert forall|k: int|
        0 <= k < syntax_errors(src@).len() implies raw_range_within(
            (#[trigger] syntax_errors(src@)[k]).1,
            src.spec_bytes().len() as int,
        ) by {
        assert(raw.deep_view()[k] == raw@[k].deep_view());
        assert(raw@[k].deep_view().1 == raw@[k].1);
    }
    let mut out: Vec<ParseError> = Vec::new();
    let mut i: usize = 0;
    while i < raw.len()
        invariant
            0 <= i <= raw.len(),
            raw.deep_view() == syntax_errors(src@),
            out@.len() == i,
            forall|k: int|
                0 <= k < i ==> (#[trigger] out@[k]).at == error_range(syntax_errors(src@)[k].1)
                    && out@[k].message@ == syntax_errors(src@)[k].0,
        decreases raw.len() - i,
    {
        let at = match raw[i].1 {
            Some((s, e)) => TextRange { start: s, end: e },
            None => TextRange { start: 0, end: 0 },
        };
        let message = raw[i].0.clone();
        assert(raw.deep_view()[i as int] == raw@[i as int].deep_view());
        out.push(ParseError { at, message });
        i = i + 1;
    }
    out
}

/// Whether `src` parses without error.
pub fn parses(src: &str) -> (r: bool)
    requires
        src.spec_bytes().len() <= u32::MAX,
    ensures
        r == (syntax_errors(src@).len() == 0),
{
    parser_errors(src).len() == 0
}


/// A class of element kinds, as the rules select children by it.
#[derive(Copy, Clone, Debug, PartialEq, Eq, Structural)]
pub enum KindClass {
    /// Any expression node.
    Expr,
    /// An attribute name: an identifier, a dynamic attribute or a string.
    Attr,
    /// A binding: an `inherit` or an `attrpath = value`.
    Entry,
    /// A lambda parameter: a pattern or an identifier.
    Param,
    /// Any token.
    Token,
    /// A binary operator token.
    BinOpToken,
    /// A unary operator token.
    UnaryOpToken,
    /// The one kind given.
    Exactly(u16),
}

/// The binary operators: `++`, and `//` up to `||` in the kind enumeration.
pub open spec fn is_bin_op_token(k: u16) -> bool {
    k == TOKEN_CONCAT || (TOKEN_UPDATE <= k <= TOKEN_OR_OR)
}

/// The unary operators: `!` and `-`.
pub open spec fn is_unary_op_token(k: u16) -> bool {
    k == TOKEN_INVERT || k == TOKEN_SUB
}

pub open spec fn is_token_kind(k: u16) -> bool {
    k < NODE_APPLY
}

pub open spec fn is_expr_kind(k: u16) -> bool {
    k == NODE_APPLY || k == NODE_ASSERT || k == NODE_ERROR || k == NODE_IF_ELSE || k == NODE_SELECT
        || k == NODE_STRING || k == NODE_PATH || k == NODE_LITERAL || k == NODE_LAMBDA || k
        == NODE_LEGACY_LET || k == NODE_LET_IN || k == NODE_LIST || k == NODE_BIN_OP || k
        == NODE_PAREN || k == NODE_ROOT || k == NODE_ATTR_SET || k == NODE_UNARY_OP || k
        == NODE_IDENT || k == NODE_WITH || k == NODE_HAS_ATTR
}

pub open spec fn in_class(c: KindClass, k: u16) -> bool {
    match c {
        KindClass::Expr => is_expr_kind(k),
        KindClass::Attr => k == NODE_IDENT || k == NODE_DYNAMIC || k == NODE_STRING,
        KindClass::Entry => k == NODE_INHERIT || k == NODE_ATTRPATH_VALUE,
        KindClass::Param => k == NODE_PATTERN || k == NODE_IDENT_PARAM,
        KindClass::Token => is_token_kind(k),
        KindClass::BinOpToken => is_bin_op_token(k),
        KindClass::UnaryOpToken => is_unary_op_token(k),
        KindClass::Exactly(x) => k == x,
    }
}

pub fn is_expr(k: u16) -> (r: bool)
    ensures
        r == is_expr_kind(k),
{
    k == NODE_APPLY || k == NODE_ASSERT || k == NODE_ERROR || k == NODE_IF_ELSE || k == NODE_SELECT
        || k == NODE_STRING || k == NODE_PATH || k == NODE_LITERAL || k == NODE_LAMBDA || k
        == NODE_LEGACY_LET || k == NODE_LET_IN || k == NODE_LIST || k == NODE_BIN_OP || k
        == NODE_PAREN || k == NODE_ROOT || k == NODE_ATTR_SET || k == NODE_UNARY_OP || k
        == NODE_IDENT || k == NODE_WITH || k == NODE_HAS_ATTR
}

pub fn class_has(c: KindClass, k: u16) -> (r: bool)
    ensures
        r == in_class(c, k),
{
    match c {
        KindClass::Expr => is_expr(k),
        KindClass::Attr => k == NODE_IDENT || k == NODE_DYNAMIC || k == NODE_STRING,
        KindClass::Entry => k == NODE_INHERIT || k == NODE_ATTRPATH_VALUE,
        KindClass::Param => k == NODE_PATTERN || k == NODE_IDENT_PARAM,
        KindClass::Token => k < NODE_APPLY,
        KindClass::BinOpToken => k == TOKEN_CONCAT || (TOKEN_UPDATE <= k && k <= TOKEN_OR_OR),
        KindClass::UnaryOpToken => k == TOKEN_INVERT || k == TOKEN_SUB,
        KindClass::Exactly(x) => k == x,
    }
}

/// The siblings from index `j` on that start before index `stop`: each next one
/// follows the subtree of the one before.
pub open spec fn siblings_from(els: Seq<Element>, j: int, stop: int) -> Seq<usize>
    decreases stop - j,
{
    if j < 0 || j >= stop || j >= els.len() {
        Seq::empty()
    } else if els[j].subtree_end <= j || els[j].subtree_end >= stop {
        seq![j as usize]
    } else {
        seq![j as usize] + siblings_from(els, els[j].subtree_end as int, stop)
    }
}

/// The indices of the children of element `i`, nodes and tokens, in order.
pub open spec fn children_of(els: Seq<Element>, i: int) -> Seq<usize> {
    siblings_from(els, i + 1, els[i].subtree_end as int)
}

/// The members of `cs` whose kind is in class `c`, in order.
pub open spec fn of_class(els: Seq<Element>, cs: Seq<usize>, c: KindClass) -> Seq<usize>
    decreases cs.len(),
{
    if cs.len() == 0 {
        Seq::empty()
    } else {
        let rest = of_class(els, cs.drop_last(), c);
        if in_class(c, els[cs.last() as int].kind) {
            rest.push(cs.last())
        } else {
            rest
        }
    }
}

/// The children of element `i` whose kind is in class `c`.
pub open spec fn children_in(els: Seq<Element>, i: int, c: KindClass) -> Seq<usize> {
    of_class(els, children_of(els, i), c)
}

proof fn lemma_siblings_bound(els: Seq<Element>, j: int, stop: int)
    ensures
        forall|k: int| 0 <= k < siblings_from(els, j, stop).len() ==> #[trigger] siblings_from(els, j, stop)[k] < els.len(),
    decreases stop - j,
{
    if !(j < 0 || j >= stop || j >= els.len()) && !(els[j].subtree_end <= j || els[j].subtree_end >= stop) {
        lemma_siblings_bound(els, els[j].subtree_end as int, stop);
        let rest = siblings_from(els, els[j].subtree_end as int, stop);
        assert forall|k: int| 0 <= k < siblings_from(els, j, stop).len() implies #[trigger] siblings_from(els, j, stop)[k] < els.len() by {
            if k > 0 {
                assert(siblings_from(els, j, stop)[k] == rest[k - 1]);
            }
        }
    }
}

proof fn lemma_of_class_bound(els: Seq<Element>, cs: Seq<usize>, c: KindClass)
    requires
        forall|k: int| 0 <= k < cs.len() ==> #[trigger] cs[k] < els.len(),
    ensures
        forall|k: int| 0 <= k < of_class(els, cs, c).len() ==> #[trigger] of_class(els, cs, c)[k] < els.len(),
    decreases cs.len(),
{
    if cs.len() > 0 {
        assert forall|k: int| 0 <= k < cs.drop_last().len() implies #[trigger] cs.drop_last()[k] < els.len() by {
            assert(cs.drop_last()[k] == cs[k]);
        }
        lemma_of_class_bound(els, cs.drop_last(), c);
        let r = of_class(els, cs, c);
        let rest = of_class(els, cs.drop_last(), c);
        assert forall|k: int| 0 <= k < r.len() implies #[trigger] r[k] < els.len() by {
            if k < rest.len() {
                assert(r[k] == rest[k]);
            } else {
                assert(r[k] == cs.last());
                assert(cs[cs.len() - 1] < els.len());
            }
        }
    }
}

/// A child found by class and place is an element of the tree.
pub broadcast proof fn lemma_nth_child_bound(els: Seq<Element>, i: int, c: KindClass, n: int)
    ensures
        #[trigger] nth_child(els, i, c, n) matches Some(x) ==> x < els.len(),
{
    lemma_siblings_bound(els, i + 1, els[i].subtree_end as int);
    lemma_of_class_bound(els, children_of(els, i), c);
}

/// The children of an element are elements of the tree.
pub broadcast proof fn lemma_children_of_bound(els: Seq<Element>, i: int, k: int)
    requires
        0 <= k < children_of(els, i).len(),
    ensures
        #[trigger] children_of(els, i)[k] < els.len(),
{
    lemma_siblings_bound(els, i + 1, els[i].subtree_end as int);
}

/// The children of a class are elements of the tree.
pub broadcast proof fn lemma_children_in_bound(els: Seq<Element>, i: int, c: KindClass, k: int)
    requires
        0 <= k < children_in(els, i, c).len(),
    ensures
        #[trigger] children_in(els, i, c)[k] < els.len(),
{
    lemma_siblings_bound(els, i + 1, els[i].subtree_end as int);
    lemma_of_class_bound(els, children_of(els, i), c);
}

proof fn lemma_before_in_bound(cs: Seq<usize>, x: usize, b: int)
    requires
        forall|k: int| 0 <= k < cs.len() ==> #[trigger] cs[k] < b,
    ensures
        match before_in(cs, x) {
            Some(y) => y < b,
            None => true,
        },
    decreases cs.len(),
{
    if cs.len() >= 2 && cs[1] != x {
        assert forall|k: int| 0 <= k < cs.drop_first().len() implies #[trigger] cs.drop_first()[k] < b by {
            assert(cs.drop_first()[k] == cs[k + 1]);
        }
        lemma_before_in_bound(cs.drop_first(), x, b);
    } else if cs.len() >= 2 {
        assert(cs[0] < b);
    }
}

/// The children of an element are elements of the tree.
pub proof fn lemma_siblings_in_bound(els: Seq<Element>, i: int)
    ensures
        forall|k: int| 0 <= k < children_of(els, i).len() ==> #[trigger] children_of(els, i)[k] < els.len(),
{
    lemma_siblings_bound(els, i + 1, els[i].subtree_end as int);
}

/// The sibling before an element is an element of the tree.
pub proof fn lemma_prev_sibling_bound(els: Seq<Element>, i: int)
    ensures
        match prev_sibling(els, i) {
            Some(p) => p < els.len(),
            None => true,
        },
{
    match els[i].parent {
        Some(p) => {
            lemma_siblings_bound(els, p + 1, els[p as int].subtree_end as int);
            lemma_before_in_bound(children_of(els, p as int), i as usize, els.len() as int);
        },
        None => {},
    }
}

/// The `n`-th child of element `i` in class `c`, counting from zero.
pub open spec fn nth_child(els: Seq<Element>, i: int, c: KindClass, n: int) -> Option<usize> {
    let m = children_in(els, i, c);
    if 0 <= n < m.len() {
        Some(m[n])
    } else {
        None
    }
}

/// The bytes of `text` in `r`, with the range cut to the text.
pub open spec fn span(text: Seq<u8>, r: TextRange) -> Seq<u8> {
    let s = if r.start <= text.len() {
        r.start as int
    } else {
        text.len() as int
    };
    let e = if r.end < s {
        s
    } else if r.end <= text.len() {
        r.end as int
    } else {
        text.len() as int
    };
    text.subrange(s, e)
}

/// The text of element `i`.
pub open spec fn text_of(t: TreeModel, i: int) -> Seq<u8> {
    span(t.text, t.elements[i].range)
}

/// The tree of `src`, as the parser builds it.
pub open spec fn tree_model(src: Seq<char>) -> TreeModel {
    TreeModel { text: vstd::utf8::encode_utf8(src), elements: tree_of(src) }
}

proof fn lemma_of_class_push(els: Seq<Element>, cs: Seq<usize>, x: usize, c: KindClass)
    ensures
        of_class(els, cs.push(x), c) == if in_class(c, els[x as int].kind) {
            of_class(els, cs, c).push(x)
        } else {
            of_class(els, cs, c)
        },
{
    assert(cs.push(x).drop_last() =~= cs);
}

/// The bytes of `text` in `r`, cut to the text (see `span`).
pub fn span_bytes(text: &Vec<u8>, r: TextRange) -> (out: Vec<u8>)
    ensures
        out@ == span(text@, r),
{
    let n = text.len();
    let s: usize = if (r.start as usize) <= n {
        r.start as usize
    } else {
        n
    };
    let e: usize = if (r.end as usize) < s {
        s
    } else if (r.end as usize) <= n {
        r.end as usize
    } else {
        n
    };
    let mut out: Vec<u8> = Vec::new();
    let mut i = s;
    while i < e
        invariant
            s <= i <= e <= n == text.len(),
            out@ == text@.subrange(s as int, i as int),
        decreases e - i,
    {
        out.push(text[i]);
        i = i + 1;
    }
    out
}

/// Whether two byte sequences are equal.
pub fn bytes_eq(a: &[u8], b: &[u8]) -> (r: bool)
    ensures
        r == (a@ == b@),
{
    if a.len() != b.len() {
        return false;
    }
    let mut i: usize = 0;
    while i < a.len()
        invariant
            0 <= i <= a.len() == b.len(),
            a@.take(i as int) == b@.take(i as int),
        decreases a.len() - i,
    {
        if a[i] != b[i] {
            assert(a@[i as int] != b@[i as int]);
            return false;
        }
        assert(a@.take(i + 1) =~= a@.take(i as int).push(a@[i as int]));
        assert(b@.take(i + 1) =~= b@.take(i as int).push(b@[i as int]));
        i = i + 1;
    }
    assert(a@ =~= a@.take(a.len() as int));
    assert(b@ =~= b@.take(b.len() as int));
    true
}

/// The member of `cs` just before `x`, where `x` is in `cs` after its first place.
pub open spec fn before_in(cs: Seq<usize>, x: usize) -> Option<usize>
    decreases cs.len(),
{
    if cs.len() < 2 {
        None
    } else if cs[1] == x {
        Some(cs[0])
    } else {
        before_in(cs.drop_first(), x)
    }
}

/// The sibling, node or token, just before element `i`.
pub open spec fn prev_sibling(els: Seq<Element>, i: int) -> Option<usize> {
    match els[i].parent {
        Some(p) => before_in(children_of(els, p as int), i as usize),
        None => None,
    }
}

impl SyntaxTree {
    /// The sibling, node or token, just before element `i`.
    pub fn prev_sibling(&self, i: usize) -> (r: Option<usize>)
        requires
            wf_tree(self),
            i < self.elements@.len(),
        ensures
            r == prev_sibling(self.elements@, i as int),
            r matches Some(x) ==> x < self.elements@.len(),
    {
        let p = match self.elements[i].parent {
            Some(p) => p,
            None => return None,
        };
        assert(i < self.elements@[i as int].subtree_end);
        let cs = self.children(p);
        let mut k: usize = 0;
        assert(cs@.skip(0) =~= cs@);
        while k < cs.len() && cs.len() - k > 1
            invariant
                0 <= k <= cs.len(),
                cs@ == children_of(self.elements@, p as int),
                forall|x: int| 0 <= x < cs@.len() ==> #[trigger] cs@[x] < self.elements@.len(),
                before_in(cs@, i) == before_in(cs@.skip(k as int), i),
                i < self.elements@.len(),
                self.elements@[i as int].parent == Some(p),
            decreases cs.len() - k,
        {
            assert(cs@.skip(k as int).drop_first() =~= cs@.skip(k + 1));
            if cs[k + 1] == i {
                assert(cs@.skip(k as int)[1] == i && cs@.skip(k as int)[0] == cs@[k as int]);
                assert(before_in(cs@.skip(k as int), i) == Some(cs@[k as int]));
                return Some(cs[k]);
            }
            k = k + 1;
        }
        None
    }

    pub fn len(&self) -> (r: usize)
        ensures
            r == self.elements@.len(),
    {
        self.elements.len()
    }

    pub fn kind(&self, i: usize) -> (r: u16)
        requires
            i < self.elements@.len(),
        ensures
            r == self.elements@[i as int].kind,
    {
        self.elements[i].kind
    }

    pub fn range(&self, i: usize) -> (r: TextRange)
        requires
            i < self.elements@.len(),
        ensures
            r == self.elements@[i as int].range,
    {
        self.elements[i].range
    }

    pub fn parent(&self, i: usize) -> (r: Option<usize>)
        requires
            i < self.elements@.len(),
        ensures
            r == self.elements@[i as int].parent,
    {
        self.elements[i].parent
    }

    /// The text of element `i`.
    pub fn text(&self, i: usize) -> (r: Vec<u8>)
        requires
            i < self.elements@.len(),
        ensures
            r@ == text_of(self@, i as int),
    {
        span_bytes(&self.text, self.elements[i].range)
    }

    /// Whether the text of element `i` is `lit`.
    pub fn text_is(&self, i: usize, lit: &str) -> (r: bool)
        requires
            i < self.elements@.len(),
        ensures
            r == (text_of(self@, i as int) == lit.spec_bytes()),
    {
        let t = self.text(i);
        bytes_eq(t.as_slice(), lit.as_bytes())
    }

    /// Whether elements `i` and `j` have the same text.
    pub fn same_text(&self, i: usize, j: usize) -> (r: bool)
        requires
            i < self.elements@.len(),
            j < self.elements@.len(),
        ensures
            r == (text_of(self@, i as int) == text_of(self@, j as int)),
    {
        let a = self.text(i);
        let b = self.text(j);
        bytes_eq(a.as_slice(), b.as_slice())
    }

    /// The children of element `i`, in order.
    pub fn children(&self, i: usize) -> (r: Vec<usize>)
        requires
            wf_tree(self),
            i < self.elements@.len(),
        ensures
            r@ == children_of(self.elements@, i as int),
            forall|k: int| 0 <= k < r@.len() ==> #[trigger] r@[k] < self.elements@.len(),
    {
        let ghost els = self.elements@;
        let stop = self.elements[i].subtree_end;
        let mut out: Vec<usize> = Vec::new();
        let mut j = i + 1;
        while j < stop
            invariant
                wf_elements(els),
                els == self.elements@,
                i < els.len(),
                stop == els[i as int].subtree_end,
                stop <= els.len(),
                i < j <= els.len(),
                out@ + siblings_from(els, j as int, stop as int) == children_of(els, i as int),
                forall|k: int| 0 <= k < out@.len() ==> #[trigger] out@[k] < els.len(),
            decreases els.len() - j,
        {
            assert(j < els[j as int].subtree_end);
            assert(siblings_from(els, j as int, stop as int) =~= seq![j] + siblings_from(
                els,
                els[j as int].subtree_end as int,
                stop as int,
            ));
            out.push(j);
            assert(out@ + siblings_from(els, els[j as int].subtree_end as int, stop as int)
                =~= children_of(els, i as int));
            j = self.elements[j].subtree_end;
        }
        assert(out@ =~= children_of(els, i as int));
        out
    }

    /// The children of element `i` whose kind is in class `c`, in order.
    pub fn children_in(&self, i: usize, c: KindClass) -> (r: Vec<usize>)
        requires
            wf_tree(self),
            i < self.elements@.len(),
        ensures
            r@ == children_in(self.elements@, i as int, c),
            forall|k: int| 0 <= k < r@.len() ==> #[trigger] r@[k] < self.elements@.len(),
    {
        let cs = self.children(i);
        let mut out: Vec<usize> = Vec::new();
        let mut k: usize = 0;
        while k < cs.len()
            invariant
                0 <= k <= cs.len(),
                cs@ == children_of(self.elements@, i as int),
                forall|x: int| 0 <= x < cs@.len() ==> #[trigger] cs@[x] < self.elements@.len(),
                out@ == of_class(self.elements@, cs@.take(k as int), c),
                forall|x: int| 0 <= x < out@.len() ==> #[trigger] out@[x] < self.elements@.len(),
            decreases cs.len() - k,
        {
            let x = cs[k];
            proof {
                assert(cs@.take(k + 1) =~= cs@.take(k as int).push(x));
                lemma_of_class_push(self.elements@, cs@.take(k as int), x, c);
            }
            if class_has(c, self.elements[x].kind) {
                out.push(x);
            }
            k = k + 1;
        }
        assert(cs@.take(cs.len() as int) =~= cs@);
        out
    }

    /// The `n`-th child of element `i` in class `c`.
    pub fn nth_child(&self, i: usize, c: KindClass, n: usize) -> (r: Option<usize>)
        requires
            wf_tree(self),
            i < self.elements@.len(),
        ensures
            r == nth_child(self.elements@, i as int, c, n as int),
            r matches Some(x) ==> x < self.elements@.len(),
    {
        let m = self.children_in(i, c);
        if n < m.len() {
            Some(m[n])
        } else {
            None
        }
    }

    /// The number of children of element `i` in class `c`.
    pub fn count_children(&self, i: usize, c: KindClass) -> (r: usize)
        requires
            wf_tree(self),
            i < self.elements@.len(),
        ensures
            r == children_in(self.elements@, i as int, c).len(),
    {
        self.children_in(i, c).len()
    }
}

/// The range of element `i`, widened to the start of the sibling just before it
/// where that sibling is whitespace.
pub open spec fn with_preceeding_whitespace_spec(t: TreeModel, i: int) -> TextRange {
    let els = t.elements;
    let start = match prev_sibling(els, i) {
        Some(p) => if els[p as int].kind == TOKEN_WHITESPACE {
            els[p as int].range.start
        } else {
            els[i].range.start
        },
        None => els[i].range.start,
    };
    TextRange { start, end: els[i].range.end }
}

/// The range of element `i`, widened to the start of the sibling just before it
/// where that sibling is whitespace.
pub fn with_preceeding_whitespace(t: &SyntaxTree, i: usize) -> (r: TextRange)
    requires
        wf_tree(t),
        i < t.elements@.len(),
    ensures
        r == with_preceeding_whitespace_spec(t@, i as int),
{
    let start = match t.prev_sibling(i) {
        Some(p) => if t.kind(p) == TOKEN_WHITESPACE {
            t.range(p).start
        } else {
            t.range(i).start
        },
        None => t.range(i).start,
    };
    TextRange { start, end: t.range(i).end }
}

/// A parsed text: its tree, and the errors found on the way.
pub struct ParseResult {
    pub parsed: SyntaxTree,
    pub errors: Vec<ParseError>,
}

impl ParseResult {
    /// Parses `src`; the tree is there whatever errors were found.
    #[must_use]
    pub fn parse(src: &str) -> (r: ParseResult)
        requires
            src.spec_bytes().len() <= u32::MAX,
        ensures
            r.parsed@ == tree_model(src@),
            wf_tree(&r.parsed),
            ranges_in_text(r.parsed@),
            r.errors@.len() == syntax_errors(src@).len(),
            forall|k: int|
                0 <= k < r.errors@.len() ==> (#[trigger] r.errors@[k]).at == error_range(syntax_errors(src@)[k].1)
                    && r.errors@[k].message@ == syntax_errors(src@)[k].0,
    {
        ParseResult { parsed: parse_tree(src), errors: parse_errors(src) }
    }

    /// The tree and the errors.
    #[must_use]
    pub fn to_tuple(self) -> (r: (SyntaxTree, Vec<ParseError>))
        ensures
            r.0@ == self.parsed@,
            r.1@ == self.errors@,
    {
        (self.parsed, self.errors)
    }

    /// The tree where there was no error, and the errors otherwise.
    pub fn to_result(self) -> (r: Result<SyntaxTree, Vec<ParseError>>)
        ensures
            self.errors@.len() == 0 ==> (r matches Ok(t) && t@ == self.parsed@),
            self.errors@.len() != 0 ==> (r matches Err(e) && e@ == self.errors@),
    {
        if self.errors.len() == 0 {
            Ok(self.parsed)
        } else {
            Err(self.errors)
        }
    }
}

} // verus!
