//! Syntax-tree queries through tree-sitter, and the reading of their
//! captures.
//!
//! A query result is the list of the query's capture names and, for each
//! match in the order tree-sitter reports them, its captures as
//! (capture index, node text, start row, start byte).

use vstd::prelude::*;

use crate::models::views;
use crate::text::{chars_of, same};

verus! {

/// The grammars that the scanner parses with.
#[derive(Clone, Copy, PartialEq, Eq, Structural)]
pub enum Grammar {
    Python,
    JavaScript,
    Java,
    C,
    CSharp,
    Go,
}

/// A tree-sitter language.
#[verifier::external_type_specification]
#[verifier::external_body]
pub struct ExLanguage(tree_sitter::Language);

/// One capture: (capture index, node text, start row, start byte).
pub type Capture = (u32, String, usize, usize);

/// A capture, as characters.
pub type CaptureView = (u32, Seq<char>, usize, usize);

/// The result of a query: capture names and matches.
pub type QueryResult = (Vec<String>, Vec<Vec<Capture>>);

/// A query result, as characters.
pub type QueryView = (Seq<Seq<char>>, Seq<Seq<CaptureView>>);

/// A capture as characters.
pub open spec fn capture_view(c: Capture) -> CaptureView {
    (c.0, c.1@, c.2, c.3)
}

/// A match as characters.
pub open spec fn match_view(m: Seq<Capture>) -> Seq<CaptureView> {
    m.map_values(|c: Capture| capture_view(c))
}

/// A query result as characters.
pub open spec fn query_view(r: QueryResult) -> QueryView {
    (views(r.0@), r.1@.map_values(|m: Vec<Capture>| match_view(m@)))
}

/// What tree-sitter gives for `query` run on `source` parsed with
/// `grammar`: `None` when the source cannot be parsed; no names and no
/// matches when the query does not compile.
pub uninterp spec fn syntax_query_result(grammar: Grammar, query: Seq<char>, source: Seq<char>) -> Option<QueryView>;

/// `tree_sitter_python::language()` and the other grammar crates' `language()`:
/// the tree-sitter language of a grammar. Nothing is claimed of it.
#[verifier::external_body]
fn grammar_language(grammar: Grammar) -> tree_sitter::Language {
    match grammar {
        Grammar::Python => tree_sitter_python::language(),
        Grammar::JavaScript => tree_sitter_javascript::language(),
        Grammar::Java => tree_sitter_java::language(),
        Grammar::C => tree_sitter_c::language(),
        Grammar::CSharp => tree_sitter_c_sharp::language(),
        Grammar::Go => tree_sitter_go::language(),
    }
}

/// Parses `source` with `tree_sitter::Parser` set to the grammar's language,
/// compiles `query` with `tree_sitter::Query::new`, and lists what
/// `QueryCursor::matches` reports on the root node: the query's capture
/// names and, for each match, its captures (index, `Node::utf8_text`, the
/// row of `Node::start_position`, `Node::start_byte`). The result is named
/// `syntax_query_result`; which matches tree-sitter reports is not stated.
#[verifier::external_body]
pub(crate) fn syntax_query(grammar: Grammar, query: &str, source: &str) -> (r: Option<QueryResult>)
    ensures
        r matches Some(v) ==> syntax_query_result(grammar, query@, source@) == Some(query_view(v)),
        r is None ==> syntax_query_result(grammar, query@, source@) is None,
{
    let language = grammar_language(grammar);
    let mut parser = tree_sitter::Parser::new();
    parser.set_language(language).ok()?;
    let tree = parser.parse(source, None)?;
    let Ok(q) = tree_sitter::Query::new(language, query) else { return Some((vec![], vec![])) };
    let src = source.as_bytes();
    Some((q.capture_names().to_vec(), tree_sitter::QueryCursor::new().matches(&q, tree.root_node(), src).map(|m|
        m.captures.iter().map(|c| (c.index, c.node.utf8_text(src).unwrap_or("").to_string(), c.node.start_position().row, c.node.start_byte())).collect()
    ).collect()))
}

/// A query's result, or nothing when there is none.
pub open spec fn result_or_empty(r: Option<QueryView>) -> QueryView {
    match r {
        Some(v) => v,
        None => (Seq::empty(), Seq::empty()),
    }
}

// ---------------------------------------------------------------------------
// Reading captures
// ---------------------------------------------------------------------------

/// The index of the first capture name equal to `n`.
pub open spec fn name_index_from(names: Seq<Seq<char>>, n: Seq<char>, i: int) -> Option<int>
    decreases names.len() - i,
{
    if i < 0 || i >= names.len() {
        None
    } else if names[i] == n {
        Some(i)
    } else {
        name_index_from(names, n, i + 1)
    }
}

/// The first capture of a match with the given index.
pub open spec fn capture_from(m: Seq<CaptureView>, idx: int, i: int) -> Option<CaptureView>
    decreases m.len() - i,
{
    if i < 0 || i >= m.len() {
        None
    } else if m[i].0 == idx {
        Some(m[i])
    } else {
        capture_from(m, idx, i + 1)
    }
}

/// The first capture of a match with the capture name `n`.
pub open spec fn named_capture(names: Seq<Seq<char>>, m: Seq<CaptureView>, n: Seq<char>) -> Option<CaptureView> {
    match name_index_from(names, n, 0) {
        Some(k) => capture_from(m, k, 0),
        None => None,
    }
}

/// The text of the capture named `n` (empty when there is none).
pub open spec fn capture_text(names: Seq<Seq<char>>, m: Seq<CaptureView>, n: Seq<char>) -> Seq<char> {
    match named_capture(names, m, n) {
        Some(c) => c.1,
        None => Seq::empty(),
    }
}

/// The 1-based line of a start row.
pub open spec fn row_line(row: usize) -> int {
    if row < usize::MAX {
        row + 1
    } else {
        row as int
    }
}

/// The 1-based line of the capture named `n` (0 when there is none).
pub open spec fn capture_line(names: Seq<Seq<char>>, m: Seq<CaptureView>, n: Seq<char>) -> int {
    match named_capture(names, m, n) {
        Some(c) => row_line(c.2),
        None => 0,
    }
}

/// The 1-based line of a start row.
pub fn row_line_exec(row: usize) -> (r: usize)
    ensures
        r == row_line(row),
{
    if row < usize::MAX {
        row + 1
    } else {
        row
    }
}

/// The position of the first capture name equal to `n`.
fn name_index(names: &Vec<String>, n: &[char]) -> (r: Option<usize>)
    ensures
        r matches Some(k) ==> k < names@.len() && name_index_from(views(names@), n@, 0) == Some(k as int),
        r is None ==> name_index_from(views(names@), n@, 0) is None,
{
    let ghost nv = views(names@);
    let mut k: usize = 0;
    while k < names.len()
        invariant
            k <= names@.len(),
            nv == views(names@),
            name_index_from(nv, n@, 0) == name_index_from(nv, n@, k as int),
        decreases names.len() - k,
    {
        let cn = chars_of(names[k].as_str());
        assert(nv[k as int] == names@[k as int]@);
        if same(&cn, n) {
            return Some(k);
        }
        k = k + 1;
    }
    None
}

/// The position in `m` of the first capture named `n`.
pub fn find_named_capture(names: &Vec<String>, m: &Vec<Capture>, n: &str) -> (r: Option<usize>)
    ensures
        r matches Some(j) ==> j < m@.len() && named_capture(views(names@), match_view(m@), n@) == Some(
            capture_view(m@[j as int]),
        ),
        r is None ==> named_capture(views(names@), match_view(m@), n@) is None,
{
    let ghost nv = views(names@);
    let ghost mv = match_view(m@);
    let nc = chars_of(n);
    let k = match name_index(names, &nc) {
        Some(k) => k,
        None => return None,
    };
    if k > 4294967295usize {
        proof {
            assert forall|i: int| 0 <= i < mv.len() implies mv[i].0 != k by {}
            lemma_capture_from_none(mv, k as int, 0);
        }
        return None;
    }
    let idx = k as u32;
    let mut j: usize = 0;
    while j < m.len()
        invariant
            j <= m@.len(),
            mv == match_view(m@),
            nv == views(names@),
            idx == k,
            name_index_from(nv, n@, 0) == Some(k as int),
            capture_from(mv, k as int, 0) == capture_from(mv, k as int, j as int),
        decreases m.len() - j,
    {
        assert(mv[j as int] == capture_view(m@[j as int]));
        if m[j].0 == idx {
            assert(mv[j as int].0 == k);
            assert(capture_from(mv, k as int, j as int) == Some(mv[j as int]));
            return Some(j);
        }
        j = j + 1;
    }
    None
}

/// No capture is found for an index that no capture has.
proof fn lemma_capture_from_none(m: Seq<CaptureView>, idx: int, i: int)
    requires
        0 <= i,
        forall|j: int| 0 <= j < m.len() ==> m[j].0 != idx,
    ensures
        capture_from(m, idx, i) is None,
    decreases m.len() - i,
{
    if i < m.len() {
        lemma_capture_from_none(m, idx, i + 1);
    }
}

/// The text of the capture named `n`.
pub fn capture_text_exec(names: &Vec<String>, m: &Vec<Capture>, n: &str) -> (r: Vec<char>)
    ensures
        r@ == capture_text(views(names@), match_view(m@), n@),
{
    match find_named_capture(names, m, n) {
        Some(j) => chars_of(m[j].1.as_str()),
        None => Vec::new(),
    }
}

/// The line of the capture named `n`.
pub fn capture_line_exec(names: &Vec<String>, m: &Vec<Capture>, n: &str) -> (r: usize)
    ensures
        r == capture_line(views(names@), match_view(m@), n@),
{
    match find_named_capture(names, m, n) {
        Some(j) => row_line_exec(m[j].2),
        None => 0,
    }
}

} // verus!
