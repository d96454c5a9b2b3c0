//! The calls into tree-sitter and into std's UTF-8 decoding that extraction
//! relies on. Each item here is trusted: its contract states what the called
//! function is documented to do, and nothing more.
use crate::query::position::Position;
use tree_sitter::{Language as Grammar, Parser, Query, QueryCursor};
use vstd::prelude::*;

verus! {

#[verifier::external_type_specification]
#[verifier::external_body]
pub struct ExParser(tree_sitter::Parser);

#[verifier::external_type_specification]
#[verifier::external_body]
pub struct ExQuery(tree_sitter::Query);

#[verifier::external_type_specification]
#[verifier::external_body]
pub struct ExGrammar(Grammar);

/// One capture reported by the query engine, as plain values: the index of
/// its name in the query, the node's kind, its byte span and its 0-based
/// start and end positions.
#[derive(Clone, Debug, PartialEq, Eq, PartialOrd, Ord)]
pub struct RawCapture {
    pub index: u32,
    pub kind: String,
    pub start_byte: usize,
    pub end_byte: usize,
    pub start: Position,
    pub end: Position,
}

/// A query compilation failure: where in the query text it was found, and why.
#[derive(Clone, Debug, PartialEq, Eq)]
pub struct CompileError {
    pub row: usize,
    pub column: usize,
    pub message: String,
}

/// The text that the bytes encode in UTF-8, or `None` where they are not
/// valid UTF-8.
pub uninterp spec fn utf8_decode(bytes: Seq<u8>) -> Option<Seq<char>>;

/// Relies on std::str::from_utf8: `Ok` exactly when the bytes are valid UTF-8,
/// holding the text they encode.
#[verifier::external_body]
pub(crate) fn decode_utf8(bytes: &[u8]) -> (r: Option<String>)
    ensures
        r is Some <==> utf8_decode(bytes@) is Some,
        r is Some ==> utf8_decode(bytes@) == Some(r->Some_0@),
{
    std::str::from_utf8(bytes).ok().map(|s| s.to_string())
}

/// Relies on String::push: appends one character at the end.
#[verifier::external_body]
pub(crate) fn push_char(s: &mut String, c: char)
    ensures
        final(s)@ == old(s)@.push(c),
{
    s.push(c)
}

/// Relies on tree_sitter_rust::language: the grammar of Rust.
#[verifier::external_body]
pub(crate) fn rust_grammar() -> Grammar {
    tree_sitter_rust::language()
}

/// The names of a compiled query's captures, by index, as `Query::new`
/// recorded them.
pub uninterp spec fn query_names(query: Query) -> Seq<Seq<char>>;

/// Relies on tree_sitter::Query::new: compiles the query text for a grammar,
/// or reports where and why it could not. Where an unknown name runs to the
/// end of the text, `Query::new` slices past it and panics; a text that
/// ends in a newline never does.
#[verifier::external_body]
pub(crate) fn compile_query(grammar: Grammar, text: &str) -> (r: Result<Query, CompileError>)
    requires
        text@.len() > 0,
        text@.last() == '\n',
{
    Query::new(grammar, text).map_err(|e| CompileError { row: e.row, column: e.column, message: e.message })
}

/// Relies on tree_sitter::Query::capture_names: the names of the query's
/// captures, by index.
#[verifier::external_body]
pub(crate) fn query_capture_names(query: &Query) -> (r: Vec<String>)
    ensures
        r@.len() == query_names(*query).len(),
        forall|i: int| 0 <= i < r@.len() ==> #[trigger] r@[i]@ == query_names(*query)[i],
{
    query.capture_names().to_vec()
}

/// Relies on tree_sitter::Parser::set_language: true when the parser now
/// targets the grammar, false when the grammar's version is not supported.
#[verifier::external_body]
pub(crate) fn set_grammar(parser: &mut Parser, grammar: Grammar) -> bool {
    parser.set_language(grammar).is_ok()
}

/// Relies on tree_sitter::Parser::parse and tree_sitter::QueryCursor::matches:
/// parses the source (`None` where the parser produced no tree) and gives
/// every capture of every match of the query over that tree, in the order
/// the engine reports them. Each capture's index is one of the query's
/// captures.
#[verifier::external_body]
pub(crate) fn parse_and_query(parser: &mut Parser, query: &Query, source: &[u8]) -> (r: Option<
    Vec<RawCapture>,
>)
    ensures
        r is Some ==> forall|i: int|
            0 <= i < r->Some_0@.len() ==> (#[trigger] r->Some_0@[i]).index < query_names(
                *query,
            ).len(),
{
    let tree = parser.parse(source, None)?;
    let mut cursor = QueryCursor::new();
    let matches = cursor.matches(query, tree.root_node(), source);
    Some(matches.flat_map(|m| m.captures).map(|c| {
        let (n, s, e) = (c.node, c.node.start_position(), c.node.end_position());
        RawCapture {
            index: c.index,
            kind: n.kind().to_string(),
            start_byte: n.start_byte(),
            end_byte: n.end_byte(),
            start: Position { row: s.row, column: s.column },
            end: Position { row: e.row, column: e.column },
        }
    }).collect())
}

} // verus!
