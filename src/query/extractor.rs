//! The extractor: runs a compiled query over source text and projects the
//! surviving captures into named, positioned text matches.
use crate::query::capture::{classify, ignored_indices, is_ignored_name};
use crate::query::engine::{
    decode_utf8, parse_and_query, query_capture_names, query_names, set_grammar, utf8_decode,
    RawCapture,
};
use crate::query::language::{language_name, Language};
use crate::query::position::Position;
use std::collections::HashSet;
use tree_sitter::{Language as Grammar, Parser, Query};
use vstd::prelude::*;

verus! {

broadcast use vstd::std_specs::hash::group_hash_axioms;

/// Why an extraction failed.
#[derive(Clone, Copy, Debug, PartialEq, Eq, Structural)]
pub enum ExtractError {
    /// The parser could not be set to the extractor's grammar.
    GrammarConfig,
    /// The parser produced no syntax tree.
    ParseInternal,
    /// A capture's index names no capture of the query.
    UnknownCapture,
    /// A capture's byte span is not valid UTF-8 text of the source.
    TextDecode,
}

/// One surviving capture of an extraction.
#[derive(Clone, Debug, PartialEq, Eq, PartialOrd, Ord)]
pub struct ExtractedMatch {
    /// The kind of the captured syntax node.
    pub kind: String,
    /// The capture's name.
    pub name: String,
    /// The source text that the node spans.
    pub text: String,
    /// Where the node starts, 0-based.
    pub start: Position,
    /// Where the node ends, 0-based.
    pub end: Position,
}

/// The matches found in one input.
#[derive(Clone, Debug, PartialEq, Eq, PartialOrd, Ord)]
pub struct ExtractedFile {
    /// The path of the input, as bytes, where it came from a file.
    pub file: Option<Vec<u8>>,
    /// The display name of the language.
    pub file_type: String,
    /// The matches, in the order the query engine reported the captures.
    pub matches: Vec<ExtractedMatch>,
}

/// Whether the capture at `index` is ignored.
pub open spec fn is_ignored_index(names: Seq<String>, index: u32) -> bool {
    ignored_indices(names).contains(index as usize)
}

/// The captures that are not ignored, in their order.
pub open spec fn kept(names: Seq<String>, raws: Seq<RawCapture>) -> Seq<RawCapture>
    decreases raws.len(),
{
    if raws.len() == 0 {
        Seq::empty()
    } else {
        let rest = kept(names, raws.drop_last());
        if is_ignored_index(names, raws.last().index) {
            rest
        } else {
            rest.push(raws.last())
        }
    }
}

/// The text of a capture: its byte span of the source, decoded as UTF-8.
pub open spec fn capture_text(source: Seq<u8>, c: RawCapture) -> Option<Seq<char>> {
    if c.start_byte <= c.end_byte && c.end_byte <= source.len() {
        utf8_decode(source.subrange(c.start_byte as int, c.end_byte as int))
    } else {
        None
    }
}

/// What keeps one capture from becoming a match, if anything.
pub open spec fn capture_error(names: Seq<String>, source: Seq<u8>, c: RawCapture) -> Option<
    ExtractError,
> {
    if c.index >= names.len() {
        Some(ExtractError::UnknownCapture)
    } else if capture_text(source, c) is None {
        Some(ExtractError::TextDecode)
    } else {
        None
    }
}

/// The error of the first capture in `ks` that cannot become a match.
pub open spec fn first_error(names: Seq<String>, source: Seq<u8>, ks: Seq<RawCapture>) -> Option<
    ExtractError,
>
    decreases ks.len(),
{
    if ks.len() == 0 {
        None
    } else {
        match first_error(names, source, ks.drop_last()) {
            Some(e) => Some(e),
            None => capture_error(names, source, ks.last()),
        }
    }
}

/// `m` is the match that capture `c` becomes.
pub open spec fn projects_capture(
    names: Seq<String>,
    source: Seq<u8>,
    c: RawCapture,
    m: ExtractedMatch,
) -> bool {
    &&& c.index < names.len()
    &&& m.kind@ == c.kind@
    &&& m.name@ == names[c.index as int]@
    &&& capture_text(source, c) == Some(m.text@)
    &&& m.start == c.start
    &&& m.end == c.end
}

/// `out` is the result for the kept captures `ks`, none of which fails: no
/// result where there are none, else a file of one match per capture.
pub open spec fn projects_file(
    names: Seq<String>,
    file_type: Seq<char>,
    path: Option<Vec<u8>>,
    source: Seq<u8>,
    ks: Seq<RawCapture>,
    out: Option<ExtractedFile>,
) -> bool {
    if ks.len() == 0 {
        out is None
    } else {
        &&& out is Some
        &&& out->Some_0.file == path
        &&& out->Some_0.file_type@ == file_type
        &&& out->Some_0.matches@.len() == ks.len()
        &&& forall|j: int|
            0 <= j < ks.len() ==> projects_capture(
                names,
                source,
                #[trigger] ks[j],
                out->Some_0.matches@[j],
            )
    }
}

/// The result of projecting the captures `raws` reported over `source`.
pub open spec fn projects_result(
    names: Seq<String>,
    file_type: Seq<char>,
    path: Option<Vec<u8>>,
    source: Seq<u8>,
    raws: Seq<RawCapture>,
    r: Result<Option<ExtractedFile>, ExtractError>,
) -> bool {
    let ks = kept(names, raws);
    match first_error(names, source, ks) {
        Some(e) => r == Err::<Option<ExtractedFile>, ExtractError>(e),
        None => r is Ok && projects_file(names, file_type, path, source, ks, r->Ok_0),
    }
}

/// The captures kept from a prefix of `raws` are a prefix of those kept
/// from all of it.
proof fn lemma_kept_prefix(names: Seq<String>, raws: Seq<RawCapture>, n: int)
    requires
        0 <= n <= raws.len(),
    ensures
        kept(names, raws.take(n)).len() <= kept(names, raws).len(),
        kept(names, raws).take(kept(names, raws.take(n)).len() as int) =~= kept(
            names,
            raws.take(n),
        ),
    decreases raws.len(),
{
    if n == raws.len() {
        assert(raws.take(n) =~= raws);
    } else {
        assert(raws.drop_last().take(n) =~= raws.take(n));
        lemma_kept_prefix(names, raws.drop_last(), n);
    }
}

/// Once a prefix of `ks` holds a failing capture, the first failure of all
/// of `ks` is that prefix's.
proof fn lemma_first_error_prefix(names: Seq<String>, source: Seq<u8>, ks: Seq<RawCapture>, m: int)
    requires
        0 <= m <= ks.len(),
        first_error(names, source, ks.take(m)) is Some,
    ensures
        first_error(names, source, ks) == first_error(names, source, ks.take(m)),
    decreases ks.len(),
{
    if m == ks.len() {
        assert(ks.take(m) =~= ks);
    } else {
        assert(ks.drop_last().take(m) =~= ks.take(m));
        lemma_first_error_prefix(names, source, ks.drop_last(), m);
    }
}

/// No kept capture is ignored.
proof fn lemma_kept_not_ignored(names: Seq<String>, raws: Seq<RawCapture>)
    ensures
        forall|j: int|
            0 <= j < kept(names, raws).len() ==> !is_ignored_index(
                names,
                #[trigger] kept(names, raws)[j].index,
            ),
    decreases raws.len(),
{
    if raws.len() > 0 {
        let rest = kept(names, raws.drop_last());
        let ks = kept(names, raws);
        lemma_kept_not_ignored(names, raws.drop_last());
        assert forall|j: int| 0 <= j < ks.len() implies !is_ignored_index(
            names,
            #[trigger] ks[j].index,
        ) by {
            if j < rest.len() {
                assert(ks[j] == rest[j]);
            }
        }
    }
}

/// Every match of an extraction is named by a capture of the query whose
/// name is not ignored.
pub proof fn lemma_match_names_not_ignored(
    names: Seq<String>,
    file_type: Seq<char>,
    path: Option<Vec<u8>>,
    source: Seq<u8>,
    raws: Seq<RawCapture>,
    r: Result<Option<ExtractedFile>, ExtractError>,
)
    requires
        projects_result(names, file_type, path, source, raws, r),
    ensures
        r is Ok && r->Ok_0 is Some ==> forall|j: int|
            0 <= j < r->Ok_0->Some_0.matches@.len() ==> exists|i: int|
                0 <= i < names.len() && !is_ignored_name(names[i]@) && (
                #[trigger] r->Ok_0->Some_0.matches@[j]).name@ == names[i]@,
{
    lemma_kept_not_ignored(names, raws);
    if r is Ok && r->Ok_0 is Some {
        let ks = kept(names, raws);
        let ms = r->Ok_0->Some_0.matches@;
        assert forall|j: int| 0 <= j < ms.len() implies exists|i: int|
            0 <= i < names.len() && !is_ignored_name(names[i]@) && (#[trigger] ms[j]).name@
                == names[i]@ by {
            let c = ks[j];
            assert(projects_capture(names, source, c, ms[j]));
            assert(!is_ignored_index(names, c.index));
            assert(!ignored_indices(names).contains(c.index as usize));
            let i = c.index as int;
            assert(0 <= i < names.len() && !is_ignored_name(names[i]@));
        }
    }
}

/// Where every capture is ignored and every index names one, none is kept.
proof fn lemma_kept_empty(names: Seq<String>, raws: Seq<RawCapture>)
    requires
        forall|i: int| 0 <= i < names.len() ==> is_ignored_name(#[trigger] names[i]@),
        forall|i: int| 0 <= i < raws.len() ==> (#[trigger] raws[i]).index < names.len(),
    ensures
        kept(names, raws).len() == 0,
    decreases raws.len(),
{
    if raws.len() > 0 {
        let c = raws.last();
        assert(c == raws[raws.len() - 1]);
        assert(is_ignored_name(names[c.index as int]@));
        assert(ignored_indices(names).contains(c.index as usize));
        lemma_kept_empty(names, raws.drop_last());
    }
}

/// Where every capture of the query is ignored, and every capture the engine
/// reports names one of them, an extraction yields no result and no error.
pub proof fn lemma_all_ignored_no_result(
    names: Seq<String>,
    file_type: Seq<char>,
    path: Option<Vec<u8>>,
    source: Seq<u8>,
    raws: Seq<RawCapture>,
    r: Result<Option<ExtractedFile>, ExtractError>,
)
    requires
        projects_result(names, file_type, path, source, raws, r),
        forall|i: int| 0 <= i < names.len() ==> is_ignored_name(#[trigger] names[i]@),
        forall|i: int| 0 <= i < raws.len() ==> (#[trigger] raws[i]).index < names.len(),
    ensures
        r is Ok && r->Ok_0 is None,
{
    lemma_kept_empty(names, raws);
}

/// Two matches agree field for field.
pub open spec fn same_match(a: ExtractedMatch, b: ExtractedMatch) -> bool {
    &&& a.kind@ == b.kind@
    &&& a.name@ == b.name@
    &&& a.text@ == b.text@
    &&& a.start == b.start
    &&& a.end == b.end
}

/// Two extraction results agree field for field.
pub open spec fn same_result(
    r1: Result<Option<ExtractedFile>, ExtractError>,
    r2: Result<Option<ExtractedFile>, ExtractError>,
) -> bool {
    match (r1, r2) {
        (Err(e1), Err(e2)) => e1 == e2,
        (Ok(None), Ok(None)) => true,
        (Ok(Some(f1)), Ok(Some(f2))) => {
            &&& f1.file == f2.file
            &&& f1.file_type@ == f2.file_type@
            &&& f1.matches@.len() == f2.matches@.len()
            &&& forall|j: int|
                0 <= j < f1.matches@.len() ==> same_match(
                    #[trigger] f1.matches@[j],
                    f2.matches@[j],
                )
        },
        _ => false,
    }
}

/// Projecting the same captures of the same source with the same query
/// always gives the same result, field for field.
pub proof fn lemma_projection_deterministic(
    names: Seq<String>,
    file_type: Seq<char>,
    path: Option<Vec<u8>>,
    source: Seq<u8>,
    raws: Seq<RawCapture>,
    r1: Result<Option<ExtractedFile>, ExtractError>,
    r2: Result<Option<ExtractedFile>, ExtractError>,
)
    requires
        projects_result(names, file_type, path, source, raws, r1),
        projects_result(names, file_type, path, source, raws, r2),
    ensures
        same_result(r1, r2),
{
    let ks = kept(names, raws);
    if first_error(names, source, ks) is None && ks.len() > 0 {
        let m1 = r1->Ok_0->Some_0.matches@;
        let m2 = r2->Ok_0->Some_0.matches@;
        assert forall|j: int| 0 <= j < m1.len() implies same_match(#[trigger] m1[j], m2[j]) by {
            assert(projects_capture(names, source, ks[j], m1[j]));
            assert(projects_capture(names, source, ks[j], m2[j]));
        }
    }
}

/// Runs one compiled query over source text.
pub struct Extractor {
    language: Language,
    grammar: Grammar,
    query: Query,
    captures: Vec<String>,
    ignores: HashSet<usize>,
}

impl Extractor {
    #[verifier::type_invariant]
    spec fn inv(&self) -> bool {
        &&& self.ignores@ == ignored_indices(self.captures@)
        &&& self.captures@.len() == query_names(self.query).len()
        &&& forall|i: int|
            0 <= i < self.captures@.len() ==> #[trigger] self.captures@[i]@ == query_names(
                self.query,
            )[i]
    }

    /// The names of the query's captures, by index.
    pub closed spec fn names(&self) -> Seq<String> {
        self.captures@
    }

    /// The language the extractor parses.
    pub closed spec fn lang(&self) -> Language {
        self.language
    }

    /// Builds an extractor for a query compiled for `language`: its capture
    /// names are the query's, in order.
    pub fn new(language: Language, query: Query) -> (r: Extractor)
        ensures
            r.lang() == language,
            r.names().len() == query_names(query).len(),
            forall|i: int| 0 <= i < r.names().len() ==> #[trigger] r.names()[i]@ == query_names(query)[i],
    {
        let captures = query_capture_names(&query);
        let ignores = classify(&captures);
        Extractor { grammar: language.language(), language, query, captures, ignores }
    }

    /// The language of the extractor.
    pub fn language(&self) -> (r: &Language)
        ensures
            *r == self.lang(),
    {
        &self.language
    }

    /// The names of the query's captures, by index.
    pub fn capture_names(&self) -> (r: &Vec<String>)
        ensures
            r@ == self.names(),
    {
        &self.captures
    }

    /// Whether the capture at `index` is ignored.
    fn ignores_index(&self, index: u32) -> (r: bool)
        ensures
            r == is_ignored_index(self.names(), index),
    {
        proof {
            use_type_invariant(self);
        }
        self.ignores.contains(&(index as usize))
    }

    /// The text that a capture spans in `source`, where it is valid UTF-8.
    fn capture_text_of(source: &[u8], c: &RawCapture) -> (r: Option<String>)
        ensures
            match capture_text(source@, *c) {
                Some(t) => r is Some && r->Some_0@ == t,
                None => r is None,
            },
    {
        if c.start_byte > c.end_byte || c.end_byte > source.len() {
            return None;
        }
        let mut span: Vec<u8> = Vec::new();
        let mut k: usize = c.start_byte;
        while k < c.end_byte
            invariant
                c.start_byte <= k <= c.end_byte <= source@.len(),
                span@ == source@.subrange(c.start_byte as int, k as int),
            decreases c.end_byte - k,
        {
            span.push(source[k]);
            k = k + 1;
            assert(span@ =~= source@.subrange(c.start_byte as int, k as int));
        }
        decode_utf8(span.as_slice())
    }

    /// Projects the captures that the query engine reported over `source`
    /// into the result of an extraction: the first capture (in order) that
    /// names no capture of the query or whose text is not UTF-8 gives an
    /// error; else no result where every capture is ignored, and otherwise a
    /// file with one match per capture that is not ignored.
    pub fn extract_from_captures(
        &self,
        path: Option<Vec<u8>>,
        source: &[u8],
        raws: &Vec<RawCapture>,
    ) -> (r: Result<Option<ExtractedFile>, ExtractError>)
        ensures
            projects_result(
                self.names(),
                language_name(self.lang()),
                path,
                source@,
                raws@,
                r,
            ),
    {
        let names = Ghost(self.names());
        let mut matches: Vec<ExtractedMatch> = Vec::new();
        let mut i: usize = 0;
        while i < raws.len()
            invariant
                i <= raws@.len(),
                names@ == self.names(),
                first_error(names@, source@, kept(names@, raws@.take(i as int))) is None,
                matches@.len() == kept(names@, raws@.take(i as int)).len(),
                forall|j: int|
                    0 <= j < matches@.len() ==> projects_capture(
                        names@,
                        source@,
                        kept(names@, raws@.take(i as int))[j],
                        #[trigger] matches@[j],
                    ),
            decreases raws@.len() - i,
        {
            let c = &raws[i];
            let ghost before = kept(names@, raws@.take(i as int));
            assert(raws@.take(i as int + 1).drop_last() =~= raws@.take(i as int));
            assert(raws@.take(i as int + 1).last() == raws@[i as int]);
            if !self.ignores_index(c.index) {
                let ghost after = kept(names@, raws@.take(i as int + 1));
                assert(after == before.push(*c));
                assert(after.drop_last() =~= before);
                proof {
                    lemma_kept_prefix(names@, raws@, i as int + 1);
                    let ks = kept(names@, raws@);
                    assert(ks.take(after.len() as int) == after);
                    if capture_error(names@, source@, *c) is Some {
                        lemma_first_error_prefix(names@, source@, ks, after.len() as int);
                    }
                }
                if c.index as usize >= self.captures.len() {
                    return Err(ExtractError::UnknownCapture);
                }
                let text = match Self::capture_text_of(source, c) {
                    Some(t) => t,
                    None => {
                        return Err(ExtractError::TextDecode);
                    },
                };
                let m = ExtractedMatch {
                    kind: c.kind.clone(),
                    name: self.captures[c.index as usize].clone(),
                    text,
                    start: c.start,
                    end: c.end,
                };
                matches.push(m);
            }
            i = i + 1;
        }
        assert(raws@.take(raws@.len() as int) =~= raws@);
        if matches.len() == 0 {
            Ok(None)
        } else {
            Ok(Some(ExtractedFile { file: path, file_type: self.language.name(), matches }))
        }
    }

    /// Extracts the matches of the query from `source`, tagged with `path`.
    ///
    /// The parser is set to the extractor's grammar and parses the source;
    /// the query runs over the tree, and its captures are projected as
    /// `extract_from_captures` does. Fails where the parser cannot take the
    /// grammar or gives no tree.
    pub fn extract_from_text(
        &self,
        path: Option<Vec<u8>>,
        source: &[u8],
        parser: &mut Parser,
    ) -> (r: Result<Option<ExtractedFile>, ExtractError>)
        ensures
            r == Err::<Option<ExtractedFile>, ExtractError>(ExtractError::GrammarConfig) || r
                == Err::<Option<ExtractedFile>, ExtractError>(ExtractError::ParseInternal)
                || exists|raws: Seq<RawCapture>|
                (forall|i: int| 0 <= i < raws.len() ==> (#[trigger] raws[i]).index < self.names().len())
                    && projects_result(
                    self.names(),
                    language_name(self.lang()),
                    path,
                    source@,
                    raws,
                    r,
                ),
            r is Ok && r->Ok_0 is Some ==> forall|j: int|
                0 <= j < r->Ok_0->Some_0.matches@.len() ==> exists|i: int|
                    0 <= i < self.names().len() && !is_ignored_name(self.names()[i]@) && (
                    #[trigger] r->Ok_0->Some_0.matches@[j]).name@ == self.names()[i]@,
            (forall|i: int| 0 <= i < self.names().len() ==> is_ignored_name(
                #[trigger] self.names()[i]@,
            )) ==> (r == Err::<Option<ExtractedFile>, ExtractError>(ExtractError::GrammarConfig)
                || r == Err::<Option<ExtractedFile>, ExtractError>(ExtractError::ParseInternal)
                || r == Ok::<Option<ExtractedFile>, ExtractError>(None)),
    {
        if !set_grammar(parser, self.grammar) {
            return Err(ExtractError::GrammarConfig);
        }
        let raws = match parse_and_query(parser, &self.query, source) {
            Some(raws) => raws,
            None => {
                return Err(ExtractError::ParseInternal);
            },
        };
        proof {
            use_type_invariant(self);
        }
        let ghost p = path;
        let r = self.extract_from_captures(path, source, &raws);
        proof {
            let names = self.names();
            let ft = language_name(self.lang());
            lemma_match_names_not_ignored(names, ft, p, source@, raws@, r);
            if forall|i: int| 0 <= i < names.len() ==> is_ignored_name(#[trigger] names[i]@) {
                lemma_all_ignored_no_result(names, ft, p, source@, raws@, r);
            }
        }
        r
    }
}

} // verus!
