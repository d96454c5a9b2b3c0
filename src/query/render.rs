//! Plain-text rendering of extraction results: one line per match, in the
//! form `origin:row:column:name:text`, with 1-based row and column.
use crate::query::engine::{decode_utf8, push_char, utf8_decode};
use crate::query::extractor::{ExtractedFile, ExtractedMatch};
use vstd::prelude::*;
use vstd::string::StringExecFns;

verus! {

/// The character of a decimal digit.
pub open spec fn digit(d: nat) -> char
    recommends
        d < 10,
{
    seq!['0', '1', '2', '3', '4', '5', '6', '7', '8', '9'][d as int]
}

/// The decimal digits of `n`, most significant first, without leading zeros.
pub open spec fn decimal(n: nat) -> Seq<char>
    decreases n,
{
    if n < 10 {
        seq![digit(n)]
    } else {
        decimal(n / 10).push(digit(n % 10))
    }
}

/// How the origin of a result is shown: its path where there is one that is
/// UTF-8 text, else a placeholder.
pub open spec fn origin_text(file: Option<Vec<u8>>) -> Seq<char> {
    match file {
        None => "NO FILE"@,
        Some(p) => match utf8_decode(p@) {
            Some(t) => t,
            None => "NON-UTF8 FILENAME"@,
        },
    }
}

/// The line that shows one match.
pub open spec fn match_line(origin: Seq<char>, m: ExtractedMatch) -> Seq<char> {
    origin + ":"@ + decimal((m.start.row + 1) as nat) + ":"@ + decimal((m.start.column + 1) as nat) + ":"@
        + m.name@ + ":"@ + m.text@ + "\n"@
}

/// The lines that show the matches, in order.
pub open spec fn match_lines(origin: Seq<char>, ms: Seq<ExtractedMatch>) -> Seq<char>
    decreases ms.len(),
{
    if ms.len() == 0 {
        Seq::empty()
    } else {
        match_lines(origin, ms.drop_last()) + match_line(origin, ms.last())
    }
}

fn digit_char(d: u128) -> (r: char)
    requires
        d < 10,
    ensures
        r == digit(d as nat),
{
    let digits: [char; 10] = ['0', '1', '2', '3', '4', '5', '6', '7', '8', '9'];
    assert(digits@ == seq!['0', '1', '2', '3', '4', '5', '6', '7', '8', '9']);
    digits[d as usize]
}

/// Appends the decimal digits of `n`.
fn push_decimal(out: &mut String, n: u128)
    ensures
        final(out)@ == old(out)@ + decimal(n as nat),
    decreases n,
{
    if n >= 10 {
        push_decimal(out, n / 10);
    }
    push_char(out, digit_char(n % 10));
    assert(final(out)@ =~= old(out)@ + decimal(n as nat));
}

fn origin_of(file: &Option<Vec<u8>>) -> (r: String)
    ensures
        r@ == origin_text(*file),
{
    match file {
        None => String::from_str("NO FILE"),
        Some(p) => match decode_utf8(p.as_slice()) {
            Some(t) => t,
            None => String::from_str("NON-UTF8 FILENAME"),
        },
    }
}

impl ExtractedFile {
    /// One line per match: the origin, the 1-based start row and column, the
    /// capture's name and the matched text, separated by colons.
    pub fn to_text(&self) -> (r: String)
        ensures
            r@ == match_lines(origin_text(self.file), self.matches@),
    {
        let origin = origin_of(&self.file);
        let mut out = String::new();
        let mut i: usize = 0;
        while i < self.matches.len()
            invariant
                i <= self.matches@.len(),
                origin@ == origin_text(self.file),
                out@ == match_lines(origin@, self.matches@.take(i as int)),
            decreases self.matches@.len() - i,
        {
            let m = &self.matches[i];
            let mut line = origin.clone();
            line.append(":");
            push_decimal(&mut line, m.start.row as u128 + 1);
            line.append(":");
            push_decimal(&mut line, m.start.column as u128 + 1);
            line.append(":");
            line.append(m.name.as_str());
            line.append(":");
            line.append(m.text.as_str());
            line.append("\n");
            assert(line@ == match_line(origin@, *m));
            out.append(line.as_str());
            assert(self.matches@.take(i as int + 1).drop_last() =~= self.matches@.take(i as int));
            i = i + 1;
        }
        assert(self.matches@.take(i as int) =~= self.matches@);
        out
    }
}

} // verus!
