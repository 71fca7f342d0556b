//! The lines of a file, as a line-by-line reader would hand them out.

use vstd::prelude::*;
use vstd::slice::*;
use vstd::string::*;
use vstd::utf8::*;

verus! {

/// The byte that ends a line.
pub const LINE_FEED: u8 = 10;

/// The byte that, standing directly before a line feed, belongs to the line
/// ending and not to the line.
pub const CARRIAGE_RETURN: u8 = 13;

/// `line` without one trailing carriage return, if it has one.
pub open spec fn without_carriage_return(line: Seq<u8>) -> Seq<u8> {
    if line.len() > 0 && line.last() == CARRIAGE_RETURN {
        line.drop_last()
    } else {
        line
    }
}

/// The number of bytes before the first line feed of `bytes`: all of them
/// where there is none.
pub open spec fn first_line_len(bytes: Seq<u8>) -> nat
    decreases bytes.len(),
{
    if bytes.len() == 0 || bytes[0] == LINE_FEED {
        0
    } else {
        1 + first_line_len(bytes.drop_first())
    }
}

/// The lines of `bytes`. Every line feed ends a line; the line feed, and a
/// carriage return directly before it, are not part of the line. What follows
/// the last line feed is a line of its own unless it is empty.
pub open spec fn lines_of(bytes: Seq<u8>) -> Seq<Seq<u8>>
    decreases bytes.len(),
{
    if bytes.len() == 0 {
        seq![]
    } else {
        let n = first_line_len(bytes) as int;
        if n >= bytes.len() {
            seq![bytes]
        } else {
            seq![without_carriage_return(bytes.take(n))] + lines_of(bytes.skip(n + 1))
        }
    }
}

proof fn lemma_first_line_len(bytes: Seq<u8>, n: int)
    requires
        0 <= n <= bytes.len(),
        forall|k: int| 0 <= k < n ==> bytes[k] != LINE_FEED,
        n == bytes.len() || bytes[n] == LINE_FEED,
    ensures
        first_line_len(bytes) == n,
    decreases n,
{
    if n > 0 {
        lemma_first_line_len(bytes.drop_first(), n - 1);
    }
}

/// A line as text: its characters where the bytes are valid UTF-8, nothing
/// where they are not.
pub open spec fn text_of(line: Seq<u8>) -> Option<Seq<char>> {
    if valid_utf8(line) {
        Some(decode_utf8(line))
    } else {
        None
    }
}

/// The lines of `bytes` as text.
pub open spec fn text_lines_of(bytes: Seq<u8>) -> Seq<Option<Seq<char>>> {
    lines_of(bytes).map_values(|line: Seq<u8>| text_of(line))
}

/// The views of a sequence of byte slices.
pub open spec fn slice_views(slices: Seq<&[u8]>) -> Seq<Seq<u8>> {
    slices.map_values(|s: &[u8]| s@)
}

/// The view of a line that was read as text, or of one that could not be.
pub open spec fn line_view(line: Option<&str>) -> Option<Seq<char>> {
    match line {
        Some(text) => Some(text@),
        None => None,
    }
}

/// The views of a sequence of lines.
pub open spec fn line_views(lines: Seq<Option<&str>>) -> Seq<Option<Seq<char>>> {
    lines.map_values(|line: Option<&str>| line_view(line))
}

/// `core::str::from_utf8`. Assumed: it succeeds exactly on valid UTF-8, and
/// the string it returns is made of the bytes it was given.
#[verifier::external_body]
fn from_utf8(bytes: &[u8]) -> (text: Option<&str>)
    ensures
        text is Some <==> valid_utf8(bytes@),
        text matches Some(s) ==> s.spec_bytes() == bytes@,
{
    core::str::from_utf8(bytes).ok()
}

/// Reads a line as text, if it is text.
pub fn decode_line(line: &[u8]) -> (text: Option<&str>)
    ensures
        line_view(text) == text_of(line@),
{
    let text = from_utf8(line);
    proof {
        if let Some(s) = text {
            encode_utf8_decode_utf8(s@);
        }
    }
    text
}

/// Splits `bytes` into its lines.
pub fn split_lines(bytes: &[u8]) -> (lines: Vec<&[u8]>)
    ensures
        slice_views(lines@) == lines_of(bytes@),
{
    let mut lines: Vec<&[u8]> = Vec::new();
    let mut start: usize = 0;
    let mut at: usize = 0;
    assert(bytes@.skip(0) =~= bytes@);
    while at < bytes.len()
        invariant
            start <= at <= bytes.len(),
            forall|k: int| start <= k < at ==> bytes[k] != LINE_FEED,
            slice_views(lines@) + lines_of(bytes@.skip(start as int)) == lines_of(bytes@),
        decreases bytes.len() - at,
    {
        if bytes[at] == LINE_FEED {
            let end = if start < at && bytes[at - 1] == CARRIAGE_RETURN {
                at - 1
            } else {
                at
            };
            let line = slice_subrange(bytes, start, end);
            let ghost rest = bytes@.skip(start as int);
            proof {
                lemma_first_line_len(rest, at - start);
                assert(rest.take(at - start) =~= bytes@.subrange(start as int, at as int));
                assert(rest.skip(at - start + 1) =~= bytes@.skip(at + 1));
                assert(line@ =~= without_carriage_return(rest.take(at - start)));
            }
            let ghost before = lines@;
            lines.push(line);
            assert(slice_views(lines@) =~= slice_views(before).push(line@));
            assert(slice_views(lines@) + lines_of(bytes@.skip(at + 1)) =~= slice_views(before)
                + lines_of(rest));
            start = at + 1;
        }
        at += 1;
    }
    let ghost rest = bytes@.skip(start as int);
    if start < bytes.len() {
        let line = slice_subrange(bytes, start, bytes.len());
        proof {
            lemma_first_line_len(rest, bytes.len() - start);
            assert(line@ =~= rest);
        }
        let ghost before = lines@;
        lines.push(line);
        assert(slice_views(lines@) =~= slice_views(before).push(line@));
        assert(slice_views(lines@) =~= slice_views(before) + lines_of(rest));
    } else {
        assert(slice_views(lines@) =~= slice_views(lines@) + lines_of(rest));
    }
    lines
}

/// Splits `bytes` into its lines and reads each as text.
pub fn text_lines(bytes: &[u8]) -> (lines: Vec<Option<&str>>)
    ensures
        line_views(lines@) == text_lines_of(bytes@),
{
    let raw = split_lines(bytes);
    let mut lines: Vec<Option<&str>> = Vec::new();
    let mut i: usize = 0;
    while i < raw.len()
        invariant
            i <= raw.len(),
            slice_views(raw@) == lines_of(bytes@),
            line_views(lines@) == text_lines_of(bytes@).take(i as int),
        decreases raw.len() - i,
    {
        let text = decode_line(raw[i]);
        let ghost before = lines@;
        lines.push(text);
        assert(line_views(lines@) =~= line_views(before).push(line_view(text)));
        assert(slice_views(raw@)[i as int] == raw@[i as int]@);
        assert(text_lines_of(bytes@).take(i + 1) =~= text_lines_of(bytes@).take(i as int).push(
            text_of(raw@[i as int]@),
        ));
        i += 1;
    }
    assert(text_lines_of(bytes@).take(i as int) =~= text_lines_of(bytes@));
    lines
}

} // verus!
