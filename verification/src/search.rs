//! The search itself: one pass over the bytes of a text that finds each line,
//! tests it for the pattern and copies the lines that hold it.

use crate::encoding::{encoded, lemma_encode_len, lemma_lines};
use crate::text::{
    contains, lemma_line_len, lemma_line_len_is, line_len, lines_of, matching, occurs_at, output,
    rendered, without_carriage_return, CARRIAGE_RETURN, LINE_FEED,
};
use vstd::prelude::*;
use vstd::slice::slice_subrange;
use vstd::string::StringSliceAdditionalSpecFns;
use vstd::utf8::{
    encode_utf8, encode_utf8_decode_utf8, encode_utf8_valid_utf8,
    is_char_boundary_iff_not_is_continuation_byte, is_char_boundary_start_end_of_seq,
};

verus! {

/// The lines of a text of bytes.
spec fn bytes_lines(text: Seq<u8>) -> Seq<Seq<u8>> {
    lines_of(text, LINE_FEED, CARRIAGE_RETURN)
}

/// Whether `pattern` stands in `text` from index `at` on.
fn stands_at(text: &[u8], at: usize, pattern: &[u8]) -> (found: bool)
    requires
        at + pattern@.len() <= text@.len(),
    ensures
        found == (text@.subrange(at as int, at + pattern@.len()) == pattern@),
{
    let ghost window = text@.subrange(at as int, at + pattern@.len());
    let mut k: usize = 0;
    assert(text@.len() == text.len());
    while k < pattern.len()
        invariant
            k <= pattern@.len(),
            at + pattern@.len() <= text@.len() <= usize::MAX,
            window == text@.subrange(at as int, at + pattern@.len()),
            forall|j: int| 0 <= j < k ==> window[j] == pattern@[j],
        decreases pattern@.len() - k,
    {
        if text[at + k] != pattern[k] {
            assert(window[k as int] != pattern@[k as int]);
            return false;
        }
        k += 1;
    }
    assert(window =~= pattern@);
    true
}

/// Whether `line` holds `pattern` as a contiguous run of bytes.
pub fn holds(line: &[u8], pattern: &[u8]) -> (found: bool)
    ensures
        found == contains(line@, pattern@),
{
    if pattern.len() > line.len() {
        return false;
    }
    let last: usize = line.len() - pattern.len();
    let mut at: usize = 0;
    loop
        invariant
            at <= last == line@.len() - pattern@.len(),
            forall|i: int| 0 <= i < at ==> !occurs_at(line@, pattern@, i),
        decreases last - at,
    {
        if stands_at(line, at, pattern) {
            assert(occurs_at(line@, pattern@, at as int));
            return true;
        }
        if at == last {
            return false;
        }
        at += 1;
    }
}

/// The index of the first line feed of `text` at or after index `from`; the
/// length of `text` where none follows.
fn line_end(text: &[u8], from: usize) -> (end: usize)
    requires
        from <= text@.len(),
    ensures
        from <= end <= text@.len(),
        end - from == line_len(text@.subrange(from as int, text@.len() as int), LINE_FEED),
{
    let ghost rest = text@.subrange(from as int, text@.len() as int);
    let mut end: usize = from;
    while end < text.len() && text[end] != LINE_FEED
        invariant
            from <= end <= text@.len(),
            rest == text@.subrange(from as int, text@.len() as int),
            forall|i: int| 0 <= i < end - from ==> rest[i] != LINE_FEED,
        decreases text@.len() - end,
    {
        end += 1;
    }
    proof {
        lemma_line_len_is(rest, LINE_FEED, end - from);
    }
    end
}

/// Finds the line of `text` that starts at index `start`: the index at which
/// it stops, before its ending, and the index at which the next line starts.
fn next_line(text: &[u8], start: usize) -> (line: (usize, usize))
    requires
        start < text@.len(),
    ensures
        start <= line.0 <= line.1 <= text@.len(),
        start < line.1,
        line.0 < text@.len() ==> text@[line.0 as int] == LINE_FEED || text@[line.0 as int]
            == CARRIAGE_RETURN,
        bytes_lines(text@.subrange(start as int, text@.len() as int)) == seq![
            text@.subrange(start as int, line.0 as int),
        ] + bytes_lines(text@.subrange(line.1 as int, text@.len() as int)),
{
    let ghost rest = text@.subrange(start as int, text@.len() as int);
    let end = line_end(text, start);
    let terminated = end < text.len();
    let stop = if terminated && end > start && text[end - 1] == CARRIAGE_RETURN {
        end - 1
    } else {
        end
    };
    let next = if terminated {
        end + 1
    } else {
        end
    };
    proof {
        let line = text@.subrange(start as int, stop as int);
        let after = text@.subrange(next as int, text@.len() as int);
        lemma_line_len(rest, LINE_FEED);
        if terminated {
            assert(rest.subrange(0, end - start) =~= text@.subrange(start as int, end as int));
            assert(rest.subrange(end - start + 1, rest.len() as int) =~= after);
            assert(line =~= without_carriage_return(
                text@.subrange(start as int, end as int),
                CARRIAGE_RETURN,
            ));
        } else {
            assert(line =~= rest);
            assert(bytes_lines(after) =~= Seq::<Seq<u8>>::empty());
        }
        assert(bytes_lines(rest) =~= seq![line] + bytes_lines(after));
    }
    (stop, next)
}

/// Appends the bytes of `line`, and one line feed after them.
fn write_line(writer: &mut Vec<u8>, line: &[u8])
    ensures
        final(writer)@ == old(writer)@ + line@ + seq![LINE_FEED],
{
    let mut at: usize = 0;
    while at < line.len()
        invariant
            at <= line@.len(),
            writer@ == old(writer)@ + line@.subrange(0, at as int),
        decreases line@.len() - at,
    {
        writer.push(line[at]);
        assert(line@.subrange(0, at + 1) =~= line@.subrange(0, at as int).push(line@[at as int]));
        at += 1;
    }
    writer.push(LINE_FEED);
    assert(line@.subrange(0, at as int) =~= line@);
    assert(writer@ =~= old(writer)@ + line@ + seq![LINE_FEED]);
}

/// Appends to `writer` each line of `text` that holds `pattern`, in the order
/// of the text, each followed by one line feed.
pub fn write_matches(text: &[u8], pattern: &[u8], writer: &mut Vec<u8>)
    ensures
        final(writer)@ == old(writer)@ + output(
            text@,
            pattern@,
            LINE_FEED,
            CARRIAGE_RETURN,
        ),
{
    let ghost mut done: Seq<Seq<u8>> = Seq::empty();
    let mut start: usize = 0;
    assert(text@.subrange(0, text@.len() as int) =~= text@);
    while start < text.len()
        invariant
            start <= text@.len(),
            bytes_lines(text@) == done + bytes_lines(
                text@.subrange(start as int, text@.len() as int),
            ),
            writer@ == old(writer)@ + rendered(matching(done, pattern@), LINE_FEED),
        decreases text@.len() - start,
    {
        let (stop, next) = next_line(text, start);
        let line = slice_subrange(text, start, stop);
        proof {
            let after = bytes_lines(text@.subrange(next as int, text@.len() as int));
            assert(done.push(line@) + after =~= done + (seq![line@] + after));
            done.lemma_filter_push(line@, |l: Seq<u8>| contains(l, pattern@));
        }
        if holds(line, pattern) {
            write_line(writer, line);
            proof {
                let kept = matching(done, pattern@);
                assert(kept.push(line@).drop_last() =~= kept);
                assert(writer@ =~= old(writer)@ + rendered(kept.push(line@), LINE_FEED));
            }
        }
        proof {
            done = done.push(line@);
        }
        start = next;
    }
    assert(bytes_lines(text@.subrange(start as int, text@.len() as int)) =~= Seq::<
        Seq<u8>,
    >::empty());
    assert(done + Seq::<Seq<u8>>::empty() =~= done);
}

/// The first line of `text`, without its ending; the empty text where `text`
/// is empty.
pub fn first_line(text: &str) -> (line: &str)
    ensures
        line@ == crate::text::first_line(text@, '\n', '\r'),
{
    let bytes = text.as_bytes();
    proof {
        lemma_lines(text@);
        encode_utf8_valid_utf8(text@);
    }
    if bytes.len() == 0 {
        proof {
            lemma_encode_len(text@);
            assert(text@ =~= Seq::<char>::empty());
        }
        return text;
    }
    assert(bytes@.subrange(0, bytes@.len() as int) =~= bytes@);
    let (stop, _) = next_line(bytes, 0);
    proof {
        if stop < bytes.len() {
            is_char_boundary_iff_not_is_continuation_byte(bytes@, stop as int);
        } else {
            is_char_boundary_start_end_of_seq(bytes@);
        }
    }
    let (line, _) = text.split_at(stop);
    proof {
        let lines = lines_of(text@, '\n', '\r');
        let first = bytes@.subrange(0, stop as int);
        assert(bytes_lines(bytes@)[0] == first);
        assert(encoded(lines)[0] == encode_utf8(lines[0]));
        assert(line.spec_bytes() == first);
        assert(encode_utf8(line@) == encode_utf8(lines[0]));
        encode_utf8_decode_utf8(line@);
        encode_utf8_decode_utf8(lines[0]);
    }
    line
}

} // verus!
