//! How a text and its UTF-8 bytes correspond: what the search finds in the
//! bytes is what stands in the text.

use crate::laws::{last_line_is_kept_whole, lines_split_at_line_feed};
use crate::text::{
    contains, is_line, lemma_line_len, line_len, lines_of, matching, occurs_at, output, rendered,
    without_carriage_return, CARRIAGE_RETURN, LINE_FEED,
};
use vstd::prelude::*;
use vstd::utf8::{
    char_u32_cast, encode_scalar, encode_utf8, encode_utf8_first_scalar, is_continuation_byte,
    length_of_first_codepoint,
};

verus! {

/// The bytes of one character.
pub open spec fn char_bytes(c: char) -> Seq<u8> {
    encode_scalar(c as u32)
}

/// The text of one character is encoded as the bytes of that character.
pub proof fn lemma_encode_one(c: char)
    ensures
        encode_utf8(seq![c]) == char_bytes(c),
{
    reveal_with_fuel(encode_utf8, 2);
    assert(seq![c].drop_first() =~= Seq::<char>::empty());
    assert(char_bytes(c) + Seq::<u8>::empty() =~= char_bytes(c));
}

/// The shape of the bytes of a character: one to four of them; the first is
/// no continuation byte and decides how many there are; the others are
/// continuation bytes. A single byte is the character itself, below 128; the
/// first of several is at least 192.
pub proof fn lemma_char_bytes(c: char)
    ensures
        1 <= char_bytes(c).len() <= 4,
        length_of_first_codepoint(char_bytes(c)) == char_bytes(c).len(),
        !is_continuation_byte(char_bytes(c)[0]),
        forall|k: int|
            1 <= k < char_bytes(c).len() ==> is_continuation_byte(#[trigger] char_bytes(c)[k]),
        char_bytes(c).len() == 1 ==> char_bytes(c)[0] < 0x80 && char_bytes(c)[0] as u32
            == c as u32,
        char_bytes(c).len() > 1 ==> char_bytes(c)[0] >= 0xc0,
{
    lemma_encode_one(c);
    encode_utf8_first_scalar(seq![c]);
    let first = char_bytes(c)[0];
    if char_bytes(c).len() == 1 {
        assert(first & 0x7f == first) by (bit_vector)
            requires
                first <= 0x7f,
        ;
    }
}

/// Two characters with the same bytes are the same character.
pub proof fn lemma_same_bytes_same_char(a: char, b: char)
    requires
        char_bytes(a) == char_bytes(b),
    ensures
        a == b,
{
    lemma_encode_one(a);
    lemma_encode_one(b);
    encode_utf8_first_scalar(seq![a]);
    encode_utf8_first_scalar(seq![b]);
    char_u32_cast(a, a as u32);
    char_u32_cast(b, b as u32);
}

/// The bytes of two texts, one after the other, are the bytes of the first
/// followed by those of the second.
pub proof fn lemma_encode_add(a: Seq<char>, b: Seq<char>)
    ensures
        encode_utf8(a + b) == encode_utf8(a) + encode_utf8(b),
    decreases a.len(),
{
    if a.len() == 0 {
        assert(a + b =~= b);
        assert(encode_utf8(a) + encode_utf8(b) =~= encode_utf8(b));
    } else {
        assert((a + b).drop_first() =~= a.drop_first() + b);
        lemma_encode_add(a.drop_first(), b);
        assert(encode_utf8(a + b) =~= encode_utf8(a) + encode_utf8(b));
    }
}

/// Only the empty text has no bytes.
pub proof fn lemma_encode_len(text: Seq<char>)
    ensures
        encode_utf8(text).len() >= text.len(),
    decreases text.len(),
{
    if text.len() > 0 {
        lemma_char_bytes(text[0]);
        lemma_encode_len(text.drop_first());
    }
}

/// The line feed is the byte 10 and the carriage return is the byte 13.
pub proof fn lemma_line_ending_bytes()
    ensures
        char_bytes('\n') == seq![LINE_FEED],
        char_bytes('\r') == seq![CARRIAGE_RETURN],
{
    lemma_char_bytes('\n');
    lemma_char_bytes('\r');
    assert(char_bytes('\n') =~= seq![LINE_FEED]);
    assert(char_bytes('\r') =~= seq![CARRIAGE_RETURN]);
}

/// A byte below 128 among the bytes of a character is the whole character.
pub proof fn lemma_ascii_byte(c: char, k: int)
    requires
        0 <= k < char_bytes(c).len(),
        char_bytes(c)[k] < 0x80,
    ensures
        char_bytes(c).len() == 1,
        char_bytes(c)[k] as u32 == c as u32,
{
    lemma_char_bytes(c);
}

/// Where the bytes of a pattern open the bytes of a text, the pattern opens
/// the text.
pub proof fn lemma_prefix_of_bytes(text: Seq<char>, pattern: Seq<char>)
    requires
        occurs_at(encode_utf8(text), encode_utf8(pattern), 0),
    ensures
        occurs_at(text, pattern, 0),
    decreases pattern.len(),
{
    if pattern.len() == 0 {
        assert(text.subrange(0, 0) =~= pattern);
    } else {
        let t = encode_utf8(text);
        let p = encode_utf8(pattern);
        let first = char_bytes(pattern[0]);
        lemma_char_bytes(pattern[0]);
        assert(text.len() > 0);
        let other = char_bytes(text[0]);
        lemma_char_bytes(text[0]);
        let rest = encode_utf8(text.drop_first());
        let tail = encode_utf8(pattern.drop_first());
        let window = t.subrange(0, p.len() as int);
        assert(window[0] == p[0]);
        assert(other[0] == first[0]);
        assert(other.len() == first.len());
        assert forall|k: int| 0 <= k < first.len() implies other[k] == first[k] by {
            assert(window[k] == p[k]);
        }
        assert(other =~= first);
        lemma_same_bytes_same_char(text[0], pattern[0]);
        assert forall|k: int| 0 <= k < tail.len() implies rest[k] == tail[k] by {
            assert(window[first.len() + k] == p[first.len() + k]);
        }
        assert(rest.subrange(0, tail.len() as int) =~= tail);
        lemma_prefix_of_bytes(text.drop_first(), pattern.drop_first());
        let found = text.drop_first().subrange(0, pattern.len() - 1);
        assert forall|k: int| 0 <= k < pattern.len() implies text[k] == pattern[k] by {
            if k > 0 {
                assert(found[k - 1] == pattern.drop_first()[k - 1]);
            }
        }
        assert(text.subrange(0, pattern.len() as int) =~= pattern);
    }
}

/// Where the bytes of a pattern stand among the bytes of a line, the pattern
/// stands in the line: a search of the bytes finds nothing that the text does
/// not hold.
pub proof fn lemma_found_in_bytes(line: Seq<char>, pattern: Seq<char>, at: int)
    requires
        occurs_at(encode_utf8(line), encode_utf8(pattern), at),
    ensures
        contains(line, pattern),
    decreases line.len(),
{
    let l = encode_utf8(line);
    let p = encode_utf8(pattern);
    if pattern.len() == 0 {
        assert(line.subrange(0, 0) =~= pattern);
        assert(occurs_at(line, pattern, 0));
    } else if at == 0 {
        lemma_prefix_of_bytes(line, pattern);
    } else {
        lemma_char_bytes(pattern[0]);
        assert(line.len() > 0);
        lemma_char_bytes(line[0]);
        let width = char_bytes(line[0]).len() as int;
        let rest = encode_utf8(line.drop_first());
        let window = l.subrange(at, at + p.len());
        assert(window[0] == p[0]);
        assert(at >= width) by {
            if at < width {
                assert(is_continuation_byte(char_bytes(line[0])[at]));
            }
        }
        assert forall|k: int| 0 <= k < p.len() implies rest[at - width + k] == p[k] by {
            assert(window[k] == p[k]);
        }
        assert(rest.subrange(at - width, at - width + p.len()) =~= p);
        lemma_found_in_bytes(line.drop_first(), pattern, at - width);
        let i = choose|i: int| occurs_at(line.drop_first(), pattern, i);
        assert(line.subrange(i + 1, i + 1 + pattern.len()) =~= line.drop_first().subrange(
            i,
            i + pattern.len(),
        ));
        assert(occurs_at(line, pattern, i + 1));
    }
}

/// Where a pattern stands in a line, its bytes stand among the bytes of the
/// line: a search of the bytes misses nothing that the text holds.
pub proof fn lemma_found_in_text(line: Seq<char>, pattern: Seq<char>, at: int)
    requires
        occurs_at(line, pattern, at),
    ensures
        contains(encode_utf8(line), encode_utf8(pattern)),
{
    let before = line.subrange(0, at);
    let after = line.subrange(at + pattern.len(), line.len() as int);
    assert(line =~= before + pattern + after);
    lemma_encode_add(before + pattern, after);
    lemma_encode_add(before, pattern);
    let b = encode_utf8(before);
    let p = encode_utf8(pattern);
    let l = encode_utf8(line);
    assert(l.subrange(b.len() as int, b.len() as int + p.len()) =~= p);
    assert(occurs_at(l, p, b.len() as int));
}

/// A line holds a pattern exactly when the bytes of the line hold the bytes of
/// the pattern.
pub proof fn lemma_contains(line: Seq<char>, pattern: Seq<char>)
    ensures
        contains(encode_utf8(line), encode_utf8(pattern)) == contains(line, pattern),
{
    if contains(line, pattern) {
        let at = choose|at: int| occurs_at(line, pattern, at);
        lemma_found_in_text(line, pattern, at);
    }
    if contains(encode_utf8(line), encode_utf8(pattern)) {
        let at = choose|at: int| occurs_at(encode_utf8(line), encode_utf8(pattern), at);
        lemma_found_in_bytes(line, pattern, at);
    }
}

/// The bytes of a line hold no line feed.
pub proof fn lemma_line_bytes(line: Seq<char>)
    requires
        is_line(line, '\n'),
    ensures
        is_line(encode_utf8(line), LINE_FEED),
    decreases line.len(),
{
    if line.len() > 0 {
        let first = char_bytes(line[0]);
        let rest = encode_utf8(line.drop_first());
        lemma_char_bytes(line[0]);
        assert(is_line(line.drop_first(), '\n')) by {
            assert forall|i: int| 0 <= i < line.drop_first().len() implies line.drop_first()[i]
                != '\n' by {
                assert(line.drop_first()[i] == line[i + 1]);
            }
        }
        lemma_line_bytes(line.drop_first());
        assert forall|k: int| 0 <= k < encode_utf8(line).len() implies encode_utf8(line)[k]
            != LINE_FEED by {
            if k < first.len() {
                if first[k] == LINE_FEED {
                    lemma_ascii_byte(line[0], k);
                    char_u32_cast(line[0], 10u32);
                    assert(line[0] == '\n');
                }
            } else {
                assert(encode_utf8(line)[k] == rest[k - first.len()]);
            }
        }
    }
}

/// Taking the carriage return off the end of a line takes the byte 13 off the
/// end of its bytes.
pub proof fn lemma_without_carriage_return(line: Seq<char>)
    ensures
        without_carriage_return(encode_utf8(line), CARRIAGE_RETURN) == encode_utf8(
            without_carriage_return(line, '\r'),
        ),
{
    if line.len() > 0 {
        let init = line.drop_last();
        let last = line.last();
        let bytes = char_bytes(last);
        assert(line =~= init + seq![last]);
        lemma_encode_add(init, seq![last]);
        lemma_encode_one(last);
        lemma_char_bytes(last);
        assert(encode_utf8(line).last() == bytes.last());
        if last == '\r' {
            lemma_line_ending_bytes();
            assert(encode_utf8(line).drop_last() =~= encode_utf8(init));
        } else {
            if bytes.last() == CARRIAGE_RETURN {
                lemma_ascii_byte(last, bytes.len() - 1);
                char_u32_cast(last, 13u32);
                assert(last == '\r');
            }
        }
    }
}

/// The lines of a text, each as its bytes.
pub open spec fn encoded(lines: Seq<Seq<char>>) -> Seq<Seq<u8>> {
    lines.map_values(|line: Seq<char>| encode_utf8(line))
}

/// The lines of the bytes of a text are the bytes of the lines of the text.
pub proof fn lemma_lines(text: Seq<char>)
    ensures
        lines_of(encode_utf8(text), LINE_FEED, CARRIAGE_RETURN) == encoded(
            lines_of(text, '\n', '\r'),
        ),
    decreases text.len(),
{
    let n = line_len(text, '\n') as int;
    let bytes = encode_utf8(text);
    lemma_line_len(text, '\n');
    if text.len() == 0 {
        assert(lines_of(bytes, LINE_FEED, CARRIAGE_RETURN) =~= encoded(lines_of(text, '\n', '\r')));
    } else if n >= text.len() {
        assert(text.subrange(0, n) =~= text);
        lemma_line_bytes(text);
        lemma_encode_len(text);
        last_line_is_kept_whole(bytes, LINE_FEED, CARRIAGE_RETURN);
        assert(seq![bytes] =~= encoded(seq![text]));
    } else {
        let head = text.subrange(0, n);
        let rest = text.subrange(n + 1, text.len() as int);
        assert(text =~= head + seq!['\n'] + rest);
        lemma_encode_add(head + seq!['\n'], rest);
        lemma_encode_add(head, seq!['\n']);
        lemma_encode_one('\n');
        lemma_line_ending_bytes();
        lemma_line_bytes(head);
        lines_split_at_line_feed(encode_utf8(head), encode_utf8(rest), LINE_FEED, CARRIAGE_RETURN);
        lemma_without_carriage_return(head);
        lemma_lines(rest);
        let first = without_carriage_return(head, '\r');
        let others = lines_of(rest, '\n', '\r');
        assert(encoded(seq![first] + others) =~= seq![encode_utf8(first)] + encoded(others));
    }
}

/// The matching lines of the bytes are the bytes of the matching lines.
pub proof fn lemma_matching(lines: Seq<Seq<char>>, pattern: Seq<char>)
    ensures
        matching(encoded(lines), encode_utf8(pattern)) == encoded(matching(lines, pattern)),
    decreases lines.len(),
{
    let in_text = |line: Seq<char>| contains(line, pattern);
    let in_bytes = |line: Seq<u8>| contains(line, encode_utf8(pattern));
    if lines.len() == 0 {
        reveal(Seq::filter);
        assert(encoded(lines) =~= Seq::<Seq<u8>>::empty());
        assert(matching(encoded(lines), encode_utf8(pattern)) =~= encoded(
            matching(lines, pattern),
        ));
    } else {
        let init = lines.drop_last();
        let last = lines.last();
        assert(lines =~= init.push(last));
        assert(encoded(lines) =~= encoded(init).push(encode_utf8(last)));
        lemma_matching(init, pattern);
        lemma_contains(last, pattern);
        init.lemma_filter_push(last, in_text);
        encoded(init).lemma_filter_push(encode_utf8(last), in_bytes);
        if contains(last, pattern) {
            assert(encoded(matching(init, pattern).push(last)) =~= encoded(
                matching(init, pattern),
            ).push(encode_utf8(last)));
        }
    }
}

/// What presents the bytes of lines is the bytes of what presents the lines.
pub proof fn lemma_rendered(lines: Seq<Seq<char>>)
    ensures
        rendered(encoded(lines), LINE_FEED) == encode_utf8(rendered(lines, '\n')),
    decreases lines.len(),
{
    if lines.len() == 0 {
        assert(encoded(lines) =~= Seq::<Seq<u8>>::empty());
    } else {
        let init = lines.drop_last();
        let last = lines.last();
        assert(encoded(lines).drop_last() =~= encoded(init));
        assert(encoded(lines).last() == encode_utf8(last));
        lemma_rendered(init);
        lemma_encode_add(rendered(init, '\n') + last, seq!['\n']);
        lemma_encode_add(rendered(init, '\n'), last);
        lemma_encode_one('\n');
        lemma_line_ending_bytes();
    }
}

/// A search of the bytes of a text for the bytes of a pattern prints the bytes
/// of what the search of the text for the pattern prints.
pub proof fn search_of_bytes_is_search_of_text(content: Seq<char>, pattern: Seq<char>)
    ensures
        output(encode_utf8(content), encode_utf8(pattern), LINE_FEED, CARRIAGE_RETURN)
            == encode_utf8(output(content, pattern, '\n', '\r')),
{
    let lines = lines_of(content, '\n', '\r');
    lemma_lines(content);
    lemma_matching(lines, pattern);
    lemma_rendered(matching(lines, pattern));
}

} // verus!
