//! The mathematical model of a search. A text is a sequence of symbols, its
//! lines are what lies between line endings, and a line matches a pattern when
//! the pattern's symbols occur in it side by side.
//!
//! The symbols are characters where the model describes a text, and bytes
//! where it describes the UTF-8 form that a program holds. The two symbols
//! that make up line endings are parameters: for characters they are `'\n'`
//! and `'\r'`, for bytes `LINE_FEED` and `CARRIAGE_RETURN`.

use vstd::prelude::*;

verus! {

/// The byte that ends a line.
pub const LINE_FEED: u8 = 10;

/// The byte that, directly before a line feed, belongs to the line ending.
pub const CARRIAGE_RETURN: u8 = 13;

/// The number of symbols of `text` that come before its first line feed; the
/// length of `text` where it holds no line feed.
pub open spec fn line_len<T>(text: Seq<T>, line_feed: T) -> nat
    decreases text.len(),
{
    if text.len() == 0 || text[0] == line_feed {
        0
    } else {
        1 + line_len(text.drop_first(), line_feed)
    }
}

/// The last symbol of `line` is `symbol`.
pub open spec fn ends_with<T>(line: Seq<T>, symbol: T) -> bool {
    line.len() > 0 && line.last() == symbol
}

/// `line` without the carriage return at its end, if it has one there.
pub open spec fn without_carriage_return<T>(line: Seq<T>, carriage_return: T) -> Seq<T> {
    if ends_with(line, carriage_return) {
        line.drop_last()
    } else {
        line
    }
}

/// The lines of `text`, in order and without their endings.
///
/// A line ends at a line feed, or at a carriage return followed by a line
/// feed. What follows the last line feed is a line too unless it is empty, and
/// it is kept whole: a carriage return at the very end of the text stays.
pub open spec fn lines_of<T>(text: Seq<T>, line_feed: T, carriage_return: T) -> Seq<Seq<T>>
    decreases text.len(),
{
    let n = line_len(text, line_feed) as int;
    if text.len() == 0 {
        Seq::empty()
    } else if n >= text.len() {
        seq![text]
    } else {
        seq![without_carriage_return(text.subrange(0, n), carriage_return)] + lines_of(
            text.subrange(n + 1, text.len() as int),
            line_feed,
            carriage_return,
        )
    }
}

/// The first line of `text`; the empty line where `text` has no line.
pub open spec fn first_line<T>(text: Seq<T>, line_feed: T, carriage_return: T) -> Seq<T> {
    let lines = lines_of(text, line_feed, carriage_return);
    if lines.len() == 0 {
        Seq::empty()
    } else {
        lines[0]
    }
}

/// `pattern` stands in `line` from index `at` on.
pub open spec fn occurs_at<T>(line: Seq<T>, pattern: Seq<T>, at: int) -> bool {
    &&& 0 <= at
    &&& at + pattern.len() <= line.len()
    &&& line.subrange(at, at + pattern.len()) == pattern
}

/// `line` holds `pattern` as a contiguous run of symbols. The empty pattern is
/// held by every line.
pub open spec fn contains<T>(line: Seq<T>, pattern: Seq<T>) -> bool {
    exists|at: int| occurs_at(line, pattern, at)
}

/// Those of `lines` that hold `pattern`, in their order, each as often as it
/// stands in `lines`.
pub open spec fn matching<T>(lines: Seq<Seq<T>>, pattern: Seq<T>) -> Seq<Seq<T>> {
    lines.filter(|line: Seq<T>| contains(line, pattern))
}

/// The text that presents `lines`: each line followed by one line feed.
pub open spec fn rendered<T>(lines: Seq<Seq<T>>, line_feed: T) -> Seq<T>
    decreases lines.len(),
{
    if lines.len() == 0 {
        Seq::empty()
    } else {
        rendered(lines.drop_last(), line_feed) + lines.last() + seq![line_feed]
    }
}

/// What a search for `pattern` in `content` prints.
pub open spec fn output<T>(
    content: Seq<T>,
    pattern: Seq<T>,
    line_feed: T,
    carriage_return: T,
) -> Seq<T> {
    rendered(matching(lines_of(content, line_feed, carriage_return), pattern), line_feed)
}

/// No symbol of `line` is a line feed.
pub open spec fn is_line<T>(line: Seq<T>, line_feed: T) -> bool {
    forall|i: int| 0 <= i < line.len() ==> line[i] != line_feed
}

/// `line_len` is the index of the first line feed, or the length.
pub proof fn lemma_line_len<T>(text: Seq<T>, line_feed: T)
    ensures
        line_len(text, line_feed) <= text.len(),
        is_line(text.subrange(0, line_len(text, line_feed) as int), line_feed),
        line_len(text, line_feed) < text.len() ==> text[line_len(text, line_feed) as int]
            == line_feed,
    decreases text.len(),
{
    if text.len() == 0 || text[0] == line_feed {
    } else {
        let rest = text.drop_first();
        lemma_line_len(rest, line_feed);
        let n = line_len(text, line_feed) as int;
        assert forall|i: int| 0 <= i < n implies text.subrange(0, n)[i] != line_feed by {
            if i > 0 {
                assert(rest.subrange(0, n - 1)[i - 1] == text[i]);
            }
        }
    }
}

/// An index at which a line feed or the end stands, with no line feed before
/// it, is `line_len`.
pub proof fn lemma_line_len_is<T>(text: Seq<T>, line_feed: T, n: int)
    requires
        0 <= n <= text.len(),
        forall|i: int| 0 <= i < n ==> text[i] != line_feed,
        n < text.len() ==> text[n] == line_feed,
    ensures
        line_len(text, line_feed) == n,
    decreases n,
{
    if n > 0 {
        let rest = text.drop_first();
        assert forall|i: int| 0 <= i < n - 1 implies rest[i] != line_feed by {
            assert(rest[i] == text[i + 1]);
        }
        lemma_line_len_is(rest, line_feed, n - 1);
    }
}

} // verus!
