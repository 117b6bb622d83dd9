//! What holds of every search and of every run, stated over the models in
//! `text`, `pipeline` and `grrserror`, and proved.

use crate::cli::Request;
use crate::grrserror::{diagnostic_of, status_of, Category, Failure};
use crate::pipeline::{accepts, next, ActionView, Event, ReadOutcome, Stage};
use crate::text::{
    contains, ends_with, first_line, is_line, lemma_line_len, lemma_line_len_is, line_len, lines_of,
    matching, occurs_at, output, rendered, without_carriage_return,
};
use vstd::prelude::*;
use vstd::utf8::encode_utf8;

verus! {

/// A line as the search hands it out: it holds no line feed and does not end
/// in a carriage return.
pub open spec fn is_plain_line<T>(line: Seq<T>, line_feed: T, carriage_return: T) -> bool {
    is_line(line, line_feed) && !ends_with(line, carriage_return)
}

/// A text that ends before any line feed is one line, unless it is empty.
pub proof fn last_line_is_kept_whole<T>(text: Seq<T>, line_feed: T, carriage_return: T)
    requires
        is_line(text, line_feed),
    ensures
        lines_of(text, line_feed, carriage_return) == if text.len() == 0 {
            Seq::<Seq<T>>::empty()
        } else {
            seq![text]
        },
{
    lemma_line_len_is(text, line_feed, text.len() as int);
}

/// The lines of a text are found one after the other: up to its first line
/// feed the text gives one line, without the carriage return that may stand
/// before the line feed, and what follows the line feed gives the others.
pub proof fn lines_split_at_line_feed<T>(
    line: Seq<T>,
    rest: Seq<T>,
    line_feed: T,
    carriage_return: T,
)
    requires
        is_line(line, line_feed),
    ensures
        lines_of(line + seq![line_feed] + rest, line_feed, carriage_return) == seq![
            without_carriage_return(line, carriage_return),
        ] + lines_of(rest, line_feed, carriage_return),
{
    let text = line + seq![line_feed] + rest;
    lemma_line_len_is(text, line_feed, line.len() as int);
    assert(text.subrange(0, line.len() as int) =~= line);
    assert(text.subrange(line.len() as int + 1, text.len() as int) =~= rest);
}

/// No line of a text holds a line feed.
pub proof fn lines_hold_no_line_feed<T>(text: Seq<T>, line_feed: T, carriage_return: T)
    ensures
        forall|i: int|
            0 <= i < lines_of(text, line_feed, carriage_return).len() ==> is_line(
                #[trigger] lines_of(text, line_feed, carriage_return)[i],
                line_feed,
            ),
    decreases text.len(),
{
    lemma_line_len(text, line_feed);
    let n = line_len(text, line_feed) as int;
    let lines = lines_of(text, line_feed, carriage_return);
    if text.len() == 0 {
    } else if n >= text.len() {
        assert(text.subrange(0, n) =~= text);
    } else {
        let rest = text.subrange(n + 1, text.len() as int);
        lines_hold_no_line_feed(rest, line_feed, carriage_return);
        let head = text.subrange(0, n);
        let first = without_carriage_return(head, carriage_return);
        assert(is_line(first, line_feed)) by {
            assert forall|i: int| 0 <= i < first.len() implies first[i] != line_feed by {
                assert(first[i] == head[i]);
            }
        }
        assert forall|i: int| 0 <= i < lines.len() implies is_line(#[trigger] lines[i], line_feed) by {
            if i > 0 {
                assert(lines[i] == lines_of(rest, line_feed, carriage_return)[i - 1]);
            }
        }
    }
}

/// A search goes line by line: of no lines none matches, a single line is
/// kept exactly when it holds the pattern, and the matches of two runs of
/// lines, one after the other, are the matches of the first followed by those
/// of the second. Order and repetitions are thereby those of the text.
pub proof fn matching_goes_line_by_line<T>(
    before: Seq<Seq<T>>,
    after: Seq<Seq<T>>,
    line: Seq<T>,
    pattern: Seq<T>,
)
    ensures
        matching(Seq::empty(), pattern) == Seq::<Seq<T>>::empty(),
        matching(seq![line], pattern) == if contains(line, pattern) {
            seq![line]
        } else {
            Seq::<Seq<T>>::empty()
        },
        matching(before + after, pattern) == matching(before, pattern) + matching(after, pattern),
{
    let holds = |l: Seq<T>| contains(l, pattern);
    assert(matching(Seq::empty(), pattern) =~= Seq::<Seq<T>>::empty()) by {
        reveal(Seq::filter);
    }
    Seq::<Seq<T>>::empty().lemma_filter_push(line, holds);
    assert(Seq::<Seq<T>>::empty().push(line) =~= seq![line]);
    Seq::filter_distributes_over_add(before, after, holds);
}

/// Every line that a search gives holds the pattern and is a line of what was
/// searched.
pub proof fn matches_hold_the_pattern<T>(lines: Seq<Seq<T>>, pattern: Seq<T>, i: int)
    requires
        0 <= i < matching(lines, pattern).len(),
    ensures
        contains(matching(lines, pattern)[i], pattern),
        lines.contains(matching(lines, pattern)[i]),
{
    let holds = |l: Seq<T>| contains(l, pattern);
    lines.lemma_filter_pred(holds, i);
    let found = matching(lines, pattern);
    assert(found.contains(found[i]));
    lines.lemma_filter_contains_rev(holds, found[i]);
}

/// Where every one of `lines` holds the pattern, the search keeps them all.
pub proof fn all_matching_lines_are_kept<T>(lines: Seq<Seq<T>>, pattern: Seq<T>)
    requires
        forall|i: int| 0 <= i < lines.len() ==> contains(#[trigger] lines[i], pattern),
    ensures
        matching(lines, pattern) == lines,
    decreases lines.len(),
{
    let holds = |l: Seq<T>| contains(l, pattern);
    if lines.len() == 0 {
        assert(matching(lines, pattern) =~= lines) by {
            reveal(Seq::filter);
        }
    } else {
        all_matching_lines_are_kept(lines.drop_last(), pattern);
        lines.drop_last().lemma_filter_push(lines.last(), holds);
        assert(lines.drop_last().push(lines.last()) =~= lines);
    }
}

/// Two searches of the same content for the same pattern append the same
/// bytes, whatever the two writers held before.
pub proof fn search_is_repeatable(
    content: Seq<char>,
    pattern: Seq<char>,
    first: (Seq<u8>, Seq<u8>),
    second: (Seq<u8>, Seq<u8>),
)
    requires
        first.1 == first.0 + encode_utf8(output(content, pattern, '\n', '\r')),
        second.1 == second.0 + encode_utf8(output(content, pattern, '\n', '\r')),
    ensures
        first.1.subrange(first.0.len() as int, first.1.len() as int) == second.1.subrange(
            second.0.len() as int,
            second.1.len() as int,
        ),
{
    let appended = encode_utf8(output(content, pattern, '\n', '\r'));
    assert(first.1.subrange(first.0.len() as int, first.1.len() as int) =~= appended);
    assert(second.1.subrange(second.0.len() as int, second.1.len() as int) =~= appended);
}

/// Searching the result of a search for the same pattern changes nothing.
pub proof fn search_is_idempotent<T>(lines: Seq<Seq<T>>, pattern: Seq<T>)
    ensures
        matching(matching(lines, pattern), pattern) == matching(lines, pattern),
{
    let found = matching(lines, pattern);
    assert forall|i: int| 0 <= i < found.len() implies contains(#[trigger] found[i], pattern) by {
        matches_hold_the_pattern(lines, pattern, i);
    }
    all_matching_lines_are_kept(found, pattern);
}

/// The empty pattern is held by every line, so a search for it gives every
/// line.
pub proof fn empty_pattern_matches_every_line<T>(lines: Seq<Seq<T>>)
    ensures
        matching(lines, Seq::empty()) == lines,
{
    let pattern = Seq::<T>::empty();
    assert forall|i: int| 0 <= i < lines.len() implies contains(#[trigger] lines[i], pattern) by {
        assert(lines[i].subrange(0, 0) =~= pattern);
        assert(occurs_at(lines[i], pattern, 0));
    }
    all_matching_lines_are_kept(lines, pattern);
}

/// A pattern that is a whole line of the text matches that line.
pub proof fn whole_line_matches<T>(content: Seq<T>, line_feed: T, carriage_return: T, i: int)
    requires
        0 <= i < lines_of(content, line_feed, carriage_return).len(),
    ensures
        ({
            let lines = lines_of(content, line_feed, carriage_return);
            contains(lines[i], lines[i]) && matching(lines, lines[i]).contains(lines[i])
        }),
{
    let lines = lines_of(content, line_feed, carriage_return);
    let line = lines[i];
    assert(line.subrange(0, line.len() as int) =~= line);
    assert(occurs_at(line, line, 0));
    lines.lemma_filter_contains(|l: Seq<T>| contains(l, line), i);
}

/// A pattern with a line feed in it is held by no line of any text: a search
/// for it prints nothing.
pub proof fn pattern_across_lines_never_matches<T>(
    content: Seq<T>,
    pattern: Seq<T>,
    line_feed: T,
    carriage_return: T,
)
    requires
        pattern.contains(line_feed),
    ensures
        matching(lines_of(content, line_feed, carriage_return), pattern) == Seq::<
            Seq<T>,
        >::empty(),
        output(content, pattern, line_feed, carriage_return) == Seq::<T>::empty(),
{
    let lines = lines_of(content, line_feed, carriage_return);
    let holds = |l: Seq<T>| contains(l, pattern);
    let k = choose|k: int| 0 <= k < pattern.len() && pattern[k] == line_feed;
    lines_hold_no_line_feed(content, line_feed, carriage_return);
    assert forall|i: int| 0 <= i < lines.len() implies !holds(#[trigger] lines[i]) by {
        let line = lines[i];
        assert forall|at: int| !occurs_at(line, pattern, at) by {
            if occurs_at(line, pattern, at) {
                assert(line.subrange(at, at + pattern.len())[k] == line[at + k]);
            }
        }
    }
    assert(lines.all(|l: Seq<T>| !holds(l)));
    lines.lemma_all_neg_filter_empty(holds);
    assert(matching(lines, pattern) =~= Seq::<Seq<T>>::empty());
}

/// What presents a run of lines starts with the first line and its line feed.
pub proof fn rendered_line_by_line<T>(line: Seq<T>, lines: Seq<Seq<T>>, line_feed: T)
    ensures
        rendered(seq![line] + lines, line_feed) == line + seq![line_feed] + rendered(
            lines,
            line_feed,
        ),
    decreases lines.len(),
{
    let all = seq![line] + lines;
    assert(rendered(all, line_feed) == rendered(all.drop_last(), line_feed) + all.last()
        + seq![line_feed]);
    if lines.len() == 0 {
        assert(all.drop_last() =~= Seq::<Seq<T>>::empty());
        assert(all.last() == line);
        assert(rendered(all.drop_last(), line_feed) =~= Seq::<T>::empty());
        assert(rendered(lines, line_feed) =~= Seq::<T>::empty());
        assert(rendered(all, line_feed) =~= line + seq![line_feed] + rendered(lines, line_feed));
    } else {
        assert(all.drop_last() =~= seq![line] + lines.drop_last());
        assert(all.last() == lines.last());
        rendered_line_by_line(line, lines.drop_last(), line_feed);
        assert(rendered(all, line_feed) =~= line + seq![line_feed] + rendered(lines, line_feed));
    }
}

/// Lines that are written out, each with its line feed, and split again are
/// the same lines, where none of them holds a line feed or ends in a carriage
/// return.
pub proof fn rendered_lines_read_back<T>(lines: Seq<Seq<T>>, line_feed: T, carriage_return: T)
    requires
        forall|i: int|
            0 <= i < lines.len() ==> is_plain_line(#[trigger] lines[i], line_feed, carriage_return),
    ensures
        lines_of(rendered(lines, line_feed), line_feed, carriage_return) == lines,
    decreases lines.len(),
{
    if lines.len() == 0 {
    } else {
        let first = lines[0];
        let others = lines.drop_first();
        assert(lines =~= seq![first] + others);
        rendered_line_by_line(first, others, line_feed);
        assert(is_plain_line(first, line_feed, carriage_return));
        assert forall|i: int| 0 <= i < others.len() implies is_plain_line(
            #[trigger] others[i],
            line_feed,
            carriage_return,
        ) by {
            assert(others[i] == lines[i + 1]);
        }
        rendered_lines_read_back(others, line_feed, carriage_return);
        lines_split_at_line_feed(first, rendered(others, line_feed), line_feed, carriage_return);
    }
}

/// Searching the output of a search again, for the same pattern, gives the
/// same lines and the same output, where no line that matched ends in a
/// carriage return.
pub proof fn search_of_output_reproduces_it<T>(
    content: Seq<T>,
    pattern: Seq<T>,
    line_feed: T,
    carriage_return: T,
)
    requires
        ({
            let found = matching(lines_of(content, line_feed, carriage_return), pattern);
            forall|i: int| 0 <= i < found.len() ==> !ends_with(#[trigger] found[i], carriage_return)
        }),
    ensures
        matching(
            lines_of(
                output(content, pattern, line_feed, carriage_return),
                line_feed,
                carriage_return,
            ),
            pattern,
        ) == matching(lines_of(content, line_feed, carriage_return), pattern),
        output(
            output(content, pattern, line_feed, carriage_return),
            pattern,
            line_feed,
            carriage_return,
        ) == output(content, pattern, line_feed, carriage_return),
{
    let lines = lines_of(content, line_feed, carriage_return);
    let found = matching(lines, pattern);
    lines_hold_no_line_feed(content, line_feed, carriage_return);
    assert forall|i: int| 0 <= i < found.len() implies is_plain_line(
        #[trigger] found[i],
        line_feed,
        carriage_return,
    ) by {
        matches_hold_the_pattern(lines, pattern, i);
        let j = choose|j: int| 0 <= j < lines.len() && lines[j] == found[i];
        assert(is_line(lines[j], line_feed));
    }
    rendered_lines_read_back(found, line_feed, carriage_return);
    search_is_idempotent(lines, pattern);
}

/// The stage that follows `stage` in a run without failure.
pub open spec fn following(stage: Stage) -> Stage {
    match stage {
        Stage::ValidateArgs => Stage::ReadFile,
        Stage::ReadFile => Stage::Search,
        Stage::Search => Stage::Flush,
        Stage::Flush => Stage::Done,
        Stage::Done => Stage::Done,
    }
}

/// The number of steps that a run at `stage` can still take.
pub open spec fn steps_left(stage: Stage) -> nat {
    match stage {
        Stage::ValidateArgs => 4,
        Stage::ReadFile => 3,
        Stage::Search => 2,
        Stage::Flush => 1,
        Stage::Done => 0,
    }
}

/// A run never goes back and never skips: each step leads to the stage that
/// follows, or ends the run. It ends the run exactly when it asks the driver
/// to exit. So every run is over after four steps at most.
pub proof fn stages_follow_in_order(request: Request, stage: Stage, event: Event)
    requires
        accepts(stage, event),
    ensures
        next(request, event).0 == following(stage) || next(request, event).0 == Stage::Done,
        next(request, event).0 == Stage::Done <==> next(request, event).1 is Exit,
        steps_left(next(request, event).0) < steps_left(stage),
{
}

/// A failure ends the run at once, under the category of the stage at which
/// it came: `NoInput` while the path is checked and where the file cannot be
/// opened, `IoError` from then on. No stage fails with `Usage`.
pub proof fn failure_ends_the_run(request: Request, stage: Stage, event: Event, failure: Failure)
    requires
        accepts(stage, event),
        next(request, event).1 == ActionView::Exit(Err(failure)),
    ensures
        next(request, event).0 == Stage::Done,
        stage == Stage::ValidateArgs ==> failure.category == Category::NoInput,
        stage == Stage::ReadFile ==> (failure.category == Category::NoInput <==> event
            matches Event::FileRead(ReadOutcome::OpenFailed(_))),
        stage == Stage::ReadFile ==> (failure.category == Category::IoError <==> event
            matches Event::FileRead(ReadOutcome::ReadFailed(_))),
        stage == Stage::Search || stage == Stage::Flush ==> failure.category == Category::IoError,
        failure.category != Category::Usage,
{
}

/// Nothing is written before the whole file has been read as text: the
/// driver is asked to write exactly when it reports the content of the file,
/// and what it is asked to write is the output of the search.
pub proof fn output_follows_the_reading(request: Request, stage: Stage, event: Event)
    requires
        accepts(stage, event),
    ensures
        next(request, event).1 is Write <==> event matches Event::FileRead(
            ReadOutcome::Content(_),
        ),
        event matches Event::FileRead(ReadOutcome::Content(content)) ==> next(request, event).1
            == ActionView::Write(encode_utf8(output(content@, request.pattern, '\n', '\r'))),
{
}

/// A run succeeds only at its last step: when the flush went well.
pub proof fn only_the_flush_ends_a_run_well(request: Request, stage: Stage, event: Event)
    requires
        accepts(stage, event),
    ensures
        next(request, event).1 == ActionView::Exit(Ok(())) <==> event matches Event::Flushed(Ok(_)),
{
}

/// What a failure puts on standard error is one line: it holds no line feed.
pub proof fn diagnostic_is_one_line(outcome: Result<(), Failure>)
    ensures
        diagnostic_of(outcome) matches Some(line) ==> is_line(line, '\n'),
{
    if let Err(failure) = outcome {
        let heading = "Error: "@;
        let shown = first_line(failure.cause, '\n', '\r');
        reveal_strlit("Error: ");
        lines_hold_no_line_feed(failure.cause, '\n', '\r');
        assert(is_line(shown, '\n'));
        assert forall|i: int| 0 <= i < (heading + shown).len() implies (heading + shown)[i]
            != '\n' by {
            if i >= heading.len() {
                assert((heading + shown)[i] == shown[i - heading.len()]);
            }
        }
    }
}

/// The exit status is 0 after a success and otherwise one of 64, 66 and 74:
/// it tells a success from a failure, and the three categories apart.
pub proof fn exit_status_tells_the_outcome(outcome: Result<(), Failure>)
    ensures
        status_of(outcome) == 0 <==> outcome is Ok,
        outcome matches Err(failure) ==> (status_of(outcome) == 64 <==> failure.category
            == Category::Usage),
        outcome matches Err(failure) ==> (status_of(outcome) == 66 <==> failure.category
            == Category::NoInput),
        outcome matches Err(failure) ==> (status_of(outcome) == 74 <==> failure.category
            == Category::IoError),
        outcome is Ok <==> diagnostic_of(outcome) is None,
{
}

} // verus!
