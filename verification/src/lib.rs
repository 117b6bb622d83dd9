//! A line-oriented literal search over one text, with the classification of
//! every failure of a run into a process exit code.
//!
//! * `text` is the model: what the lines of a text are, when a line holds a
//!   pattern, and what a search prints.
//! * `search` is the search itself, on the bytes of a text, and `encoding`
//!   shows that what it finds in the bytes is what the model says of the text.
//! * `cli` is the request of one invocation; `grrserror` is the outcome of a
//!   run, with the exit codes that `sysexits` takes from the `exitcode` crate.
//! * `pipeline` takes a run from stage to stage: it decides, and leaves the
//!   reading and the writing to its caller.
//! * `laws` states what holds of every search and of every run.

pub mod cli;
pub mod decimal;
pub mod encoding;
pub mod grrserror;
pub mod laws;
pub mod pipeline;
pub mod search;
pub mod sysexits;
pub mod text;

use crate::encoding::search_of_bytes_is_search_of_text;
use crate::search::write_matches;
use crate::text::output;
use vstd::prelude::*;
use vstd::utf8::encode_utf8;

verus! {

/// Searches `content` for `pattern` and appends to `writer`, as UTF-8, every
/// line that holds it, in the order of the text, each followed by one line
/// feed.
///
/// A line holds the pattern when the pattern's characters occur in it side by
/// side: nothing is folded or normalised. Line endings are no part of a line,
/// so a pattern with a line feed in it is held by none. The empty pattern is
/// held by every line.
pub fn find_matches(content: &str, pattern: &str, writer: &mut Vec<u8>)
    ensures
        final(writer)@ == old(writer)@ + encode_utf8(output(content@, pattern@, '\n', '\r')),
{
    proof {
        search_of_bytes_is_search_of_text(content@, pattern@);
    }
    write_matches(content.as_bytes(), pattern.as_bytes(), writer)
}

} // verus!
