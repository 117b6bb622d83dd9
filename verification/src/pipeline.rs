//! A run, stage by stage. The driver does the work on the outside (asks
//! whether the path exists, reads the file, writes and flushes standard
//! output) and reports how each went; the functions here decide what that
//! means and what comes next.
//!
//! The stages follow one another in a fixed order and a failure at any of them
//! ends the run: nothing that comes later is attempted.

use crate::cli::{Cli, Request};
use crate::find_matches;
use crate::grrserror::{Category, Failure, GrrsError, GrrsResult, Wrap};
use crate::text::output;
use vstd::prelude::*;
use vstd::utf8::encode_utf8;

verus! {

/// Where a run stands.
#[derive(Clone, Copy, Debug, PartialEq, Eq, Structural)]
pub enum Stage {
    /// The path is being checked.
    ValidateArgs,
    /// The file is being opened and read.
    ReadFile,
    /// The matching lines are being written.
    Search,
    /// Standard output is being flushed.
    Flush,
    /// The run is over.
    Done,
}

/// How reading the file went. A failure carries the text of the error that the
/// system gave.
#[derive(Debug)]
pub enum ReadOutcome {
    /// The file could not be opened.
    OpenFailed(String),
    /// The file was opened, but reading it or decoding it as text failed.
    ReadFailed(String),
    /// The whole file, decoded.
    Content(String),
}

/// What the driver reports back after it has done what it was asked.
#[derive(Debug)]
pub enum Event {
    /// Whether the path exists, or the error of asking.
    PathChecked(Result<bool, String>),
    /// How reading the file went.
    FileRead(ReadOutcome),
    /// How writing to standard output went.
    Written(Result<(), String>),
    /// How flushing standard output went.
    Flushed(Result<(), String>),
}

/// What the driver is asked to do next.
#[derive(Debug)]
pub enum Action {
    /// Ask whether the path of the request exists.
    CheckPath,
    /// Open the file of the request and read all of it as text.
    ReadFile,
    /// Write these bytes to standard output.
    Write(Vec<u8>),
    /// Flush standard output.
    Flush,
    /// End the process with this result.
    Exit(Wrap),
}

/// An action as plain values.
pub enum ActionView {
    CheckPath,
    ReadFile,
    Write(Seq<u8>),
    Flush,
    Exit(Result<(), Failure>),
}

impl View for Action {
    type V = ActionView;

    open spec fn view(&self) -> ActionView {
        match self {
            Action::CheckPath => ActionView::CheckPath,
            Action::ReadFile => ActionView::ReadFile,
            Action::Write(bytes) => ActionView::Write(bytes@),
            Action::Flush => ActionView::Flush,
            Action::Exit(wrap) => ActionView::Exit(wrap@),
        }
    }
}

/// `cause` under the heading `context`.
pub open spec fn in_context(context: Seq<char>, cause: Seq<char>) -> Seq<char> {
    context + ": "@ + cause
}

/// What the check of the path comes to: the run goes on where the path
/// exists; a missing path, and a failure to find out, are both `NoInput`.
pub open spec fn path_checked(probe: Result<bool, String>) -> Result<(), Failure> {
    match probe {
        Ok(true) => Ok(()),
        Ok(false) => Err(Failure { cause: "path does not exists"@, category: Category::NoInput }),
        Err(detail) => Err(
            Failure {
                cause: in_context("while checking existince of path"@, detail@),
                category: Category::NoInput,
            },
        ),
    }
}

/// What reading the file at `path` comes to: its text, or `NoInput` where it
/// could not be opened, or `IoError` where reading or decoding failed.
pub open spec fn file_read(path: Seq<char>, outcome: ReadOutcome) -> Result<Seq<char>, Failure> {
    match outcome {
        ReadOutcome::Content(text) => Ok(text@),
        ReadOutcome::OpenFailed(detail) => Err(
            Failure {
                cause: in_context("could not read file: "@ + path, detail@),
                category: Category::NoInput,
            },
        ),
        ReadOutcome::ReadFailed(detail) => Err(
            Failure {
                cause: in_context("error while reading file: "@ + path, detail@),
                category: Category::IoError,
            },
        ),
    }
}

/// What a write or a flush comes to: a failure of the sink is an `IoError`
/// whose cause is the sink's own text.
pub open spec fn sink_done(outcome: Result<(), String>) -> Result<(), Failure> {
    match outcome {
        Ok(_) => Ok(()),
        Err(detail) => Err(Failure { cause: detail@, category: Category::IoError }),
    }
}

/// `event` is a report of what was asked for at `stage`.
pub open spec fn accepts(stage: Stage, event: Event) -> bool {
    match event {
        Event::PathChecked(_) => stage == Stage::ValidateArgs,
        Event::FileRead(_) => stage == Stage::ReadFile,
        Event::Written(_) => stage == Stage::Search,
        Event::Flushed(_) => stage == Stage::Flush,
    }
}

/// The end of a run by `failure`.
pub open spec fn fails(failure: Failure) -> (Stage, ActionView) {
    (Stage::Done, ActionView::Exit(Err(failure)))
}

/// The stage and the action that follow `event` in a run for `request`.
pub open spec fn next(request: Request, event: Event) -> (Stage, ActionView) {
    match event {
        Event::PathChecked(probe) => match path_checked(probe) {
            Ok(_) => (Stage::ReadFile, ActionView::ReadFile),
            Err(failure) => fails(failure),
        },
        Event::FileRead(outcome) => match file_read(request.path, outcome) {
            Ok(content) => (
                Stage::Search,
                ActionView::Write(encode_utf8(output(content, request.pattern, '\n', '\r'))),
            ),
            Err(failure) => fails(failure),
        },
        Event::Written(outcome) => match sink_done(outcome) {
            Ok(_) => (Stage::Flush, ActionView::Flush),
            Err(failure) => fails(failure),
        },
        Event::Flushed(outcome) => match sink_done(outcome) {
            Ok(_) => (Stage::Done, ActionView::Exit(Ok(()))),
            Err(failure) => fails(failure),
        },
    }
}

/// `cause` under the heading `context`, as text.
fn with_context(context: String, cause: &str) -> (text: String)
    ensures
        text@ == in_context(context@, cause@),
{
    let mut text = context;
    text.append(": ");
    text.append(cause);
    text
}

/// Decides on the check of the path.
pub fn check_args(probe: Result<bool, String>) -> (checked: GrrsResult<()>)
    ensures
        checked is Ok <==> path_checked(probe) is Ok,
        checked matches Err(failure) ==> path_checked(probe) == Err::<(), Failure>(failure@),
{
    match probe {
        Ok(true) => Ok(()),
        Ok(false) => Err(
            GrrsError::from_anyhow("path does not exists".to_owned(), Category::NoInput),
        ),
        Err(detail) => Err(
            GrrsError::from_anyhow(
                with_context("while checking existince of path".to_owned(), detail.as_str()),
                Category::NoInput,
            ),
        ),
    }
}

/// Decides on the reading of the file at `path`.
pub fn get_contents(path: &str, outcome: ReadOutcome) -> (content: GrrsResult<String>)
    ensures
        content matches Ok(text) ==> file_read(path@, outcome) == Ok::<Seq<char>, Failure>(text@),
        content matches Err(failure) ==> file_read(path@, outcome) == Err::<Seq<char>, Failure>(
            failure@,
        ),
{
    match outcome {
        ReadOutcome::Content(text) => Ok(text),
        ReadOutcome::OpenFailed(detail) => {
            let mut context = "could not read file: ".to_owned();
            context.append(path);
            Err(GrrsError::from_anyhow(with_context(context, detail.as_str()), Category::NoInput))
        },
        ReadOutcome::ReadFailed(detail) => {
            let mut context = "error while reading file: ".to_owned();
            context.append(path);
            Err(GrrsError::from_anyhow(with_context(context, detail.as_str()), Category::IoError))
        },
    }
}

/// The bytes that a search for `pattern` in `content` puts on standard output:
/// the matching lines as UTF-8.
pub fn search_file(content: &str, pattern: &str) -> (bytes: Vec<u8>)
    ensures
        bytes@ == encode_utf8(output(content@, pattern@, '\n', '\r')),
{
    let mut bytes = Vec::new();
    find_matches(content, pattern, &mut bytes);
    bytes
}

/// Decides on a write or a flush.
pub fn sink_result(outcome: Result<(), String>) -> (done: GrrsResult<()>)
    ensures
        done is Ok <==> sink_done(outcome) is Ok,
        done matches Err(failure) ==> sink_done(outcome) == Err::<(), Failure>(failure@),
{
    match outcome {
        Ok(_) => Ok(()),
        Err(detail) => Err(GrrsError::from_anyhow(detail, Category::IoError)),
    }
}

/// The end of a run that never began: the arguments were turned down, for
/// the reason `message`. That is a `Usage` failure.
pub fn rejected(message: String) -> (outcome: Wrap)
    ensures
        outcome@ == Err::<(), Failure>(Failure { cause: message@, category: Category::Usage }),
{
    Wrap(Err(GrrsError::from_anyhow(message, Category::Usage)))
}

/// The stage at which every run begins, and the first thing to do.
pub fn start() -> (first: (Stage, Action))
    ensures
        first.0 == Stage::ValidateArgs,
        first.1@ == ActionView::CheckPath,
{
    (Stage::ValidateArgs, Action::CheckPath)
}

/// Whether `event` is a report of what was asked for at `stage`.
fn expects(stage: Stage, event: &Event) -> (fits: bool)
    ensures
        fits == accepts(stage, *event),
{
    match event {
        Event::PathChecked(_) => stage == Stage::ValidateArgs,
        Event::FileRead(_) => stage == Stage::ReadFile,
        Event::Written(_) => stage == Stage::Search,
        Event::Flushed(_) => stage == Stage::Flush,
    }
}

/// Takes the run for `cli` one step on: from what happened at `stage` to the
/// next stage and the next thing to do. There is no next step where `event`
/// is no report of what was asked for at `stage`; after the end of a run
/// there is none at all.
pub fn step(stage: Stage, cli: &Cli, event: Event) -> (then: Option<(Stage, Action)>)
    ensures
        then is Some <==> accepts(stage, event),
        then matches Some(t) ==> (t.0, t.1@) == next(cli@, event),
{
    if !expects(stage, &event) {
        return None;
    }
    Some(
        match event {
            Event::PathChecked(probe) => match check_args(probe) {
                Ok(_) => (Stage::ReadFile, Action::ReadFile),
                Err(failure) => (Stage::Done, Action::Exit(Wrap(Err(failure)))),
            },
            Event::FileRead(outcome) => match get_contents(cli.path(), outcome) {
                Ok(content) => (
                    Stage::Search,
                    Action::Write(search_file(content.as_str(), cli.pattern())),
                ),
                Err(failure) => (Stage::Done, Action::Exit(Wrap(Err(failure)))),
            },
            Event::Written(outcome) => match sink_result(outcome) {
                Ok(_) => (Stage::Flush, Action::Flush),
                Err(failure) => (Stage::Done, Action::Exit(Wrap(Err(failure)))),
            },
            Event::Flushed(outcome) => match sink_result(outcome) {
                Ok(_) => (Stage::Done, Action::Exit(Wrap(Ok(())))),
                Err(failure) => (Stage::Done, Action::Exit(Wrap(Err(failure)))),
            },
        },
    )
}

} // verus!
