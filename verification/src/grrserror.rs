//! The outcome of a run: success, or one cause of failure with the category
//! that decides the process exit code.

use crate::decimal::{decimal, push_decimal};
use crate::search;
use crate::sysexits;
use crate::text::first_line;
use vstd::prelude::*;
use vstd::string::StringExecFns;

verus! {

/// The class of a failed run, which decides the process exit code. Success is
/// the fourth class of outcomes: it is the `Ok` of a result and has the exit
/// code 0.
#[derive(Clone, Copy, Debug, PartialEq, Eq, Structural)]
pub enum Category {
    /// The invocation itself was malformed.
    Usage,
    /// The target file is missing, inaccessible or could not be opened.
    NoInput,
    /// Reading, decoding, writing or flushing failed after the file was opened.
    IoError,
}

impl Category {
    /// The exit code of the category.
    pub open spec fn code(self) -> int {
        match self {
            Category::Usage => 64,
            Category::NoInput => 66,
            Category::IoError => 74,
        }
    }

    /// The exit code of the category, as `sysexits.h` numbers it.
    pub fn exit_code(self) -> (code: i32)
        ensures
            code == self.code(),
    {
        match self {
            Category::Usage => sysexits::usage(),
            Category::NoInput => sysexits::no_input(),
            Category::IoError => sysexits::io_err(),
        }
    }

    /// The category with the exit code `code`, if there is one.
    pub fn from_code(code: i32) -> (category: Option<Category>)
        ensures
            category matches Some(c) ==> c.code() == code,
            category is None ==> code != 64 && code != 66 && code != 74,
    {
        if code == sysexits::usage() {
            Some(Category::Usage)
        } else if code == sysexits::no_input() {
            Some(Category::NoInput)
        } else if code == sysexits::io_err() {
            Some(Category::IoError)
        } else {
            None
        }
    }
}

/// A failure as plain values: what went wrong, and its category.
pub struct Failure {
    pub cause: Seq<char>,
    pub category: Category,
}

/// The one line that shows a failure: its cause, then its exit code in
/// parentheses.
pub open spec fn displayed(failure: Failure) -> Seq<char> {
    failure.cause + " ("@ + decimal(failure.category.code() as nat) + ")"@
}

/// The failure of a run: the cause, kept as it was given, and the category
/// under which the run ends.
#[derive(Debug)]
pub struct GrrsError {
    error: String,
    exit_code: Category,
}

/// What every stage of a run returns.
pub type GrrsResult<T> = Result<T, GrrsError>;

impl View for GrrsError {
    type V = Failure;

    closed spec fn view(&self) -> Failure {
        Failure { cause: self.error@, category: self.exit_code }
    }
}

impl GrrsError {
    /// The failure with the cause `error` and the category `exit_code`.
    pub fn from_anyhow(error: String, exit_code: Category) -> (failure: GrrsError)
        ensures
            failure@ == (Failure { cause: error@, category: exit_code }),
    {
        GrrsError { error, exit_code }
    }

    /// The cause, as it was given.
    pub fn cause(&self) -> (text: &str)
        ensures
            text@ == self@.cause,
    {
        self.error.as_str()
    }

    /// The category.
    pub fn category(&self) -> (category: Category)
        ensures
            category == self@.category,
    {
        self.exit_code
    }

    /// The exit code of the category.
    pub fn exit_code(&self) -> (code: i32)
        ensures
            code == self@.category.code(),
    {
        self.exit_code.exit_code()
    }

    /// The failure in one line, for a reader.
    pub fn to_text(&self) -> (text: String)
        ensures
            text@ == displayed(self@),
    {
        let mut text = self.error.clone();
        text.append(" (");
        push_decimal(&mut text, self.exit_code.exit_code() as u32);
        text.append(")");
        text
    }
}

/// How a finished run shows itself to the outside: the exit status of the
/// process and, after a failure, the one line for standard error.
#[derive(Debug)]
pub struct Report {
    pub status: u8,
    pub diagnostic: Option<String>,
}

/// The exit status that an outcome ends the process with: 0 after a success,
/// the code of its category after a failure.
pub open spec fn status_of(outcome: Result<(), Failure>) -> int {
    match outcome {
        Ok(_) => 0,
        Err(failure) => failure.category.code(),
    }
}

/// The line that an outcome puts on standard error: none after a success;
/// after a failure `Error: ` and the cause, of which only the first line is
/// shown where it has several.
pub open spec fn diagnostic_of(outcome: Result<(), Failure>) -> Option<Seq<char>> {
    match outcome {
        Ok(_) => None,
        Err(failure) => Some("Error: "@ + first_line(failure.cause, '\n', '\r')),
    }
}

/// The result of a whole run, as the driver hands it to the process.
#[derive(Debug)]
pub struct Wrap(pub GrrsResult<()>);

impl View for Wrap {
    type V = Result<(), Failure>;

    open spec fn view(&self) -> Result<(), Failure> {
        match self.0 {
            Ok(_) => Ok(()),
            Err(failure) => Err(failure@),
        }
    }
}

impl core::ops::Deref for Wrap {
    type Target = GrrsResult<()>;

    /// The result that is wrapped.
    fn deref(&self) -> (result: &GrrsResult<()>)
        ensures
            *result == self.0,
    {
        &self.0
    }
}

impl Wrap {
    /// Turns the result into the exit status and the line for standard error.
    pub fn report(self) -> (report: Report)
        ensures
            report.status == status_of(self@),
            report.status == 0 <==> self@ is Ok,
            match report.diagnostic {
                Some(line) => diagnostic_of(self@) == Some(line@),
                None => diagnostic_of(self@) is None,
            },
    {
        match self.0 {
            Ok(_) => Report { status: sysexits::ok() as u8, diagnostic: None },
            Err(failure) => {
                let mut line = "Error: ".to_owned();
                line.append(search::first_line(failure.cause()));
                Report { status: failure.exit_code() as u8, diagnostic: Some(line) }
            },
        }
    }
}

} // verus!
