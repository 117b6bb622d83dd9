//! What one invocation asks for.

use crate::grrserror::{Category, Failure, GrrsError, GrrsResult};
use vstd::prelude::*;

verus! {

/// A search request as plain values.
pub struct Request {
    pub pattern: Seq<char>,
    pub path: Seq<char>,
}

/// The arguments of one invocation: the pattern to look for and the path of
/// the file to read. Neither is ever empty.
#[derive(Debug)]
pub struct Cli {
    pattern: String,
    path: String,
}

/// The cause given where the argument `name` came without a value.
pub open spec fn missing_value(name: Seq<char>) -> Seq<char> {
    "error: The argument '"@ + name + "' requires a value but none was supplied"@
}

impl View for Cli {
    type V = Request;

    closed spec fn view(&self) -> Request {
        Request { pattern: self.pattern@, path: self.path@ }
    }
}

impl Cli {
    #[verifier::type_invariant]
    spec fn filled(&self) -> bool {
        self.pattern@.len() > 0 && self.path@.len() > 0
    }

    /// The arguments `pattern` and `path`, unless one of them is empty: that
    /// is a usage failure, which names the pattern where both are.
    pub fn new(pattern: String, path: String) -> (cli: GrrsResult<Cli>)
        ensures
            cli is Ok <==> pattern@.len() > 0 && path@.len() > 0,
            cli matches Ok(c) ==> c@ == (Request { pattern: pattern@, path: path@ }),
            cli matches Err(failure) ==> failure@ == (Failure {
                cause: missing_value(
                    if pattern@.len() == 0 {
                        "<PATTERN>"@
                    } else {
                        "<PATH>"@
                    },
                ),
                category: Category::Usage,
            }),
    {
        if pattern.as_str().is_empty() {
            Err(GrrsError::from_anyhow(missing("<PATTERN>"), Category::Usage))
        } else if path.as_str().is_empty() {
            Err(GrrsError::from_anyhow(missing("<PATH>"), Category::Usage))
        } else {
            Ok(Cli { pattern, path })
        }
    }

    /// The pattern to look for.
    pub fn pattern(&self) -> (pattern: &str)
        ensures
            pattern@ == self@.pattern,
            pattern@.len() > 0,
    {
        proof {
            use_type_invariant(self);
        }
        self.pattern.as_str()
    }

    /// The path of the file to read.
    pub fn path(&self) -> (path: &str)
        ensures
            path@ == self@.path,
            path@.len() > 0,
    {
        proof {
            use_type_invariant(self);
        }
        self.path.as_str()
    }
}

/// The text of `missing_value` for the argument `name`.
fn missing(name: &str) -> (cause: String)
    ensures
        cause@ == missing_value(name@),
{
    let mut cause = "error: The argument '".to_owned();
    cause.append(name);
    cause.append("' requires a value but none was supplied");
    cause
}

} // verus!
