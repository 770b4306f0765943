//! What a test expects of a result.

use std::fmt::Debug;
use vstd::prelude::*;

verus! {

/// The outcome that a test expects of a call: success, or an error whose
/// debug text contains the given words.
pub enum Unwrap {
    /// The call succeeds.
    Success,
    /// The call fails, and the debug text of its error contains these words.
    Failure(&'static str),
}

/// Whether `pattern` occurs somewhere in `text`.
pub open spec fn occurs_in(pattern: Seq<char>, text: Seq<char>) -> bool {
    exists|at: int|
        0 <= at && at + pattern.len() <= text.len() && #[trigger] text.subrange(
            at,
            at + pattern.len(),
        ) == pattern
}

/// `str::contains` with a string as the pattern: whether the pattern matches
/// a part of the text.
#[verifier::external_body]
fn text_contains(text: &str, pattern: &str) -> (found: bool)
    ensures
        found == occurs_in(pattern@, text@),
{
    text.contains(pattern)
}

/// The text that `{:?}` prints for `value`. It is what the type's `Debug`
/// makes of the value: nothing is stated of it.
#[verifier::external_body]
fn debug_text<E: Debug>(value: &E) -> String {
    format!("{:?}", value)
}

impl Unwrap {
    /// Whether an outcome is the expected one: `is_ok` says whether the call
    /// succeeded, `error_text` is the debug text of its error where it failed.
    pub open spec fn expects(self, is_ok: bool, error_text: Seq<char>) -> bool {
        match self {
            Unwrap::Success => is_ok,
            Unwrap::Failure(words) => !is_ok && occurs_in(words@, error_text),
        }
    }

    /// Whether an outcome is the expected one.
    pub fn admits(&self, is_ok: bool, error_text: &str) -> (met: bool)
        ensures
            met == self.expects(is_ok, error_text@),
    {
        match self {
            Unwrap::Success => is_ok,
            Unwrap::Failure(words) => !is_ok && text_contains(error_text, words),
        }
    }

    /// Holds `result` against the expected outcome. A call that is expected
    /// to succeed has to have succeeded, and one that is expected to fail has
    /// to have failed. For a failure the answer says whether the debug text
    /// of the error contains the words.
    pub fn unwrap<T: Debug, E: Debug>(self, result: Result<T, E>) -> (met: bool)
        requires
            self is Success ==> result is Ok,
            self is Failure ==> result is Err,
        ensures
            self is Success ==> met,
    {
        match result {
            Ok(_) => self.admits(true, ""),
            Err(error) => {
                let text = debug_text(&error);
                self.admits(false, text.as_str())
            },
        }
    }
}

} // verus!
