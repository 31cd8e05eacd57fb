//! Why a text is no formula.

use vstd::prelude::*;
use vstd::string::{StrSliceExecFns, StringExecFns};

verus! {

/// What is wrong with a text that is no formula.
#[derive(Debug, PartialEq, Eq, Clone, Copy)]
pub enum Cause {
    /// The text does not go on as a formula does.
    Unexpected,
    /// A number breaks off inside its exponent.
    BrokenNumber,
}

/// Where and why reading a formula failed.
#[derive(Debug, PartialEq, Eq, Clone, Copy)]
pub struct ParseError {
    /// The position, counted in characters from the start of the text, of
    /// the character at fault.
    pub position: usize,
    /// What is wrong there.
    pub cause: Cause,
}

/// What `s` holds from position `at` on; nothing where `at` lies behind
/// its end.
pub open spec fn rest_from(s: Seq<char>, at: int) -> Seq<char> {
    if 0 <= at <= s.len() {
        s.subrange(at, s.len() as int)
    } else {
        Seq::empty()
    }
}

/// The words that name `cause`.
pub open spec fn cause_text(cause: Cause) -> Seq<char> {
    match cause {
        Cause::Unexpected => "no formula goes on with: "@,
        Cause::BrokenNumber => "a number breaks off in: "@,
    }
}

/// The message for `error` in the text `s`: the words for the cause, and the
/// text from the position of the error on.
pub open spec fn message_text(error: ParseError, s: Seq<char>) -> Seq<char> {
    cause_text(error.cause) + rest_from(s, error.position as int)
}

impl ParseError {
    /// The message for this error, which was found in `text`.
    pub fn message(&self, text: &str) -> (message: String)
        ensures
            message@ == message_text(*self, text@),
    {
        let mut message = match self.cause {
            Cause::Unexpected => String::from_str("no formula goes on with: "),
            Cause::BrokenNumber => String::from_str("a number breaks off in: "),
        };
        let length = text.unicode_len();
        if self.position <= length {
            message.append(text.substring_char(self.position, length));
        } else {
            assert(message@ + Seq::<char>::empty() =~= message@);
        }
        message
    }
}

} // verus!
