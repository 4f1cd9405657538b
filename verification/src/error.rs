//! Diagnostics of the scanner.

use crate::text::{decimal_of, push_decimal};
use vstd::prelude::*;
use vstd::string::StringExecFns;

verus! {

/// The ways in which source text can fail to be lexically well formed.
#[derive(Debug, Clone, Copy, PartialEq, Eq, Structural)]
pub enum ErrorKind {
    /// A character that starts no lexeme.
    UnexpectedCharacter,
    /// A string literal whose closing quote is missing.
    UnterminatedString,
    /// A block comment that is still open where the input ends.
    UnterminatedComment,
}

impl ErrorKind {
    /// The text of the message that reports this kind of error.
    pub open spec fn message_text(self) -> Seq<char> {
        match self {
            ErrorKind::UnexpectedCharacter => "Unexpected character"@,
            ErrorKind::UnterminatedString => "Unterminated string."@,
            ErrorKind::UnterminatedComment => "Unterminated comment block"@,
        }
    }

    /// The message that reports this kind of error.
    pub fn message(self) -> (text: String)
        ensures
            text@ == self.message_text(),
    {
        match self {
            ErrorKind::UnexpectedCharacter => String::from_str("Unexpected character"),
            ErrorKind::UnterminatedString => String::from_str("Unterminated string."),
            ErrorKind::UnterminatedComment => String::from_str("Unterminated comment block"),
        }
    }
}

/// A diagnostic: the line it was raised on and a message for the reader.
#[derive(Debug, PartialEq, Eq)]
pub struct LoxError {
    pub line: usize,
    pub message: String,
}

/// What a [`LoxError`] stands for in specifications.
pub ghost struct LoxErrorView {
    pub line: int,
    pub message: Seq<char>,
}

impl View for LoxError {
    type V = LoxErrorView;

    open spec fn view(&self) -> LoxErrorView {
        LoxErrorView { line: self.line as int, message: self.message@ }
    }
}

impl Clone for LoxError {
    fn clone(&self) -> (copy: LoxError)
        ensures
            copy == *self,
    {
        LoxError { line: self.line, message: self.message.clone() }
    }
}

/// The views of a sequence of diagnostics, in the same order.
pub open spec fn error_views(errors: Seq<LoxError>) -> Seq<LoxErrorView> {
    errors.map_values(|e: LoxError| e@)
}

/// The line that reports a diagnostic to the reader, where `loc` says
/// where in the line of source the error lies.
pub open spec fn report_text(error: LoxErrorView, loc: Seq<char>) -> Seq<char> {
    "[line "@ + decimal_of(error.line as nat) + "] Error"@ + loc + ": "@ + error.message
}

impl LoxError {
    /// A diagnostic raised on line `line` with the message `message`.
    pub fn error(line: usize, message: String) -> (e: LoxError)
        ensures
            e == (LoxError { line, message }),
    {
        LoxError { line, message }
    }

    /// The line that reports this diagnostic to the reader; `loc` is put
    /// behind the word `Error` as it stands.
    pub fn report(&self, loc: String) -> (text: String)
        ensures
            text@ == report_text(self@, loc@),
    {
        let mut text = String::from_str("[line ");
        push_decimal(&mut text, self.line);
        text.append("] Error");
        text.append(loc.as_str());
        text.append(": ");
        text.append(self.message.as_str());
        assert(text@ =~= report_text(self@, loc@));
        text
    }
}

} // verus!
