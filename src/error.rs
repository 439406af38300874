//! The errors a command can end in.

use vstd::prelude::*;

verus! {

/// Why a command failed. Every failure leaves the buffer as it was.
#[derive(Clone, Copy, Debug, PartialEq, Eq, Structural)]
pub enum EdError {
    /// The line does not follow the command grammar.
    Syntax,
    /// A resolved line index is out of bounds, or the range runs backwards.
    InvalidAddress,
    /// A mark that is not set was referenced.
    InvalidMark,
    /// A search pattern does not compile.
    InvalidRegex,
    /// A search without a pattern, and none was given before.
    NoPreviousSearch,
    /// No line matches the search pattern.
    NoMatch,
    /// The command needs a single line but got a span.
    ExpectedSingleLine,
    /// A file could not be read or written.
    InvalidPath,
    /// A shell command could not be started.
    CommandFailed,
    /// The buffer has unsaved changes; repeating the command goes ahead.
    Modified,
}

pub open spec fn error_text(e: EdError) -> Seq<char> {
    match e {
        EdError::Syntax => "invalid command"@,
        EdError::InvalidAddress => "invalid address"@,
        EdError::InvalidMark => "invalid mark"@,
        EdError::InvalidRegex => "invalid regex"@,
        EdError::NoPreviousSearch => "no previous search"@,
        EdError::NoMatch => "no match"@,
        EdError::ExpectedSingleLine => "Expected single line"@,
        EdError::InvalidPath => "invalid path"@,
        EdError::CommandFailed => "Command failed"@,
        EdError::Modified => "warning: file modified"@,
    }
}

impl EdError {
    /// The explanation shown when verbose errors are on.
    pub fn message(&self) -> (r: &'static str)
        ensures
            r@ == error_text(*self),
    {
        match self {
            EdError::Syntax => "invalid command",
            EdError::InvalidAddress => "invalid address",
            EdError::InvalidMark => "invalid mark",
            EdError::InvalidRegex => "invalid regex",
            EdError::NoPreviousSearch => "no previous search",
            EdError::NoMatch => "no match",
            EdError::ExpectedSingleLine => "Expected single line",
            EdError::InvalidPath => "invalid path",
            EdError::CommandFailed => "Command failed",
            EdError::Modified => "warning: file modified",
        }
    }
}

/// An error as shown to the user: its explanation text.
pub struct CommandError {
    details: String,
}

impl CommandError {
    /// The explanation text.
    pub closed spec fn text(&self) -> Seq<char> {
        self.details@
    }

    pub fn new(msg: &str) -> (r: CommandError)
        ensures
            r.text() == msg@,
    {
        CommandError { details: msg.to_owned() }
    }

    pub fn details(&self) -> (r: &str)
        ensures
            r@ == self.text(),
    {
        self.details.as_str()
    }

    /// The error with the explanation of `e`.
    pub fn from_error(e: EdError) -> (r: CommandError)
        ensures
            r.text() == error_text(e),
    {
        CommandError::new(e.message())
    }
}

} // verus!
