use vstd::prelude::*;
use clap::builder::StyledStr;
use crate::matcher::{styled_from, styled_text};

verus! {

/// A failure of any kind, ready to be reported: its message, already
/// rendered, and where the report is to go.
#[derive(Debug)]
pub struct Error {
    msg: StyledStr,
    use_stderr: bool,
}

impl Error {
    /// The message with its escape sequences.
    pub closed spec fn styled(&self) -> Seq<char> {
        styled_text(self.msg)
    }

    /// Whether the report goes to standard error.
    pub closed spec fn to_stderr(&self) -> bool {
        self.use_stderr
    }

    /// An error with the given message and destination.
    pub fn new(msg: StyledStr, use_stderr: bool) -> (e: Error)
        ensures
            e.styled() == styled_text(msg),
            e.to_stderr() == use_stderr,
    {
        Error { msg, use_stderr }
    }

    /// An error with a plain message, which goes to standard error.
    pub fn diagnostic(text: String) -> (e: Error)
        ensures
            e.styled() == text@,
            e.to_stderr(),
    {
        Error { msg: styled_from(text), use_stderr: true }
    }

    /// Whether the report goes to standard error.
    pub fn use_stderr(&self) -> (r: bool)
        ensures
            r == self.to_stderr(),
    {
        self.use_stderr
    }

    /// The message.
    pub fn message(&self) -> (r: &StyledStr)
        ensures
            styled_text(*r) == self.styled(),
    {
        &self.msg
    }
}

} // verus!
