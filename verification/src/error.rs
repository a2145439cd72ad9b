//! The ways in which an extraction can fail.

use vstd::prelude::*;

verus! {

/// Why a phase of the extraction did not produce a value.
#[derive(Debug, Clone, Copy, PartialEq, Eq, Structural)]
pub enum ParseError {
    /// No token is the interval separator.
    MissingInterval,
    /// The separator is the first token: nothing stands before it.
    MissingStartDate,
    /// The separator is the last token: nothing stands after it.
    MissingEndDate,
    /// The prefix asked for is neither `--project` nor `--tags`.
    UnsupportedPrefix,
    /// No token holds the prefix asked for.
    CommandNotFound,
    /// The prefix is there, but the value that should follow it is not.
    MissingInput,
}

impl ParseError {
    /// The text of the message that describes this error.
    pub open spec fn message_text(self) -> Seq<char> {
        match self {
            ParseError::MissingInterval => "Time interval is missing. Have you added '-' between your two datetimes e.g. 20000102T0000 - 20000102T0100 ?"@,
            ParseError::MissingStartDate => "Missing a start date. Make sure to put the date before `-`"@,
            ParseError::MissingEndDate => "Missing an end date. Make sure to put the date after `-`"@,
            ParseError::UnsupportedPrefix => "Prefix can only be --project or --tags"@,
            ParseError::CommandNotFound => "Command not found"@,
            ParseError::MissingInput => "Missing input to --project or --tags"@,
        }
    }

    /// A message for the user that describes this error.
    pub fn message(&self) -> (text: &'static str)
        ensures
            text@ == self.message_text(),
    {
        match self {
            ParseError::MissingInterval => "Time interval is missing. Have you added '-' between your two datetimes e.g. 20000102T0000 - 20000102T0100 ?",
            ParseError::MissingStartDate => "Missing a start date. Make sure to put the date before `-`",
            ParseError::MissingEndDate => "Missing an end date. Make sure to put the date after `-`",
            ParseError::UnsupportedPrefix => "Prefix can only be --project or --tags",
            ParseError::CommandNotFound => "Command not found",
            ParseError::MissingInput => "Missing input to --project or --tags",
        }
    }
}

} // verus!
