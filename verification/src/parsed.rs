//! The structure that the extraction fills.

use vstd::prelude::*;
use crate::text::token_texts;

verus! {

/// What was extracted from one command line. Every field starts unset, and a
/// phase of the extraction sets only the fields that belong to it.
#[derive(Debug)]
pub struct ParsedArguments {
    /// The token before the separator, as it was written.
    pub start_time: Option<String>,
    /// The token after the separator, as it was written.
    pub end_time: Option<String>,
    /// The free text that describes the task.
    pub description: Option<String>,
    /// The value of `--project`.
    pub project: Option<String>,
    /// The values of `--tags`, in the order in which they were written.
    pub tags: Option<Vec<String>>,
}

/// The mathematical value of a [`ParsedArguments`]: each text as its
/// sequence of characters.
pub struct ParsedView {
    pub start_time: Option<Seq<char>>,
    pub end_time: Option<Seq<char>>,
    pub description: Option<Seq<char>>,
    pub project: Option<Seq<char>>,
    pub tags: Option<Seq<Seq<char>>>,
}

/// The text of an optional string.
pub open spec fn optional_text(value: Option<String>) -> Option<Seq<char>> {
    match value {
        Some(text) => Some(text@),
        None => None,
    }
}

impl ParsedView {
    /// The value in which no field is set.
    pub open spec fn unset() -> ParsedView {
        ParsedView { start_time: None, end_time: None, description: None, project: None, tags: None }
    }

    /// This value with the two ends of the interval set.
    pub open spec fn with_interval(self, start: Seq<char>, end: Seq<char>) -> ParsedView {
        ParsedView { start_time: Some(start), end_time: Some(end), ..self }
    }

    /// This value with the project set.
    pub open spec fn with_project(self, project: Seq<char>) -> ParsedView {
        ParsedView { project: Some(project), ..self }
    }

    /// This value with the tags set.
    pub open spec fn with_tags(self, tags: Seq<Seq<char>>) -> ParsedView {
        ParsedView { tags: Some(tags), ..self }
    }

    /// This value with the description replaced.
    pub open spec fn with_description(self, description: Option<Seq<char>>) -> ParsedView {
        ParsedView { description, ..self }
    }
}

impl View for ParsedArguments {
    type V = ParsedView;

    open spec fn view(&self) -> ParsedView {
        ParsedView {
            start_time: optional_text(self.start_time),
            end_time: optional_text(self.end_time),
            description: optional_text(self.description),
            project: optional_text(self.project),
            tags: match self.tags {
                Some(tags) => Some(token_texts(tags@)),
                None => None,
            },
        }
    }
}

impl ParsedArguments {
    /// A structure in which no field is set.
    pub fn new() -> (parsed: ParsedArguments)
        ensures
            parsed@ == ParsedView::unset(),
    {
        ParsedArguments { start_time: None, end_time: None, description: None, project: None, tags: None }
    }
}

impl Default for ParsedArguments {
    fn default() -> (parsed: ParsedArguments)
        ensures
            parsed@ == ParsedView::unset(),
    {
        ParsedArguments::new()
    }
}

} // verus!
