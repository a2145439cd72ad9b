//! The whole extraction: interval, then project, then tags, then description.

use vstd::prelude::*;
use crate::error::ParseError;
use crate::interval::{
    extract_time_intervals, interval_end, interval_error, interval_start, without_interval,
};
use crate::options::{
    extract_arguments_and_store, option_error, project_prefix, tags_prefix, with_option,
};
use crate::parsed::{ParsedArguments, ParsedView};
use crate::text::token_texts;

verus! {

/// What the optional argument `command` makes of `parsed`: its value is
/// stored where it is there and well formed, nothing changes where no token
/// holds the prefix, and any other error ends the parse.
pub open spec fn after_option(
    parsed: ParsedView,
    tokens: Seq<Seq<char>>,
    command: Seq<char>,
) -> Result<ParsedView, ParseError> {
    match option_error(tokens, command) {
        None => Ok(with_option(parsed, tokens, command)),
        Some(ParseError::CommandNotFound) => Ok(parsed),
        Some(error) => Err(error),
    }
}

/// The description: the first token that the interval has left, if any.
pub open spec fn description_of(rest: Seq<Seq<char>>) -> Option<Seq<char>> {
    if rest.len() > 0 {
        Some(rest[0])
    } else {
        None
    }
}

/// What the tokens of one command line are parsed to.
pub open spec fn parsed_from(tokens: Seq<Seq<char>>) -> Result<ParsedView, ParseError> {
    match interval_error(tokens) {
        Some(error) => Err(error),
        None => {
            let rest = without_interval(tokens);
            let timed = ParsedView::unset().with_interval(
                interval_start(tokens),
                interval_end(tokens),
            );
            match after_option(timed, rest, project_prefix()) {
                Err(error) => Err(error),
                Ok(with_project) => match after_option(with_project, rest, tags_prefix()) {
                    Err(error) => Err(error),
                    Ok(with_tags) => Ok(with_tags.with_description(description_of(rest))),
                },
            }
        },
    }
}

/// Whether the parse goes on after an optional phase ended with `outcome`:
/// it does unless the prefix was there without its value.
pub fn phase_passed(outcome: Result<(), ParseError>) -> (passed: Result<(), ParseError>)
    ensures
        passed == match outcome {
            Ok(()) => Ok::<(), ParseError>(()),
            Err(ParseError::CommandNotFound) => Ok(()),
            Err(error) => Err(error),
        },
{
    match outcome {
        Ok(()) => Ok(()),
        Err(ParseError::CommandNotFound) => Ok(()),
        Err(error) => Err(error),
    }
}

/// Parses the arguments of one command line, the program's name left out.
///
/// The interval is taken first, and its absence ends the parse. The project
/// and the tags are looked for in what the interval has left; each may be
/// absent, but a prefix without its value ends the parse. The description is
/// the first token that the interval has left.
pub fn parse_arguments(args: Vec<String>) -> (result: Result<ParsedArguments, ParseError>)
    ensures
        match parsed_from(token_texts(args@)) {
            Ok(parsed) => result is Ok && result->Ok_0@ == parsed,
            Err(error) => result == Err::<ParsedArguments, ParseError>(error),
        },
{
    let mut rest = args;
    let mut parsed = ParsedArguments::new();
    match extract_time_intervals(&mut rest, &mut parsed) {
        Ok(()) => {},
        Err(error) => {
            return Err(error);
        },
    }
    match phase_passed(extract_arguments_and_store(&mut rest, &mut parsed, "--project")) {
        Ok(()) => {},
        Err(error) => {
            return Err(error);
        },
    }
    match phase_passed(extract_arguments_and_store(&mut rest, &mut parsed, "--tags")) {
        Ok(()) => {},
        Err(error) => {
            return Err(error);
        },
    }
    if rest.len() > 0 {
        parsed.description = Some(rest[0].clone());
    } else {
        parsed.description = None;
    }
    Ok(parsed)
}

} // verus!
