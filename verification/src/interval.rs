//! The time interval: the token before the separator `-` and the token after it.

use vstd::prelude::*;
use crate::error::ParseError;
use crate::parsed::ParsedArguments;
use crate::search::{
    first_equal, is_first_equal, lemma_first_equal_exists, lemma_first_equal_is, position_of,
};
use crate::text::token_texts;

verus! {

/// The token that separates the start of the interval from its end.
pub open spec fn separator() -> Seq<char> {
    "-"@
}

/// Where the first separator stands in `tokens`, or their number where
/// there is none.
pub open spec fn separator_position(tokens: Seq<Seq<char>>) -> int {
    first_equal(tokens, separator())
}

/// Why no interval can be taken from `tokens`, or `None` where one can: the
/// first separator then has a token before it and a token after it.
pub open spec fn interval_error(tokens: Seq<Seq<char>>) -> Option<ParseError> {
    let at = separator_position(tokens);
    if at == tokens.len() {
        Some(ParseError::MissingInterval)
    } else if at == 0 {
        Some(ParseError::MissingStartDate)
    } else if at == tokens.len() - 1 {
        Some(ParseError::MissingEndDate)
    } else {
        None
    }
}

/// The start of the interval: the token before the first separator.
pub open spec fn interval_start(tokens: Seq<Seq<char>>) -> Seq<char>
    recommends
        interval_error(tokens) is None,
{
    tokens[separator_position(tokens) - 1]
}

/// The end of the interval: the token after the first separator.
pub open spec fn interval_end(tokens: Seq<Seq<char>>) -> Seq<char>
    recommends
        interval_error(tokens) is None,
{
    tokens[separator_position(tokens) + 1]
}

/// `tokens` without the first separator and its two neighbours; the others
/// keep their order.
pub open spec fn without_interval(tokens: Seq<Seq<char>>) -> Seq<Seq<char>>
    recommends
        interval_error(tokens) is None,
{
    let at = separator_position(tokens);
    tokens.take(at - 1) + tokens.skip(at + 2)
}

/// Takes the time interval out of `args`.
///
/// The first token `-` is the separator. Where it has a token before it and
/// one after it, these two become the start and the end of the interval in
/// `parsed_args`, as they were written, and the three tokens leave `args`.
/// Otherwise the error says what is missing, and neither `args` nor
/// `parsed_args` changes.
pub fn extract_time_intervals(
    args: &mut Vec<String>,
    parsed_args: &mut ParsedArguments,
) -> (result: Result<(), ParseError>)
    ensures
        match interval_error(token_texts(old(args)@)) {
            Some(error) => {
                &&& result == Err::<(), ParseError>(error)
                &&& *final(args) == *old(args)
                &&& *final(parsed_args) == *old(parsed_args)
            },
            None => {
                &&& result == Ok::<(), ParseError>(())
                &&& token_texts(final(args)@) == without_interval(token_texts(old(args)@))
                &&& final(parsed_args)@ == old(parsed_args)@.with_interval(
                    interval_start(token_texts(old(args)@)),
                    interval_end(token_texts(old(args)@)),
                )
            },
        },
{
    let separator_found = position_of(args, "-");
    let at = match separator_found {
        Some(at) => at,
        None => {
            return Err(ParseError::MissingInterval);
        },
    };
    if at == 0 {
        return Err(ParseError::MissingStartDate);
    }
    if at + 1 == args.len() {
        return Err(ParseError::MissingEndDate);
    }
    let end = args.remove(at + 1);
    args.remove(at);
    let start = args.remove(at - 1);
    assert(token_texts(args@) =~= without_interval(token_texts(old(args)@)));
    parsed_args.start_time = Some(start);
    parsed_args.end_time = Some(end);
    Ok(())
}

/// A sequence with exactly one separator, which has a token before it and a
/// token after it, gives an interval: the two neighbours are its start and
/// its end, three tokens leave, the tokens before the start keep their
/// places and those after the end move up by three.
pub proof fn lemma_single_separator_gives_interval(tokens: Seq<Seq<char>>, at: int)
    requires
        0 < at < tokens.len() - 1,
        tokens[at] == separator(),
        forall|j: int| 0 <= j < tokens.len() && j != at ==> tokens[j] != separator(),
    ensures
        interval_error(tokens) is None,
        interval_start(tokens) == tokens[at - 1],
        interval_end(tokens) == tokens[at + 1],
        without_interval(tokens).len() == tokens.len() - 3,
        forall|i: int| 0 <= i < at - 1 ==> without_interval(tokens)[i] == tokens[i],
        forall|i: int| at - 1 <= i < tokens.len() - 3 ==> without_interval(tokens)[i] == tokens[i + 3],
{
    assert(is_first_equal(tokens, separator(), at));
    lemma_first_equal_is(tokens, separator(), at);
}

/// Where an interval can be taken, the first separator stands strictly
/// inside the sequence, and what is left is three tokens shorter, in the
/// old order.
pub proof fn lemma_interval_removes_three(tokens: Seq<Seq<char>>)
    requires
        interval_error(tokens) is None,
    ensures
        0 < separator_position(tokens) < tokens.len() - 1,
        tokens[separator_position(tokens)] == separator(),
        without_interval(tokens).len() == tokens.len() - 3,
        forall|i: int| 0 <= i < separator_position(tokens) - 1
            ==> without_interval(tokens)[i] == tokens[i],
        forall|i: int| separator_position(tokens) - 1 <= i < tokens.len() - 3
            ==> without_interval(tokens)[i] == tokens[i + 3],
{
    lemma_first_equal_exists(tokens, separator());
}

/// A separator in the first place leaves no room for a start.
pub proof fn lemma_leading_separator_misses_start(tokens: Seq<Seq<char>>)
    requires
        tokens.len() > 0,
        tokens[0] == separator(),
    ensures
        interval_error(tokens) == Some(ParseError::MissingStartDate),
{
    assert(is_first_equal(tokens, separator(), 0));
    lemma_first_equal_is(tokens, separator(), 0);
}

/// A separator in the last place, with none before it and at least one
/// token before it, leaves no room for an end.
pub proof fn lemma_trailing_separator_misses_end(tokens: Seq<Seq<char>>)
    requires
        tokens.len() > 1,
        tokens[tokens.len() - 1] == separator(),
        forall|j: int| 0 <= j < tokens.len() - 1 ==> tokens[j] != separator(),
    ensures
        interval_error(tokens) == Some(ParseError::MissingEndDate),
{
    assert(is_first_equal(tokens, separator(), tokens.len() - 1));
    lemma_first_equal_is(tokens, separator(), tokens.len() - 1);
}

/// The interval is missing exactly where no token is the separator.
pub proof fn lemma_no_separator_misses_interval(tokens: Seq<Seq<char>>)
    ensures
        interval_error(tokens) == Some(ParseError::MissingInterval) <==> (forall|j: int|
            0 <= j < tokens.len() ==> tokens[j] != separator()),
{
    lemma_first_equal_exists(tokens, separator());
    if forall|j: int| 0 <= j < tokens.len() ==> tokens[j] != separator() {
        assert(is_first_equal(tokens, separator(), tokens.len() as int));
        lemma_first_equal_is(tokens, separator(), tokens.len() as int);
    }
}

} // verus!
