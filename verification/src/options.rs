//! The optional arguments: `--project NAME` and `--tags TAG...`.

use vstd::prelude::*;
use crate::error::ParseError;
use crate::parsed::{ParsedArguments, ParsedView};
use crate::search::{
    first_containing, first_equal, is_first_containing, is_first_equal,
    lemma_first_containing_exists, lemma_first_containing_is, lemma_first_equal_exists,
    lemma_first_equal_is, position_containing,
};
use crate::text::{contains_text, same_text, token_texts};

verus! {

/// The prefix that introduces the project's name.
pub open spec fn project_prefix() -> Seq<char> {
    "--project"@
}

/// The prefix that introduces the tags.
pub open spec fn tags_prefix() -> Seq<char> {
    "--tags"@
}

/// Whether `command` is one of the two prefixes that can be extracted.
pub open spec fn is_supported_prefix(command: Seq<char>) -> bool {
    command == project_prefix() || command == tags_prefix()
}

/// Where the first token that contains `command` stands in `tokens`, or
/// their number where there is none.
pub open spec fn prefix_position(tokens: Seq<Seq<char>>, command: Seq<char>) -> int {
    first_containing(tokens, command)
}

/// The longest run of tokens at the front of `tokens` that holds no
/// `--project`.
pub open spec fn run_before_project(tokens: Seq<Seq<char>>) -> Seq<Seq<char>> {
    tokens.take(first_equal(tokens, project_prefix()))
}

/// The project's name: the token after the `--project` token.
pub open spec fn project_value(tokens: Seq<Seq<char>>) -> Seq<char>
    recommends
        prefix_position(tokens, project_prefix()) + 1 < tokens.len(),
{
    tokens[prefix_position(tokens, project_prefix()) + 1]
}

/// The tags: the tokens after the `--tags` token, up to the next `--project`
/// or to the end.
pub open spec fn tag_values(tokens: Seq<Seq<char>>) -> Seq<Seq<char>>
    recommends
        prefix_position(tokens, tags_prefix()) < tokens.len(),
{
    run_before_project(tokens.skip(prefix_position(tokens, tags_prefix()) + 1))
}

/// Why the value of `command` cannot be taken from `tokens`, or `None` where
/// it can.
pub open spec fn option_error(tokens: Seq<Seq<char>>, command: Seq<char>) -> Option<ParseError> {
    let at = prefix_position(tokens, command);
    if !is_supported_prefix(command) {
        Some(ParseError::UnsupportedPrefix)
    } else if at == tokens.len() {
        Some(ParseError::CommandNotFound)
    } else if command == project_prefix() {
        if at + 1 == tokens.len() || tokens[at + 1] == tags_prefix() {
            Some(ParseError::MissingInput)
        } else {
            None
        }
    } else {
        if tag_values(tokens).len() == 0 {
            Some(ParseError::MissingInput)
        } else {
            None
        }
    }
}

/// `parsed` with the value of `command` stored in the field that belongs to
/// it.
pub open spec fn with_option(
    parsed: ParsedView,
    tokens: Seq<Seq<char>>,
    command: Seq<char>,
) -> ParsedView
    recommends
        option_error(tokens, command) is None,
{
    if command == project_prefix() {
        parsed.with_project(project_value(tokens))
    } else {
        parsed.with_tags(tag_values(tokens))
    }
}

/// The tokens of `args` from index `from` on, up to the next `--project` or
/// to the end.
fn values_before_project(args: &Vec<String>, from: usize) -> (values: Vec<String>)
    requires
        from <= args.len(),
    ensures
        token_texts(values@) == run_before_project(token_texts(args@).skip(from as int)),
{
    let ghost rest = token_texts(args@).skip(from as int);
    let mut values: Vec<String> = Vec::new();
    let mut at: usize = from;
    while at < args.len() && !same_text(args[at].as_str(), "--project")
        invariant
            from <= at <= args.len(),
            rest == token_texts(args@).skip(from as int),
            values@ == args@.subrange(from as int, at as int),
            forall|j: int| 0 <= j < at - from ==> rest[j] != project_prefix(),
        decreases args.len() - at,
    {
        values.push(args[at].clone());
        at += 1;
    }
    proof {
        lemma_first_equal_is(rest, project_prefix(), at - from);
        assert(token_texts(values@) =~= rest.take(at - from));
    }
    values
}

/// Takes the value of the optional argument `command` from `args` and
/// stores it in `parsed_args`.
///
/// `command` is `--project` or `--tags`; the first token that contains it
/// marks the place. For `--project` the next token is the project's name,
/// unless it is `--tags`. For `--tags` the tokens that follow are the tags,
/// up to the next `--project` or to the end, and there must be one at
/// least. On an error `parsed_args` does not change; `args` never does.
pub fn extract_arguments_and_store(
    args: &mut Vec<String>,
    parsed_args: &mut ParsedArguments,
    command: &str,
) -> (result: Result<(), ParseError>)
    ensures
        *final(args) == *old(args),
        match option_error(token_texts(old(args)@), command@) {
            Some(error) => {
                &&& result == Err::<(), ParseError>(error)
                &&& *final(parsed_args) == *old(parsed_args)
            },
            None => {
                &&& result == Ok::<(), ParseError>(())
                &&& final(parsed_args)@ == with_option(
                    old(parsed_args)@,
                    token_texts(old(args)@),
                    command@,
                )
            },
        },
{
    let for_project = same_text(command, "--project");
    let for_tags = same_text(command, "--tags");
    if !(for_project || for_tags) {
        return Err(ParseError::UnsupportedPrefix);
    }
    let prefix_found = position_containing(args, command);
    let at = match prefix_found {
        Some(at) => at,
        None => {
            return Err(ParseError::CommandNotFound);
        },
    };
    if for_project {
        if at + 1 == args.len() {
            return Err(ParseError::MissingInput);
        }
        if same_text(args[at + 1].as_str(), "--tags") {
            return Err(ParseError::MissingInput);
        }
        parsed_args.project = Some(args[at + 1].clone());
    } else {
        let tags = values_before_project(args, at + 1);
        if tags.len() == 0 {
            return Err(ParseError::MissingInput);
        }
        parsed_args.tags = Some(tags);
    }
    Ok(())
}

/// The two prefixes are different texts.
pub proof fn lemma_prefixes_differ()
    ensures
        project_prefix() != tags_prefix(),
{
    reveal_strlit("--project");
    reveal_strlit("--tags");
    assert(project_prefix().len() == 9);
    assert(tags_prefix().len() == 6);
}

/// A `--project` whose next token is `--tags` has no value: the extraction
/// fails for want of input and does not succeed.
pub proof fn lemma_project_before_tags_misses_input(tokens: Seq<Seq<char>>, at: int)
    requires
        is_first_containing(tokens, project_prefix(), at),
        at + 1 < tokens.len(),
        tokens[at + 1] == tags_prefix(),
    ensures
        option_error(tokens, project_prefix()) == Some(ParseError::MissingInput),
{
    lemma_first_containing_is(tokens, project_prefix(), at);
}

/// A `--project` that is the last token has no value either.
pub proof fn lemma_project_at_end_misses_input(tokens: Seq<Seq<char>>, at: int)
    requires
        is_first_containing(tokens, project_prefix(), at),
        at + 1 == tokens.len(),
    ensures
        option_error(tokens, project_prefix()) == Some(ParseError::MissingInput),
{
    lemma_first_containing_is(tokens, project_prefix(), at);
}

/// The tags are all the tokens after `--tags` up to `end`, the place of the
/// next `--project` or the end of the input, in the order in which they
/// stand; where there is none, the extraction fails for want of input.
pub proof fn lemma_tags_run_to_next_project(tokens: Seq<Seq<char>>, at: int, end: int)
    requires
        is_first_containing(tokens, tags_prefix(), at),
        at < end <= tokens.len(),
        forall|j: int| at < j < end ==> tokens[j] != project_prefix(),
        end < tokens.len() ==> tokens[end] == project_prefix(),
    ensures
        tag_values(tokens) == tokens.subrange(at + 1, end),
        option_error(tokens, tags_prefix()) == if end == at + 1 {
            Some(ParseError::MissingInput)
        } else {
            None
        },
{
    lemma_first_containing_is(tokens, tags_prefix(), at);
    lemma_prefixes_differ();
    let rest = tokens.skip(at + 1);
    assert(is_first_equal(rest, project_prefix(), end - at - 1));
    lemma_first_equal_is(rest, project_prefix(), end - at - 1);
    assert(rest.take(end - at - 1) =~= tokens.subrange(at + 1, end));
}

/// No tag is the `--project` prefix.
pub proof fn lemma_no_tag_is_project_prefix(tokens: Seq<Seq<char>>, i: int)
    requires
        prefix_position(tokens, tags_prefix()) < tokens.len(),
        0 <= i < tag_values(tokens).len(),
    ensures
        tag_values(tokens)[i] != project_prefix(),
{
    let rest = tokens.skip(prefix_position(tokens, tags_prefix()) + 1);
    lemma_first_equal_exists(rest, project_prefix());
}

/// A prefix that is neither `--project` nor `--tags` is refused, whatever
/// the tokens are.
pub proof fn lemma_other_prefix_is_unsupported(tokens: Seq<Seq<char>>, command: Seq<char>)
    requires
        !is_supported_prefix(command),
    ensures
        option_error(tokens, command) == Some(ParseError::UnsupportedPrefix),
{
}

/// A supported prefix is not found exactly where no token contains it.
pub proof fn lemma_prefix_not_found(tokens: Seq<Seq<char>>, command: Seq<char>)
    requires
        is_supported_prefix(command),
    ensures
        option_error(tokens, command) == Some(ParseError::CommandNotFound) <==> (forall|j: int|
            0 <= j < tokens.len() ==> !contains_text(#[trigger] tokens[j], command)),
{
    lemma_first_containing_exists(tokens, command);
    if forall|j: int| 0 <= j < tokens.len() ==> !contains_text(#[trigger] tokens[j], command) {
        assert(is_first_containing(tokens, command, tokens.len() as int));
        lemma_first_containing_is(tokens, command, tokens.len() as int);
    }
}

} // verus!
