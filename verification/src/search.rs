//! Finding the first token of a kind in a token sequence.

use vstd::prelude::*;
use crate::text::{chars_of, contains_chars, contains_text, same_text, token_texts};

verus! {

/// `at` is where the first token equal to `target` stands, or the length of
/// `tokens` where no token is equal to it.
pub open spec fn is_first_equal(tokens: Seq<Seq<char>>, target: Seq<char>, at: int) -> bool {
    &&& 0 <= at <= tokens.len()
    &&& at < tokens.len() ==> tokens[at] == target
    &&& forall|j: int| 0 <= j < at ==> tokens[j] != target
}

/// The index of the first token that is `target`, or the length of `tokens`
/// where none is.
pub open spec fn first_equal(tokens: Seq<Seq<char>>, target: Seq<char>) -> int {
    choose|at: int| is_first_equal(tokens, target, at)
}

/// `at` is where the first token in which `pattern` occurs stands, or the
/// length of `tokens` where it occurs in none.
pub open spec fn is_first_containing(
    tokens: Seq<Seq<char>>,
    pattern: Seq<char>,
    at: int,
) -> bool {
    &&& 0 <= at <= tokens.len()
    &&& at < tokens.len() ==> contains_text(tokens[at], pattern)
    &&& forall|j: int| 0 <= j < at ==> !contains_text(#[trigger] tokens[j], pattern)
}

/// The index of the first token in which `pattern` occurs, or the length of
/// `tokens` where it occurs in none.
pub open spec fn first_containing(tokens: Seq<Seq<char>>, pattern: Seq<char>) -> int {
    choose|at: int| is_first_containing(tokens, pattern, at)
}

/// Only one index can be the first token equal to `target`.
pub proof fn lemma_first_equal_is(tokens: Seq<Seq<char>>, target: Seq<char>, at: int)
    requires
        is_first_equal(tokens, target, at),
    ensures
        first_equal(tokens, target) == at,
{
    let chosen = first_equal(tokens, target);
    assert(is_first_equal(tokens, target, chosen));
    if chosen < at {
        assert(tokens[chosen] != target);
    } else if at < chosen {
        assert(tokens[at] != target);
    }
}

/// No token before `from` is `target`: then some index is the first.
proof fn lemma_first_equal_from(tokens: Seq<Seq<char>>, target: Seq<char>, from: int)
    requires
        0 <= from <= tokens.len(),
        forall|j: int| 0 <= j < from ==> tokens[j] != target,
    ensures
        is_first_equal(tokens, target, first_equal(tokens, target)),
    decreases tokens.len() - from,
{
    if from == tokens.len() || tokens[from] == target {
        assert(is_first_equal(tokens, target, from));
    } else {
        lemma_first_equal_from(tokens, target, from + 1);
    }
}

/// Every token sequence has a first index for `target`: a token equal to it
/// with none before it, or the length.
pub proof fn lemma_first_equal_exists(tokens: Seq<Seq<char>>, target: Seq<char>)
    ensures
        is_first_equal(tokens, target, first_equal(tokens, target)),
{
    lemma_first_equal_from(tokens, target, 0);
}

/// Only one index can be the first token that contains `pattern`.
pub proof fn lemma_first_containing_is(tokens: Seq<Seq<char>>, pattern: Seq<char>, at: int)
    requires
        is_first_containing(tokens, pattern, at),
    ensures
        first_containing(tokens, pattern) == at,
{
    let chosen = first_containing(tokens, pattern);
    assert(is_first_containing(tokens, pattern, chosen));
    if chosen < at {
        assert(!contains_text(tokens[chosen], pattern));
    } else if at < chosen {
        assert(!contains_text(tokens[at], pattern));
    }
}

/// No token before `from` contains `pattern`: then some index is the first.
proof fn lemma_first_containing_from(tokens: Seq<Seq<char>>, pattern: Seq<char>, from: int)
    requires
        0 <= from <= tokens.len(),
        forall|j: int| 0 <= j < from ==> !contains_text(#[trigger] tokens[j], pattern),
    ensures
        is_first_containing(tokens, pattern, first_containing(tokens, pattern)),
    decreases tokens.len() - from,
{
    if from == tokens.len() || contains_text(tokens[from], pattern) {
        assert(is_first_containing(tokens, pattern, from));
    } else {
        lemma_first_containing_from(tokens, pattern, from + 1);
    }
}

/// Every token sequence has a first index for `pattern`: a token that
/// contains it with none before it that does, or the length.
pub proof fn lemma_first_containing_exists(tokens: Seq<Seq<char>>, pattern: Seq<char>)
    ensures
        is_first_containing(tokens, pattern, first_containing(tokens, pattern)),
{
    lemma_first_containing_from(tokens, pattern, 0);
}

/// Where the first token equal to `target` stands in `args`.
pub fn position_of(args: &Vec<String>, target: &str) -> (found: Option<usize>)
    ensures
        match found {
            Some(at) => at < args.len() && at == first_equal(token_texts(args@), target@),
            None => first_equal(token_texts(args@), target@) == args.len(),
        },
{
    let ghost tokens = token_texts(args@);
    let mut at: usize = 0;
    while at < args.len()
        invariant
            at <= args.len(),
            tokens == token_texts(args@),
            forall|j: int| 0 <= j < at ==> tokens[j] != target@,
        decreases args.len() - at,
    {
        if same_text(args[at].as_str(), target) {
            proof {
                lemma_first_equal_is(tokens, target@, at as int);
            }
            return Some(at);
        }
        at += 1;
    }
    proof {
        lemma_first_equal_is(tokens, target@, at as int);
    }
    None
}

/// Where the first token in which `pattern` occurs stands in `args`.
pub fn position_containing(args: &Vec<String>, pattern: &str) -> (found: Option<usize>)
    ensures
        match found {
            Some(at) => at < args.len() && at == first_containing(token_texts(args@), pattern@),
            None => first_containing(token_texts(args@), pattern@) == args.len(),
        },
{
    let ghost tokens = token_texts(args@);
    let pattern_chars = chars_of(pattern);
    let mut at: usize = 0;
    while at < args.len()
        invariant
            at <= args.len(),
            tokens == token_texts(args@),
            pattern_chars@ == pattern@,
            forall|j: int| 0 <= j < at ==> !contains_text(#[trigger] tokens[j], pattern@),
        decreases args.len() - at,
    {
        let token_chars = chars_of(args[at].as_str());
        if contains_chars(&token_chars, &pattern_chars) {
            proof {
                lemma_first_containing_is(tokens, pattern@, at as int);
            }
            return Some(at);
        }
        at += 1;
    }
    proof {
        lemma_first_containing_is(tokens, pattern@, at as int);
    }
    None
}

} // verus!
