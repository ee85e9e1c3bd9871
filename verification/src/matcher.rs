//! The boundary to the fuzzy matcher.

use fuzzy_matcher::skim::SkimMatcherV2;
use fuzzy_matcher::FuzzyMatcher;
use vstd::prelude::*;

verus! {

/// The longest pattern, in characters, that is handed to the matcher. Its
/// scores are 32-bit sums to which each character of the pattern adds at most
/// 32, whatever the length of the text that is searched; below this length
/// they stay far from the end of that range.
pub const MATCH_LIMIT: usize = 0x100_0000;

/// The score that the skim matcher, in its default configuration, gives to
/// `choice` for `pattern`; `None` where the pattern does not match.
pub uninterp spec fn skim_score(choice: Seq<char>, pattern: Seq<char>) -> Option<i64>;

/// An ASCII capital letter.
pub open spec fn is_ascii_capital(c: char) -> bool {
    'A' <= c && c <= 'Z'
}

/// The character with an ASCII capital letter made small.
pub open spec fn ascii_small(c: char) -> char {
    if is_ascii_capital(c) {
        ((c as u32) + 32) as char
    } else {
        c
    }
}

/// Whether a character of the text stands for a character of the pattern:
/// the same character, or, where case is not regarded, the same but for the
/// case of an ASCII letter.
pub open spec fn stands_for(c: char, p: char, regard_case: bool) -> bool {
    if regard_case {
        c == p
    } else {
        ascii_small(c) == ascii_small(p)
    }
}

/// Whether the characters of `pattern` occur in `choice` in their order,
/// not necessarily side by side. Each is looked for behind the place where
/// the one before it was first found.
pub open spec fn occurs_in_order(choice: Seq<char>, pattern: Seq<char>, regard_case: bool) -> bool
    decreases choice.len(),
{
    if pattern.len() == 0 {
        true
    } else if choice.len() == 0 {
        false
    } else if stands_for(choice[0], pattern[0], regard_case) {
        occurs_in_order(choice.drop_first(), pattern.drop_first(), regard_case)
    } else {
        occurs_in_order(choice.drop_first(), pattern, regard_case)
    }
}

/// Whether the matcher regards case for this pattern: it does exactly where
/// the pattern holds an ASCII capital letter.
pub open spec fn regards_case(pattern: Seq<char>) -> bool {
    exists|i: int| 0 <= i < pattern.len() && is_ascii_capital(#[trigger] pattern[i])
}

/// Whether `pattern` fuzzily matches `choice`: its characters occur in the
/// text in their order, with case regarded where the pattern asks for it.
pub open spec fn fuzzy_matches(choice: Seq<char>, pattern: Seq<char>) -> bool {
    occurs_in_order(choice, pattern, regards_case(pattern))
}

/// Calls `SkimMatcherV2::fuzzy_match` of `fuzzy_matcher` on a matcher made by
/// `SkimMatcherV2::default()`.
///
/// Trusted: the result is the matcher's score for these two texts, and it is
/// present exactly where the pattern matches the text. A matcher is made for
/// each call, so nothing but the two texts goes into the score. The matcher
/// decides presence in `cheap_matches`, with `char_equal` on each pair of
/// characters, before it scores anything; it regards case where
/// `contains_upper` finds a capital in the pattern; an empty pattern matches
/// every text. The score serves the library as a predicate only. A pattern
/// longer than `MATCH_LIMIT` is kept away from the matcher.
#[verifier::external_body]
pub(crate) fn skim_match(choice: &str, pattern: &str) -> (score: Option<i64>)
    requires
        pattern@.len() <= MATCH_LIMIT,
    ensures
        score == skim_score(choice@, pattern@),
        score is Some <==> fuzzy_matches(choice@, pattern@),
{
    SkimMatcherV2::default().fuzzy_match(choice, pattern)
}

} // verus!
