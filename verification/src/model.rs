//! The mathematical model of filtering: which indices of the list of lines
//! survive a query.

use crate::matcher::fuzzy_matches;
use vstd::prelude::*;

verus! {

/// The view of an unfiltered list of `n` lines: every index, in order.
pub open spec fn full_view(n: nat) -> Seq<usize> {
    Seq::new(n, |i: int| i as usize)
}

/// The entries of `view` whose score, at the same position in `scores`, is
/// present; their order is kept. An entry without a score is dropped.
pub open spec fn retain_scored(view: Seq<usize>, scores: Seq<Option<i64>>) -> Seq<usize>
    decreases view.len(),
{
    if view.len() == 0 {
        Seq::empty()
    } else {
        let kept = retain_scored(view.drop_last(), scores);
        let k = view.len() - 1;
        if k < scores.len() && scores[k] is Some {
            kept.push(view.last())
        } else {
            kept
        }
    }
}

/// One step of narrowing: the entries of `view` whose line matches `pattern`,
/// in the order of `view`.
pub open spec fn narrowed(lines: Seq<Seq<char>>, view: Seq<usize>, pattern: Seq<char>) -> Seq<
    usize,
>
    decreases view.len(),
{
    if view.len() == 0 {
        Seq::empty()
    } else {
        let kept = narrowed(lines, view.drop_last(), pattern);
        if fuzzy_matches(lines[view.last() as int], pattern) {
            kept.push(view.last())
        } else {
            kept
        }
    }
}

/// The mask that `query` leaves of `lines`. The empty query leaves everything.
/// A longer one narrows what the query without its last character leaves, by
/// matching each surviving line against the whole query.
pub open spec fn mask_for(lines: Seq<Seq<char>>, query: Seq<char>) -> Seq<usize>
    decreases query.len(),
{
    if query.len() == 0 {
        full_view(lines.len())
    } else {
        narrowed(lines, mask_for(lines, query.drop_last()), query)
    }
}

/// A mask is in order below `bound` when its indices increase strictly and
/// all lie below `bound`: it names lines of the list, each at most once, in
/// the order of the list.
pub open spec fn ordered_below(mask: Seq<usize>, bound: nat) -> bool {
    &&& forall|a: int, b: int| 0 <= a < b < mask.len() ==> mask[a] < mask[b]
    &&& forall|a: int| 0 <= a < mask.len() ==> mask[a] < bound
}

/// Where each score is present exactly for a line that matches, retaining by
/// score is narrowing.
pub proof fn lemma_retain_is_narrowed(
    lines: Seq<Seq<char>>,
    view: Seq<usize>,
    scores: Seq<Option<i64>>,
    pattern: Seq<char>,
)
    requires
        view.len() <= scores.len(),
        forall|k: int|
            0 <= k < view.len() ==> (#[trigger] scores[k] is Some <==> fuzzy_matches(
                lines[view[k] as int],
                pattern,
            )),
    ensures
        retain_scored(view, scores) == narrowed(lines, view, pattern),
    decreases view.len(),
{
    if view.len() > 0 {
        lemma_retain_is_narrowed(lines, view.drop_last(), scores, pattern);
    }
}

/// Narrowing keeps order and range, does not grow the view, and ends no
/// later than the view does.
pub proof fn lemma_narrowed_ordered(
    lines: Seq<Seq<char>>,
    view: Seq<usize>,
    pattern: Seq<char>,
    bound: nat,
)
    requires
        ordered_below(view, bound),
    ensures
        ordered_below(narrowed(lines, view, pattern), bound),
        narrowed(lines, view, pattern).len() <= view.len(),
        narrowed(lines, view, pattern).len() > 0 ==> narrowed(lines, view, pattern).last()
            <= view.last(),
    decreases view.len(),
{
    if view.len() > 0 {
        let shorter = view.drop_last();
        lemma_narrowed_ordered(lines, shorter, pattern, bound);
        let kept = narrowed(lines, shorter, pattern);
        if kept.len() > 0 {
            assert(kept.last() <= shorter.last());
            assert(shorter.last() == view[view.len() - 2]);
            assert forall|a: int| 0 <= a < kept.len() implies kept[a] < view.last() by {
                if a < kept.len() - 1 {
                    assert(kept[a] < kept[kept.len() - 1]);
                }
            }
        }
    }
}

/// Narrowing only removes, and removes exactly the lines that do not match:
/// each entry that is kept was in the view and names a line that matches, and
/// each entry of the view whose line matches is kept.
pub proof fn lemma_narrowed_exact(lines: Seq<Seq<char>>, view: Seq<usize>, pattern: Seq<char>)
    ensures
        forall|j: int|
            0 <= j < narrowed(lines, view, pattern).len() ==> view.contains(
                #[trigger] narrowed(lines, view, pattern)[j],
            ) && fuzzy_matches(lines[narrowed(lines, view, pattern)[j] as int], pattern),
        forall|k: int|
            0 <= k < view.len() && fuzzy_matches(lines[#[trigger] view[k] as int], pattern)
                ==> narrowed(lines, view, pattern).contains(view[k]),
    decreases view.len(),
{
    if view.len() > 0 {
        let shorter = view.drop_last();
        lemma_narrowed_exact(lines, shorter, pattern);
        let kept = narrowed(lines, shorter, pattern);
        let all = narrowed(lines, view, pattern);
        assert forall|j: int| 0 <= j < all.len() implies view.contains(#[trigger] all[j])
            && fuzzy_matches(lines[all[j] as int], pattern) by {
            if j < kept.len() {
                assert(shorter.contains(kept[j]));
                let k = choose|k: int| 0 <= k < shorter.len() && shorter[k] == kept[j];
                assert(view[k] == kept[j]);
            } else {
                assert(view[view.len() - 1] == view.last());
            }
        }
        assert forall|k: int|
            0 <= k < view.len() && fuzzy_matches(
                lines[#[trigger] view[k] as int],
                pattern,
            ) implies all.contains(view[k]) by {
            if k < shorter.len() {
                assert(shorter[k] == view[k]);
                assert(kept.contains(shorter[k]));
                let j = choose|j: int| 0 <= j < kept.len() && kept[j] == shorter[k];
                assert(all[j] == view[k]);
            } else {
                assert(all[all.len() - 1] == view[k]);
            }
        }
    }
}

/// Every mask names lines of the list in the order of the list, and is no
/// longer than the list.
pub proof fn lemma_mask_ordered(lines: Seq<Seq<char>>, query: Seq<char>)
    requires
        lines.len() <= usize::MAX,
    ensures
        ordered_below(mask_for(lines, query), lines.len()),
        mask_for(lines, query).len() <= lines.len(),
    decreases query.len(),
{
    if query.len() > 0 {
        lemma_mask_ordered(lines, query.drop_last());
        lemma_narrowed_ordered(lines, mask_for(lines, query.drop_last()), query, lines.len());
    }
}

/// Typing one more character only narrows: the new mask is no longer than the
/// one below it, holds no index that the one below lacks, and holds exactly
/// those of its indices whose line matches the longer query.
pub proof fn lemma_mask_narrows(lines: Seq<Seq<char>>, query: Seq<char>, c: char)
    ensures
        mask_for(lines, query.push(c)) == narrowed(lines, mask_for(lines, query), query.push(c)),
        mask_for(lines, query.push(c)).len() <= mask_for(lines, query).len(),
        forall|j: int|
            0 <= j < mask_for(lines, query.push(c)).len() ==> mask_for(lines, query).contains(
                #[trigger] mask_for(lines, query.push(c))[j],
            ) && fuzzy_matches(lines[mask_for(lines, query.push(c))[j] as int], query.push(c)),
        forall|k: int|
            0 <= k < mask_for(lines, query).len() && fuzzy_matches(
                lines[#[trigger] mask_for(lines, query)[k] as int],
                query.push(c),
            ) ==> mask_for(lines, query.push(c)).contains(mask_for(lines, query)[k]),
{
    let longer = query.push(c);
    assert(longer.drop_last() =~= query);
    lemma_narrowed_exact(lines, mask_for(lines, query), longer);
    lemma_narrowed_len(lines, mask_for(lines, query), longer);
}

/// Narrowing does not grow the view.
pub proof fn lemma_narrowed_len(lines: Seq<Seq<char>>, view: Seq<usize>, pattern: Seq<char>)
    ensures
        narrowed(lines, view, pattern).len() <= view.len(),
    decreases view.len(),
{
    if view.len() > 0 {
        lemma_narrowed_len(lines, view.drop_last(), pattern);
    }
}

} // verus!
