//! The filter engine: the list of lines, the query typed so far, and one mask
//! for each character of the query.

use crate::matcher::{fuzzy_matches, skim_match, MATCH_LIMIT};
use crate::model::{
    full_view, lemma_mask_ordered, lemma_retain_is_narrowed, mask_for, ordered_below,
    retain_scored,
};
use vstd::prelude::*;

verus! {

/// What an engine stands for: its lines and its query. The masks are not part
/// of it, because the two determine them.
pub struct EngineView {
    pub lines: Seq<Seq<char>>,
    pub query: Seq<char>,
}

impl EngineView {
    /// The indices of the lines in the current view, in the order of the list.
    pub open spec fn mask(self) -> Seq<usize> {
        mask_for(self.lines, self.query)
    }

    /// The text shown at position `pos` of the current view.
    pub open spec fn text_at(self, pos: int) -> Seq<char> {
        self.lines[self.mask()[pos] as int]
    }

    /// Whether one more character can be typed: the query with that
    /// character must be short enough for the matcher.
    pub open spec fn accepts_input(self) -> bool {
        self.query.len() < MATCH_LIMIT
    }

    /// The engine after `c` was typed.
    pub open spec fn append(self, c: char) -> EngineView {
        EngineView { lines: self.lines, query: self.query.push(c) }
    }

    /// The engine after the last character was deleted; unchanged where the
    /// query is empty.
    pub open spec fn backspace(self) -> EngineView {
        if self.query.len() == 0 {
            self
        } else {
            EngineView { lines: self.lines, query: self.query.drop_last() }
        }
    }

    /// The engine after each character of `typed` was typed in turn.
    pub open spec fn append_all(self, typed: Seq<char>) -> EngineView
        decreases typed.len(),
    {
        if typed.len() == 0 {
            self
        } else {
            self.append_all(typed.drop_last()).append(typed.last())
        }
    }

    /// The engine after `n` deletions.
    pub open spec fn backspace_times(self, n: nat) -> EngineView
        decreases n,
    {
        if n == 0 {
            self
        } else {
            self.backspace().backspace_times((n - 1) as nat)
        }
    }
}

/// Deleting the character that was just typed undoes it.
pub proof fn lemma_backspace_undoes_append(engine: EngineView, c: char)
    ensures
        engine.append(c).backspace() == engine,
{
    assert(engine.query.push(c).drop_last() =~= engine.query);
}

/// Typing any characters and then deleting as many brings back the engine as
/// it was: the same lines and the same query, and with them the same view.
pub proof fn lemma_round_trip(engine: EngineView, typed: Seq<char>)
    ensures
        engine.append_all(typed).backspace_times(typed.len()) == engine,
        engine.append_all(typed).backspace_times(typed.len()).mask() == engine.mask(),
    decreases typed.len(),
{
    if typed.len() > 0 {
        let before = engine.append_all(typed.drop_last());
        lemma_backspace_undoes_append(before, typed.last());
        lemma_round_trip(engine, typed.drop_last());
    }
}

/// The text of each line.
pub open spec fn lines_of(items: Seq<String>) -> Seq<Seq<char>> {
    Seq::new(items.len(), |i: int| items[i]@)
}

/// One change of the query.
#[derive(Clone, Copy, Debug, PartialEq, Eq, Structural)]
pub enum FilterUpdate {
    Append { c: char },
    Backspace,
}

/// The lines, the query, and the stack of masks that the query has left of
/// them: one mask for each character, the most recent on top.
pub struct FilterEngine {
    items: Vec<String>,
    masks: Vec<Vec<usize>>,
    query: String,
}

impl View for FilterEngine {
    type V = EngineView;

    closed spec fn view(&self) -> EngineView {
        EngineView { lines: lines_of(self.items@), query: self.query@ }
    }
}

/// The entries of `view` whose score is present, in the order of `view`.
/// An entry beyond the end of `scores` is dropped.
pub fn select_matched(view: &Vec<usize>, scores: &Vec<Option<i64>>) -> (mask: Vec<usize>)
    ensures
        mask@ == retain_scored(view@, scores@),
{
    let mut mask: Vec<usize> = Vec::new();
    let mut k: usize = 0;
    while k < view.len()
        invariant
            k <= view.len(),
            mask@ == retain_scored(view@.take(k as int), scores@),
        decreases view.len() - k,
    {
        proof {
            assert(view@.take(k + 1).drop_last() =~= view@.take(k as int));
        }
        if k < scores.len() && scores[k].is_some() {
            mask.push(view[k]);
        }
        k += 1;
    }
    proof {
        assert(view@.take(k as int) =~= view@);
    }
    mask
}

/// The matcher's score of each line that `view` points at: present exactly
/// for the lines that match `pattern`.
fn score_lines(items: &Vec<String>, view: &Vec<usize>, pattern: &str) -> (scores: Vec<
    Option<i64>,
>)
    requires
        ordered_below(view@, items@.len() as nat),
        pattern@.len() <= MATCH_LIMIT,
    ensures
        scores@.len() == view@.len(),
        forall|k: int|
            0 <= k < view@.len() ==> (#[trigger] scores@[k] is Some <==> fuzzy_matches(
                lines_of(items@)[view@[k] as int],
                pattern@,
            )),
{
    let mut scores: Vec<Option<i64>> = Vec::new();
    let mut k: usize = 0;
    while k < view.len()
        invariant
            k <= view.len(),
            ordered_below(view@, items@.len() as nat),
            pattern@.len() <= MATCH_LIMIT,
            scores@.len() == k,
            forall|j: int|
                0 <= j < k ==> (#[trigger] scores@[j] is Some <==> fuzzy_matches(
                    lines_of(items@)[view@[j] as int],
                    pattern@,
                )),
        decreases view.len() - k,
    {
        let index: usize = view[k];
        proof {
            assert(lines_of(items@)[index as int] == items@[index as int]@);
        }
        let score = skim_match(items[index].as_str(), pattern);
        scores.push(score);
        k += 1;
    }
    scores
}

/// Every index below `n`, in order.
fn all_indices(n: usize) -> (view: Vec<usize>)
    ensures
        view@ == full_view(n as nat),
{
    let mut view: Vec<usize> = Vec::new();
    let mut i: usize = 0;
    while i < n
        invariant
            i <= n,
            view@ == full_view(i as nat),
        decreases n - i,
    {
        view.push(i);
        proof {
            assert(view@ =~= full_view((i + 1) as nat));
        }
        i += 1;
    }
    view
}

/// A copy of a mask.
fn copy_mask(mask: &Vec<usize>) -> (copy: Vec<usize>)
    ensures
        copy@ == mask@,
{
    let mut copy: Vec<usize> = Vec::new();
    let mut k: usize = 0;
    while k < mask.len()
        invariant
            k <= mask.len(),
            copy@ == mask@.take(k as int),
        decreases mask.len() - k,
    {
        copy.push(mask[k]);
        proof {
            assert(copy@ =~= mask@.take(k + 1));
        }
        k += 1;
    }
    proof {
        assert(mask@.take(k as int) =~= mask@);
    }
    copy
}

impl FilterEngine {
    #[verifier::type_invariant]
    spec fn well_formed(&self) -> bool {
        &&& self.masks@.len() == self.query@.len()
        &&& forall|d: int|
            0 <= d < self.masks@.len() ==> (#[trigger] self.masks@[d])@ == mask_for(
                lines_of(self.items@),
                self.query@.take(d + 1),
            )
    }

    /// An engine over `items`, with an empty query: everything is in view.
    pub fn new(items: Vec<String>) -> (engine: FilterEngine)
        ensures
            engine@.lines == lines_of(items@),
            engine@.query == Seq::<char>::empty(),
    {
        FilterEngine { items, masks: Vec::new(), query: String::new() }
    }

    /// The query typed so far.
    pub fn query(&self) -> (query: &String)
        ensures
            query@ == self@.query,
    {
        &self.query
    }

    /// The number of masks on the stack, which is the length of the query.
    pub fn depth(&self) -> (depth: usize)
        ensures
            depth == self@.query.len(),
    {
        proof {
            use_type_invariant(self);
        }
        self.masks.len()
    }

    /// The number of lines in the current view.
    pub fn view_len(&self) -> (len: usize)
        ensures
            len == self@.mask().len(),
            len <= self@.lines.len(),
    {
        proof {
            use_type_invariant(self);
            self.lemma_top();
        }
        if self.masks.len() == 0 {
            self.items.len()
        } else {
            self.masks[self.masks.len() - 1].len()
        }
    }

    /// The list has no more lines than can be counted, and the current view
    /// names lines of it in the order of the list.
    pub proof fn lemma_view_ordered(&self)
        ensures
            self@.lines.len() <= usize::MAX,
            ordered_below(self@.mask(), self@.lines.len()),
            self@.mask().len() <= self@.lines.len(),
    {
        assert(self.items@.len() == self.items.len());
        lemma_mask_ordered(lines_of(self.items@), self.query@);
    }

    /// The top of the stack is the mask of the whole query, and every mask is
    /// in order below the number of lines.
    proof fn lemma_top(&self)
        requires
            self.well_formed(),
        ensures
            self.masks@.len() > 0 ==> self.masks@[self.masks@.len() - 1]@ == self@.mask(),
            self.masks@.len() == 0 ==> self@.mask() == full_view(self.items@.len() as nat),
            ordered_below(self@.mask(), self.items@.len() as nat),
            self@.mask().len() <= self.items@.len() <= usize::MAX,
    {
        assert(self.items@.len() == self.items.len());
        lemma_mask_ordered(lines_of(self.items@), self.query@);
        if self.masks@.len() > 0 {
            assert(self.query@.take(self.masks@.len() as int) =~= self.query@);
        }
    }

    /// The indices of the lines in the current view.
    pub fn current_mask(&self) -> (mask: Vec<usize>)
        ensures
            mask@ == self@.mask(),
            ordered_below(mask@, self@.lines.len()),
            mask@.len() <= self@.lines.len() <= usize::MAX,
    {
        proof {
            use_type_invariant(self);
            self.lemma_top();
        }
        if self.masks.len() == 0 {
            all_indices(self.items.len())
        } else {
            copy_mask(&self.masks[self.masks.len() - 1])
        }
    }

    /// The index of the line at position `pos` of the current view, if there
    /// is one.
    pub fn index_at(&self, pos: usize) -> (index: Option<usize>)
        ensures
            pos < self@.mask().len() ==> index == Some(self@.mask()[pos as int]),
            pos >= self@.mask().len() ==> index is None,
            index is Some ==> index->0 < self@.lines.len(),
    {
        proof {
            use_type_invariant(self);
            self.lemma_top();
        }
        if self.masks.len() == 0 {
            if pos < self.items.len() {
                Some(pos)
            } else {
                None
            }
        } else {
            let top = &self.masks[self.masks.len() - 1];
            if pos < top.len() {
                Some(top[pos])
            } else {
                None
            }
        }
    }

    /// The text at position `pos` of the current view, if there is one.
    pub fn text_at(&self, pos: usize) -> (text: Option<&String>)
        ensures
            pos < self@.mask().len() ==> text is Some && text->0@ == self@.text_at(pos as int),
            pos >= self@.mask().len() ==> text is None,
    {
        proof {
            use_type_invariant(self);
            self.lemma_top();
        }
        match self.index_at(pos) {
            Some(index) => {
                proof {
                    assert(lines_of(self.items@)[index as int] == self.items@[index as int]@);
                }
                Some(&self.items[index])
            },
            None => None,
        }
    }

    /// The current view: each line in it with its index in the list, in the
    /// order of the list.
    pub fn current_view(&self) -> (view: Vec<(usize, &String)>)
        ensures
            view@.len() == self@.mask().len(),
            forall|k: int|
                0 <= k < view@.len() ==> (#[trigger] view@[k]).0 == self@.mask()[k] && view@[k].1@
                    == self@.text_at(k),
            ordered_below(self@.mask(), self@.lines.len()),
            view@.len() <= self@.lines.len() <= usize::MAX,
    {
        proof {
            use_type_invariant(self);
            self.lemma_top();
        }
        let mask = self.current_mask();
        let mut view: Vec<(usize, &String)> = Vec::new();
        let mut k: usize = 0;
        while k < mask.len()
            invariant
                k <= mask.len(),
                mask@ == self@.mask(),
                ordered_below(mask@, self.items@.len() as nat),
                view@.len() == k,
                forall|j: int|
                    0 <= j < k ==> (#[trigger] view@[j]).0 == self@.mask()[j] && view@[j].1@
                        == self@.text_at(j),
            decreases mask.len() - k,
        {
            let index: usize = mask[k];
            proof {
                assert(lines_of(self.items@)[index as int] == self.items@[index as int]@);
            }
            view.push((index, &self.items[index]));
            k += 1;
        }
        view
    }

    /// An engine without lines, which stands in while another is rebuilt.
    fn hollow() -> (engine: FilterEngine)
        ensures
            engine@.lines.len() == 0,
            engine@.query.len() == 0,
    {
        FilterEngine { items: Vec::new(), masks: Vec::new(), query: String::new() }
    }

    /// Types `c`: the query grows by `c`, and a new mask goes on the stack,
    /// made by matching each line of the current view against the whole new
    /// query. The lines and the masks below stay as they are.
    pub fn append(&mut self, c: char)
        requires
            old(self)@.accepts_input(),
        ensures
            final(self)@ == old(self)@.append(c),
    {
        proof {
            use_type_invariant(&*self);
            self.lemma_top();
        }
        let view = self.current_mask();
        let mut taken = FilterEngine::hollow();
        std::mem::swap(self, &mut taken);
        proof {
            use_type_invariant(&taken);
        }
        let FilterEngine { items, mut masks, mut query } = taken;
        let ghost lines = lines_of(items@);
        let ghost typed = query@;
        let ghost below = masks@;
        query.push(c);
        let scores = score_lines(&items, &view, query.as_str());
        let mask = select_matched(&view, &scores);
        masks.push(mask);
        proof {
            assert(query@.drop_last() =~= typed);
            lemma_retain_is_narrowed(lines, view@, scores@, query@);
            assert(mask@ == mask_for(lines, query@));
            assert forall|d: int| 0 <= d < masks@.len() implies (#[trigger] masks@[d])@
                == mask_for(lines, query@.take(d + 1)) by {
                if d < below.len() {
                    assert(masks@[d] == below[d]);
                    assert(query@.take(d + 1) =~= typed.take(d + 1));
                } else {
                    assert(query@.take(d + 1) =~= query@);
                }
            }
        }
        *self = FilterEngine { items, masks, query };
    }

    /// Types `c` if the matcher can take the longer query, and says whether
    /// it did. Where the query has reached `MATCH_LIMIT` characters, nothing
    /// changes.
    pub fn try_append(&mut self, c: char) -> (typed: bool)
        ensures
            typed == old(self)@.accepts_input(),
            typed ==> final(self)@ == old(self)@.append(c),
            !typed ==> final(self)@ == old(self)@,
    {
        proof {
            use_type_invariant(&*self);
        }
        if self.masks.len() < MATCH_LIMIT {
            self.append(c);
            true
        } else {
            false
        }
    }

    /// Deletes the last character of the query and takes the top mask off the
    /// stack, which brings the view before that character back without
    /// matching anything again. With an empty query, nothing changes.
    pub fn backspace(&mut self)
        ensures
            final(self)@ == old(self)@.backspace(),
    {
        proof {
            use_type_invariant(&*self);
        }
        if self.masks.len() == 0 {
            return ;
        }
        let mut taken = FilterEngine::hollow();
        std::mem::swap(self, &mut taken);
        proof {
            use_type_invariant(&taken);
        }
        let FilterEngine { items, mut masks, mut query } = taken;
        let ghost lines = lines_of(items@);
        let ghost typed = query@;
        let ghost above = masks@;
        query.pop();
        masks.pop();
        proof {
            assert forall|d: int| 0 <= d < masks@.len() implies (#[trigger] masks@[d])@
                == mask_for(lines, query@.take(d + 1)) by {
                assert(masks@[d] == above[d]);
                assert(query@.take(d + 1) =~= typed.take(d + 1));
            }
        }
        *self = FilterEngine { items, masks, query };
    }

    /// Applies one change of the query, and says whether it was applied: a
    /// deletion always is, a character where `try_append` takes it.
    pub fn update_filter(&mut self, update: FilterUpdate) -> (applied: bool)
        ensures
            update matches FilterUpdate::Append { c } ==> {
                &&& applied == old(self)@.accepts_input()
                &&& applied ==> final(self)@ == old(self)@.append(c)
                &&& !applied ==> final(self)@ == old(self)@
            },
            update is Backspace ==> applied && final(self)@ == old(self)@.backspace(),
    {
        match update {
            FilterUpdate::Append { c } => self.try_append(c),
            FilterUpdate::Backspace => {
                self.backspace();
                true
            },
        }
    }

    /// The texts of the current view, in order.
    pub fn view_texts(&self) -> (texts: Vec<String>)
        ensures
            texts@.len() == self@.mask().len(),
            forall|k: int| 0 <= k < texts@.len() ==> (#[trigger] texts@[k])@ == self@.text_at(k),
    {
        proof {
            use_type_invariant(self);
            self.lemma_top();
        }
        let mask = self.current_mask();
        let mut texts: Vec<String> = Vec::new();
        let mut k: usize = 0;
        while k < mask.len()
            invariant
                k <= mask.len(),
                mask@ == self@.mask(),
                ordered_below(mask@, self.items@.len() as nat),
                texts@.len() == k,
                forall|j: int| 0 <= j < k ==> (#[trigger] texts@[j])@ == self@.text_at(j),
            decreases mask.len() - k,
        {
            let index: usize = mask[k];
            proof {
                assert(lines_of(self.items@)[index as int] == self.items@[index as int]@);
            }
            texts.push(self.items[index].clone());
            k += 1;
        }
        texts
    }
}

} // verus!
