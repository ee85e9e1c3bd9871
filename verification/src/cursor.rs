//! The selection cursor: a plain index into the current view, which wraps
//! round at both ends and is held to the view only when it is used.

use crate::engine::{EngineView, FilterEngine};
use vstd::arithmetic::div_mod::{
    lemma_add_mod_noop, lemma_mod_add_multiples_vanish, lemma_mod_bound, lemma_mod_self_0,
    lemma_mod_sub_multiples_vanish, lemma_small_mod, lemma_sub_mod_noop,
};
use vstd::prelude::*;

verus! {

/// An index that is past a view of `len` lines counts as standing just past
/// its last line.
pub open spec fn held_to(index: int, len: int) -> int {
    if index < len {
        index
    } else {
        len
    }
}

/// Where the cursor stands after one step down in a view of `len` lines: one
/// further, and at the first line after the last. In an empty view it stays.
pub open spec fn index_after_down(index: int, len: int) -> int {
    if len <= 0 {
        index
    } else {
        (held_to(index, len) + 1) % len
    }
}

/// Where the cursor stands after one step up in a view of `len` lines: one
/// back, and at the last line before the first. In an empty view it stays.
pub open spec fn index_after_up(index: int, len: int) -> int {
    if len <= 0 {
        index
    } else if held_to(index, len) == 0 {
        len - 1
    } else {
        held_to(index, len) - 1
    }
}

/// Where the cursor stands after `steps` steps down.
pub open spec fn index_after_downs(index: int, len: int, steps: nat) -> int
    decreases steps,
{
    if steps == 0 {
        index
    } else {
        index_after_down(index_after_downs(index, len, (steps - 1) as nat), len)
    }
}

/// Where the cursor stands after `steps` steps up.
pub open spec fn index_after_ups(index: int, len: int, steps: nat) -> int
    decreases steps,
{
    if steps == 0 {
        index
    } else {
        index_after_up(index_after_ups(index, len, (steps - 1) as nat), len)
    }
}

/// What a commit gives: the text under the cursor where the cursor stands on
/// a line of the current view, and the query as it was typed where it does
/// not.
pub open spec fn commit_text(engine: EngineView, index: int) -> Seq<char> {
    if 0 <= index < engine.mask().len() {
        engine.text_at(index)
    } else {
        engine.query
    }
}

/// From a line of the view, `steps` steps down lead to the line that many
/// further on, counted round the view.
pub proof fn lemma_downs_add(index: int, len: int, steps: nat)
    requires
        0 <= index < len,
    ensures
        index_after_downs(index, len, steps) == (index + steps) % len,
    decreases steps,
{
    if steps == 0 {
        lemma_small_mod(index as nat, len as nat);
    } else {
        lemma_downs_add(index, len, (steps - 1) as nat);
        let before = index_after_downs(index, len, (steps - 1) as nat);
        assert(before == (index + steps - 1) % len);
        assert(0 <= before < len);
        lemma_add_mod_noop(index + steps - 1, 1, len);
        if len == 1 {
            assert((before + 1) % len == 0);
            assert((index + steps) % len == 0);
        } else {
            lemma_small_mod(1, len as nat);
        }
    }
}

/// From a line of the view, `steps` steps up lead to the line that many
/// before, counted round the view.
pub proof fn lemma_ups_sub(index: int, len: int, steps: nat)
    requires
        0 <= index < len,
    ensures
        index_after_ups(index, len, steps) == (index - steps) % len,
    decreases steps,
{
    if steps == 0 {
        lemma_small_mod(index as nat, len as nat);
    } else {
        lemma_ups_sub(index, len, (steps - 1) as nat);
        let before = index_after_ups(index, len, (steps - 1) as nat);
        assert(before == (index - steps + 1) % len);
        assert(0 <= before < len);
        lemma_sub_mod_noop(index - steps + 1, 1, len);
        if len == 1 {
            assert(index_after_up(before, len) == 0);
            assert((index - steps) % len == 0);
        } else {
            lemma_small_mod(1, len as nat);
            if before == 0 {
                assert((0 - 1) % len == len - 1) by {
                    lemma_small_mod((len - 1) as nat, len as nat);
                    lemma_mod_add_multiples_vanish(-1, len);
                }
            } else {
                lemma_small_mod((before - 1) as nat, len as nat);
            }
        }
    }
}

/// As many steps down as the view has lines bring the cursor back to the line
/// it stood on.
pub proof fn lemma_down_cycle(index: int, len: int)
    requires
        0 <= index < len,
    ensures
        index_after_downs(index, len, len as nat) == index,
{
    lemma_downs_add(index, len, len as nat);
    lemma_mod_add_multiples_vanish(index, len);
    lemma_small_mod(index as nat, len as nat);
}

/// As many steps up as the view has lines bring the cursor back to the line
/// it stood on.
pub proof fn lemma_up_cycle(index: int, len: int)
    requires
        0 <= index < len,
    ensures
        index_after_ups(index, len, len as nat) == index,
{
    lemma_ups_sub(index, len, len as nat);
    lemma_mod_sub_multiples_vanish(index, len);
    lemma_small_mod(index as nat, len as nat);
}

/// Steps in an empty view, however many, leave the cursor fit for use: the
/// next step in a view that has lines ends on one of them.
pub proof fn lemma_usable_after_empty_view(index: int, idle: nat, len: int)
    requires
        0 <= index,
        0 < len,
    ensures
        index_after_downs(index, 0, idle) == index,
        index_after_ups(index, 0, idle) == index,
        0 <= index_after_down(index_after_downs(index, 0, idle), len) < len,
        0 <= index_after_up(index_after_ups(index, 0, idle), len) < len,
    decreases idle,
{
    if idle > 0 {
        lemma_usable_after_empty_view(index, (idle - 1) as nat, len);
    }
    lemma_mod_bound(held_to(index, len) + 1, len);
}

/// The cursor over the current view. Its index is not held to the view when
/// the view shrinks: a cursor that is out of range for a while comes back into
/// range when the view grows again, and is held to the view only where it is
/// moved or committed.
#[derive(Clone, Copy, Debug, PartialEq, Eq, Structural)]
pub struct SelectionCursor {
    pub index: usize,
}

impl SelectionCursor {
    /// A cursor on the first line.
    pub fn new() -> (cursor: SelectionCursor)
        ensures
            cursor.index == 0,
    {
        SelectionCursor { index: 0 }
    }

    /// One step down in a view of `len` lines. In an empty view nothing
    /// moves; in any other the cursor ends on a line of the view.
    pub fn move_down(&mut self, len: usize)
        ensures
            final(self).index == index_after_down(old(self).index as int, len as int),
            len == 0 ==> final(self).index == old(self).index,
            len > 0 ==> final(self).index < len,
            old(self).index + 1 < len ==> final(self).index == old(self).index + 1,
            len > 0 && old(self).index + 1 == len ==> final(self).index == 0,
    {
        if len == 0 {
            return ;
        }
        let held: usize = if self.index < len {
            self.index
        } else {
            len
        };
        proof {
            let m = len as int;
            if held + 1 < m {
                lemma_small_mod((held + 1) as nat, len as nat);
            } else if held + 1 == m {
                lemma_mod_self_0(m);
            } else {
                lemma_mod_add_multiples_vanish(1, m);
                if m == 1 {
                    lemma_mod_self_0(m);
                } else {
                    lemma_small_mod(1, len as nat);
                }
            }
        }
        self.index = if held < len - 1 {
            held + 1
        } else if held == len - 1 {
            0
        } else if len == 1 {
            0
        } else {
            1
        };
    }

    /// One step up in a view of `len` lines. In an empty view nothing moves;
    /// in any other the cursor ends on a line of the view.
    pub fn move_up(&mut self, len: usize)
        ensures
            final(self).index == index_after_up(old(self).index as int, len as int),
            len == 0 ==> final(self).index == old(self).index,
            len > 0 ==> final(self).index < len,
            0 < old(self).index < len ==> final(self).index == old(self).index - 1,
            len > 0 && old(self).index == 0 ==> final(self).index == len - 1,
    {
        if len == 0 {
            return ;
        }
        let held: usize = if self.index < len {
            self.index
        } else {
            len
        };
        self.index = if held == 0 {
            len - 1
        } else {
            held - 1
        };
    }

    /// The text that is picked: the line under the cursor where the cursor
    /// stands on a line of the engine's current view, as the view is now;
    /// the engine's query, as it was typed, where it does not.
    pub fn commit(&self, engine: &FilterEngine) -> (picked: String)
        ensures
            picked@ == commit_text(engine@, self.index as int),
            self.index >= engine@.mask().len() ==> picked@ == engine@.query,
    {
        match engine.text_at(self.index) {
            Some(text) => text.clone(),
            None => engine.query().clone(),
        }
    }
}

} // verus!
