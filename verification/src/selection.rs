//! Circular movement of a selection cursor over a list of entries.
//!
//! A cursor is either absent or the position of one entry. Everything here is
//! stated over mathematical integers; [`cursor`] carries a machine index over.

use vstd::prelude::*;
use vstd::arithmetic::div_mod::{lemma_mod_self_0, lemma_small_mod};

verus! {

/// The mathematical value of a machine-level cursor.
pub open spec fn cursor(selected: Option<usize>) -> Option<int> {
    match selected {
        Some(i) => Some(i as int),
        None => None,
    }
}

/// A cursor over `len` entries is absent or points at one of them.
pub open spec fn valid_selection(selected: Option<int>, len: int) -> bool {
    selected matches Some(i) ==> 0 <= i < len
}

/// The cursor one step forward: onto the first entry when absent, back to the
/// first entry after the last. Over no entries the cursor stays absent.
pub open spec fn next_selection(selected: Option<int>, len: int) -> Option<int> {
    if len <= 0 {
        None
    } else {
        match selected {
            Some(i) => Some((i + 1) % len),
            None => Some(0),
        }
    }
}

/// The cursor one step backward: onto the last entry when absent, on to the
/// last entry before the first. Over no entries the cursor stays absent.
pub open spec fn previous_selection(selected: Option<int>, len: int) -> Option<int> {
    if len <= 0 {
        None
    } else {
        match selected {
            Some(i) => Some((i - 1 + len) % len),
            None => Some(len - 1),
        }
    }
}

/// The cursor after `times` steps forward.
pub open spec fn next_times(selected: Option<int>, len: int, times: nat) -> Option<int>
    decreases times,
{
    if times == 0 {
        selected
    } else {
        next_selection(next_times(selected, len, (times - 1) as nat), len)
    }
}

/// Stepping keeps a cursor valid, whatever it was before.
pub proof fn lemma_steps_stay_valid(selected: Option<int>, len: int)
    ensures
        valid_selection(next_selection(selected, len), len),
        valid_selection(previous_selection(selected, len), len),
{
}

/// Over no entries a step in either direction leaves the cursor absent.
pub proof fn lemma_steps_over_nothing(selected: Option<int>)
    ensures
        next_selection(selected, 0) is None,
        previous_selection(selected, 0) is None,
{
}

/// On a valid cursor the forward step is: first entry when absent or on the
/// last entry, else the entry after.
pub proof fn lemma_next_unfolded(selected: Option<int>, len: int)
    requires
        len > 0,
        valid_selection(selected, len),
    ensures
        selected is None ==> next_selection(selected, len) == Some(0int),
        selected == Some(len - 1) ==> next_selection(selected, len) == Some(0int),
        selected matches Some(i) ==> i < len - 1 ==> next_selection(selected, len) == Some(i + 1),
{
    if let Some(i) = selected {
        if i == len - 1 {
            lemma_mod_self_0(len);
        } else {
            lemma_small_mod((i + 1) as nat, len as nat);
        }
    }
}

/// On a valid cursor the backward step is: last entry when absent or on the
/// first entry, else the entry before.
pub proof fn lemma_previous_unfolded(selected: Option<int>, len: int)
    requires
        len > 0,
        valid_selection(selected, len),
    ensures
        selected is None ==> previous_selection(selected, len) == Some(len - 1),
        selected == Some(0int) ==> previous_selection(selected, len) == Some(len - 1),
        selected matches Some(i) ==> i > 0 ==> previous_selection(selected, len) == Some(i - 1),
{
    if let Some(i) = selected {
        if i == 0 {
            lemma_small_mod((len - 1) as nat, len as nat);
        } else {
            assert((i - 1 + len) % len == i - 1) by {
                lemma_small_mod((i - 1) as nat, len as nat);
                vstd::arithmetic::div_mod::lemma_mod_add_multiples_vanish(i - 1, len);
            }
        }
    }
}

/// A step backward undoes a step forward, and a step forward undoes a step
/// backward, wherever the cursor points at an entry.
pub proof fn lemma_steps_are_inverse(i: int, len: int)
    requires
        0 <= i < len,
    ensures
        previous_selection(next_selection(Some(i), len), len) == Some(i),
        next_selection(previous_selection(Some(i), len), len) == Some(i),
{
    lemma_next_unfolded(Some(i), len);
    lemma_previous_unfolded(Some(i), len);
    lemma_previous_unfolded(next_selection(Some(i), len), len);
    lemma_next_unfolded(previous_selection(Some(i), len), len);
}

/// Starting with nothing selected over `len > 0` entries, step number `times`
/// lands on entry `(times - 1) mod len`.
pub proof fn lemma_next_times_from_none(len: int, times: nat)
    requires
        len > 0,
        times > 0,
    ensures
        next_times(None, len, times) == Some((times - 1) % len),
    decreases times,
{
    if times == 1 {
        assert(next_times(None, len, 0) == None::<int>);
        lemma_small_mod(0, len as nat);
    } else {
        lemma_next_times_from_none(len, (times - 1) as nat);
        let before: int = (times - 2) % len;
        assert(next_times(None, len, (times - 1) as nat) == Some(before));
        assert((before + 1) % len == (times - 1) % len) by {
            vstd::arithmetic::div_mod::lemma_add_mod_noop_right(1, times - 2, len);
        }
    }
}

/// A full circular traversal: starting with nothing selected over `len > 0`
/// entries, the first `len` steps forward visit the entries `0, 1, .., len - 1`
/// in this order, each exactly once, and the step after them is back on entry
/// `0`.
pub proof fn lemma_next_traverses_all(len: int)
    requires
        len > 0,
    ensures
        forall|k: nat| 1 <= k <= len ==> #[trigger] next_times(None, len, k) == Some(k - 1),
        next_times(None, len, (len + 1) as nat) == Some(0int),
{
    assert forall|k: nat| 1 <= k <= len implies #[trigger] next_times(None, len, k) == Some(
        k - 1,
    ) by {
        lemma_next_times_from_none(len, k);
        lemma_small_mod((k - 1) as nat, len as nat);
    }
    lemma_next_times_from_none(len, (len + 1) as nat);
    lemma_mod_self_0(len);
}

} // verus!
