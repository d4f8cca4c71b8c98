//! Facts about counting the set flags of a history.
use crate::model::{all_clear, bit, clear_history, match_count, next_cursor};
use vstd::prelude::*;

verus! {

/// In a ring of `len` slots the slot after `cursor` is the next one, or the
/// first one after the last.
pub proof fn lemma_small_step(cursor: nat, len: nat)
    requires
        cursor < len,
    ensures
        next_cursor(cursor, len) == if cursor + 1 < len { cursor + 1 } else { 0 },
        next_cursor(cursor, len) < len,
{
    if cursor + 1 < len {
        vstd::arithmetic::div_mod::lemma_small_mod(cursor + 1, len);
    } else {
        vstd::arithmetic::div_mod::lemma_mod_self_0(len as int);
    }
}

/// A history counts no more set flags than it has slots.
pub proof fn lemma_count_bounded(history: Seq<bool>)
    ensures
        match_count(history) <= history.len(),
    decreases history.len(),
{
    if history.len() > 0 {
        lemma_count_bounded(history.drop_last());
    }
}

/// A history counts zero exactly if no flag is set.
pub proof fn lemma_count_zero(history: Seq<bool>)
    ensures
        match_count(history) == 0 <==> all_clear(history),
    decreases history.len(),
{
    if history.len() > 0 {
        lemma_count_zero(history.drop_last());
        if all_clear(history) {
            assert(!history[history.len() - 1]);
            assert forall|i: int| 0 <= i < history.drop_last().len() implies !history.drop_last()[i] by {
                assert(history.drop_last()[i] == history[i]);
            }
        }
        if match_count(history) == 0 {
            assert forall|i: int| 0 <= i < history.len() implies !history[i] by {
                if i < history.len() - 1 {
                    assert(history.drop_last()[i] == history[i]);
                }
            }
        }
    }
}

/// A cleared history counts zero.
pub proof fn lemma_clear_history_counts_zero(len: nat)
    ensures
        match_count(clear_history(len)) == 0,
{
    lemma_count_zero(clear_history(len));
}

/// A flag appended to a history adds itself to the count.
pub proof fn lemma_count_push(history: Seq<bool>, flag: bool)
    ensures
        match_count(history.push(flag)) == match_count(history) + bit(flag),
{
    assert(history.push(flag).drop_last() =~= history);
}

/// Writing a slot takes the slot's old flag out of the count and puts the
/// new one in.
pub proof fn lemma_count_update(history: Seq<bool>, slot: int, flag: bool)
    requires
        0 <= slot < history.len(),
    ensures
        match_count(history.update(slot, flag)) + bit(history[slot]) == match_count(history) + bit(
            flag,
        ),
    decreases history.len(),
{
    let written = history.update(slot, flag);
    if slot == history.len() - 1 {
        assert(written.drop_last() =~= history.drop_last());
    } else {
        lemma_count_update(history.drop_last(), slot, flag);
        assert(written.drop_last() =~= history.drop_last().update(slot, flag));
    }
}

/// Dropping the oldest flag of a sequence takes it out of the count.
pub proof fn lemma_count_drop_first(all: Seq<bool>)
    requires
        all.len() > 0,
    ensures
        match_count(all.drop_first()) + bit(all[0]) == match_count(all),
    decreases all.len(),
{
    if all.len() == 1 {
        assert(all.drop_last() =~= Seq::<bool>::empty());
        assert(all.drop_first() =~= Seq::<bool>::empty());
    } else {
        lemma_count_drop_first(all.drop_last());
        assert(all.drop_first().drop_last() =~= all.drop_last().drop_first());
    }
}

} // verus!
