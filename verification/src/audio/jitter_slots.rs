//! A ring of slots, each for the sequence numbers of one residue class.
use vstd::arithmetic::div_mod::{lemma_fundamental_div_mod, lemma_mod_bound};
use vstd::prelude::*;

verus! {

/// What a ring of slots holds: the item of sequence number `k` stands in slot `k % capacity`.
pub open spec fn slot_items<T>(slots: Seq<Option<(u128, T)>>) -> Map<int, T> {
    Map::new(
        |k: int| holds(slots, k),
        |k: int| (slots[k % slots.len() as int]->0).1,
    )
}

/// Whether the slot of sequence number `k` holds the item of `k`.
pub open spec fn holds<T>(slots: Seq<Option<(u128, T)>>, k: int) -> bool {
    0 <= k && 0 < slots.len() && slots[k % slots.len() as int] is Some && (slots[k
        % slots.len() as int]->0).0 == k
}

/// Every occupied slot is the slot of the number that it holds.
pub open spec fn aligned<T>(slots: Seq<Option<(u128, T)>>) -> bool {
    forall|i: int|
        0 <= i < slots.len() && (#[trigger] slots[i]) is Some ==> (slots[i]->0).0 as int
            % slots.len() as int == i
}

/// Emptying a slot removes the item that it held.
pub(crate) proof fn emptied_slot<T>(slots: Seq<Option<(u128, T)>>, i: int)
    requires
        aligned(slots),
        0 <= i < slots.len(),
        slots[i] is Some,
    ensures
        aligned(slots.update(i, None)),
        slot_items(slots).dom().contains((slots[i]->0).0 as int),
        slot_items(slots)[(slots[i]->0).0 as int] == (slots[i]->0).1,
        slot_items(slots.update(i, None)) =~= slot_items(slots).remove((slots[i]->0).0 as int),
{
    let after = slots.update(i, None);
    let seq = (slots[i]->0).0 as int;
    assert(seq % slots.len() as int == i);
    assert forall|k: int| holds(after, k) <==> holds(slots, k) && k != seq by {
        if 0 <= k {
            lemma_mod_bound(k, slots.len() as int);
        }
    }
    assert forall|k: int| holds(after, k) implies (after[k % slots.len() as int]->0).1 == (slots[k
        % slots.len() as int]->0).1 by {
        lemma_mod_bound(k, slots.len() as int);
    }
}

/// Filling the free slot of `seq` adds its item.
pub(crate) proof fn filled_slot<T>(slots: Seq<Option<(u128, T)>>, seq: u128, data: T)
    requires
        aligned(slots),
        0 < slots.len(),
        slots[seq as int % slots.len() as int] is None,
    ensures
        ({
            let i = seq as int % slots.len() as int;
            let after = slots.update(i, Some((seq, data)));
            &&& aligned(after)
            &&& !slot_items(slots).dom().contains(seq as int)
            &&& slot_items(after) =~= slot_items(slots).insert(seq as int, data)
        }),
{
    let n = slots.len() as int;
    let i = seq as int % n;
    lemma_mod_bound(seq as int, n);
    let after = slots.update(i, Some((seq, data)));
    assert forall|k: int| holds(after, k) <==> holds(slots, k) || k == seq by {
        if 0 <= k {
            lemma_mod_bound(k, n);
        }
    }
    assert forall|k: int| holds(after, k) implies (after[k % n]->0).1 == slot_items(slots).insert(
        seq as int,
        data,
    )[k] by {
        lemma_mod_bound(k, n);
    }
}

/// In a window no wider than the ring a slot can only hold the number that it is asked for.
pub(crate) proof fn slot_is_unique<T>(slots: Seq<Option<(u128, T)>>, head: int, seq: int)
    requires
        aligned(slots),
        0 < slots.len(),
        0 <= head <= seq < head + slots.len(),
        forall|k: int| #[trigger]
            slot_items(slots).dom().contains(k) ==> head <= k < head + slots.len(),
        slots[seq % slots.len() as int] is Some,
    ensures
        (slots[seq % slots.len() as int]->0).0 == seq,
{
    let n = slots.len() as int;
    let i = seq % n;
    lemma_mod_bound(seq, n);
    emptied_slot(slots, i);
    let held = (slots[i]->0).0 as int;
    assert(head <= held < head + n);
    lemma_fundamental_div_mod(held, n);
    lemma_fundamental_div_mod(seq, n);
    assert(held == seq) by (nonlinear_arith)
        requires
            held == n * (held / n) + held % n,
            seq == n * (seq / n) + seq % n,
            held % n == seq % n,
            -n < held - seq < n,
            0 < n,
    ;
}

/// A ring of free slots.
pub(crate) fn empty_slots<T>(count: usize) -> (slots: Vec<Option<(u128, T)>>)
    requires
        count > 0,
    ensures
        slots@.len() == count,
        aligned(slots@),
        slot_items(slots@) =~= Map::empty(),
{
    let mut slots: Vec<Option<(u128, T)>> = Vec::with_capacity(count);
    while slots.len() < count
        invariant
            slots.len() <= count,
            forall|i: int| 0 <= i < slots.len() ==> (#[trigger] slots[i]) is None,
        decreases count - slots.len(),
    {
        slots.push(None);
    }
    proof {
        assert forall|k: int| !holds(slots@, k) by {
            if 0 <= k {
                lemma_mod_bound(k, slots@.len() as int);
            }
        }
    }
    slots
}

/// Empties every slot whose number is below `new_head`. Returns how many there were, and
/// `current_size` less that many.
pub(crate) fn evict_stale<T>(
    slots: &mut Vec<Option<(u128, T)>>,
    new_head: u128,
    current_size: usize,
) -> (counts: (usize, usize))
    requires
        aligned(old(slots)@),
        slot_items(old(slots)@).dom().finite(),
        current_size == slot_items(old(slots)@).dom().len(),
    ensures
        final(slots)@.len() == old(slots)@.len(),
        aligned(final(slots)@),
        ({
            let before = slot_items(old(slots)@);
            let stale = before.dom().filter(|k: int| k < new_head);
            &&& slot_items(final(slots)@) =~= before.remove_keys(stale)
            &&& counts.0 == stale.len()
            &&& counts.1 == slot_items(final(slots)@).dom().len()
        }),
{
    let ghost before = slot_items(slots@);
    let ghost stale = before.dom().filter(|k: int| k < new_head);
    let ghost mut gone: Set<int> = Set::empty();
    let mut dropped: usize = 0;
    let mut left: usize = current_size;
    let mut i: usize = 0;
    proof {
        assert(before.remove_keys(gone) =~= before);
    }
    while i < slots.len()
        invariant
            i <= slots.len(),
            slots.len() == old(slots).len(),
            aligned(slots@),
            before == slot_items(old(slots)@),
            before.dom().finite(),
            stale == before.dom().filter(|k: int| k < new_head),
            gone.subset_of(stale),
            gone.finite(),
            slot_items(slots@) =~= before.remove_keys(gone),
            slot_items(slots@).dom().finite(),
            dropped == gone.len(),
            left == slot_items(slots@).dom().len(),
            dropped + left == current_size,
            forall|j: int|
                0 <= j < i && (#[trigger] slots[j]) is Some ==> (slots[j]->0).0 >= new_head,
        decreases slots.len() - i,
    {
        let stale_slot: bool = match &slots[i] {
            Some(entry) => entry.0 < new_head,
            None => false,
        };
        if stale_slot {
            let ghost seq = (slots[i as int]->0).0 as int;
            proof {
                emptied_slot(slots@, i as int);
                assert(before.dom().contains(seq) && !gone.contains(seq));
                assert(before.remove_keys(gone).remove(seq) =~= before.remove_keys(
                    gone.insert(seq),
                ));
                gone = gone.insert(seq);
            }
            slots[i] = None;
            left = left - 1;
            dropped = dropped + 1;
        }
        i = i + 1;
    }
    proof {
        assert forall|k: int| stale.contains(k) implies gone.contains(k) by {
            if !gone.contains(k) {
                assert(slot_items(slots@).dom().contains(k));
                assert(holds(slots@, k));
                let n = slots@.len() as int;
                lemma_mod_bound(k, n);
                assert(slots[k % n] is Some);
            }
        }
        assert(gone =~= stale);
    }
    (dropped, left)
}

} // verus!
