//! The positional index of a shoe: for each value identity the rising list of the slots that
//! hold a card of it, with the search in such a list and the move of one of its entries.

use super::traits::hash::{ValueHash, ValueHashT};
use vstd::pervasive::unreached;
use vstd::prelude::*;

verus! {

/// Whether the list rises from each entry to the next.
pub open spec fn ascending(list: Seq<usize>) -> bool {
    forall|lower: int, upper: int| 0 <= lower < upper < list.len() ==> list[lower] < list[upper]
}

/// The slots that `card_map` lists under `hash`: none where it has no such key.
pub open spec fn list_of(card_map: Map<ValueHashT, Seq<usize>>, hash: ValueHashT) -> Seq<usize> {
    if card_map.contains_key(hash) {
        card_map[hash]
    } else {
        Seq::empty()
    }
}

/// Whether `card_map` tells where the cards of `slots` lie: under each value identity it
/// lists, in rising order, the slots that hold a card of that identity, and no others. It
/// has no key for a value identity that no card is of.
pub open spec fn indexes<C: ValueHash>(
    card_map: Map<ValueHashT, Seq<usize>>,
    slots: Seq<C>,
) -> bool {
    forall|hash: ValueHashT|
        {
            &&& ascending(#[trigger] list_of(card_map, hash))
            &&& card_map.contains_key(hash) ==> list_of(card_map, hash).len() > 0
            &&& forall|slot: usize|
                #[trigger] list_of(card_map, hash).contains(slot) <==> slot < slots.len()
                    && slots[slot as int].value_hash_spec() == hash
        }
}

/// The first slot at or after `after` that holds a card of value identity `hash`, and the
/// number of slots where there is none.
pub open spec fn first_after<C: ValueHash>(slots: Seq<C>, hash: ValueHashT, after: int) -> int
    decreases slots.len() - after,
{
    if after >= slots.len() {
        slots.len() as int
    } else if after >= 0 && slots[after].value_hash_spec() == hash {
        after
    } else {
        first_after(slots, hash, after + 1)
    }
}

/// What `first_after` finds, from a slot `after` of the shoe or its end: a slot that is not
/// before `after`, that holds a card of the value identity where it is a slot at all, and
/// that no card of that identity precedes from `after` on.
pub proof fn lemma_first_after<C: ValueHash>(slots: Seq<C>, hash: ValueHashT, after: int)
    requires
        0 <= after <= slots.len(),
    ensures
        after <= first_after(slots, hash, after) <= slots.len(),
        first_after(slots, hash, after) < slots.len() ==> slots[first_after(
            slots,
            hash,
            after,
        )].value_hash_spec() == hash,
        forall|slot: int|
            after <= slot < first_after(slots, hash, after) ==> slots[slot].value_hash_spec()
                != hash,
    decreases slots.len() - after,
{
    if after < slots.len() && slots[after].value_hash_spec() != hash {
        lemma_first_after(slots, hash, after + 1);
    }
}

/// There is one slot only that `first_after` can find: a slot, or the end of the shoe, is
/// what it finds where it is not before `after`, holds a card of the value identity unless
/// it is the end, and has no card of that identity between `after` and itself.
pub proof fn lemma_first_after_unique<C: ValueHash>(
    slots: Seq<C>,
    hash: ValueHashT,
    after: int,
    found: int,
)
    requires
        0 <= after <= found <= slots.len(),
        found < slots.len() ==> slots[found].value_hash_spec() == hash,
        forall|slot: int| after <= slot < found ==> slots[slot].value_hash_spec() != hash,
    ensures
        first_after(slots, hash, after) == found,
    decreases found - after,
{
    if after < found {
        lemma_first_after_unique(slots, hash, after + 1, found);
    }
}

/// Whether `after` is `before` with `to` in the place of `from`: unchanged where the two are
/// one slot or `before` lists `to` already, and else the rising list of what `before` lists,
/// without `from` and with `to`.
pub open spec fn relocated(before: Seq<usize>, after: Seq<usize>, from: usize, to: usize) -> bool {
    if from == to || before.contains(to) {
        after == before
    } else {
        &&& after.len() == before.len()
        &&& ascending(after)
        &&& forall|slot: usize|
            #[trigger] after.contains(slot) <==> slot == to || (before.contains(slot) && slot
                != from)
    }
}

/// Taking the entry at `from_at` out of a rising list and putting `to` where it belongs
/// relocates that entry to `to`.
proof fn lemma_remove_insert_relocates(before: Seq<usize>, from_at: int, to_at: int, to: usize)
    requires
        ascending(before),
        0 <= from_at < before.len(),
        0 <= to_at < before.len(),
        !before.contains(to),
        forall|k: int| 0 <= k < to_at ==> before.remove(from_at)[k] < to,
        forall|k: int| to_at <= k < before.len() - 1 ==> before.remove(from_at)[k] > to,
    ensures
        relocated(before, before.remove(from_at).insert(to_at, to), before[from_at], to),
{
    let from = before[from_at];
    let without = before.remove(from_at);
    let after = without.insert(to_at, to);
    assert(ascending(after));
    assert forall|slot: usize| #[trigger]
        after.contains(slot) <==> slot == to || (before.contains(slot) && slot != from) by {
        if after.contains(slot) {
            let k = choose|k: int| 0 <= k < after.len() && after[k] == slot;
            if k < to_at {
                assert(without[k] == slot);
                assert(before[if k < from_at {
                    k
                } else {
                    k + 1
                }] == slot);
            } else if k > to_at {
                assert(without[k - 1] == slot);
                assert(before[if k - 1 < from_at {
                    k - 1
                } else {
                    k
                }] == slot);
            }
        }
        if slot == to {
            assert(after[to_at] == slot);
        }
        if before.contains(slot) && slot != from {
            let k = choose|k: int| 0 <= k < before.len() && before[k] == slot;
            let w = if k < from_at {
                k
            } else {
                k - 1
            };
            assert(without[w] == slot);
            assert(after[if w < to_at {
                w
            } else {
                w + 1
            }] == slot);
        }
    }
}

/// Looks `value` up in a rising list: `Ok` with the place where it stands, or `Err` with the
/// place where it would have to be put, which is the place of the first entry above it.
pub fn binary_search(list: &Vec<usize>, value: usize) -> (found: Result<usize, usize>)
    requires
        ascending(list@),
    ensures
        match found {
            Ok(at) => at < list@.len() && list@[at as int] == value,
            Err(at) => {
                &&& at <= list@.len()
                &&& forall|k: int| 0 <= k < at ==> list@[k] < value
                &&& forall|k: int| at <= k < list@.len() ==> list@[k] > value
            },
        },
{
    let mut low: usize = 0;
    let mut high: usize = list.len();
    while low < high
        invariant
            ascending(list@),
            low <= high <= list@.len(),
            forall|k: int| 0 <= k < low ==> list@[k] < value,
            forall|k: int| high <= k < list@.len() ==> list@[k] > value,
        decreases high - low,
    {
        let middle: usize = low + (high - low) / 2;
        let entry: usize = list[middle];
        if entry == value {
            return Ok(middle);
        } else if entry < value {
            low = middle + 1;
        } else {
            high = middle;
        }
    }
    Err(low)
}

/// Makes the entry `idx_from` of a rising list into `idx_to` and moves it to where the rising
/// order wants it: the entries between the two places shift by one. Where the list holds
/// `idx_to` already, or the two are one slot, nothing changes.
pub fn move_entry(card_map: &mut Vec<usize>, idx_from: usize, idx_to: usize)
    requires
        ascending(old(card_map)@),
        old(card_map)@.contains(idx_from),
    ensures
        relocated(old(card_map)@, final(card_map)@, idx_from, idx_to),
{
    let ghost before = card_map@;
    if idx_from == idx_to {
        return ;
    }
    let map_idx_from = match binary_search(card_map, idx_from) {
        Ok(idx) => idx,
        Err(idx) => {
            proof {
                let at = choose|at: int| 0 <= at < before.len() && before[at] == idx_from;
                assert(before[at] < idx_from || before[at] > idx_from);
            }
            unreached()
        },
    };
    let map_idx_to = match binary_search(card_map, idx_to) {
        Ok(_) => {
            // idx_from and idx_to are identical cards.
            return ;
        },
        Err(idx) => idx,
    };
    proof {
        assert(!before.contains(idx_to));
    }
    if map_idx_from < map_idx_to {
        let mut map_idx = map_idx_from;
        while map_idx < map_idx_to - 1
            invariant
                map_idx_from <= map_idx <= map_idx_to - 1,
                map_idx_to <= before.len(),
                card_map@.len() == before.len(),
                forall|k: int| 0 <= k < map_idx_from ==> card_map@[k] == before[k],
                forall|k: int| map_idx_from <= k < map_idx ==> card_map@[k] == before[k + 1],
                forall|k: int| map_idx <= k < before.len() ==> card_map@[k] == before[k],
            decreases map_idx_to - 1 - map_idx,
        {
            card_map[map_idx] = card_map[map_idx + 1];
            map_idx += 1;
        }
        card_map[map_idx_to - 1] = idx_to;
        proof {
            assert(card_map@ =~= before.remove(map_idx_from as int).insert(map_idx_to - 1, idx_to));
            lemma_remove_insert_relocates(before, map_idx_from as int, map_idx_to - 1, idx_to);
        }
    } else if map_idx_from > map_idx_to {
        let mut map_idx = map_idx_from;
        while map_idx > map_idx_to
            invariant
                map_idx_to <= map_idx <= map_idx_from < before.len(),
                card_map@.len() == before.len(),
                forall|k: int| 0 <= k <= map_idx ==> card_map@[k] == before[k],
                forall|k: int| map_idx < k <= map_idx_from ==> card_map@[k] == before[k - 1],
                forall|k: int| map_idx_from < k < before.len() ==> card_map@[k] == before[k],
            decreases map_idx - map_idx_to,
        {
            map_idx -= 1;
            card_map[map_idx + 1] = card_map[map_idx];
        }
        card_map[map_idx_to] = idx_to;
        proof {
            assert(card_map@ =~= before.remove(map_idx_from as int).insert(
                map_idx_to as int,
                idx_to,
            ));
            lemma_remove_insert_relocates(before, map_idx_from as int, map_idx_to as int, idx_to);
        }
    } else {
        // map_idx_from == map_idx_to
        card_map[map_idx_from] = idx_to;
        proof {
            assert(card_map@ =~= before.remove(map_idx_from as int).insert(
                map_idx_to as int,
                idx_to,
            ));
            lemma_remove_insert_relocates(before, map_idx_from as int, map_idx_to as int, idx_to);
        }
    }
}

} // verus!
