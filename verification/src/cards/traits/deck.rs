use super::hash::{UniqueHash, UniqueHashT, ValueHash, ValueHashT};
use crate::rng::gen_range;
use vstd::prelude::*;
use vstd::seq_lib::{to_multiset_build, to_multiset_insert, to_multiset_remove, to_multiset_update};

verus! {

/// The cards of `slots` with those at `idx1` and `idx2` in each other's place.
pub open spec fn exchanged<C>(slots: Seq<C>, idx1: int, idx2: int) -> Seq<C> {
    slots.update(idx1, slots[idx2]).update(idx2, slots[idx1])
}

/// An exchange of two cards keeps every card: the multiset of the cards is as before.
pub proof fn lemma_exchanged_keeps_cards<C>(slots: Seq<C>, idx1: int, idx2: int)
    requires
        0 <= idx1 < slots.len(),
        0 <= idx2 < slots.len(),
    ensures
        exchanged(slots, idx1, idx2).to_multiset() == slots.to_multiset(),
        exchanged(slots, idx1, idx2).len() == slots.len(),
{
    let half = slots.update(idx1, slots[idx2]);
    to_multiset_update(slots, idx1, slots[idx2]);
    to_multiset_update(half, idx2, slots[idx1]);
    slots.to_multiset_ensures();
    assert(slots.to_multiset().count(slots[idx1]) > 0);
    assert(slots.to_multiset().count(slots[idx2]) > 0);
    assert(exchanged(slots, idx1, idx2).to_multiset() =~= slots.to_multiset());
}

/// The tokens of the cards, slot by slot.
pub open spec fn unique_hashes<C: UniqueHash>(slots: Seq<C>) -> Seq<UniqueHashT> {
    slots.map_values(|card: C| card.unique_hash_spec())
}

/// The value identities of the cards, slot by slot.
pub open spec fn value_hashes<C: ValueHash>(slots: Seq<C>) -> Seq<ValueHashT> {
    slots.map_values(|card: C| card.value_hash_spec())
}

/// Two rows of the same things are rows of the same things still when each thing is seen
/// through `f`.
pub proof fn lemma_map_keeps_multiset<A, B>(before: Seq<A>, after: Seq<A>, f: spec_fn(A) -> B)
    requires
        before.to_multiset() == after.to_multiset(),
    ensures
        before.map_values(f).to_multiset() == after.map_values(f).to_multiset(),
    decreases before.len(),
{
    before.to_multiset_ensures();
    after.to_multiset_ensures();
    if before.len() == 0 {
        assert(before.map_values(f) =~= after.map_values(f));
    } else {
        let last = before.last();
        let head = before.drop_last();
        assert(before =~= head.push(last));
        to_multiset_build(head, last);
        assert(before.to_multiset().count(last) > 0);
        assert(after.contains(last));
        let at = choose|at: int| 0 <= at < after.len() && after[at] == last;
        let rest = after.remove(at);
        to_multiset_remove(after, at);
        assert(head.to_multiset() =~= before.to_multiset().remove(last));
        lemma_map_keeps_multiset(head, rest, f);
        assert(before.map_values(f) =~= head.map_values(f).push(f(last)));
        to_multiset_build(head.map_values(f), f(last));
        assert(after.map_values(f) =~= rest.map_values(f).insert(at, f(last)));
        to_multiset_insert(rest.map_values(f), at, f(last));
    }
}

/// Two rows of the same cards carry the same tokens: a token is neither lost nor made where
/// cards only change places.
pub proof fn lemma_same_cards_same_unique_hashes<C: UniqueHash>(before: Seq<C>, after: Seq<C>)
    requires
        before.to_multiset() == after.to_multiset(),
    ensures
        unique_hashes(before).to_multiset() == unique_hashes(after).to_multiset(),
{
    lemma_map_keeps_multiset(before, after, |card: C| card.unique_hash_spec());
}

/// Two rows of the same cards hold each value identity as often as the other.
pub proof fn lemma_same_cards_same_value_hashes<C: ValueHash>(before: Seq<C>, after: Seq<C>)
    requires
        before.to_multiset() == after.to_multiset(),
    ensures
        value_hashes(before).to_multiset() == value_hashes(after).to_multiset(),
{
    lemma_map_keeps_multiset(before, after, |card: C| card.value_hash_spec());
}

/// A row of cards that can be shuffled.
pub trait Deck: Sized {
    /// What lies in a slot.
    type Card;

    /// The cards, slot by slot.
    spec fn slots(&self) -> Seq<Self::Card>;

    /// What a deck holds of itself between two operations.
    spec fn deck_inv(&self) -> bool;

    /// Whether the two decks differ in nothing but where their cards lie, and in what a deck
    /// keeps of that.
    spec fn same_but_cards(&self, other: &Self) -> bool;

    /// `same_but_cards` holds of a deck and itself, and carries over a deck in the middle.
    proof fn lemma_same_but_cards(&self, middle: &Self, other: &Self)
        ensures
            self.same_but_cards(self),
            self.same_but_cards(middle) && middle.same_but_cards(other) ==> self.same_but_cards(
                other,
            ),
    ;

    fn card_num(&self) -> (num: usize)
        ensures
            num == self.slots().len(),
    ;

    /// Exchanges the cards at `idx1` and `idx2`.
    fn swap(&mut self, idx1: usize, idx2: usize)
        requires
            old(self).deck_inv(),
            idx1 < old(self).slots().len(),
            idx2 < old(self).slots().len(),
        ensures
            final(self).deck_inv(),
            final(self).same_but_cards(old(self)),
            final(self).slots() == exchanged(old(self).slots(), idx1 as int, idx2 as int),
    ;

    /// Shuffles the whole deck: the same cards in an order that chance picks.
    fn shuffle(&mut self)
        requires
            old(self).deck_inv(),
        ensures
            final(self).deck_inv(),
            final(self).same_but_cards(old(self)),
            final(self).slots().len() == old(self).slots().len(),
            final(self).slots().to_multiset() == old(self).slots().to_multiset(),
    {
        self.shuffle_from(0);
    }

    /// Shuffles the cards from `start_idx` on among themselves. The cards before `start_idx`
    /// stay where they are, and the deck holds the same cards as before.
    fn shuffle_from(&mut self, start_idx: usize)
        requires
            old(self).deck_inv(),
        ensures
            final(self).deck_inv(),
            final(self).same_but_cards(old(self)),
            final(self).slots().len() == old(self).slots().len(),
            final(self).slots().to_multiset() == old(self).slots().to_multiset(),
            forall|idx: int|
                0 <= idx < start_idx && idx < old(self).slots().len() ==> final(self).slots()[idx]
                    == old(self).slots()[idx],
    {
        let card_num = self.card_num();
        proof {
            self.lemma_same_but_cards(self, self);
        }
        let mut idx = start_idx;
        while idx < card_num
            invariant
                start_idx <= idx,
                card_num == self.slots().len(),
                self.deck_inv(),
                self.same_but_cards(old(self)),
                self.slots().len() == old(self).slots().len(),
                self.slots().to_multiset() == old(self).slots().to_multiset(),
                forall|kept: int|
                    0 <= kept < start_idx && kept < card_num ==> self.slots()[kept] == old(
                        self,
                    ).slots()[kept],
            decreases card_num - idx,
        {
            let mut rng = rand::thread_rng();
            let target_idx = gen_range(&mut rng, idx, card_num);
            let ghost before = *self;
            self.swap(idx, target_idx);
            proof {
                lemma_exchanged_keeps_cards(before.slots(), idx as int, target_idx as int);
                self.lemma_same_but_cards(&before, old(self));
            }
            idx += 1;
        }
    }
}

} // verus!
