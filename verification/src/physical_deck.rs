use vstd::prelude::*;
use crate::card::{catalog_directions, catalog_name, Card, Edition, CATALOG_SIZE};
use crate::random_agent::random_below;

verus! {

/// The cards that were taken out of the box for a match.
#[derive(Debug)]
pub struct PhysicalDeck {
    pub cards: Vec<Card>,
}

/// Whether a card is the catalog card with the given index, as it comes out
/// of the box: not mirrored.
pub open spec fn is_catalog_card(card: Card, index: int) -> bool {
    &&& card.edition == Edition::Original
    &&& card.directions@ == catalog_directions(index)
    &&& card.name@ == catalog_name(index)
    &&& !card.is_mirrored
}

/// Whether `after` is what a deck holds once the catalog cards with the
/// given indices were laid on the cards `before` and the whole was turned
/// over: the new cards come first, the last of them foremost, and then the
/// earlier cards in reverse.
pub open spec fn turned_over(before: Seq<Card>, indices: Seq<u8>, after: Seq<Card>) -> bool {
    &&& after.len() == before.len() + indices.len()
    &&& forall|k: int|
        0 <= k < indices.len() ==> is_catalog_card(
            #[trigger] after[k],
            indices[indices.len() - 1 - k] as int,
        )
    &&& forall|k: int|
        0 <= k < before.len() ==> #[trigger] after[indices.len() + k] == before[before.len() - 1
            - k]
}

/// Laying cards on a deck and reversing the whole turns the deck over.
pub proof fn lemma_turned_over(
    before: Seq<Card>,
    indices: Seq<u8>,
    laid: Seq<Card>,
    after: Seq<Card>,
)
    requires
        laid.len() == before.len() + indices.len(),
        forall|k: int| 0 <= k < before.len() ==> #[trigger] laid[k] == before[k],
        forall|k: int|
            0 <= k < indices.len() ==> is_catalog_card(
                #[trigger] laid[before.len() + k],
                indices[k] as int,
            ),
        after == laid.reverse(),
    ensures
        turned_over(before, indices, after),
{
    assert forall|k: int| 0 <= k < indices.len() implies is_catalog_card(
        #[trigger] after[k],
        indices[indices.len() - 1 - k] as int,
    ) by {
        assert(after[k] == laid[before.len() + (indices.len() - 1 - k)]);
    }
    assert forall|k: int| 0 <= k < before.len() implies #[trigger] after[indices.len() + k]
        == before[before.len() - 1 - k] by {
        assert(after[indices.len() + k] == laid[before.len() - 1 - k]);
    }
}

/// How many of the catalog indices below `v` are not among `chosen`.
pub open spec fn unused_below(chosen: Seq<u8>, v: int) -> int
    decreases v,
{
    if v <= 0 {
        0
    } else {
        unused_below(chosen, v - 1) + if chosen.contains((v - 1) as u8) {
            0int
        } else {
            1int
        }
    }
}

/// Whether each index from position `from` on differs from all before it.
pub open spec fn fresh_from(indices: Seq<u8>, from: int) -> bool {
    forall|i: int, j: int| 0 <= i < j < indices.len() && from <= j ==> indices[i] != indices[j]
}

/// Whether `drawn` is a draw that completes `given` to `total` catalog
/// indices: it starts with `given`, and every index after that lies in the
/// catalog and differs from all before it.
pub open spec fn completes(given: Seq<u8>, total: int, drawn: Seq<u8>) -> bool {
    &&& drawn.len() == total
    &&& given.len() <= total
    &&& drawn.take(given.len() as int) == given
    &&& forall|k: int| given.len() <= k < total ==> (#[trigger] drawn[k]) < CATALOG_SIZE
    &&& fresh_from(drawn, given.len() as int)
}

/// One more chosen index takes at most one index out of the unused ones.
pub proof fn lemma_unused_after_push(chosen: Seq<u8>, x: u8, v: int)
    requires
        0 <= v <= 256,
    ensures
        unused_below(chosen.push(x), v) >= unused_below(chosen, v) - if x < v {
            1int
        } else {
            0int
        },
    decreases v,
{
    if v > 0 {
        lemma_unused_after_push(chosen, x, v - 1);
        let w = (v - 1) as u8;
        if chosen.contains(w) {
            let k = choose|k: int| 0 <= k < chosen.len() && chosen[k] == w;
            assert(chosen.push(x)[k] == w);
        } else if w != x {
            assert forall|k: int| 0 <= k < chosen.push(x).len() implies chosen.push(x)[k]
                != w by {
                if k < chosen.len() {
                    assert(chosen.push(x)[k] == chosen[k]);
                }
            }
        }
    }
}

/// Among the indices below `v`, at most as many are used as were chosen.
pub proof fn lemma_unused_count(chosen: Seq<u8>, v: int)
    requires
        0 <= v <= 256,
    ensures
        unused_below(chosen, v) >= v - chosen.len(),
    decreases chosen.len(),
{
    if chosen.len() == 0 {
        lemma_unused_of_none(chosen, v);
    } else {
        let shorter = chosen.drop_last();
        lemma_unused_count(shorter, v);
        assert(shorter.push(chosen.last()) =~= chosen);
        lemma_unused_after_push(shorter, chosen.last(), v);
    }
}

/// While nothing is chosen, every index is unused.
pub proof fn lemma_unused_of_none(chosen: Seq<u8>, v: int)
    requires
        chosen.len() == 0,
        0 <= v,
    ensures
        unused_below(chosen, v) == v,
    decreases v,
{
    if v > 0 {
        lemma_unused_of_none(chosen, v - 1);
    }
}

impl PhysicalDeck {
    /// A deck without cards.
    pub fn new() -> (r: Self)
        ensures
            r.cards@.len() == 0,
    {
        Self { cards: Vec::with_capacity(5) }
    }

    /// Puts all cards back into the box.
    pub fn clear(&mut self)
        ensures
            final(self).cards@.len() == 0,
    {
        self.cards.clear();
    }

    /// Lays the catalog cards with the given indices on the deck, one after
    /// the other.
    fn lay(&mut self, indices: &Vec<u8>)
        requires
            forall|k: int| 0 <= k < indices@.len() ==> (#[trigger] indices@[k]) < CATALOG_SIZE,
        ensures
            final(self).cards@.len() == old(self).cards@.len() + indices@.len(),
            forall|k: int|
                0 <= k < old(self).cards@.len() ==> #[trigger] final(self).cards@[k] == old(
                    self,
                ).cards@[k],
            forall|k: int|
                0 <= k < indices@.len() ==> is_catalog_card(
                    #[trigger] final(self).cards@[old(self).cards@.len() + k],
                    indices@[k] as int,
                ),
    {
        let mut i: usize = 0;
        while i < indices.len()
            invariant
                i <= indices@.len(),
                forall|k: int| 0 <= k < indices@.len() ==> (#[trigger] indices@[k]) < CATALOG_SIZE,
                self.cards@.len() == old(self).cards@.len() + i,
                forall|k: int|
                    0 <= k < old(self).cards@.len() ==> #[trigger] self.cards@[k] == old(
                        self,
                    ).cards@[k],
                forall|k: int|
                    0 <= k < i ==> is_catalog_card(
                        #[trigger] self.cards@[old(self).cards@.len() + k],
                        indices@[k] as int,
                    ),
            decreases indices@.len() - i,
        {
            self.cards.push(Card::from_catalog(indices[i]));
            i += 1;
        }
    }

    /// Turns the deck over: the last card becomes the first.
    fn turn_over(&mut self)
        ensures
            final(self).cards@ == old(self).cards@.reverse(),
    {
        let n = self.cards.len();
        let mut turned: Vec<Card> = Vec::with_capacity(n);
        let mut i: usize = 0;
        while i < n
            invariant
                i <= n,
                n == self.cards@.len(),
                self.cards@ == old(self).cards@,
                turned@.len() == i,
                forall|k: int| 0 <= k < i ==> #[trigger] turned@[k] == self.cards@[n - 1 - k],
            decreases n - i,
        {
            turned.push(self.cards[n - 1 - i]);
            i += 1;
        }
        self.cards = turned;
        assert(self.cards@ =~= old(self).cards@.reverse());
    }

    /// Whether an index is among the chosen ones.
    fn is_chosen(chosen: &Vec<u8>, index: u8) -> (r: bool)
        ensures
            r == chosen@.contains(index),
    {
        let mut i: usize = 0;
        while i < chosen.len()
            invariant
                i <= chosen@.len(),
                forall|k: int| 0 <= k < i ==> chosen@[k] != index,
            decreases chosen@.len() - i,
        {
            if chosen[i] == index {
                return true;
            }
            i += 1;
        }
        false
    }

    /// The catalog index that has exactly `roll` unused indices below it and
    /// is unused itself, if there is one: the unused index number `roll`,
    /// counted from 0.
    pub fn nth_unused(chosen: &Vec<u8>, roll: usize) -> (r: Option<u8>)
        ensures
            match r {
                Some(index) => index < CATALOG_SIZE && !chosen@.contains(index) && unused_below(
                    chosen@,
                    index as int,
                ) == roll,
                None => unused_below(chosen@, CATALOG_SIZE as int) <= roll,
            },
    {
        let mut seen: usize = 0;
        let mut index: u8 = 0;
        while index < 16
            invariant
                index <= 16,
                seen == unused_below(chosen@, index as int),
                seen <= roll,
                seen <= index,
            decreases 16 - index,
        {
            if !Self::is_chosen(chosen, index) {
                if seen == roll {
                    return Some(index);
                }
                seen += 1;
            }
            index += 1;
        }
        None
    }

    /// Draws a catalog index that is not among the chosen ones, each of the
    /// unused indices being as likely as the others.
    fn draw_unused(chosen: &Vec<u8>) -> (r: u8)
        requires
            chosen@.len() < CATALOG_SIZE,
        ensures
            r < CATALOG_SIZE,
            !chosen@.contains(r),
    {
        let roll = random_below(CATALOG_SIZE - chosen.len());
        proof {
            lemma_unused_count(chosen@, 16);
        }
        match Self::nth_unused(chosen, roll) {
            Some(index) => index,
            None => 0,
        }
    }

    /// Completes `indices` to `total` indices by drawing unused ones.
    fn complete(indices: &mut Vec<u8>, total: usize)
        requires
            old(indices)@.len() <= total <= CATALOG_SIZE,
        ensures
            completes(old(indices)@, total as int, final(indices)@),
    {
        assert(indices@.take(indices@.len() as int) =~= indices@);
        while indices.len() < total
            invariant
                old(indices)@.len() <= indices@.len() <= total <= CATALOG_SIZE,
                completes(old(indices)@, indices@.len() as int, indices@),
            decreases total - indices@.len(),
        {
            let ghost before = indices@;
            let index = Self::draw_unused(indices);
            indices.push(index);
            proof {
                let given = old(indices)@;
                assert(indices@.take(given.len() as int) =~= before.take(given.len() as int));
                assert forall|i: int, j: int|
                    0 <= i < j < indices@.len() && given.len() <= j implies indices@[i]
                    != indices@[j] by {
                    if j < before.len() {
                        assert(before[i] != before[j]);
                    } else {
                        assert(before[i] == indices@[i]);
                    }
                }
            }
        }
        assert(indices@.take(indices@.len() as int) =~= indices@);
    }

    /// Takes five catalog cards drawn at random, no card twice, and turns
    /// the deck over.
    pub fn take_random_cards(&mut self)
        ensures
            exists|drawn: Seq<u8>|
                completes(Seq::empty(), 5, drawn) && turned_over(
                    old(self).cards@,
                    drawn,
                    final(self).cards@,
                ),
    {
        let mut indices: Vec<u8> = Vec::with_capacity(5);
        Self::complete(&mut indices, 5);
        assert(indices@.take(0) =~= Seq::<u8>::empty());
        self.take_cards_from_indices(&indices);
    }

    /// Takes the catalog cards with the given indices and as many more,
    /// drawn at random among the indices not yet taken, as fill the deck up
    /// to five cards, and turns the deck over.
    pub fn take_some_random_cards(&mut self, indices: &Vec<u8>)
        requires
            old(self).cards@.len() + indices@.len() <= 5,
            forall|k: int| 0 <= k < indices@.len() ==> (#[trigger] indices@[k]) < CATALOG_SIZE,
        ensures
            exists|drawn: Seq<u8>|
                completes(indices@, 5 - old(self).cards@.len(), drawn) && turned_over(
                    old(self).cards@,
                    drawn,
                    final(self).cards@,
                ),
    {
        let mut all: Vec<u8> = Vec::with_capacity(5);
        let mut i: usize = 0;
        while i < indices.len()
            invariant
                i <= indices@.len(),
                all@ == indices@.take(i as int),
            decreases indices@.len() - i,
        {
            all.push(indices[i]);
            i += 1;
            assert(all@ =~= indices@.take(i as int));
        }
        assert(indices@.take(i as int) =~= indices@);
        Self::complete(&mut all, 5 - self.cards.len());
        proof {
            assert forall|k: int| 0 <= k < all@.len() implies (#[trigger] all@[k])
                < CATALOG_SIZE by {
                if k < indices@.len() {
                    assert(all@.take(indices@.len() as int)[k] == indices@[k]);
                }
            }
        }
        self.lay(&all);
        let ghost laid = self.cards@;
        self.turn_over();
        proof {
            lemma_turned_over(old(self).cards@, all@, laid, self.cards@);
        }
    }

    /// Takes the five catalog cards with the given indices. The deck is
    /// turned over afterwards, so that the side that is dealt from the end
    /// gets the cards named first.
    pub fn take_cards_from_indices(&mut self, indices: &Vec<u8>)
        requires
            indices@.len() == 5,
            forall|k: int| 0 <= k < indices@.len() ==> (#[trigger] indices@[k]) < CATALOG_SIZE,
        ensures
            turned_over(old(self).cards@, indices@, final(self).cards@),
    {
        self.lay(indices);
        let ghost laid = self.cards@;
        self.turn_over();
        proof {
            lemma_turned_over(old(self).cards@, indices@, laid, self.cards@);
        }
    }
}

} // verus!
