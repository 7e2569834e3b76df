use vstd::prelude::*;
use bevy::utils::HashMap;
use crate::card::Card;
use crate::game_state::GameState;
use crate::player::PlayerColor;

verus! {

/// Slot of the first card of the side that plays its cards mirrored.
pub const BLUE_PLAYER_FIRST_CARD: usize = 0;

/// Slot of the second card of the side that plays its cards mirrored.
pub const BLUE_PLAYER_SECOND_CARD: usize = 1;

/// Slot of the card that belongs to neither side.
pub const NEUTRAL_CARD_IDX: usize = 2;

/// Slot of the first card of the side that plays its cards as printed.
pub const RED_PLAYER_FIRST_CARD: usize = 3;

/// Slot of the second card of the side that plays its cards as printed.
pub const RED_PLAYER_SECOND_CARD: usize = 4;

/// Number of cards in circulation.
pub const DECK_SIZE: usize = 5;

/// The identifier under which a card in circulation is known.
#[derive(Debug, Clone, Copy, PartialEq, Eq, Hash, Structural)]
pub struct CardId(pub u64);

/// The lookup from a card's identifier to the card, kept in a hash map of
/// the `bevy` engine. The map's type carries a hasher and an allocator that
/// cannot be named from here, so it is kept behind this struct, and Verus
/// does not look inside: what the lookup holds is `table_cards`, and the
/// functions below say how each call changes it.
#[verifier::external_body]
#[derive(Debug)]
pub struct CardTable {
    cards: HashMap<u64, Card>,
}

/// What a lookup holds: the card stored under each identifier.
pub uninterp spec fn table_cards(table: CardTable) -> Map<u64, Card>;

/// `HashMap::default` of `bevy::utils` (hashbrown): a map that holds nothing.
#[verifier::external_body]
fn table_new() -> (r: CardTable)
    ensures
        forall|id: u64| !table_cards(r).contains_key(id),
{
    CardTable { cards: HashMap::default() }
}

/// `HashMap::insert` of `bevy::utils` (hashbrown): afterwards the map holds
/// `card` under `id`, in place of what it held there, and is otherwise unchanged.
#[verifier::external_body]
fn table_insert(table: &mut CardTable, id: u64, card: Card)
    ensures
        table_cards(*final(table)) == table_cards(*old(table)).insert(id, card),
{
    table.cards.insert(id, card);
}

/// `HashMap::get` of `bevy::utils` (hashbrown): the card held under `id`, or
/// `None` when the map holds nothing there.
#[verifier::external_body]
fn table_get(table: &CardTable, id: u64) -> (card: Option<Card>)
    ensures
        card == (if table_cards(*table).contains_key(id) {
            Some(table_cards(*table)[id])
        } else {
            None
        }),
{
    table.cards.get(&id).copied()
}

/// `Clone::clone` of the hash map of `bevy::utils` (hashbrown): a map that
/// holds the same cards under the same identifiers.
#[verifier::external_body]
fn table_clone(table: &CardTable) -> (copy: CardTable)
    ensures
        table_cards(copy) == table_cards(*table),
{
    CardTable { cards: table.cards.clone() }
}

/// The mathematical model of the pool: the identifier that lies in each of
/// the five slots, and the card known under each identifier.
pub struct DeckModel {
    pub slots: Seq<CardId>,
    pub table: Map<u64, Card>,
}

impl DeckModel {
    /// The card that lies in a slot.
    pub open spec fn card_in(self, slot: int) -> Card {
        self.table[self.slots[slot].0]
    }

    /// Five slots hold five different identifiers, each of a known card;
    /// the five cards are five different catalog entries; and a card is
    /// mirrored exactly while it lies in one of the first two slots.
    pub open spec fn wf(self) -> bool {
        &&& self.slots.len() == 5
        &&& forall|s: int, t: int| 0 <= s < t < 5 ==> self.slots[s] != self.slots[t]
        &&& forall|s: int| 0 <= s < 5 ==> self.table.contains_key((#[trigger] self.slots[s]).0)
        &&& forall|s: int, t: int|
            0 <= s < t < 5 ==> !(#[trigger] self.card_in(s)).same_entry(#[trigger] self.card_in(t))
        &&& forall|s: int| 0 <= s < 5 ==> (#[trigger] self.card_in(s)).is_mirrored == (s < 2)
    }

    /// The slot that the card in `s` came from when `slot` was rotated.
    pub open spec fn source_slot(slot: int, s: int) -> int {
        if s == slot {
            2
        } else if s == 2 {
            slot
        } else {
            s
        }
    }

    /// The slot sequence with the identifiers of two slots exchanged.
    pub open spec fn swapped_slots(self, a: int, b: int) -> Seq<CardId> {
        self.slots.update(a, self.slots[b]).update(b, self.slots[a])
    }

    /// The pool after the card in `slot` was used: it changes places with the
    /// neutral card. When `slot` is one of the first two, the card that comes
    /// into it is mirrored and the card that leaves it is not.
    pub open spec fn rotated(self, slot: int) -> DeckModel {
        let used = self.slots[slot].0;
        let neutral = self.slots[2].0;
        let table = if slot < 2 {
            self.table.insert(used, self.table[used].oriented(false)).insert(
                neutral,
                self.table[neutral].oriented(true),
            )
        } else {
            self.table
        };
        DeckModel { slots: self.swapped_slots(slot, 2), table }
    }

    /// The slot of the first card of a side.
    pub open spec fn first_slot(color: PlayerColor) -> int {
        match color {
            PlayerColor::Blue => 0,
            PlayerColor::Red => 3,
        }
    }
}

/// The pool of five cards: the identifier in each slot, and the lookup from
/// identifiers to cards.
#[derive(Debug)]
pub struct Deck {
    pub cardboards: CardTable,
    pub cards: Vec<CardId>,
}

impl View for Deck {
    type V = DeckModel;

    open spec fn view(&self) -> DeckModel {
        DeckModel { slots: self.cards@, table: table_cards(self.cardboards) }
    }
}

impl Clone for Deck {
    fn clone(&self) -> (r: Self)
        ensures
            r@ == self@,
    {
        let cardboards = table_clone(&self.cardboards);
        let mut cards: Vec<CardId> = Vec::new();
        let mut i: usize = 0;
        while i < self.cards.len()
            invariant
                i <= self.cards@.len(),
                cards@ == self.cards@.take(i as int),
            decreases self.cards@.len() - i,
        {
            cards.push(self.cards[i]);
            i += 1;
            assert(cards@ =~= self.cards@.take(i as int));
        }
        assert(self.cards@.take(i as int) =~= self.cards@);
        Deck { cardboards, cards }
    }
}

/// Whether the first `n` identifiers are pairwise different.
pub open spec fn distinct_upto(ids: Seq<CardId>, n: int) -> bool {
    forall|s: int, t: int| 0 <= s < t < n ==> ids[s] != ids[t]
}

/// Whether the first `n` cards are pairwise different catalog entries.
pub open spec fn entries_distinct_upto(cards: Seq<Card>, n: int) -> bool {
    forall|s: int, t: int| 0 <= s < t < n ==> !cards[s].same_entry(cards[t])
}

impl Deck {
    /// Whether the pool is well formed.
    pub open spec fn wf(&self) -> bool {
        self@.wf()
    }

    /// Whether the identifiers are pairwise different.
    fn all_distinct(ids: &Vec<CardId>) -> (r: bool)
        ensures
            r == distinct_upto(ids@, ids@.len() as int),
    {
        let mut t: usize = 0;
        while t < ids.len()
            invariant
                t <= ids@.len(),
                distinct_upto(ids@, t as int),
            decreases ids@.len() - t,
        {
            let mut s: usize = 0;
            while s < t
                invariant
                    s <= t,
                    t < ids@.len(),
                    forall|k: int| 0 <= k < s ==> ids@[k] != ids@[t as int],
                decreases t - s,
            {
                if ids[s] == ids[t] {
                    return false;
                }
                s += 1;
            }
            t += 1;
        }
        true
    }

    /// Whether the cards are pairwise different catalog entries.
    fn all_different_entries(cards: &Vec<Card>) -> (r: bool)
        ensures
            r == entries_distinct_upto(cards@, cards@.len() as int),
    {
        let mut t: usize = 0;
        while t < cards.len()
            invariant
                t <= cards@.len(),
                entries_distinct_upto(cards@, t as int),
            decreases cards@.len() - t,
        {
            let mut s: usize = 0;
            while s < t
                invariant
                    s <= t,
                    t < cards@.len(),
                    forall|k: int| 0 <= k < s ==> !cards@[k].same_entry(cards@[t as int]),
                decreases t - s,
            {
                if cards[s].is_same_entry(&cards[t]) {
                    return false;
                }
                s += 1;
            }
            t += 1;
        }
        true
    }

    /// The pool that holds `cards[s]` in slot `s` under the identifier
    /// `ids[s]`, the cards of the first two slots mirrored and the others
    /// not. There is no such pool unless there are five cards and five
    /// identifiers, the identifiers all different and the cards five
    /// different catalog entries.
    pub fn new(ids: &Vec<CardId>, cards: &Vec<Card>) -> (r: Option<Deck>)
        ensures
            r is Some <==> ids@.len() == 5 && cards@.len() == 5 && distinct_upto(ids@, 5)
                && entries_distinct_upto(cards@, 5),
            r matches Some(deck) ==> {
                &&& deck.wf()
                &&& deck@.slots == ids@
                &&& forall|s: int|
                    0 <= s < 5 ==> #[trigger] deck@.card_in(s) == cards@[s].oriented(s < 2)
                &&& forall|id: u64|
                    deck@.table.contains_key(id) ==> exists|s: int|
                        0 <= s < 5 && (#[trigger] ids@[s]).0 == id
            },
    {
        if ids.len() != DECK_SIZE || cards.len() != DECK_SIZE || !Self::all_distinct(ids)
            || !Self::all_different_entries(cards) {
            return None;
        }
        let mut cardboards = table_new();
        let mut slots: Vec<CardId> = Vec::with_capacity(DECK_SIZE);
        let mut s: usize = 0;
        while s < DECK_SIZE
            invariant
                s <= 5,
                ids@.len() == 5,
                cards@.len() == 5,
                distinct_upto(ids@, 5),
                entries_distinct_upto(cards@, 5),
                slots@ == ids@.take(s as int),
                forall|k: int|
                    0 <= k < s ==> table_cards(cardboards).contains_key((#[trigger] ids@[k]).0)
                        && table_cards(cardboards)[ids@[k].0] == cards@[k].oriented(k < 2),
                forall|id: u64|
                    table_cards(cardboards).contains_key(id) ==> exists|k: int|
                        0 <= k < s && (#[trigger] ids@[k]).0 == id,
            decreases 5 - s,
        {
            let mut card = cards[s];
            card.is_mirrored = s < 2;
            let ghost before = table_cards(cardboards);
            table_insert(&mut cardboards, ids[s].0, card);
            slots.push(ids[s]);
            proof {
                assert(slots@ =~= ids@.take(s + 1));
                assert forall|k: int| 0 <= k < s + 1 implies table_cards(cardboards).contains_key(
                    (#[trigger] ids@[k]).0,
                ) && table_cards(cardboards)[ids@[k].0] == cards@[k].oriented(k < 2) by {
                    if k < s {
                        assert(ids@[k] != ids@[s as int]);
                    }
                }
                assert forall|id: u64| table_cards(cardboards).contains_key(id) implies exists|
                    k: int,
                |
                    0 <= k < s + 1 && (#[trigger] ids@[k]).0 == id by {
                    if id == ids@[s as int].0 {
                        assert(ids@[s as int].0 == id);
                    } else {
                        assert(before.contains_key(id));
                        let k = choose|k: int| 0 <= k < s && (#[trigger] ids@[k]).0 == id;
                        assert(0 <= k < s + 1 && ids@[k].0 == id);
                    }
                }
            }
            s += 1;
        }
        assert(ids@.take(5) =~= ids@);
        let deck = Deck { cardboards, cards: slots };
        assert forall|k: int| 0 <= k < 5 implies #[trigger] deck@.card_in(k) == cards@[k].oriented(
            k < 2,
        ) by {
            assert(table_cards(cardboards).contains_key(ids@[k].0));
        }
        assert forall|s: int, t: int| 0 <= s < t < 5 implies !(#[trigger] deck@.card_in(
            s,
        )).same_entry(#[trigger] deck@.card_in(t)) by {
            assert(deck@.card_in(s) == cards@[s].oriented(s < 2));
            assert(deck@.card_in(t) == cards@[t].oriented(t < 2));
            assert(!cards@[s].same_entry(cards@[t]));
        }
        Some(deck)
    }

    /// The card that is known under the given identifier, if there is one.
    pub fn card_of(&self, id: CardId) -> (r: Option<Card>)
        ensures
            r == (if self@.table.contains_key(id.0) {
                Some(self@.table[id.0])
            } else {
                None
            }),
    {
        table_get(&self.cardboards, id.0)
    }

    /// The slot in which the card with the given identifier lies, if it is
    /// in circulation.
    pub fn slot_of(&self, id: CardId) -> (r: Option<usize>)
        requires
            self.wf(),
        ensures
            match r {
                Some(slot) => slot < 5 && self@.slots[slot as int] == id,
                None => !self@.slots.contains(id),
            },
    {
        let mut slot: usize = 0;
        while slot < DECK_SIZE
            invariant
                slot <= 5,
                self@.slots.len() == 5,
                forall|k: int| 0 <= k < slot ==> self@.slots[k] != id,
            decreases 5 - slot,
        {
            if self.cards[slot] == id {
                return Some(slot);
            }
            slot += 1;
        }
        None
    }

    /// The two cards of the side to move, each with its identifier: those in
    /// slots 0 and 1 for Blue, those in slots 3 and 4 for Red.
    #[inline]
    pub fn get_player_cards(&self, game_state: &GameState) -> (r: [(CardId, Card); 2])
        requires
            self.wf(),
        ensures
            r@.len() == 2,
            forall|k: int|
                0 <= k < 2 ==> (#[trigger] r@[k]) == (
                    self@.slots[DeckModel::first_slot(game_state.curr_color) + k],
                    self@.card_in(DeckModel::first_slot(game_state.curr_color) + k),
                ),
    {
        let first = if game_state.curr_color == PlayerColor::Blue {
            BLUE_PLAYER_FIRST_CARD
        } else {
            RED_PLAYER_FIRST_CARD
        };
        let a = self.cards[first];
        let b = self.cards[first + 1];
        assert(self@.slots[first as int] == a);
        assert(self@.slots[first + 1] == b);
        let card_a = table_get(&self.cardboards, a.0).unwrap();
        let card_b = table_get(&self.cardboards, b.0).unwrap();
        [(a, card_a), (b, card_b)]
    }

    /// Exchanges the card in slot `card_idx` with the neutral card. When the
    /// slot is one of the first two, the card that comes into it is set
    /// mirrored and the card that leaves it is set back.
    #[inline]
    pub fn swap_card_with_neutral(&mut self, card_idx: usize)
        requires
            old(self).wf(),
            card_idx < 5,
        ensures
            final(self)@ == old(self)@.rotated(card_idx as int),
            final(self).wf(),
            final(self)@.rotated(card_idx as int) == old(self)@,
    {
        let used = self.cards[card_idx];
        let neutral = self.cards[NEUTRAL_CARD_IDX];
        assert(self@.slots[card_idx as int] == used);
        assert(self@.slots[2] == neutral);
        if card_idx < 2 {
            let mut used_card = table_get(&self.cardboards, used.0).unwrap();
            used_card.is_mirrored = false;
            table_insert(&mut self.cardboards, used.0, used_card);
            let mut neutral_card = table_get(&self.cardboards, neutral.0).unwrap();
            neutral_card.is_mirrored = true;
            table_insert(&mut self.cardboards, neutral.0, neutral_card);
        }
        self.cards[card_idx] = neutral;
        self.cards[NEUTRAL_CARD_IDX] = used;
        proof {
            assert(self@.slots =~= old(self)@.swapped_slots(card_idx as int, 2));
            assert(self@.table =~= old(self)@.rotated(card_idx as int).table);
            lemma_rotated_keeps_wf(old(self)@, card_idx as int);
            lemma_rotation_involution(old(self)@, card_idx as int);
        }
    }
}

/// A rotation keeps the pool well formed.
pub proof fn lemma_rotated_keeps_wf(deck: DeckModel, slot: int)
    requires
        deck.wf(),
        0 <= slot < 5,
    ensures
        deck.rotated(slot).wf(),
{
    let after = deck.rotated(slot);
    assert forall|s: int| 0 <= s < 5 implies after.table.contains_key(
        (#[trigger] after.slots[s]).0,
    ) by {
        assert(deck.table.contains_key(deck.slots[s].0));
        assert(deck.table.contains_key(deck.slots[slot].0));
        assert(deck.table.contains_key(deck.slots[2].0));
    }
    assert forall|s: int| 0 <= s < 5 implies (#[trigger] after.card_in(s)).is_mirrored == (s
        < 2) by {
        assert(deck.card_in(s).is_mirrored == (s < 2));
        assert(deck.card_in(slot).is_mirrored == (slot < 2));
        assert(deck.card_in(2).is_mirrored == false);
    }
    assert forall|s: int| 0 <= s < 5 implies (#[trigger] after.card_in(s)).same_entry(
        deck.card_in(DeckModel::source_slot(slot, s)),
    ) by {
        assert(deck.table.contains_key(deck.slots[s].0));
        assert(deck.table.contains_key(deck.slots[slot].0));
        assert(deck.table.contains_key(deck.slots[2].0));
    }
    assert forall|s: int, t: int| 0 <= s < t < 5 implies !(#[trigger] after.card_in(
        s,
    )).same_entry(#[trigger] after.card_in(t)) by {
        let from_s = DeckModel::source_slot(slot, s);
        let from_t = DeckModel::source_slot(slot, t);
        assert(after.card_in(s).same_entry(deck.card_in(from_s)));
        assert(after.card_in(t).same_entry(deck.card_in(from_t)));
        if from_s < from_t {
            assert(!deck.card_in(from_s).same_entry(deck.card_in(from_t)));
        } else {
            assert(!deck.card_in(from_t).same_entry(deck.card_in(from_s)));
        }
    }
}

/// Rotation involution: using the same slot twice in a row gives back the
/// pool as it was, slot by slot and flag by flag.
pub proof fn lemma_rotation_involution(deck: DeckModel, slot: int)
    requires
        deck.wf(),
        0 <= slot < 5,
    ensures
        deck.rotated(slot).rotated(slot) == deck,
{
    let once = deck.rotated(slot);
    let twice = once.rotated(slot);
    assert(twice.slots =~= deck.slots);
    assert(deck.card_in(slot).is_mirrored == (slot < 2));
    assert(deck.card_in(2).is_mirrored == false);
    assert(deck.table.contains_key(deck.slots[slot].0));
    assert(deck.table.contains_key(deck.slots[2].0));
    assert(twice.table =~= deck.table);
}

} // verus!
