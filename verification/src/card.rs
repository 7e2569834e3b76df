use vstd::prelude::*;
use vstd::string::*;

verus! {

/// The edition of the game that a card was published with.
#[derive(Debug, Clone, Copy, PartialEq, Eq, Structural)]
pub enum Edition {
    Original,
    SenseisPath,
}

/// The slot of the pool that a card lies in.
#[derive(Debug, Clone, Copy)]
pub struct CardIndex(pub u8);

/// Number of cards in the catalog.
pub const CATALOG_SIZE: usize = 16;

/// A movement card: a named list of relative offsets `(dx, dy)`, and the flag
/// that says whether the card is currently read mirrored.
#[derive(Debug, Clone, Copy)]
pub struct Card {
    pub edition: Edition,
    pub directions: &'static [(i8, i8)],
    pub name: &'static str,
    pub is_mirrored: bool,
}

/// The offsets of the catalog card with the given index, as printed on the card.
pub open spec fn catalog_directions(index: int) -> Seq<(i8, i8)> {
    if index == 0 {
        seq![(0i8, 2i8), (0i8, -1i8)]
    } else if index == 1 {
        seq![(0i8, 1i8), (-2i8, 0i8), (2i8, 0i8)]
    } else if index == 2 {
        seq![(-1i8, 1i8), (-1i8, -1i8), (1i8, 1i8), (1i8, -1i8)]
    } else if index == 3 {
        seq![(0i8, 1i8), (-1i8, -1i8), (1i8, -1i8)]
    } else if index == 4 {
        seq![(-2i8, 1i8), (-1i8, -1i8), (2i8, 1i8), (1i8, -1i8)]
    } else if index == 5 {
        seq![(-1i8, 0i8), (-1i8, 1i8), (1i8, 1i8), (1i8, 0i8)]
    } else if index == 6 {
        seq![(0i8, -1i8), (-1i8, 1i8), (1i8, 1i8)]
    } else if index == 7 {
        seq![(0i8, 1i8), (-1i8, 0i8), (1i8, 0i8)]
    } else if index == 8 {
        seq![(-2i8, 0i8), (-1i8, 1i8), (1i8, -1i8)]
    } else if index == 9 {
        seq![(-1i8, 0i8), (-1i8, 1i8), (1i8, 0i8), (1i8, -1i8)]
    } else if index == 10 {
        seq![(0i8, 1i8), (-1i8, 0i8), (0i8, -1i8)]
    } else if index == 11 {
        seq![(-1i8, 1i8), (-1i8, -1i8), (1i8, 0i8)]
    } else if index == 12 {
        seq![(-1i8, -1i8), (1i8, 1i8), (2i8, 0i8)]
    } else if index == 13 {
        seq![(-1i8, 0i8), (-1i8, -1i8), (1i8, 0i8), (1i8, 1i8)]
    } else if index == 14 {
        seq![(0i8, 1i8), (0i8, -1i8), (1i8, 0i8)]
    } else {
        seq![(-1i8, 0i8), (1i8, -1i8), (1i8, 1i8)]
    }
}

/// The name of the catalog card with the given index.
pub open spec fn catalog_name(index: int) -> Seq<char> {
    if index == 0 {
        "Tiger"@
    } else if index == 1 {
        "Crab"@
    } else if index == 2 {
        "Monkey"@
    } else if index == 3 {
        "Crane"@
    } else if index == 4 {
        "Dragon"@
    } else if index == 5 {
        "Elephant"@
    } else if index == 6 {
        "Mantis"@
    } else if index == 7 {
        "Boar"@
    } else if index == 8 {
        "Frog"@
    } else if index == 9 {
        "Goose"@
    } else if index == 10 {
        "Horse"@
    } else if index == 11 {
        "Eel"@
    } else if index == 12 {
        "Rabbit"@
    } else if index == 13 {
        "Rooster"@
    } else if index == 14 {
        "Ox"@
    } else {
        "Cobra"@
    }
}

impl Card {
    /// The offsets that the card grants in its current orientation: the
    /// printed offsets, with the vertical component negated when mirrored.
    pub open spec fn effective(self) -> Seq<(int, int)> {
        Seq::new(self.directions@.len(), |i: int| self.effective_at(i))
    }

    /// The `i`-th effective offset.
    pub open spec fn effective_at(self, i: int) -> (int, int) {
        let d = self.directions@[i];
        if self.is_mirrored {
            (d.0 as int, -(d.1 as int))
        } else {
            (d.0 as int, d.1 as int)
        }
    }

    /// Whether two cards are the same catalog entry, whatever their orientation.
    pub open spec fn same_entry(self, other: Card) -> bool {
        self.edition == other.edition && self.directions@ == other.directions@ && self.name@
            == other.name@
    }

    /// The card as it lies when its orientation is set to `mirrored`.
    pub open spec fn oriented(self, mirrored: bool) -> Card {
        Card { is_mirrored: mirrored, ..self }
    }

    /// A card with the given offsets, not mirrored.
    pub fn new(edition: Edition, directions: &'static [(i8, i8)], name: &'static str) -> (r: Self)
        ensures
            r.edition == edition,
            r.directions == directions,
            r.name == name,
            !r.is_mirrored,
    {
        Self { edition, directions, name, is_mirrored: false }
    }

    /// The catalog card with the given index, not mirrored.
    pub fn from_catalog(index: u8) -> (r: Self)
        requires
            index < CATALOG_SIZE,
        ensures
            r.edition == Edition::Original,
            r.directions@ == catalog_directions(index as int),
            r.name@ == catalog_name(index as int),
            !r.is_mirrored,
    {
        let r = match index {
            0 => Card::new(Edition::Original, &[(0, 2), (0, -1)], "Tiger"),
            1 => Card::new(Edition::Original, &[(0, 1), (-2, 0), (2, 0)], "Crab"),
            2 => Card::new(Edition::Original, &[(-1, 1), (-1, -1), (1, 1), (1, -1)], "Monkey"),
            3 => Card::new(Edition::Original, &[(0, 1), (-1, -1), (1, -1)], "Crane"),
            4 => Card::new(Edition::Original, &[(-2, 1), (-1, -1), (2, 1), (1, -1)], "Dragon"),
            5 => Card::new(Edition::Original, &[(-1, 0), (-1, 1), (1, 1), (1, 0)], "Elephant"),
            6 => Card::new(Edition::Original, &[(0, -1), (-1, 1), (1, 1)], "Mantis"),
            7 => Card::new(Edition::Original, &[(0, 1), (-1, 0), (1, 0)], "Boar"),
            8 => Card::new(Edition::Original, &[(-2, 0), (-1, 1), (1, -1)], "Frog"),
            9 => Card::new(Edition::Original, &[(-1, 0), (-1, 1), (1, 0), (1, -1)], "Goose"),
            10 => Card::new(Edition::Original, &[(0, 1), (-1, 0), (0, -1)], "Horse"),
            11 => Card::new(Edition::Original, &[(-1, 1), (-1, -1), (1, 0)], "Eel"),
            12 => Card::new(Edition::Original, &[(-1, -1), (1, 1), (2, 0)], "Rabbit"),
            13 => Card::new(Edition::Original, &[(-1, 0), (-1, -1), (1, 0), (1, 1)], "Rooster"),
            14 => Card::new(Edition::Original, &[(0, 1), (0, -1), (1, 0)], "Ox"),
            _ => Card::new(Edition::Original, &[(-1, 0), (1, -1), (1, 1)], "Cobra"),
        };
        assert(r.directions@ =~= catalog_directions(index as int));
        r
    }

    /// Whether two cards are the same catalog entry, whatever their orientation.
    pub fn is_same_entry(&self, other: &Card) -> (r: bool)
        ensures
            r == self.same_entry(*other),
    {
        if self.edition != other.edition {
            return false;
        }
        if String::from_str(self.name) != String::from_str(other.name) {
            return false;
        }
        let n = self.directions.len();
        if n != other.directions.len() {
            return false;
        }
        let mut i: usize = 0;
        while i < n
            invariant
                i <= n,
                n == self.directions@.len(),
                n == other.directions@.len(),
                forall|k: int| 0 <= k < i ==> self.directions@[k] == other.directions@[k],
            decreases n - i,
        {
            let a = self.directions[i];
            let b = other.directions[i];
            if a.0 != b.0 || a.1 != b.1 {
                return false;
            }
            i += 1;
        }
        assert(self.directions@ =~= other.directions@);
        true
    }

    /// The `i`-th offset of the card in its current orientation.
    pub fn direction(&self, i: usize) -> (r: (i16, i16))
        requires
            i < self.directions@.len(),
        ensures
            (r.0 as int, r.1 as int) == self.effective_at(i as int),
    {
        let d = self.directions[i];
        if self.is_mirrored {
            (d.0 as i16, -(d.1 as i16))
        } else {
            (d.0 as i16, d.1 as i16)
        }
    }
}

} // verus!
