use vstd::prelude::*;
use vstd::string::*;

verus! {

/// The least depth that the search can be set to.
pub const MIN_DEPTH: u8 = 2;

/// The greatest depth that the search can be set to.
pub const MAX_DEPTH: u8 = 12;

/// The depth that the search starts out with.
pub const DEFAULT_DEPTH: u8 = 6;

/// The number of plies that the search looks ahead, as the user sets it.
#[derive(Debug, Clone, Copy)]
pub struct Depth(pub u8);

impl Depth {
    /// One ply more, as long as the depth stays within the greatest one.
    pub fn add(&mut self)
        ensures
            final(self).0 == if old(self).0 < MAX_DEPTH {
                (old(self).0 + 1) as u8
            } else {
                old(self).0
            },
    {
        if self.0 < MAX_DEPTH {
            self.0 += 1;
        }
    }

    /// One ply less, as long as the depth stays at or above the least one.
    pub fn sub(&mut self)
        ensures
            final(self).0 == if old(self).0 > MIN_DEPTH {
                (old(self).0 - 1) as u8
            } else {
                old(self).0
            },
    {
        if self.0 > MIN_DEPTH {
            self.0 -= 1;
        }
    }

    /// The depth in decimal digits.
    pub fn to_string(&self) -> (r: String)
        ensures
            to_string_from_display_ensures(&self.0, r),
    {
        self.0.to_string()
    }
}

impl Default for Depth {
    fn default() -> (r: Self)
        ensures
            r.0 == DEFAULT_DEPTH,
    {
        Self(DEFAULT_DEPTH)
    }
}

} // verus!
