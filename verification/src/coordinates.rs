use vstd::prelude::*;
use vstd::std_specs::ops::{AddSpecImpl, SubSpecImpl};

verus! {

/// Number of rows and of columns of the board.
pub const BOARD_SIZE: usize = 5;

/// A grid position: column `x` and row `y`.
#[derive(Debug, Default, Copy, Clone, Ord, PartialOrd, Eq, PartialEq, Hash, Structural)]
pub struct Coordinates {
    pub x: u8,
    pub y: u8,
}

impl Coordinates {
    /// Whether the position lies on the 5x5 board.
    pub open spec fn on_board(self) -> bool {
        self.x < 5 && self.y < 5
    }

    /// The position reached from `self` by the offset `(dx, dy)`, when it lies on the board.
    pub open spec fn shifted(self, dx: int, dy: int) -> Option<Coordinates> {
        if 0 <= self.x + dx < 5 && 0 <= self.y + dy < 5 {
            Some(Coordinates { x: (self.x + dx) as u8, y: (self.y + dy) as u8 })
        } else {
            None
        }
    }

    /// Row-major rank of a board position: `y * 5 + x`.
    pub open spec fn rank(self) -> int {
        self.y * 5 + self.x
    }

    /// Adds a signed offset to the position. The result is `None` exactly when
    /// the target would leave the board.
    pub fn offset(self, dx: i16, dy: i16) -> (r: Option<Coordinates>)
        ensures
            r == self.shifted(dx as int, dy as int),
    {
        let nx: i32 = self.x as i32 + dx as i32;
        let ny: i32 = self.y as i32 + dy as i32;
        if 0 <= nx && nx < 5 && 0 <= ny && ny < 5 {
            Some(Coordinates { x: nx as u8, y: ny as u8 })
        } else {
            None
        }
    }

    /// Whether the position lies on the board.
    pub fn in_board(&self) -> (r: bool)
        ensures
            r == self.on_board(),
    {
        self.x < 5 && self.y < 5
    }
}

impl core::ops::Add for Coordinates {
    type Output = Self;

    /// Component-wise sum.
    fn add(self, rhs: Self) -> (r: Self) {
        Self { x: self.x + rhs.x, y: self.y + rhs.y }
    }
}

impl AddSpecImpl for Coordinates {
    open spec fn obeys_add_spec() -> bool {
        true
    }

    open spec fn add_req(self, rhs: Self) -> bool {
        self.x + rhs.x <= u8::MAX && self.y + rhs.y <= u8::MAX
    }

    open spec fn add_spec(self, rhs: Self) -> Self {
        Coordinates { x: (self.x + rhs.x) as u8, y: (self.y + rhs.y) as u8 }
    }
}

impl core::ops::Sub for Coordinates {
    type Output = Self;

    /// Component-wise difference, each component stopping at zero.
    fn sub(self, rhs: Self) -> (r: Self) {
        Self { x: self.x.saturating_sub(rhs.x), y: self.y.saturating_sub(rhs.y) }
    }
}

impl SubSpecImpl for Coordinates {
    open spec fn obeys_sub_spec() -> bool {
        true
    }

    open spec fn sub_req(self, rhs: Self) -> bool {
        true
    }

    open spec fn sub_spec(self, rhs: Self) -> Self {
        Coordinates {
            x: if self.x >= rhs.x { (self.x - rhs.x) as u8 } else { 0 },
            y: if self.y >= rhs.y { (self.y - rhs.y) as u8 } else { 0 },
        }
    }
}

} // verus!
