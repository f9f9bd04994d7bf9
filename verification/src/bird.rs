//! The bird: one body falling under gravity.

use vstd::prelude::*;

verus! {

/// Fixed-point units per row: heights and speeds count tenths of a row.
pub const ROW_SCALE: i32 = 10;

/// Speed gained per tick, downwards (0.3 rows).
pub const GRAVITY: i32 = 3;

/// Speed right after a jump (1.5 rows upwards).
pub const JUMP_VELOCITY: i32 = -15;

/// Mathematical model of the bird, in tenths of a row.
pub struct BirdModel {
    /// Height, growing downwards from the top border.
    pub y: int,
    /// Speed per tick, positive downwards.
    pub velocity: int,
}

impl BirdModel {
    /// A bird at rest at the top of `row`.
    pub open spec fn at_row(row: int) -> BirdModel {
        BirdModel { y: row * ROW_SCALE, velocity: 0 }
    }

    /// One tick of free fall: gravity is added to the speed, then the new
    /// speed to the height.
    pub open spec fn fall(self) -> BirdModel {
        BirdModel { y: self.y + self.velocity + GRAVITY, velocity: self.velocity + GRAVITY }
    }

    /// A jump replaces the speed, whatever it was.
    pub open spec fn jumped(self) -> BirdModel {
        BirdModel { velocity: JUMP_VELOCITY as int, ..self }
    }

    /// The row the bird is in: its height rounded down.
    pub open spec fn row(self) -> int {
        self.y / (ROW_SCALE as int)
    }

    /// The bird is above the top border or not above the bottom border of
    /// a play area of `height` rows.
    pub open spec fn is_outside(self, height: int) -> bool {
        self.y < 0 || self.row() >= height
    }

    /// Both numbers fit the machine integers that hold them.
    pub open spec fn fits(self) -> bool {
        i32::MIN <= self.y <= i32::MAX && i32::MIN <= self.velocity <= i32::MAX
    }
}

/// The bird.
#[derive(Clone, Copy, Debug, PartialEq, Eq, Structural)]
pub struct Bird {
    /// Height in tenths of a row, growing downwards from the top border.
    pub y: i32,
    /// Speed in tenths of a row per tick, positive downwards.
    pub velocity: i32,
}

impl View for Bird {
    type V = BirdModel;

    open spec fn view(&self) -> BirdModel {
        BirdModel { y: self.y as int, velocity: self.velocity as int }
    }
}

impl Bird {
    /// A bird at rest at the top of `row`.
    pub fn new(row: u16) -> (bird: Bird)
        ensures
            bird@ == BirdModel::at_row(row as int),
    {
        Bird { y: row as i32 * ROW_SCALE, velocity: 0 }
    }

    /// Starts a jump.
    pub fn jump(&mut self)
        ensures
            final(self)@ == old(self)@.jumped(),
    {
        self.velocity = JUMP_VELOCITY;
    }

    /// Lets one tick pass.
    pub fn update(&mut self)
        requires
            old(self)@.fall().fits(),
        ensures
            final(self)@ == old(self)@.fall(),
    {
        self.velocity = self.velocity + GRAVITY;
        self.y = self.y + self.velocity;
    }

    /// Puts the bird back at rest at the top of `row`.
    pub fn reset(&mut self, row: u16)
        ensures
            final(self)@ == BirdModel::at_row(row as int),
    {
        self.y = row as i32 * ROW_SCALE;
        self.velocity = 0;
    }

    /// The row the bird is in.
    pub fn row(&self) -> (row: i32)
        ensures
            row == self@.row(),
    {
        if self.y >= 0 {
            self.y / ROW_SCALE
        } else {
            let below: i64 = (ROW_SCALE as i64 - 1 - self.y as i64) / ROW_SCALE as i64;
            (-below) as i32
        }
    }

    /// Whether the bird has left a play area of `height` rows.
    pub fn is_outside(&self, height: u16) -> (outside: bool)
        ensures
            outside == self@.is_outside(height as int),
    {
        self.y < 0 || self.y / ROW_SCALE >= height as i32
    }
}

} // verus!
