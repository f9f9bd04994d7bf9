//! Pipes: the obstacles that scroll from right to left.

use vstd::prelude::*;

verus! {

/// Columns covered by a pipe.
pub const PIPE_WIDTH: u16 = 6;

/// Rows of the passable gap in a pipe.
pub const PIPE_GAP: u16 = 8;

/// Columns a pipe moves to the left on each tick.
pub const PIPE_SPEED: u16 = 1;

/// Columns covered by the bird, starting at its own column.
pub const BIRD_WIDTH: u16 = 2;

/// Mathematical model of a pipe.
pub struct PipeModel {
    /// Column of the left edge; negative once the pipe leaves the screen.
    pub x: int,
    /// First row of the gap.
    pub gap_y: int,
    /// Whether the bird has already been credited for this pipe.
    pub passed: bool,
}

impl PipeModel {
    /// The pipe one tick later, before scoring.
    pub open spec fn scrolled(self) -> PipeModel {
        PipeModel { x: self.x - PIPE_SPEED, ..self }
    }

    /// The right edge has reached or crossed the left border of the screen.
    pub open spec fn is_offscreen(self) -> bool {
        self.x + PIPE_WIDTH <= 0
    }

    /// The columns of the bird and of the pipe intersect.
    pub open spec fn overlaps(self, bird_x: int) -> bool {
        bird_x + BIRD_WIDTH > self.x && bird_x < self.x + PIPE_WIDTH
    }

    /// The row lies in the gap, a half-open range of rows.
    pub open spec fn in_gap(self, row: int) -> bool {
        self.gap_y <= row < self.gap_y + PIPE_GAP
    }

    /// A bird at column `bird_x` and row `bird_y` touches the solid part.
    pub open spec fn collides_with(self, bird_x: int, bird_y: int) -> bool {
        self.overlaps(bird_x) && !self.in_gap(bird_y)
    }

    /// The bird's column lies strictly beyond the right edge.
    pub open spec fn has_bird_passed(self, bird_x: int) -> bool {
        bird_x > self.x + PIPE_WIDTH
    }
}

/// A pipe on or near the screen.
#[derive(Clone, Copy, Debug, PartialEq, Eq, Structural)]
pub struct Pipe {
    /// Column of the left edge.
    pub x: i32,
    /// First row of the gap.
    pub gap_y: u16,
    /// Whether the bird has already been credited for this pipe.
    pub passed: bool,
}

impl View for Pipe {
    type V = PipeModel;

    open spec fn view(&self) -> PipeModel {
        PipeModel { x: self.x as int, gap_y: self.gap_y as int, passed: self.passed }
    }
}

impl Pipe {
    /// A fresh pipe at column `x` whose gap starts at row `gap_y`.
    pub fn new(x: i32, gap_y: u16) -> (pipe: Pipe)
        ensures
            pipe@ == (PipeModel { x: x as int, gap_y: gap_y as int, passed: false }),
    {
        Pipe { x, gap_y, passed: false }
    }

    /// Moves the pipe one step to the left.
    pub fn update(&mut self)
        requires
            old(self).x - PIPE_SPEED >= i32::MIN,
        ensures
            final(self)@ == old(self)@.scrolled(),
    {
        self.x = self.x - PIPE_SPEED as i32;
    }

    /// Whether the pipe has left the screen on the left.
    pub fn is_offscreen(&self) -> (gone: bool)
        ensures
            gone == self@.is_offscreen(),
    {
        self.x <= -(PIPE_WIDTH as i32)
    }

    /// Whether a bird at column `bird_x` and row `bird_y` touches the pipe.
    pub fn collides_with(&self, bird_x: u16, bird_y: u16) -> (hit: bool)
        ensures
            hit == self@.collides_with(bird_x as int, bird_y as int),
    {
        let left: i64 = self.x as i64;
        let bird: i64 = bird_x as i64;
        let row: u32 = bird_y as u32;
        let gap: u32 = self.gap_y as u32;
        let overlaps: bool = bird + BIRD_WIDTH as i64 > left && bird < left + PIPE_WIDTH as i64;
        let in_gap: bool = gap <= row && row < gap + PIPE_GAP as u32;
        overlaps && !in_gap
    }

    /// Whether a bird at column `bird_x` has left the pipe behind.
    pub fn has_bird_passed(&self, bird_x: u16) -> (passed: bool)
        ensures
            passed == self@.has_bird_passed(bird_x as int),
    {
        bird_x as i64 > self.x as i64 + PIPE_WIDTH as i64
    }
}

/// The gap is a half-open range of rows: its first and its last row are
/// safe, and the row just below it is solid.
pub proof fn lemma_gap_edges(pipe: PipeModel, bird_x: int)
    requires
        pipe.overlaps(bird_x),
    ensures
        !pipe.collides_with(bird_x, pipe.gap_y),
        !pipe.collides_with(bird_x, pipe.gap_y + PIPE_GAP - 1),
        pipe.collides_with(bird_x, pipe.gap_y + PIPE_GAP),
        pipe.collides_with(bird_x, pipe.gap_y - 1),
{
}

/// A collision needs both: the columns intersect and the row is outside
/// the gap.
pub proof fn lemma_collision_iff(pipe: PipeModel, bird_x: int, bird_y: int)
    ensures
        pipe.collides_with(bird_x, bird_y) <==> (bird_x + BIRD_WIDTH > pipe.x && bird_x < pipe.x
            + PIPE_WIDTH && !(pipe.gap_y <= bird_y < pipe.gap_y + PIPE_GAP)),
{
}

} // verus!
