//! The rules of the game, stated over mathematical models.
//!
//! Everything here is specification: what a state is, which states are
//! well formed, and what one tick, a jump, a restart and the end of a run
//! do to a state. The executable game is tied to these definitions by its
//! contracts.

use vstd::prelude::*;
use crate::bird::{BirdModel, GRAVITY, JUMP_VELOCITY, ROW_SCALE};
use crate::pipe::{PipeModel, PIPE_GAP};

verus! {

/// The column the bird stays in.
pub const BIRD_X: u16 = 10;

/// Columns between the left edges of two neighbouring pipes.
pub const PIPE_SPACING: u16 = 40;

/// Pipes on the field when a run starts.
pub const INITIAL_PIPES: usize = 4;

/// Solid rows kept above and below every gap.
pub const GAP_MARGIN: u16 = 3;

/// A new pipe is due once the last one is more than this many columns
/// left of the right border.
pub const SPAWN_MARGIN: u16 = 20;

/// Whether a run is going on or has ended.
#[derive(Clone, Copy, Debug, PartialEq, Eq, Structural)]
pub enum GameState {
    Playing,
    GameOver,
}

/// Largest row at which a gap may start: the gap and the margin below it
/// still fit. Zero where the play area is too low for that.
pub open spec fn gap_max(height: nat) -> nat {
    if height >= PIPE_GAP + GAP_MARGIN {
        (height - (PIPE_GAP + GAP_MARGIN)) as nat
    } else {
        0
    }
}

/// Smallest row at which a gap may start: the margin, lowered to
/// `gap_max` where the play area is too low, so that the range is never
/// empty.
pub open spec fn gap_min(height: nat) -> nat {
    if gap_max(height) < GAP_MARGIN {
        gap_max(height)
    } else {
        GAP_MARGIN as nat
    }
}

/// `gap_y` is a row at which a gap may start in a play area of `height`
/// rows.
pub open spec fn gap_allowed(height: nat, gap_y: int) -> bool {
    gap_min(height) <= gap_y <= gap_max(height)
}

impl PipeModel {
    /// A fresh pipe.
    pub open spec fn fresh(x: int, gap_y: int) -> PipeModel {
        PipeModel { x, gap_y, passed: false }
    }

    /// The bird is credited for this pipe on the coming tick: the pipe is
    /// not marked yet and its next position lies behind the bird.
    pub open spec fn scores(self) -> bool {
        !self.passed && self.scrolled().has_bird_passed(BIRD_X as int)
    }

    /// The pipe after one tick: moved, and marked once the bird is past.
    pub open spec fn advanced(self) -> PipeModel {
        PipeModel { passed: self.passed || self.scores(), ..self.scrolled() }
    }
}

/// Number of pipes the bird is credited for on the coming tick.
pub open spec fn newly_passed(pipes: Seq<PipeModel>) -> nat
    decreases pipes.len(),
{
    if pipes.len() == 0 {
        0
    } else {
        newly_passed(pipes.drop_last()) + if pipes.last().scores() {
            1nat
        } else {
            0nat
        }
    }
}

/// Every pipe after one tick.
pub open spec fn advanced_pipes(pipes: Seq<PipeModel>) -> Seq<PipeModel> {
    Seq::new(pipes.len(), |i: int| pipes[i].advanced())
}

/// A bird in row `row` touches one of the pipes.
pub open spec fn hits_any(pipes: Seq<PipeModel>, row: int) -> bool {
    exists|i: int| 0 <= i < pipes.len() && (#[trigger] pipes[i]).collides_with(BIRD_X as int, row)
}

/// The test a pipe has to pass to stay: it is still on the screen.
pub open spec fn on_screen() -> spec_fn(PipeModel) -> bool {
    |p: PipeModel| !p.is_offscreen()
}

/// The pipes that are still on the screen, in their order.
pub open spec fn culled(pipes: Seq<PipeModel>) -> Seq<PipeModel> {
    pipes.filter(on_screen())
}

/// A new pipe is due: there is none, or the last one has moved far enough
/// into view.
pub open spec fn spawn_due(pipes: Seq<PipeModel>, width: nat) -> bool {
    pipes.len() == 0 || pipes.last().x < width - SPAWN_MARGIN
}

/// Column of the next pipe: one spacing behind the last one, or the right
/// border where there is none.
pub open spec fn next_pipe_x(pipes: Seq<PipeModel>, width: nat) -> int {
    if pipes.len() > 0 {
        pipes.last().x + PIPE_SPACING
    } else {
        width as int
    }
}

/// The pipes with a new one, whose gap starts at `gap_y`, behind them.
pub open spec fn spawned(pipes: Seq<PipeModel>, width: nat, gap_y: int) -> Seq<PipeModel> {
    pipes.push(PipeModel::fresh(next_pipe_x(pipes, width), gap_y))
}

/// The pipes a run starts with, one gap row for each.
pub open spec fn initial_pipes(width: nat, gaps: Seq<int>) -> Seq<PipeModel> {
    Seq::new(
        INITIAL_PIPES as nat,
        |i: int| PipeModel::fresh(width / 2 + i * PIPE_SPACING, gaps[i]),
    )
}

/// The pipes stand from left to right: each one further right than those
/// before it.
pub open spec fn in_order(pipes: Seq<PipeModel>) -> bool {
    forall|i: int, j: int|
        0 <= i < j < pipes.len() ==> (#[trigger] pipes[i]).x < (#[trigger] pipes[j]).x
}

/// `gaps` holds one allowed gap row for each pipe a run starts with.
pub open spec fn gaps_allowed(height: nat, gaps: Seq<int>) -> bool {
    &&& gaps.len() == INITIAL_PIPES
    &&& forall|i: int| 0 <= i < gaps.len() ==> gap_allowed(height, #[trigger] gaps[i])
}

/// Mathematical model of a game.
pub struct GameModel {
    pub bird: BirdModel,
    /// The pipes in the order in which they were made, leftmost first.
    pub pipes: Seq<PipeModel>,
    pub score: nat,
    pub high_score: nat,
    /// The run that ended has beaten the best score known before it.
    pub is_new_record: bool,
    pub state: GameState,
    pub width: nat,
    pub height: nat,
}

impl GameModel {
    /// The state a run starts in.
    pub open spec fn initial(
        width: nat,
        height: nat,
        high_score: nat,
        gaps: Seq<int>,
    ) -> GameModel {
        GameModel {
            bird: BirdModel::at_row(height as int / 2),
            pipes: initial_pipes(width, gaps),
            score: 0,
            high_score,
            is_new_record: false,
            state: GameState::Playing,
            width,
            height,
        }
    }

    /// A new run on the same play area; only the best score is kept.
    pub open spec fn restarted(self, gaps: Seq<int>) -> GameModel {
        GameModel::initial(self.width, self.height, self.high_score, gaps)
    }

    /// A jump, which counts only while a run is going on.
    pub open spec fn jumped(self) -> GameModel {
        if self.state == GameState::Playing {
            GameModel { bird: self.bird.jumped(), ..self }
        } else {
            self
        }
    }

    /// The score to store, if the current one beats the best.
    pub open spec fn record(self) -> Option<nat> {
        if self.score > self.high_score {
            Some(self.score)
        } else {
            None
        }
    }

    /// The state after the best score has been brought up to date.
    pub open spec fn committed(self) -> GameModel {
        if self.score > self.high_score {
            GameModel { high_score: self.score, is_new_record: true, ..self }
        } else {
            self
        }
    }

    /// The end of a run.
    pub open spec fn ended(self) -> GameModel {
        GameModel { state: GameState::GameOver, ..self }.committed()
    }

    /// The state with a new pipe behind the others.
    pub open spec fn with_spawned(self, gap_y: int) -> GameModel {
        GameModel { pipes: spawned(self.pipes, self.width, gap_y), ..self }
    }

    /// The bird leaves the play area on the coming tick.
    pub open spec fn bird_leaves(self) -> bool {
        self.bird.fall().is_outside(self.height as int)
    }

    /// The bird touches a pipe on the coming tick.
    pub open spec fn bird_crashes(self) -> bool {
        hits_any(advanced_pipes(self.pipes), self.bird.fall().row())
    }

    /// The coming tick ends the run.
    pub open spec fn tick_ends_run(self) -> bool {
        self.state == GameState::Playing && (self.bird_leaves() || self.bird_crashes())
    }

    /// The coming tick brings a new pipe.
    pub open spec fn tick_spawns(self) -> bool {
        self.state == GameState::Playing && !self.bird_leaves() && !self.bird_crashes()
            && spawn_due(culled(advanced_pipes(self.pipes)), self.width)
    }

    /// The score after the coming tick.
    pub open spec fn score_after_tick(self) -> nat {
        if self.state == GameState::Playing && !self.bird_leaves() {
            self.score + newly_passed(self.pipes)
        } else {
            self.score
        }
    }

    /// One tick, up to the point where a new pipe may be due. Nothing moves
    /// once a run has ended. Otherwise the bird falls first; if that takes
    /// it out of the play area the run ends there. Else every pipe moves
    /// and is scored, and the run ends if the bird now touches one. Else
    /// the pipes that have left the screen are dropped.
    pub open spec fn tick_before_spawn(self) -> GameModel {
        if self.state != GameState::Playing {
            self
        } else if self.bird_leaves() {
            GameModel { bird: self.bird.fall(), ..self }.ended()
        } else {
            let moved = GameModel {
                bird: self.bird.fall(),
                pipes: advanced_pipes(self.pipes),
                score: self.score + newly_passed(self.pipes),
                ..self
            };
            if self.bird_crashes() {
                moved.ended()
            } else {
                GameModel { pipes: culled(moved.pipes), ..moved }
            }
        }
    }

    /// One whole tick. `gap_y` is the row at which the gap of a new pipe
    /// starts, should the tick bring one.
    pub open spec fn tick(self, gap_y: int) -> GameModel {
        if self.tick_spawns() {
            self.tick_before_spawn().with_spawned(gap_y)
        } else {
            self.tick_before_spawn()
        }
    }

    /// The score to store after the coming tick, if that tick ends the run
    /// with a new best.
    pub open spec fn tick_record(self) -> Option<nat> {
        if self.tick_ends_run() && self.score_after_tick() > self.high_score {
            Some(self.score_after_tick())
        } else {
            None
        }
    }

    /// The bird's numbers stay within what a run can reach. While playing
    /// the bird is inside the play area, so it cannot fall faster than the
    /// area is high; the tick that ends a run adds one more step.
    pub open spec fn bird_wf(self) -> bool {
        &&& JUMP_VELOCITY <= self.bird.velocity <= ROW_SCALE * self.height + GRAVITY
        &&& JUMP_VELOCITY + GRAVITY <= self.bird.y <= ROW_SCALE * (2 * self.height) + GRAVITY
        &&& self.state == GameState::Playing ==> {
            &&& 0 <= self.bird.y <= ROW_SCALE * self.height
            &&& self.bird.velocity <= ROW_SCALE * self.height
        }
    }

    /// Well-formed states: the bird is in range, the pipes stand from left
    /// to right, every gap starts at an allowed row, and while a run is
    /// going on no pipe is off the screen.
    pub open spec fn wf(self) -> bool {
        &&& self.bird_wf()
        &&& in_order(self.pipes)
        &&& forall|i: int|
            0 <= i < self.pipes.len() ==> gap_allowed(self.height, (#[trigger] self.pipes[i]).gap_y)
        &&& self.state == GameState::Playing ==> forall|i: int|
            0 <= i < self.pipes.len() ==> !(#[trigger] self.pipes[i]).is_offscreen()
    }
}

} // verus!
