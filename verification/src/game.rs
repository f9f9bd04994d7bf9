//! The game: a bird, the pipes, the score and the state of the run.
//!
//! Chance enters in one place only, the row at which the gap of a new pipe
//! starts. Every function that draws such a row has a twin, named with
//! `_with`, that takes the row from its caller and is fully determined.

use vstd::prelude::*;
use crate::bird::{Bird, GRAVITY, JUMP_VELOCITY, ROW_SCALE};
use crate::pipe::{Pipe, PipeModel, PIPE_GAP, PIPE_SPEED, PIPE_WIDTH};
use crate::laws::{
    lemma_initial_wf, lemma_newly_passed_prefix, lemma_newly_passed_step, lemma_tick_keeps_wf,
};
use crate::rng::random_between;
use crate::rules::{
    advanced_pipes, culled, gap_allowed, gap_max, gap_min, gaps_allowed, hits_any, in_order,
    initial_pipes, newly_passed, next_pipe_x, on_screen, spawned, GameModel, GameState, BIRD_X,
    GAP_MARGIN, INITIAL_PIPES, PIPE_SPACING, SPAWN_MARGIN,
};

verus! {

/// The models of a row of pipes.
pub open spec fn pipe_models(pipes: Seq<Pipe>) -> Seq<PipeModel> {
    Seq::new(pipes.len(), |i: int| pipes[i]@)
}

/// Gap rows as mathematical integers.
pub open spec fn gap_rows(gaps: Seq<u16>) -> Seq<int> {
    Seq::new(gaps.len(), |i: int| gaps[i] as int)
}

/// A game on a play area of fixed size.
#[derive(Clone, Debug, PartialEq, Eq)]
pub struct Game {
    pub bird: Bird,
    /// The pipes in the order in which they were made, leftmost first.
    pub pipes: Vec<Pipe>,
    pub score: u32,
    pub high_score: u32,
    /// The run that ended has beaten the best score known before it.
    pub is_new_record: bool,
    pub state: GameState,
    pub width: u16,
    pub height: u16,
}

impl View for Game {
    type V = GameModel;

    open spec fn view(&self) -> GameModel {
        GameModel {
            bird: self.bird@,
            pipes: pipe_models(self.pipes@),
            score: self.score as nat,
            high_score: self.high_score as nat,
            is_new_record: self.is_new_record,
            state: self.state,
            width: self.width as nat,
            height: self.height as nat,
        }
    }
}

/// A score to store, as a mathematical integer.
pub open spec fn as_record(record: Option<u32>) -> Option<nat> {
    match record {
        Some(score) => Some(score as nat),
        None => None,
    }
}

/// The rows at which a gap may start in a play area of `height` rows,
/// first and last.
pub fn gap_range(height: u16) -> (range: (u16, u16))
    ensures
        range.0 == gap_min(height as nat),
        range.1 == gap_max(height as nat),
        range.0 <= range.1,
{
    let hi: u16 = height.saturating_sub(PIPE_GAP + GAP_MARGIN);
    let lo: u16 = if hi < GAP_MARGIN {
        hi
    } else {
        GAP_MARGIN
    };
    (lo, hi)
}

/// A gap row drawn at random among the allowed ones.
pub fn random_gap(height: u16) -> (gap_y: u16)
    ensures
        gap_allowed(height as nat, gap_y as int),
{
    let (lo, hi) = gap_range(height);
    random_between(lo, hi)
}

/// One random gap row for each pipe a run starts with.
pub fn random_gaps(height: u16) -> (gaps: [u16; INITIAL_PIPES])
    ensures
        gaps_allowed(height as nat, gap_rows(gaps@)),
{
    let gaps: [u16; INITIAL_PIPES] = [
        random_gap(height),
        random_gap(height),
        random_gap(height),
        random_gap(height),
    ];
    gaps
}

/// The pipes a run starts with: the first in the middle of the screen, the
/// others one spacing apart behind it.
fn make_initial_pipes(width: u16, gaps: &[u16; INITIAL_PIPES]) -> (pipes: Vec<Pipe>)
    ensures
        pipe_models(pipes@) == initial_pipes(width as nat, gap_rows(gaps@)),
{
    let mut pipes: Vec<Pipe> = Vec::new();
    let mut x: i32 = width as i32 / 2;
    let mut i: usize = 0;
    while i < INITIAL_PIPES
        invariant
            i <= INITIAL_PIPES,
            pipes@.len() == i,
            x == width as nat / 2 + i * PIPE_SPACING,
            forall|j: int|
                0 <= j < i ==> (#[trigger] pipes@[j])@ == PipeModel::fresh(
                    width as nat / 2 + j * PIPE_SPACING,
                    gaps@[j] as int,
                ),
        decreases INITIAL_PIPES - i,
    {
        assert(i * PIPE_SPACING <= 3 * PIPE_SPACING && (i + 1) * PIPE_SPACING == i
            * PIPE_SPACING + PIPE_SPACING) by (nonlinear_arith)
            requires
                i <= 3,
        ;
        pipes.push(Pipe::new(x, gaps[i]));
        x = x + PIPE_SPACING as i32;
        i = i + 1;
    }
    assert(pipe_models(pipes@) =~= initial_pipes(width as nat, gap_rows(gaps@)));
    pipes
}

/// Moves every pipe one step and marks those the bird has left behind.
/// Returns the score with one point added for each pipe newly marked.
fn advance_pipes(pipes: &mut Vec<Pipe>, score: u32) -> (new_score: u32)
    requires
        forall|i: int|
            0 <= i < old(pipes)@.len() ==> (#[trigger] pipe_models(old(pipes)@)[i]).x > i32::MIN,
        score + newly_passed(pipe_models(old(pipes)@)) <= u32::MAX,
    ensures
        pipe_models(final(pipes)@) == advanced_pipes(pipe_models(old(pipes)@)),
        new_score == score + newly_passed(pipe_models(old(pipes)@)),
{
    let ghost before = pipes@;
    let count: usize = pipes.len();
    let mut total: u32 = score;
    let mut i: usize = 0;
    while i < count
        invariant
            i <= count,
            count == before.len(),
            pipes@.len() == count,
            forall|j: int| 0 <= j < i ==> (#[trigger] pipes@[j])@ == before[j]@.advanced(),
            forall|j: int| i <= j < count ==> #[trigger] pipes@[j] == before[j],
            forall|j: int| 0 <= j < count ==> (#[trigger] pipe_models(before)[j]).x > i32::MIN,
            total == score + newly_passed(pipe_models(before).take(i as int)),
            score + newly_passed(pipe_models(before)) <= u32::MAX,
        decreases count - i,
    {
        proof {
            lemma_newly_passed_step(pipe_models(before), i as int);
            lemma_newly_passed_prefix(pipe_models(before), i + 1);
        }
        let mut pipe: Pipe = pipes[i];
        assert(pipe@ == pipe_models(before)[i as int]);
        pipe.update();
        if !pipe.passed && pipe.has_bird_passed(BIRD_X) {
            pipe.passed = true;
            total = total + 1;
        }
        pipes.set(i, pipe);
        i = i + 1;
    }
    proof {
        assert(pipe_models(before).take(count as int) =~= pipe_models(before));
        assert(pipe_models(pipes@) =~= advanced_pipes(pipe_models(before)));
    }
    total
}

/// Whether a bird in row `row` touches one of the pipes.
fn hits_pipe(pipes: &Vec<Pipe>, row: u16) -> (hit: bool)
    ensures
        hit == hits_any(pipe_models(pipes@), row as int),
{
    let count: usize = pipes.len();
    let mut i: usize = 0;
    while i < count
        invariant
            i <= count,
            count == pipes@.len(),
            forall|j: int|
                0 <= j < i ==> !(#[trigger] pipe_models(pipes@)[j]).collides_with(
                    BIRD_X as int,
                    row as int,
                ),
        decreases count - i,
    {
        if pipes[i].collides_with(BIRD_X, row) {
            assert(pipe_models(pipes@)[i as int].collides_with(BIRD_X as int, row as int));
            return true;
        }
        i = i + 1;
    }
    false
}

/// Drops the pipes that have left the screen and keeps the order of the
/// others.
fn cull_pipes(pipes: &mut Vec<Pipe>)
    ensures
        pipe_models(final(pipes)@) == culled(pipe_models(old(pipes)@)),
{
    let ghost before = pipe_models(pipes@);
    let count: usize = pipes.len();
    let mut kept: Vec<Pipe> = Vec::new();
    let mut i: usize = 0;
    proof {
        assert(before.take(0) =~= Seq::<PipeModel>::empty());
        reveal(Seq::filter);
        assert(pipe_models(kept@) =~= culled(before.take(0)));
    }
    while i < count
        invariant
            i <= count,
            count == pipes@.len(),
            before == pipe_models(pipes@),
            pipe_models(kept@) == culled(before.take(i as int)),
        decreases count - i,
    {
        let pipe: Pipe = pipes[i];
        proof {
            assert(before.take(i + 1) =~= before.take(i as int).push(pipe@));
            before.take(i as int).lemma_filter_push(pipe@, on_screen());
        }
        if !pipe.is_offscreen() {
            kept.push(pipe);
            assert(pipe_models(kept@) =~= culled(before.take(i as int)).push(pipe@));
        }
        i = i + 1;
    }
    proof {
        assert(before.take(count as int) =~= before);
    }
    *pipes = kept;
}

impl Game {
    /// Whether the game is in a state that a run can reach.
    pub open spec fn wf(&self) -> bool {
        self@.wf()
    }

    /// A new game with the given gap rows for its first pipes.
    pub fn with_gaps(
        width: u16,
        height: u16,
        high_score: u32,
        gaps: [u16; INITIAL_PIPES],
    ) -> (game: Game)
        requires
            gaps_allowed(height as nat, gap_rows(gaps@)),
        ensures
            game@ == GameModel::initial(
                width as nat,
                height as nat,
                high_score as nat,
                gap_rows(gaps@),
            ),
            game.wf(),
    {
        let pipes = make_initial_pipes(width, &gaps);
        let game = Game {
            bird: Bird::new(height / 2),
            pipes,
            score: 0,
            high_score,
            is_new_record: false,
            state: GameState::Playing,
            width,
            height,
        };
        proof {
            lemma_initial_wf(width as nat, height as nat, high_score as nat, gap_rows(gaps@));
        }
        game
    }

    /// A new game on a play area of `width` columns and `height` rows.
    /// `high_score` is the best score known so far. The gaps of the first
    /// pipes are drawn at random.
    pub fn new(width: u16, height: u16, high_score: u32) -> (game: Game)
        ensures
            exists|gaps: Seq<int>|
                gaps_allowed(height as nat, gaps) && game@ == #[trigger] GameModel::initial(
                    width as nat,
                    height as nat,
                    high_score as nat,
                    gaps,
                ),
            game.wf(),
    {
        let gaps = random_gaps(height);
        Game::with_gaps(width, height, high_score, gaps)
    }

    /// Whether the game is in a state that a run can reach.
    pub fn is_valid(&self) -> (valid: bool)
        ensures
            valid == self.wf(),
    {
        let playing: bool = self.state == GameState::Playing;
        let floor: i64 = ROW_SCALE as i64 * self.height as i64;
        assert(0 <= floor <= 10 * u16::MAX) by (nonlinear_arith)
            requires
                floor == ROW_SCALE * self.height,
                ROW_SCALE == 10,
                self.height <= u16::MAX,
        ;
        let y: i64 = self.bird.y as i64;
        let velocity: i64 = self.bird.velocity as i64;
        if velocity < JUMP_VELOCITY as i64 || velocity > floor + GRAVITY as i64 {
            return false;
        }
        if y < (JUMP_VELOCITY + GRAVITY) as i64 || y > 2 * floor + GRAVITY as i64 {
            return false;
        }
        if playing && (y < 0 || y > floor || velocity > floor) {
            return false;
        }
        let (lo, hi) = gap_range(self.height);
        let count: usize = self.pipes.len();
        let mut i: usize = 0;
        while i < count
            invariant
                i <= count,
                count == self.pipes@.len(),
                playing == (self.state == GameState::Playing),
                lo == gap_min(self@.height),
                hi == gap_max(self@.height),
                in_order(self@.pipes.take(i as int)),
                forall|j: int|
                    0 <= j < i ==> gap_allowed(self@.height, (#[trigger] self@.pipes[j]).gap_y),
                playing ==> forall|j: int|
                    0 <= j < i ==> !(#[trigger] self@.pipes[j]).is_offscreen(),
            decreases count - i,
        {
            let pipe: &Pipe = &self.pipes[i];
            assert(pipe@ == self@.pipes[i as int]);
            if pipe.gap_y < lo || pipe.gap_y > hi || (playing && pipe.is_offscreen()) {
                return false;
            }
            if i > 0 && self.pipes[i - 1].x >= pipe.x {
                assert(self@.pipes[i - 1].x >= self@.pipes[i as int].x);
                return false;
            }
            proof {
                let seen = self@.pipes.take(i as int);
                let next = self@.pipes.take(i + 1);
                assert forall|a: int, b: int| 0 <= a < b < next.len() implies (#[trigger] next[a]).x
                    < (#[trigger] next[b]).x by {
                    if b < i {
                        assert(seen[a].x < seen[b].x);
                    } else if a < i - 1 {
                        assert(seen[a].x < seen[i - 1].x);
                    }
                }
            }
            i = i + 1;
        }
        assert(self@.pipes.take(count as int) =~= self@.pipes);
        true
    }

    /// Whether the score after the coming tick still fits the integer
    /// that holds it.
    pub fn score_fits(&self) -> (fits: bool)
        ensures
            fits == (self@.score_after_tick() <= u32::MAX),
    {
        if self.state != GameState::Playing {
            return true;
        }
        let fallen: i64 = self.bird.y as i64 + self.bird.velocity as i64 + GRAVITY as i64;
        if fallen < 0 || fallen / ROW_SCALE as i64 >= self.height as i64 {
            return true;
        }
        let count: usize = self.pipes.len();
        let mut total: u64 = self.score as u64;
        let mut i: usize = 0;
        while i < count
            invariant
                i <= count,
                count == self.pipes@.len(),
                self.state == GameState::Playing,
                !self@.bird_leaves(),
                total == self.score + newly_passed(self@.pipes.take(i as int)),
                total <= u32::MAX,
            decreases count - i,
        {
            proof {
                lemma_newly_passed_step(self@.pipes, i as int);
                lemma_newly_passed_prefix(self@.pipes, i + 1);
            }
            let pipe: &Pipe = &self.pipes[i];
            assert(pipe@ == self@.pipes[i as int]);
            let right_edge: i64 = pipe.x as i64 - PIPE_SPEED as i64 + PIPE_WIDTH as i64;
            if !pipe.passed && BIRD_X as i64 > right_edge {
                total = total + 1;
                if total > u32::MAX as u64 {
                    return false;
                }
            }
            i = i + 1;
        }
        assert(self@.pipes.take(count as int) =~= self@.pipes);
        true
    }

    /// Starts a jump. Does nothing once the run has ended.
    pub fn jump(&mut self)
        ensures
            final(self)@ == old(self)@.jumped(),
            old(self).wf() ==> final(self).wf(),
    {
        if self.state == GameState::Playing {
            self.bird.jump();
        }
    }

    /// Brings the best score up to date. Returns the score to store where
    /// the current one has beaten it.
    pub fn check_and_save_highscore(&mut self) -> (record: Option<u32>)
        ensures
            final(self)@ == old(self)@.committed(),
            as_record(record) == old(self)@.record(),
            old(self).wf() ==> final(self).wf(),
    {
        if self.score > self.high_score {
            self.high_score = self.score;
            self.is_new_record = true;
            Some(self.high_score)
        } else {
            None
        }
    }

    /// Starts a new run with the given gap rows for its first pipes. The
    /// best score stays.
    pub fn reset_with(&mut self, gaps: [u16; INITIAL_PIPES])
        requires
            gaps_allowed(old(self)@.height, gap_rows(gaps@)),
        ensures
            final(self)@ == old(self)@.restarted(gap_rows(gaps@)),
            final(self).wf(),
    {
        self.bird.reset(self.height / 2);
        self.pipes = make_initial_pipes(self.width, &gaps);
        self.score = 0;
        self.is_new_record = false;
        self.state = GameState::Playing;
        proof {
            lemma_initial_wf(
                self.width as nat,
                self.height as nat,
                self.high_score as nat,
                gap_rows(gaps@),
            );
        }
    }

    /// Starts a new run. The best score stays; the gaps of the first pipes
    /// are drawn at random.
    pub fn reset(&mut self)
        ensures
            exists|gaps: Seq<int>|
                gaps_allowed(old(self)@.height, gaps) && final(self)@ == #[trigger] old(
                    self,
                )@.restarted(gaps),
            final(self).wf(),
    {
        let gaps = random_gaps(self.height);
        self.reset_with(gaps);
    }

    /// Puts a new pipe, whose gap starts at `gap_y`, behind the others: one
    /// spacing behind the last, or at the right border where there is none.
    pub fn spawn_pipe_with(&mut self, gap_y: u16)
        requires
            old(self).wf(),
            gap_allowed(old(self)@.height, gap_y as int),
            next_pipe_x(old(self)@.pipes, old(self)@.width) <= i32::MAX,
        ensures
            final(self)@ == old(self)@.with_spawned(gap_y as int),
            final(self).wf(),
    {
        let count: usize = self.pipes.len();
        let new_x: i32 = if count > 0 {
            self.pipes[count - 1].x + PIPE_SPACING as i32
        } else {
            self.width as i32
        };
        self.pipes.push(Pipe::new(new_x, gap_y));
        assert(pipe_models(self.pipes@) =~= spawned(
            pipe_models(old(self).pipes@),
            self.width as nat,
            gap_y as int,
        ));
    }

    /// Puts a new pipe behind the others, with a gap drawn at random.
    pub fn spawn_pipe(&mut self)
        requires
            old(self).wf(),
            next_pipe_x(old(self)@.pipes, old(self)@.width) <= i32::MAX,
        ensures
            exists|gap_y: int|
                gap_allowed(old(self)@.height, gap_y) && final(self)@ == #[trigger] old(
                    self,
                )@.with_spawned(gap_y),
            final(self).wf(),
    {
        let gap_y = random_gap(self.height);
        self.spawn_pipe_with(gap_y);
        assert(self@ == old(self)@.with_spawned(gap_y as int));
    }

    /// One tick up to the point where a new pipe may be due. Returns the
    /// score to store, if the run has ended with a new best, and whether a
    /// new pipe is due.
    fn step(&mut self) -> (outcome: (Option<u32>, bool))
        requires
            old(self).wf(),
            old(self)@.score_after_tick() <= u32::MAX,
        ensures
            final(self)@ == old(self)@.tick_before_spawn(),
            as_record(outcome.0) == old(self)@.tick_record(),
            outcome.1 == old(self)@.tick_spawns(),
            final(self).wf(),
    {
        proof {
            lemma_tick_keeps_wf(self@, gap_min(self@.height) as int);
        }
        if self.state != GameState::Playing {
            return (None, false);
        }
        self.bird.update();
        if self.bird.is_outside(self.height) {
            self.state = GameState::GameOver;
            let record = self.check_and_save_highscore();
            return (record, false);
        }
        let row: u16 = self.bird.row() as u16;
        self.score = advance_pipes(&mut self.pipes, self.score);
        if hits_pipe(&self.pipes, row) {
            self.state = GameState::GameOver;
            let record = self.check_and_save_highscore();
            return (record, false);
        }
        cull_pipes(&mut self.pipes);
        let count: usize = self.pipes.len();
        let due: bool = count == 0 || self.pipes[count - 1].x < self.width as i32
            - SPAWN_MARGIN as i32;
        (None, due)
    }

    /// Advances the game by one tick. Where the tick brings a new pipe,
    /// its gap starts at `gap_y`. Returns the score to store, if the tick
    /// has ended the run with a new best.
    pub fn update_with(&mut self, gap_y: u16) -> (record: Option<u32>)
        requires
            old(self).wf(),
            gap_allowed(old(self)@.height, gap_y as int),
            old(self)@.score_after_tick() <= u32::MAX,
        ensures
            final(self)@ == old(self)@.tick(gap_y as int),
            as_record(record) == old(self)@.tick_record(),
            final(self).wf(),
    {
        let (record, due) = self.step();
        if due {
            self.spawn_pipe_with(gap_y);
        }
        record
    }

    /// Advances the game by one tick. Where the tick brings a new pipe,
    /// its gap is drawn at random. Returns the score to store, if the tick
    /// has ended the run with a new best.
    pub fn update(&mut self) -> (record: Option<u32>)
        requires
            old(self).wf(),
            old(self)@.score_after_tick() <= u32::MAX,
        ensures
            exists|gap_y: int|
                gap_allowed(old(self)@.height, gap_y) && final(self)@ == #[trigger] old(self)@.tick(
                    gap_y,
                ),
            as_record(record) == old(self)@.tick_record(),
            final(self).wf(),
    {
        let (record, due) = self.step();
        if due {
            let gap_y = random_gap(self.height);
            self.spawn_pipe_with(gap_y);
            assert(self@ == old(self)@.tick(gap_y as int));
        } else {
            assert(self@ == old(self)@.tick(gap_min(self@.height) as int));
        }
        record
    }
}

} // verus!
