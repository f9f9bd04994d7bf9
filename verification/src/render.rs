//! Frames: what to draw for a state of the game, and where.
//!
//! A frame is a list of commands for a terminal. The game only makes the
//! list; carrying the commands out is left to the caller.

use vstd::prelude::*;
use crate::bird::BirdModel;
use crate::game::{pipe_models, Game};
use crate::pipe::{Pipe, PipeModel, PIPE_GAP};
use crate::rules::{GameModel, GameState, BIRD_X};
use crate::text::Text;

verus! {

/// Column at which the line with the scores starts.
pub const STATUS_X: u16 = 2;

/// Columns between the left border of the box shown at the end of a run
/// and the middle of the screen.
pub const BOX_OFFSET: u16 = 12;

/// The colours in use.
#[derive(Clone, Copy, Debug, PartialEq, Eq, Structural)]
pub enum Color {
    Green,
    Yellow,
    Cyan,
    Red,
}

/// One command for the terminal.
#[derive(Clone, Copy, Debug, PartialEq, Eq, Structural)]
pub enum DrawOp {
    /// Wipe the screen.
    Clear,
    /// Print in this colour from now on.
    Foreground(Color),
    /// Put the cursor at a column and a row, both counted from zero.
    MoveTo { col: u16, row: u16 },
    /// Print at the cursor.
    Print(Text),
    /// Go back to the terminal's own colours.
    ResetColor,
    /// Send everything that is still waiting.
    Flush,
}

/// The cursor is moved to a place and a text is printed there.
pub open spec fn print_at(col: int, row: int, text: Text) -> Seq<DrawOp> {
    seq![DrawOp::MoveTo { col: col as u16, row: row as u16 }, DrawOp::Print(text)]
}

/// A piece of a pipe: one block in every row from `from` up to, but not
/// including, `to`.
pub open spec fn column_ops(col: int, from: int, to: int) -> Seq<DrawOp>
    decreases to - from,
{
    if from >= to {
        Seq::empty()
    } else {
        column_ops(col, from, to - 1) + print_at(col, to - 1, Text::PipeBlock)
    }
}

/// The last row of the upper piece of a pipe, plus one: the first row of
/// the gap, or the bottom border if the gap starts below it.
pub open spec fn upper_end(pipe: PipeModel, height: nat) -> int {
    if pipe.gap_y <= height {
        pipe.gap_y
    } else {
        height as int
    }
}

/// A pipe whose left edge is on the screen is drawn in two pieces, from
/// the top border to the gap and from the gap to the bottom border. Any
/// other pipe is not drawn at all.
pub open spec fn pipe_ops(pipe: PipeModel, width: nat, height: nat) -> Seq<DrawOp> {
    if 0 <= pipe.x < width {
        column_ops(pipe.x, 0, upper_end(pipe, height)) + column_ops(
            pipe.x,
            pipe.gap_y + PIPE_GAP,
            height as int,
        )
    } else {
        Seq::empty()
    }
}

/// All pipes, in their order.
pub open spec fn pipes_ops(pipes: Seq<PipeModel>, width: nat, height: nat) -> Seq<DrawOp>
    decreases pipes.len(),
{
    if pipes.len() == 0 {
        Seq::empty()
    } else {
        pipes_ops(pipes.drop_last(), width, height) + pipe_ops(pipes.last(), width, height)
    }
}

/// The bird is drawn in its row unless it has left the play area.
pub open spec fn bird_ops(bird: BirdModel, height: nat) -> Seq<DrawOp> {
    if bird.is_outside(height as int) {
        Seq::empty()
    } else {
        print_at(BIRD_X as int, bird.row(), Text::Bird)
    }
}

/// Row of the line with the scores: the last row of the play area.
pub open spec fn status_row(height: nat) -> int {
    if height >= 1 {
        height - 1
    } else {
        0
    }
}

/// Column of the left border of the box.
pub open spec fn box_col(width: nat) -> int {
    if width / 2 >= BOX_OFFSET {
        width / 2 - BOX_OFFSET
    } else {
        0
    }
}

/// Row of the upper border of the box.
pub open spec fn box_row(height: nat) -> int {
    if height / 2 >= 1 {
        height / 2 - 1
    } else {
        0
    }
}

/// Lines of text below each other, all starting at the same column.
pub open spec fn lines_ops(col: int, row: int, lines: Seq<Text>) -> Seq<DrawOp>
    decreases lines.len(),
{
    if lines.len() == 0 {
        Seq::empty()
    } else {
        lines_ops(col, row, lines.drop_last()) + print_at(
            col,
            row + lines.len() - 1,
            lines.last(),
        )
    }
}

/// The lines of the box after a new best score.
pub open spec fn record_lines(score: u32) -> Seq<Text> {
    seq![
        Text::BoxTop,
        Text::NewRecord,
        Text::Score(score),
        Text::Blank,
        Text::Retry,
        Text::Quit,
        Text::BoxBottom,
    ]
}

/// The lines of the box after any other run.
pub open spec fn game_over_lines(score: u32, high_score: u32) -> Seq<Text> {
    seq![
        Text::BoxTop,
        Text::GameOver,
        Text::Score(score),
        Text::Best(high_score),
        Text::Blank,
        Text::Retry,
        Text::Quit,
        Text::BoxBottom,
    ]
}

/// The box in the middle of the screen, shown once a run has ended.
pub open spec fn box_ops(game: GameModel) -> Seq<DrawOp> {
    if game.state != GameState::GameOver {
        Seq::empty()
    } else if game.is_new_record {
        seq![DrawOp::Foreground(Color::Yellow)] + lines_ops(
            box_col(game.width),
            box_row(game.height),
            record_lines(game.score as u32),
        )
    } else {
        seq![DrawOp::Foreground(Color::Red)] + lines_ops(
            box_col(game.width),
            box_row(game.height),
            game_over_lines(game.score as u32, game.high_score as u32),
        )
    }
}

/// The whole frame: the screen is wiped, then come the pipes, the bird,
/// the line with the scores and, once a run has ended, the box.
pub open spec fn frame(game: GameModel) -> Seq<DrawOp> {
    seq![DrawOp::Clear, DrawOp::Foreground(Color::Green)] + pipes_ops(
        game.pipes,
        game.width,
        game.height,
    ) + seq![DrawOp::Foreground(Color::Yellow)] + bird_ops(game.bird, game.height)
        + seq![DrawOp::Foreground(Color::Cyan)] + print_at(
        STATUS_X as int,
        status_row(game.height),
        Text::Status { score: game.score as u32, high_score: game.high_score as u32 },
    ) + box_ops(game) + seq![DrawOp::ResetColor, DrawOp::Flush]
}

/// Adds the commands that print `text` at a place.
fn push_print_at(ops: &mut Vec<DrawOp>, col: u16, row: u16, text: Text)
    ensures
        final(ops)@ == old(ops)@ + print_at(col as int, row as int, text),
{
    ops.push(DrawOp::MoveTo { col, row });
    ops.push(DrawOp::Print(text));
    assert(ops@ =~= old(ops)@ + print_at(col as int, row as int, text));
}

/// Adds a piece of a pipe.
fn push_column(ops: &mut Vec<DrawOp>, col: u16, from: u16, to: u16)
    ensures
        final(ops)@ == old(ops)@ + column_ops(col as int, from as int, to as int),
{
    let mut row: u16 = from;
    assert(ops@ =~= old(ops)@ + column_ops(col as int, from as int, from as int));
    while row < to
        invariant
            from <= row,
            row <= to || row == from,
            ops@ == old(ops)@ + column_ops(col as int, from as int, row as int),
        decreases to - row,
    {
        push_print_at(ops, col, row, Text::PipeBlock);
        row = row + 1;
        assert(ops@ =~= old(ops)@ + column_ops(col as int, from as int, row as int));
    }
    assert(column_ops(col as int, from as int, to as int) =~= column_ops(
        col as int,
        from as int,
        row as int,
    )) by {
        if from >= to {
            assert(row == from);
        }
    }
}

/// Adds one pipe.
fn push_pipe(ops: &mut Vec<DrawOp>, pipe: &Pipe, width: u16, height: u16)
    ensures
        final(ops)@ == old(ops)@ + pipe_ops(pipe@, width as nat, height as nat),
{
    if pipe.x >= 0 && pipe.x < width as i32 {
        let col: u16 = pipe.x as u16;
        let upper: u16 = if pipe.gap_y <= height {
            pipe.gap_y
        } else {
            height
        };
        push_column(ops, col, 0, upper);
        let lower: u32 = pipe.gap_y as u32 + PIPE_GAP as u32;
        if lower < height as u32 {
            push_column(ops, col, lower as u16, height);
        } else {
            assert(column_ops(col as int, lower as int, height as int) =~= Seq::empty());
        }
    }
    assert(ops@ =~= old(ops)@ + pipe_ops(pipe@, width as nat, height as nat));
}

/// Adds lines of text below each other.
fn push_lines(ops: &mut Vec<DrawOp>, col: u16, row: u16, lines: &Vec<Text>)
    requires
        row + lines@.len() <= u16::MAX,
    ensures
        final(ops)@ == old(ops)@ + lines_ops(col as int, row as int, lines@),
{
    let count: usize = lines.len();
    let mut i: usize = 0;
    assert(lines@.take(0) =~= Seq::<Text>::empty());
    assert(ops@ =~= old(ops)@ + lines_ops(col as int, row as int, lines@.take(0)));
    while i < count
        invariant
            i <= count,
            count == lines@.len(),
            row + count <= u16::MAX,
            ops@ == old(ops)@ + lines_ops(col as int, row as int, lines@.take(i as int)),
        decreases count - i,
    {
        push_print_at(ops, col, row + i as u16, lines[i]);
        proof {
            let next = lines@.take(i + 1);
            assert(next.drop_last() =~= lines@.take(i as int));
            assert(next.last() == lines@[i as int]);
            assert(ops@ =~= old(ops)@ + lines_ops(col as int, row as int, next));
        }
        i = i + 1;
    }
    assert(lines@.take(count as int) =~= lines@);
}

impl Game {
    /// The frame that shows the game as it is.
    pub fn draw(&self) -> (ops: Vec<DrawOp>)
        ensures
            ops@ == frame(self@),
    {
        let mut ops: Vec<DrawOp> = Vec::new();
        ops.push(DrawOp::Clear);
        ops.push(DrawOp::Foreground(Color::Green));
        let ghost head = ops@;
        let count: usize = self.pipes.len();
        let mut i: usize = 0;
        assert(self@.pipes.take(0) =~= Seq::<PipeModel>::empty());
        assert(ops@ =~= head + pipes_ops(self@.pipes.take(0), self@.width, self@.height));
        while i < count
            invariant
                i <= count,
                count == self.pipes@.len(),
                ops@ == head + pipes_ops(self@.pipes.take(i as int), self@.width, self@.height),
            decreases count - i,
        {
            push_pipe(&mut ops, &self.pipes[i], self.width, self.height);
            proof {
                let next = self@.pipes.take(i + 1);
                assert(next.drop_last() =~= self@.pipes.take(i as int));
                assert(next.last() == self.pipes@[i as int]@);
                assert(ops@ =~= head + pipes_ops(next, self@.width, self@.height));
            }
            i = i + 1;
        }
        assert(self@.pipes.take(count as int) =~= self@.pipes);
        ops.push(DrawOp::Foreground(Color::Yellow));
        if !self.bird.is_outside(self.height) {
            push_print_at(&mut ops, BIRD_X, self.bird.row() as u16, Text::Bird);
        }
        ops.push(DrawOp::Foreground(Color::Cyan));
        push_print_at(
            &mut ops,
            STATUS_X,
            self.height.saturating_sub(1),
            Text::Status { score: self.score, high_score: self.high_score },
        );
        if self.state == GameState::GameOver {
            let col: u16 = (self.width / 2).saturating_sub(BOX_OFFSET);
            let row: u16 = (self.height / 2).saturating_sub(1);
            if self.is_new_record {
                ops.push(DrawOp::Foreground(Color::Yellow));
                let lines: Vec<Text> = vec![
                    Text::BoxTop,
                    Text::NewRecord,
                    Text::Score(self.score),
                    Text::Blank,
                    Text::Retry,
                    Text::Quit,
                    Text::BoxBottom,
                ];
                assert(lines@ =~= record_lines(self.score));
                push_lines(&mut ops, col, row, &lines);
            } else {
                ops.push(DrawOp::Foreground(Color::Red));
                let lines: Vec<Text> = vec![
                    Text::BoxTop,
                    Text::GameOver,
                    Text::Score(self.score),
                    Text::Best(self.high_score),
                    Text::Blank,
                    Text::Retry,
                    Text::Quit,
                    Text::BoxBottom,
                ];
                assert(lines@ =~= game_over_lines(self.score, self.high_score));
                push_lines(&mut ops, col, row, &lines);
            }
        }
        ops.push(DrawOp::ResetColor);
        ops.push(DrawOp::Flush);
        assert(ops@ =~= frame(self@));
        ops
    }
}

} // verus!
