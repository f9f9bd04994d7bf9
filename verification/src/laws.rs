//! What holds of the rules, proved once and for all.

use vstd::prelude::*;
use crate::bird::{BirdModel, GRAVITY};
use crate::driver::Command;
use crate::pipe::{PipeModel, PIPE_GAP};
use crate::rules::{
    advanced_pipes, culled, gap_allowed, gaps_allowed, hits_any, in_order, newly_passed, on_screen,
    GameModel, GameState, GAP_MARGIN, INITIAL_PIPES,
};

verus! {

/// Counting the credited pipes one pipe further.
pub proof fn lemma_newly_passed_step(pipes: Seq<PipeModel>, i: int)
    requires
        0 <= i < pipes.len(),
    ensures
        newly_passed(pipes.take(i + 1)) == newly_passed(pipes.take(i)) + if pipes[i].scores() {
            1nat
        } else {
            0nat
        },
{
    assert(pipes.take(i + 1).drop_last() =~= pipes.take(i));
}

/// A part of the pipes holds no more credited pipes than all of them.
pub proof fn lemma_newly_passed_prefix(pipes: Seq<PipeModel>, i: int)
    requires
        0 <= i <= pipes.len(),
    ensures
        newly_passed(pipes.take(i)) <= newly_passed(pipes),
    decreases pipes.len() - i,
{
    if i < pipes.len() {
        lemma_newly_passed_step(pipes, i);
        lemma_newly_passed_prefix(pipes, i + 1);
    } else {
        assert(pipes.take(i) =~= pipes);
    }
}

/// What is left after the cull is on the screen and was there before.
pub proof fn lemma_culled_members(pipes: Seq<PipeModel>)
    ensures
        forall|i: int|
            0 <= i < culled(pipes).len() ==> {
                &&& !(#[trigger] culled(pipes)[i]).is_offscreen()
                &&& pipes.contains(culled(pipes)[i])
            },
{
    let kept = culled(pipes);
    broadcast use vstd::seq_lib::group_filter_ensures;

    assert forall|i: int| 0 <= i < kept.len() implies {
        &&& !(#[trigger] kept[i]).is_offscreen()
        &&& pipes.contains(kept[i])
    } by {
        assert(on_screen()(kept[i]));
        assert(kept.contains(kept[i]));
        pipes.lemma_filter_contains_rev(on_screen(), kept[i]);
    }
}

/// Dropping pipes leaves the others in their order.
pub proof fn lemma_culled_in_order(pipes: Seq<PipeModel>)
    requires
        in_order(pipes),
    ensures
        in_order(culled(pipes)),
    decreases pipes.len(),
{
    reveal(Seq::filter);
    if pipes.len() > 0 {
        let front = pipes.drop_last();
        let last = pipes.last();
        assert(in_order(front)) by {
            assert forall|i: int, j: int| 0 <= i < j < front.len() implies (#[trigger] front[i]).x
                < (#[trigger] front[j]).x by {
                assert(front[i] == pipes[i] && front[j] == pipes[j]);
            }
        }
        lemma_culled_in_order(front);
        lemma_culled_members(front);
        let kept = culled(front);
        assert forall|i: int| 0 <= i < kept.len() implies (#[trigger] kept[i]).x < last.x by {
            let k = choose|k: int| 0 <= k < front.len() && front[k] == kept[i];
            assert(front[k] == pipes[k]);
            assert(pipes[k].x < pipes[pipes.len() - 1].x);
        }
    }
}

/// The last pipe is the rightmost one.
pub proof fn lemma_last_is_rightmost(game: GameModel)
    requires
        game.wf(),
        game.pipes.len() > 0,
    ensures
        forall|i: int|
            0 <= i < game.pipes.len() ==> (#[trigger] game.pipes[i]).x <= game.pipes.last().x,
{
    assert forall|i: int| 0 <= i < game.pipes.len() implies (#[trigger] game.pipes[i]).x
        <= game.pipes.last().x by {
        if i < game.pipes.len() - 1 {
            assert(game.pipes[i].x < game.pipes[game.pipes.len() - 1].x);
        }
    }
}

/// A tick takes well-formed states to well-formed states.
pub proof fn lemma_tick_keeps_wf(game: GameModel, gap_y: int)
    requires
        game.wf(),
        gap_allowed(game.height, gap_y),
    ensures
        game.tick_before_spawn().wf(),
        game.tick(gap_y).wf(),
{
    if game.state == GameState::Playing && !game.bird_leaves() {
        let moved = advanced_pipes(game.pipes);
        assert(in_order(moved)) by {
            assert forall|i: int, j: int| 0 <= i < j < moved.len() implies (#[trigger] moved[i]).x
                < (#[trigger] moved[j]).x by {
                assert(game.pipes[i].x < game.pipes[j].x);
            }
        }
        if !game.bird_crashes() {
            let kept = culled(moved);
            lemma_culled_members(moved);
            lemma_culled_in_order(moved);
            assert forall|i: int| 0 <= i < kept.len() implies gap_allowed(
                game.height,
                (#[trigger] kept[i]).gap_y,
            ) by {
                let j = choose|j: int| 0 <= j < moved.len() && moved[j] == kept[i];
                assert(moved[j].gap_y == game.pipes[j].gap_y);
            }
        }
    }
}

/// A run starts in a well-formed state.
pub proof fn lemma_initial_wf(width: nat, height: nat, high_score: nat, gaps: Seq<int>)
    requires
        gaps_allowed(height, gaps),
    ensures
        GameModel::initial(width, height, high_score, gaps).wf(),
{
}

/// A jump takes well-formed states to well-formed states.
pub proof fn lemma_jump_keeps_wf(game: GameModel)
    requires
        game.wf(),
    ensures
        game.jumped().wf(),
{
}

/// While a run is going on, a tick first adds gravity to the bird's speed
/// and then the new speed to its height. Whether the run ends is decided
/// for the bird where it is after that.
pub proof fn lemma_tick_moves_bird(game: GameModel, gap_y: int)
    requires
        game.state == GameState::Playing,
    ensures
        game.tick(gap_y).bird.velocity == game.bird.velocity + GRAVITY,
        game.tick(gap_y).bird.y == game.bird.y + game.tick(gap_y).bird.velocity,
        game.tick_ends_run() <==> game.tick(gap_y).bird.is_outside(game.height as int) || hits_any(
            advanced_pipes(game.pipes),
            game.tick(gap_y).bird.row(),
        ),
        game.tick_ends_run() <==> game.tick(gap_y).state == GameState::GameOver,
{
}

/// A pipe earns its point on the tick on which its mark goes from unset
/// to set, and only then: a mark that is set stays set and earns nothing.
pub proof fn lemma_pipe_scores_once(pipe: PipeModel)
    ensures
        pipe.scores() <==> !pipe.passed && pipe.advanced().passed,
        pipe.passed ==> pipe.advanced().passed && !pipe.scores(),
        pipe.scores() ==> !pipe.advanced().scores(),
{
}

/// A tick that does not take the bird out of the play area adds to the
/// score one point for each pipe whose mark it sets, and nothing else.
pub proof fn lemma_tick_scores_passes(game: GameModel, gap_y: int)
    requires
        game.state == GameState::Playing,
        !game.bird_leaves(),
    ensures
        game.tick(gap_y).score == game.score + newly_passed(game.pipes),
        newly_passed(game.pipes) <= game.pipes.len(),
        forall|i: int|
            0 <= i < game.pipes.len() ==> ((#[trigger] game.pipes[i]).scores()
                <==> !game.pipes[i].passed && advanced_pipes(game.pipes)[i].passed),
{
    lemma_newly_passed_bound(game.pipes);
}

/// No more pipes are credited than there are.
pub proof fn lemma_newly_passed_bound(pipes: Seq<PipeModel>)
    ensures
        newly_passed(pipes) <= pipes.len(),
    decreases pipes.len(),
{
    if pipes.len() > 0 {
        lemma_newly_passed_bound(pipes.drop_last());
    }
}

/// Where the play area is high enough for a gap with its margins, every
/// gap of a well-formed game keeps the margin to the top border and to the
/// bottom border.
pub proof fn lemma_gaps_keep_margins(game: GameModel)
    requires
        game.wf(),
        game.height >= PIPE_GAP + 2 * GAP_MARGIN,
    ensures
        forall|i: int|
            0 <= i < game.pipes.len() ==> GAP_MARGIN <= (#[trigger] game.pipes[i]).gap_y
                && game.pipes[i].gap_y + PIPE_GAP <= game.height - GAP_MARGIN,
{
}

/// Once a run has ended, neither a tick nor a jump changes anything, and
/// nothing is to be stored.
pub proof fn lemma_game_over_stands_still(game: GameModel, gap_y: int)
    requires
        game.state == GameState::GameOver,
    ensures
        game.tick(gap_y) == game,
        game.jumped() == game,
        game.tick_record() is None,
{
}

/// A restart keeps the best score and the play area and puts everything
/// else back: no points, no record, the bird at rest in the middle row,
/// and the pipes a run starts with.
pub proof fn lemma_restart(game: GameModel, gaps: Seq<int>)
    ensures
        game.restarted(gaps).high_score == game.high_score,
        game.restarted(gaps).width == game.width,
        game.restarted(gaps).height == game.height,
        game.restarted(gaps).score == 0,
        !game.restarted(gaps).is_new_record,
        game.restarted(gaps).state == GameState::Playing,
        game.restarted(gaps).bird == BirdModel::at_row(game.height as int / 2),
        game.restarted(gaps).bird.velocity == 0,
        game.restarted(gaps).pipes.len() == INITIAL_PIPES,
        gaps_allowed(game.height, gaps) ==> game.restarted(gaps).wf(),
{
}

/// A tick never touches the size of the play area and never lowers the
/// score or the best score. The best score changes only on the tick that
/// ends a run.
pub proof fn lemma_tick_keeps_what_is_fixed(game: GameModel, gap_y: int)
    ensures
        game.tick(gap_y).width == game.width,
        game.tick(gap_y).height == game.height,
        game.tick(gap_y).score == game.score_after_tick(),
        game.tick(gap_y).score >= game.score,
        game.tick(gap_y).high_score >= game.high_score,
        !game.tick_ends_run() ==> game.tick(gap_y).high_score == game.high_score
            && game.tick(gap_y).is_new_record == game.is_new_record,
{
}

/// The state of the run changes in two ways only: the tick that ends a
/// run takes it from playing to over, and a restart takes it from over to
/// playing.
pub proof fn lemma_state_changes(game: GameModel, gap_y: int, command: Command, gaps: Seq<int>)
    ensures
        game.tick(gap_y).state != game.state <==> game.tick_ends_run(),
        game.tick_ends_run() ==> game.state == GameState::Playing && game.tick(gap_y).state
            == GameState::GameOver,
        game.after_command(command, gaps).state != game.state <==> command == Command::Restart
            && game.state == GameState::GameOver,
        command == Command::Restart && game.state == GameState::GameOver ==> game.after_command(
            command,
            gaps,
        ).state == GameState::Playing,
{
}

/// The end of a run brings the best score up to date: it is the larger of
/// the score and the best score before, the record is marked where the
/// score is the larger one, and that score is the one to store.
pub proof fn lemma_end_of_run_commits(game: GameModel)
    ensures
        game.ended().state == GameState::GameOver,
        game.ended().score == game.score,
        game.ended().high_score == if game.score > game.high_score {
            game.score
        } else {
            game.high_score
        },
        game.score > game.high_score ==> game.ended().is_new_record && game.record() == Some(
            game.score,
        ),
        game.score <= game.high_score ==> game.ended().is_new_record == game.is_new_record
            && game.record() is None,
{
}

} // verus!
