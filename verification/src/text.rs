//! The words on the screen.

use vstd::prelude::*;
use vstd::string::{StrSliceExecFns, StringExecFns};
use crate::pipe::PIPE_WIDTH;

verus! {

/// Columns a number takes in the box shown at the end of a run; shorter
/// numbers are moved to the right.
pub const NUMBER_WIDTH: usize = 5;

/// The character of a decimal digit.
pub open spec fn digit_char(digit: nat) -> char {
    if digit == 0 {
        '0'
    } else if digit == 1 {
        '1'
    } else if digit == 2 {
        '2'
    } else if digit == 3 {
        '3'
    } else if digit == 4 {
        '4'
    } else if digit == 5 {
        '5'
    } else if digit == 6 {
        '6'
    } else if digit == 7 {
        '7'
    } else if digit == 8 {
        '8'
    } else {
        '9'
    }
}

/// A number in decimal digits, without leading zeros.
pub open spec fn decimal(n: nat) -> Seq<char>
    decreases n,
{
    if n < 10 {
        seq![digit_char(n)]
    } else {
        decimal(n / 10).push(digit_char(n % 10))
    }
}

/// `count` blanks.
pub open spec fn blanks(count: nat) -> Seq<char> {
    Seq::new(count, |i: int| ' ')
}

/// A number in decimal digits, with blanks in front of it where it has
/// fewer than `width` digits.
pub open spec fn padded(n: nat, width: nat) -> Seq<char> {
    if decimal(n).len() < width {
        blanks((width - decimal(n).len()) as nat) + decimal(n)
    } else {
        decimal(n)
    }
}

/// One thing that can be printed.
#[derive(Clone, Copy, Debug, PartialEq, Eq, Structural)]
pub enum Text {
    /// One row of a pipe, as wide as the pipe.
    PipeBlock,
    /// The bird.
    Bird,
    /// The line that shows the score and the best score.
    Status { score: u32, high_score: u32 },
    /// Upper border of the box shown at the end of a run.
    BoxTop,
    /// Headline of the box after a new best score.
    NewRecord,
    /// Headline of the box otherwise.
    GameOver,
    /// The line of the box that shows the score.
    Score(u32),
    /// The line of the box that shows the best score.
    Best(u32),
    /// An empty line of the box.
    Blank,
    /// The line of the box that names the key for another run.
    Retry,
    /// The line of the box that names the key for leaving.
    Quit,
    /// Lower border of the box.
    BoxBottom,
}

impl Text {
    /// The characters that are printed.
    pub open spec fn glyphs(self) -> Seq<char> {
        match self {
            Text::PipeBlock => "██████"@,
            Text::Bird => "@"@,
            Text::Status { score, high_score } => "Score: "@ + decimal(score as nat)
                + "  High Score: "@ + decimal(high_score as nat),
            Text::BoxTop => "╔══════════════════════════╗"@,
            Text::NewRecord => "║   *** NEW RECORD! ***    ║"@,
            Text::GameOver => "║   GAME OVER!             ║"@,
            Text::Score(score) => "║   Score: "@ + padded(score as nat, NUMBER_WIDTH as nat)
                + "            ║"@,
            Text::Best(score) => "║   Best:  "@ + padded(score as nat, NUMBER_WIDTH as nat)
                + "            ║"@,
            Text::Blank => "║                          ║"@,
            Text::Retry => "║   R: Retry               ║"@,
            Text::Quit => "║   Q: Quit                ║"@,
            Text::BoxBottom => "╚══════════════════════════╝"@,
        }
    }
}

/// A block is as wide as a pipe and solid all the way.
pub proof fn lemma_block_covers_pipe()
    ensures
        Text::PipeBlock.glyphs().len() == PIPE_WIDTH,
        forall|i: int| 0 <= i < PIPE_WIDTH ==> Text::PipeBlock.glyphs()[i] == '\u{2588}',
{
    reveal_strlit("██████");
}

/// The text of a decimal digit.
fn digit_text(digit: u32) -> (text: &'static str)
    requires
        digit < 10,
    ensures
        text@ == seq![digit_char(digit as nat)],
{
    proof {
        reveal_strlit("0");
        reveal_strlit("1");
        reveal_strlit("2");
        reveal_strlit("3");
        reveal_strlit("4");
        reveal_strlit("5");
        reveal_strlit("6");
        reveal_strlit("7");
        reveal_strlit("8");
        reveal_strlit("9");
    }
    let text: &'static str = if digit == 0 {
        "0"
    } else if digit == 1 {
        "1"
    } else if digit == 2 {
        "2"
    } else if digit == 3 {
        "3"
    } else if digit == 4 {
        "4"
    } else if digit == 5 {
        "5"
    } else if digit == 6 {
        "6"
    } else if digit == 7 {
        "7"
    } else if digit == 8 {
        "8"
    } else {
        "9"
    };
    assert(text@ =~= seq![digit_char(digit as nat)]);
    text
}

/// Writes a number in decimal digits behind what `out` holds.
pub(crate) fn push_decimal(out: &mut String, n: u32)
    ensures
        final(out)@ == old(out)@ + decimal(n as nat),
    decreases n,
{
    if n >= 10 {
        push_decimal(out, n / 10);
    }
    out.append(digit_text(n % 10));
    assert(out@ =~= old(out)@ + decimal(n as nat));
}

/// Writes a number behind what `out` holds, with blanks in front of it
/// where it has fewer than `width` digits.
fn push_padded(out: &mut String, n: u32, width: usize)
    ensures
        final(out)@ == old(out)@ + padded(n as nat, width as nat),
{
    let mut digits = String::new();
    push_decimal(&mut digits, n);
    assert(digits@ =~= decimal(n as nat));
    let mut written: usize = digits.as_str().unicode_len();
    while written < width
        invariant
            digits@.len() <= written,
            written <= width || written == digits@.len(),
            out@ == old(out)@ + blanks((written - digits@.len()) as nat),
        decreases width - written,
    {
        proof {
            reveal_strlit(" ");
        }
        out.append(" ");
        written = written + 1;
        assert(out@ =~= old(out)@ + blanks((written - digits@.len()) as nat));
    }
    out.append(digits.as_str());
    assert(out@ =~= old(out)@ + padded(n as nat, width as nat));
}

impl Text {
    /// The text as a string.
    pub fn render(&self) -> (out: String)
        ensures
            out@ == self.glyphs(),
    {
        match *self {
            Text::PipeBlock => String::from_str("██████"),
            Text::Bird => String::from_str("@"),
            Text::Status { score, high_score } => {
                let mut out = String::from_str("Score: ");
                push_decimal(&mut out, score);
                out.append("  High Score: ");
                push_decimal(&mut out, high_score);
                out
            },
            Text::BoxTop => String::from_str("╔══════════════════════════╗"),
            Text::NewRecord => String::from_str("║   *** NEW RECORD! ***    ║"),
            Text::GameOver => String::from_str("║   GAME OVER!             ║"),
            Text::Score(score) => {
                let mut out = String::from_str("║   Score: ");
                push_padded(&mut out, score, NUMBER_WIDTH);
                out.append("            ║");
                out
            },
            Text::Best(score) => {
                let mut out = String::from_str("║   Best:  ");
                push_padded(&mut out, score, NUMBER_WIDTH);
                out.append("            ║");
                out
            },
            Text::Blank => String::from_str("║                          ║"),
            Text::Retry => String::from_str("║   R: Retry               ║"),
            Text::Quit => String::from_str("║   Q: Quit                ║"),
            Text::BoxBottom => String::from_str("╚══════════════════════════╝"),
        }
    }
}

} // verus!
