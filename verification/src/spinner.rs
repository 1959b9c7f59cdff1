//! The spinner that shows that work is under way.

use vstd::prelude::*;

use crate::check::Spinner;
use crate::status::{layout, status_text, Status};
use crate::style::RESET;

verus! {

/// A turning spinner.
#[derive(Debug)]
pub struct SpinnerState {
    /// The position of the cursor.
    pub turn: usize,
    /// The spinner of a search.
    pub finding: bool,
}

/// What a spinner does next.
#[derive(Debug)]
pub enum SpinnerStep {
    /// The spinner was stopped.
    Exit,
    /// The run is suspended: nothing is drawn.
    Wait,
    /// Draw this status.
    Draw(String),
}

/// The cursor of a spinner at one of its four positions.
pub open spec fn cursor(turn: nat) -> Seq<char> {
    if turn % 4 == 0 {
        "/"@
    } else if turn % 4 == 1 {
        "-"@
    } else if turn % 4 == 2 {
        "\\"@
    } else {
        "|"@
    }
}

/// The status that a spinner draws.
pub open spec fn label(turn: nat, finding: bool) -> Seq<char> {
    if finding {
        "finding "@ + cursor(turn)
    } else {
        cursor(turn)
    }
}

/// The position after a turn.
pub open spec fn next_turn(turn: nat) -> nat {
    (turn % 4 + 1) % 4
}

/// The cursor at a position.
fn cursor_text(turn: usize) -> (r: &'static str)
    ensures
        r@ == cursor(turn as nat),
{
    let p = turn % 4;
    if p == 0 {
        "/"
    } else if p == 1 {
        "-"
    } else if p == 2 {
        "\\"
    } else {
        "|"
    }
}

impl SpinnerState {
    /// A spinner that has not turned.
    pub fn start_spinner(finding: bool) -> (r: Self)
        ensures
            r == (SpinnerState { turn: 0, finding }),
    {
        SpinnerState { turn: 0, finding }
    }

    /// Decides what the spinner does next. It turns by one position whenever it is drawn.
    pub fn tick(&mut self, stopped: bool, paused: bool) -> (r: SpinnerStep)
        ensures
            final(self).finding == old(self).finding,
            match r {
                SpinnerStep::Exit => stopped && *final(self) == *old(self),
                SpinnerStep::Wait => !stopped && paused && *final(self) == *old(self),
                SpinnerStep::Draw(text) => {
                    &&& !stopped
                    &&& !paused
                    &&& text@ == label(old(self).turn as nat, old(self).finding)
                    &&& final(self).turn == next_turn(old(self).turn as nat)
                },
            },
            if stopped {
                r is Exit
            } else if paused {
                r is Wait
            } else {
                r is Draw
            },
            r matches SpinnerStep::Draw(text) ==> ({
                let c = if old(self).turn % 4 == 0 {
                    "/"@
                } else if old(self).turn % 4 == 1 {
                    "-"@
                } else if old(self).turn % 4 == 2 {
                    "\\"@
                } else {
                    "|"@
                };
                text@ == if old(self).finding {
                    "finding "@ + c
                } else {
                    c
                }
            }),
            r is Draw ==> final(self).turn % 4 == (old(self).turn + 1) % 4,
    {
        if stopped {
            return SpinnerStep::Exit;
        }
        if paused {
            return SpinnerStep::Wait;
        }
        let mut text = if self.finding {
            "finding ".to_owned()
        } else {
            String::new()
        };
        text.append(cursor_text(self.turn));
        self.turn = (self.turn % 4 + 1) % 4;
        assert(text@ =~= label(old(self).turn as nat, self.finding));
        SpinnerStep::Draw(text)
    }
}

impl Spinner {
    /// Draws the spinner with a label in the place of the last status: a line without a prefix
    /// in no color, with the message of the spinner and the label in its color.
    pub fn redraw(&self, status: &mut Status, term_w: u16, label: &str) -> (r: String)
        ensures
            r@ == status_text(
                old(status).last_lines as nat,
                term_w as nat,
                " "@,
                RESET@,
                self.msg@,
                label@,
                self.color@,
            ),
            final(status).last_lines == if layout(
                term_w as nat,
                self.msg@,
                label@,
            ) is TwoLines {
                2int
            } else {
                1
            },
    {
        status.status_line(term_w, " ", RESET, self.msg.as_str(), label, self.color)
    }
}

/// The position of a spinner that was drawn so often.
pub open spec fn turn_after(draws: nat) -> nat
    decreases draws,
{
    if draws == 0 {
        0
    } else {
        next_turn(turn_after((draws - 1) as nat))
    }
}

/// Each time that a spinner is drawn, its cursor is the next of the four, beginning with the
/// first.
pub proof fn law_draws_follow_the_cursor(draws: nat, finding: bool)
    ensures
        turn_after(draws) == draws % 4,
        label(turn_after(draws), finding) == label(draws, finding),
    decreases draws,
{
    if draws > 0 {
        law_draws_follow_the_cursor((draws - 1) as nat, finding);
    }
}

/// The four positions of the cursor, in their order, and the word before them in a search.
pub proof fn law_cursor_positions(k: nat)
    ensures
        label(4 * k, false) == "/"@,
        label(4 * k + 1, false) == "-"@,
        label(4 * k + 2, false) == "\\"@,
        label(4 * k + 3, false) == "|"@,
        forall|turn: nat| #[trigger] label(turn, true) == "finding "@ + label(turn, false),
{
}

/// The cursor changes at every turn, and is back after four of them.
pub proof fn law_spinner_turns(turn: nat)
    ensures
        cursor(turn) != cursor(turn + 1),
        cursor(turn) == cursor(turn + 4),
        cursor(next_turn(turn)) == cursor(turn + 1),
{
    reveal_strlit("/");
    reveal_strlit("-");
    reveal_strlit("\\");
    reveal_strlit("|");
    assert("/"@[0] == '/' && "-"@[0] == '-' && "\\"@[0] == '\\' && "|"@[0] == '|');
}

} // verus!
