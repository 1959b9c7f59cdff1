//! The status line and the progress bar.

use vstd::prelude::*;

use crate::style::{BLUE, CYAN, GREEN, RED, RESET};
use crate::text::{decimal, law_repeated_is_all_the_same, lemma_decimal_len_u64};
use crate::text::{lemma_repeated_len, push_decimal, push_repeat};
use crate::text::{repeated, shorten, shortened};

verus! {

/// What the terminal shows at the cursor.
#[derive(Debug)]
pub struct Status {
    /// How many lines the last status took.
    pub last_lines: usize,
}

/// The sequence that wipes a status of so many lines off the terminal.
pub open spec fn clear_text(last_lines: nat) -> Seq<char> {
    if last_lines > 1 {
        "\x1b["@ + decimal((last_lines - 1) as nat) + "A"@ + "\r\x1b[J"@
    } else {
        "\r\x1b[J"@
    }
}

/// How a message and a status share the terminal.
pub enum Layout {
    /// The message and the status on one line, so many blanks apart.
    OneLine { msg: Seq<char>, pad: nat },
    /// The status on a line of its own below the message.
    TwoLines,
}

/// The layout on a terminal that is `term_w` columns wide: on one line if that fits, else on
/// two if the message fits, else on one with the message cut at the front.
pub open spec fn layout(term_w: nat, msg: Seq<char>, status: Seq<char>) -> Layout {
    let fixed = status.len() + 6;
    if term_w >= msg.len() + fixed + 2 {
        Layout::OneLine { msg, pad: (term_w - msg.len() - fixed) as nat }
    } else if term_w >= msg.len() + 2 {
        Layout::TwoLines
    } else {
        let room = if term_w >= fixed + 2 + 5 {
            (term_w - fixed - 2) as nat
        } else {
            5
        };
        let shown = if msg.len() > room {
            shortened(msg, (room - 3) as nat)
        } else {
            msg
        };
        let pad = if term_w > shown.len() + fixed {
            (term_w - shown.len() - fixed) as nat
        } else {
            1
        };
        Layout::OneLine { msg: shown, pad }
    }
}

/// The escape sequences of the parts of a line that look the same every time.
pub struct Palette {
    /// The color of brackets.
    pub frame: Seq<char>,
    /// The color of a progress bar.
    pub bar: Seq<char>,
    /// The color of what is in order.
    pub good: Seq<char>,
    /// The color of what is not.
    pub bad: Seq<char>,
    /// The end of a color.
    pub reset: Seq<char>,
}

/// The palette with which the terminal is painted.
pub open spec fn painted() -> Palette {
    Palette { frame: BLUE@, bar: CYAN@, good: GREEN@, bad: RED@, reset: RESET@ }
}

/// The palette without escape sequences, which leaves what is seen.
pub open spec fn unpainted() -> Palette {
    Palette {
        frame: Seq::empty(),
        bar: Seq::empty(),
        good: Seq::empty(),
        bad: Seq::empty(),
        reset: Seq::empty(),
    }
}

/// A status in its brackets.
pub open spec fn badge(p: Palette, status: Seq<char>, scolor: Seq<char>) -> Seq<char> {
    p.frame + "["@ + p.reset + " "@ + scolor + status + p.reset + " "@ + p.frame + "]"@ + p.reset
}

/// A prefix and a message.
pub open spec fn heading(
    p: Palette,
    prefix: Seq<char>,
    pcolor: Seq<char>,
    msg: Seq<char>,
) -> Seq<char> {
    pcolor + prefix + p.reset + " "@ + msg
}

/// A status line as it is written.
pub open spec fn line_text(
    p: Palette,
    term_w: nat,
    prefix: Seq<char>,
    pcolor: Seq<char>,
    msg: Seq<char>,
    status: Seq<char>,
    scolor: Seq<char>,
) -> Seq<char> {
    match layout(term_w, msg, status) {
        Layout::OneLine { msg: shown, pad } => heading(p, prefix, pcolor, shown) + repeated(
            " "@,
            pad,
        ) + badge(p, status, scolor),
        Layout::TwoLines => heading(p, prefix, pcolor, msg) + "\n    "@ + badge(
            p,
            status,
            scolor,
        ),
    }
}

/// What puts a status in the place of one of `last_lines` lines.
pub open spec fn status_text(
    last_lines: nat,
    term_w: nat,
    prefix: Seq<char>,
    pcolor: Seq<char>,
    msg: Seq<char>,
    status: Seq<char>,
    scolor: Seq<char>,
) -> Seq<char> {
    clear_text(last_lines) + line_text(painted(), term_w, prefix, pcolor, msg, status, scolor)
}

/// How many files are done, of `total`.
pub open spec fn done_count(index: nat, total: nat) -> nat {
    if index < total {
        index
    } else {
        total
    }
}

/// The percentage of the files that are done.
pub open spec fn percent(index: nat, total: nat) -> nat {
    if total == 0 {
        100
    } else {
        done_count(index, total) * 100 / total
    }
}

/// The count of the files that are done.
pub open spec fn counter_text(index: nat, total: nat) -> Seq<char> {
    "("@ + decimal(done_count(index, total)) + " of "@ + decimal(total) + ")"@
}

/// The percentage, to the right in three columns.
pub open spec fn percent_text(pct: nat) -> Seq<char> {
    repeated(" "@, if decimal(pct).len() < 3 { (3 - decimal(pct).len()) as nat } else { 0 })
        + decimal(pct) + "%"@
}

/// The number of errors.
pub open spec fn errors_text(err: nat) -> Seq<char> {
    "err:"@ + decimal(err)
}

/// The columns of what stands beside the bar and the name.
pub open spec fn reserved_columns(index: nat, total: nat, err: nat) -> nat {
    18 + counter_text(index, total).len() + percent_text(percent(index, total)).len()
        + errors_text(err).len()
}

/// The terminal has room for the shortest bar and what stands beside it.
pub open spec fn has_room(term_w: nat, reserved: nat) -> bool {
    term_w >= reserved + 10
}

/// The columns of the bar.
pub open spec fn bar_width(term_w: nat, reserved: nat) -> nat {
    if !has_room(term_w, reserved) {
        10
    } else if term_w > reserved + 40 {
        40
    } else {
        (term_w - reserved) as nat
    }
}

/// The columns of the bar that are filled.
pub open spec fn bar_filled(width: nat, index: nat, total: nat) -> nat {
    if total == 0 {
        width
    } else {
        width * done_count(index, total) / total
    }
}

/// The bar.
pub open spec fn bar_text(width: nat, filled: nat) -> Seq<char> {
    repeated("#"@, filled) + repeated("-"@, (width - filled) as nat)
}

/// The columns that are left for the name of the file.
pub open spec fn name_budget(term_w: nat, reserved: nat, width: nat) -> nat {
    if term_w > reserved + width {
        (term_w - reserved - width) as nat
    } else {
        0
    }
}

/// The name of the file. It is cut at the front, or left out if next to nothing would be left
/// of it, where that makes the line fit; on a terminal without room for any line it stands in
/// full.
pub open spec fn name_text(room: bool, budget: nat, file: Seq<char>) -> Seq<char> {
    if !room || file.len() <= budget {
        file
    } else if budget > 3 {
        shortened(file, (budget - 3) as nat)
    } else {
        Seq::empty()
    }
}

/// A progress line.
pub open spec fn bar_line(
    p: Palette,
    term_w: nat,
    index: nat,
    total: nat,
    err: nat,
    file: Seq<char>,
) -> Seq<char> {
    let reserved = reserved_columns(index, total, err);
    let width = bar_width(term_w, reserved);
    p.good + "*"@ + p.reset + " Checking "@ + counter_text(index, total) + " "@ + p.frame + "["@
        + p.reset + p.bar + bar_text(width, bar_filled(width, index, total)) + p.reset + p.frame
        + "]"@ + p.reset + " "@ + percent_text(percent(index, total)) + " "@ + (if err > 0 {
        p.bad
    } else {
        p.good
    }) + errors_text(err) + p.reset + "  "@ + name_text(
        has_room(term_w, reserved),
        name_budget(term_w, reserved, width),
        file,
    )
}

/// A progress line as it is written.
pub open spec fn progress_text(
    term_w: nat,
    index: nat,
    total: nat,
    err: nat,
    file: Seq<char>,
) -> Seq<char> {
    bar_line(painted(), term_w, index, total, err, file)
}

/// What is seen of a progress line.
pub open spec fn seen_progress(
    term_w: nat,
    index: nat,
    total: nat,
    err: nat,
    file: Seq<char>,
) -> Seq<char> {
    bar_line(unpainted(), term_w, index, total, err, file)
}

/// A status in its brackets.
fn badge_of(status: &str, scolor: &str) -> (r: String)
    ensures
        r@ == badge(painted(), status@, scolor@),
{
    let mut out = BLUE.to_owned();
    out.append("[");
    out.append(RESET);
    out.append(" ");
    out.append(scolor);
    out.append(status);
    out.append(RESET);
    out.append(" ");
    out.append(BLUE);
    out.append("]");
    out.append(RESET);
    out
}

/// A prefix and a message.
fn heading_of(prefix: &str, pcolor: &str, msg: &str) -> (r: String)
    ensures
        r@ == heading(painted(), prefix@, pcolor@, msg@),
{
    let mut out = pcolor.to_owned();
    out.append(prefix);
    out.append(RESET);
    out.append(" ");
    out.append(msg);
    out
}

impl Status {
    /// A terminal with nothing but the cursor's line to wipe.
    pub fn new() -> (r: Self)
        ensures
            r.last_lines == 1,
    {
        Status { last_lines: 1 }
    }

    /// What wipes the last status off the terminal.
    pub fn clear(&self) -> (r: String)
        ensures
            r@ == clear_text(self.last_lines as nat),
            self.last_lines <= 1 ==> r@ == "\r\x1b[J"@,
            self.last_lines > 1 ==> r@ == "\x1b["@ + decimal((self.last_lines - 1) as nat) + "A"@
                + "\r\x1b[J"@,
    {
        let mut out = String::new();
        if self.last_lines > 1 {
            out.append("\x1b[");
            push_decimal(&mut out, (self.last_lines - 1) as u64);
            out.append("A");
        }
        out.append("\r\x1b[J");
        out
    }

    /// What ends a status line, so that the next status leaves it alone.
    pub fn finish_line(&mut self) -> (r: String)
        ensures
            r@ == "\n"@,
            final(self).last_lines == 1,
    {
        self.last_lines = 1;
        "\n".to_owned()
    }

    /// Puts a status in the place of the last one, on a terminal that is `term_w` columns
    /// wide.
    pub fn status_line(
        &mut self,
        term_w: u16,
        prefix: &str,
        pcolor: &str,
        msg: &str,
        status: &str,
        scolor: &str,
    ) -> (r: String)
        ensures
            r@ == status_text(
                old(self).last_lines as nat,
                term_w as nat,
                prefix@,
                pcolor@,
                msg@,
                status@,
                scolor@,
            ),
            final(self).last_lines == if layout(term_w as nat, msg@, status@) is TwoLines {
                2int
            } else {
                1
            },
            ({
                let wipe = if old(self).last_lines > 1 {
                    "\x1b["@ + decimal((old(self).last_lines - 1) as nat) + "A"@ + "\r\x1b[J"@
                } else {
                    "\r\x1b[J"@
                };
                let fixed = status@.len() + 6;
                let head = pcolor@ + prefix@ + RESET@ + " "@;
                let badge = BLUE@ + "["@ + RESET@ + " "@ + scolor@ + status@ + RESET@ + " "@ + BLUE@
                    + "]"@ + RESET@;
                let room = if term_w >= fixed + 7 {
                    term_w - fixed - 2
                } else {
                    5
                };
                let cut = if msg@.len() > room {
                    "..."@ + msg@.skip(msg@.len() - (room - 3))
                } else {
                    msg@
                };
                let pad = if term_w > cut.len() + fixed {
                    term_w - cut.len() - fixed
                } else {
                    1
                };
                if term_w >= msg@.len() + fixed + 2 {
                    &&& final(self).last_lines == 1
                    &&& r@ == wipe + (head + msg@ + repeated(
                        " "@,
                        (term_w - msg@.len() - fixed) as nat,
                    ) + badge)
                } else if term_w >= msg@.len() + 2 {
                    &&& final(self).last_lines == 2
                    &&& r@ == wipe + (head + msg@ + "\n    "@ + badge)
                } else {
                    &&& final(self).last_lines == 1
                    &&& r@ == wipe + (head + cut + repeated(" "@, pad as nat) + badge)
                }
            }),
    {
        let term: u128 = term_w as u128;
        let msg_len: u128 = msg.unicode_len() as u128;
        let fixed: u128 = status.unicode_len() as u128 + 6;
        let mut out = self.clear();
        let line = if term >= msg_len + fixed + 2 {
            let mut line = heading_of(prefix, pcolor, msg);
            push_repeat(&mut line, " ", (term - msg_len - fixed) as usize);
            self.last_lines = 1;
            line
        } else if term >= msg_len + 2 {
            let mut line = heading_of(prefix, pcolor, msg);
            line.append("\n    ");
            self.last_lines = 2;
            line
        } else {
            let room: u128 = if term >= fixed + 2 + 5 {
                term - fixed - 2
            } else {
                5
            };
            let shown = if msg_len > room {
                shorten(msg, (room - 3) as usize)
            } else {
                msg.to_owned()
            };
            let used: u128 = shown.as_str().unicode_len() as u128 + fixed;
            let pad: u128 = if term > used {
                term - used
            } else {
                1
            };
            let mut line = heading_of(prefix, pcolor, shown.as_str());
            push_repeat(&mut line, " ", pad as usize);
            self.last_lines = 1;
            line
        };
        out.append(line.concat(badge_of(status, scolor).as_str()).as_str());
        out
    }

    /// Puts a progress bar in the place of the last status, on a terminal that is `term_w`
    /// columns wide.
    pub fn progress_line(
        &mut self,
        term_w: u16,
        index: usize,
        total: usize,
        err: usize,
        file: &str,
    ) -> (r: String)
        ensures
            r@ == clear_text(old(self).last_lines as nat) + progress_text(
                term_w as nat,
                index as nat,
                total as nat,
                err as nat,
                file@,
            ),
            final(self).last_lines == 1,
            ({
                let wipe = if old(self).last_lines > 1 {
                    "\x1b["@ + decimal((old(self).last_lines - 1) as nat) + "A"@ + "\r\x1b[J"@
                } else {
                    "\r\x1b[J"@
                };
                let done = if index < total {
                    index as nat
                } else {
                    total as nat
                };
                let pct = if total == 0 {
                    100
                } else {
                    done * 100 / total as nat
                };
                let counter = "("@ + decimal(done) + " of "@ + decimal(total as nat) + ")"@;
                let blanks: nat = if decimal(pct).len() < 3 {
                    (3 - decimal(pct).len()) as nat
                } else {
                    0
                };
                let percentage = repeated(" "@, blanks) + decimal(pct) + "%"@;
                let errors = "err:"@ + decimal(err as nat);
                let beside = 18 + counter.len() + percentage.len() + errors.len();
                let width: nat = if term_w < beside + 10 {
                    10
                } else if term_w > beside + 40 {
                    40
                } else {
                    (term_w - beside) as nat
                };
                let filled: nat = if total == 0 {
                    width
                } else {
                    width * done / total as nat
                };
                let left = term_w - beside - width;
                let name = if term_w < beside + 10 || file@.len() <= left {
                    file@
                } else if left > 3 {
                    "..."@ + file@.skip(file@.len() - (left - 3))
                } else {
                    Seq::empty()
                };
                r@ == wipe + (GREEN@ + "*"@ + RESET@ + " Checking "@ + counter + " "@ + BLUE@ + "["@
                    + RESET@ + CYAN@ + (repeated("#"@, filled) + repeated(
                    "-"@,
                    (width - filled) as nat,
                )) + RESET@ + BLUE@ + "]"@ + RESET@ + " "@ + percentage + " "@ + (if err > 0 {
                    RED@
                } else {
                    GREEN@
                }) + errors + RESET@ + "  "@ + name)
            }),
    {
        let done = if index < total {
            index
        } else {
            total
        };
        let pct: u64 = if total == 0 {
            100
        } else {
            proof {
                lemma_share(100, done as nat, total as nat);
            }
            (done as u128 * 100 / total as u128) as u64
        };
        let counter = count_text(done, total);
        let pct_s = padded_percent(pct);
        let errs = error_count(err);
        proof {
            lemma_reserved_bound(done, total, pct, err);
        }
        let reserved: usize = 18 + counter.as_str().unicode_len() + pct_s.as_str().unicode_len()
            + errs.as_str().unicode_len();
        let term: usize = term_w as usize;
        let width: usize = if term < reserved + 10 {
            10
        } else if term > reserved + 40 {
            40
        } else {
            term - reserved
        };
        let filled: usize = if total == 0 {
            width
        } else {
            proof {
                lemma_share(width as nat, done as nat, total as nat);
                assert(width as u128 * done as u128 <= 40 * usize::MAX) by (nonlinear_arith)
                    requires
                        width <= 40,
                        done <= usize::MAX,
                ;
            }
            (width as u128 * done as u128 / total as u128) as usize
        };
        let budget: usize = if term > reserved + width {
            term - reserved - width
        } else {
            0
        };
        let name = if term < reserved + 10 || file.unicode_len() <= budget {
            file.to_owned()
        } else if budget > 3 {
            shorten(file, budget - 3)
        } else {
            String::new()
        };
        let mut line = GREEN.to_owned();
        line.append("*");
        line.append(RESET);
        line.append(" Checking ");
        line.append(counter.as_str());
        line.append(" ");
        line.append(BLUE);
        line.append("[");
        line.append(RESET);
        line.append(CYAN);
        line.append(bar(width, filled).as_str());
        line.append(RESET);
        line.append(BLUE);
        line.append("]");
        line.append(RESET);
        line.append(" ");
        line.append(pct_s.as_str());
        line.append(" ");
        line.append(
            if err > 0 {
                RED
            } else {
                GREEN
            },
        );
        line.append(errs.as_str());
        line.append(RESET);
        line.append("  ");
        line.append(name.as_str());
        let mut out = self.clear();
        out.append(line.as_str());
        self.last_lines = 1;
        out
    }
}

/// The bar.
fn bar(width: usize, filled: usize) -> (r: String)
    requires
        filled <= width,
    ensures
        r@ == bar_text(width as nat, filled as nat),
{
    let mut out = String::new();
    push_repeat(&mut out, "#", filled);
    push_repeat(&mut out, "-", width - filled);
    out
}

/// The count of the files that are done.
fn count_text(done: usize, total: usize) -> (r: String)
    requires
        done <= total,
    ensures
        r@ == counter_text(done as nat, total as nat),
{
    let mut out = String::new();
    out.append("(");
    push_decimal(&mut out, done as u64);
    out.append(" of ");
    push_decimal(&mut out, total as u64);
    out.append(")");
    out
}

/// The percentage, to the right in three columns.
fn padded_percent(pct: u64) -> (r: String)
    ensures
        r@ == percent_text(pct as nat),
{
    let mut digits = String::new();
    push_decimal(&mut digits, pct);
    let len = digits.as_str().unicode_len();
    let mut out = String::new();
    push_repeat(
        &mut out,
        " ",
        if len < 3 {
            3 - len
        } else {
            0
        },
    );
    out.append(digits.as_str());
    out.append("%");
    out
}

/// The number of errors.
fn error_count(err: usize) -> (r: String)
    ensures
        r@ == errors_text(err as nat),
{
    let mut out = String::new();
    out.append("err:");
    push_decimal(&mut out, err as u64);
    out
}

/// What stands beside the bar is short.
proof fn lemma_reserved_bound(done: usize, total: usize, pct: u64, err: usize)
    requires
        done <= total,
    ensures
        counter_text(done as nat, total as nat).len() <= 50,
        percent_text(pct as nat).len() <= 50,
        errors_text(err as nat).len() <= 50,
{
    reveal_strlit("(");
    reveal_strlit(" of ");
    reveal_strlit(")");
    reveal_strlit(" ");
    reveal_strlit("%");
    reveal_strlit("err:");
    lemma_decimal_len_u64(done as u64);
    lemma_decimal_len_u64(total as u64);
    lemma_decimal_len_u64(pct);
    lemma_decimal_len_u64(err as u64);
    let blanks = if decimal(pct as nat).len() < 3 {
        (3 - decimal(pct as nat).len()) as nat
    } else {
        0
    };
    lemma_repeated_len(" "@, blanks);
}

/// A share of `width` parts is at most all of them, and all of them only of the whole.
proof fn lemma_share(width: nat, done: nat, total: nat)
    requires
        0 < total,
        done <= total,
        0 < width,
    ensures
        width * done / total <= width,
        width * done / total == width <==> done == total,
        done * width == width * done,
{
    assert(width * done / total <= width && (width * done / total == width <==> done == total))
        by (nonlinear_arith)
        requires
            0 < total,
            done <= total,
            0 < width,
    ;
    assert(done * width == width * done) by (nonlinear_arith);
}

/// What is seen of a status line with a prefix of one character.
pub open spec fn seen_line(term_w: nat, prefix: char, msg: Seq<char>, status: Seq<char>) -> Seq<
    char,
> {
    line_text(unpainted(), term_w, seq![prefix], Seq::empty(), msg, status, Seq::empty())
}

/// A message that fits with its status stands in full on one line, which ends at the edge of
/// the terminal.
pub proof fn law_line_that_fits_fills_the_terminal(
    term_w: nat,
    prefix: char,
    msg: Seq<char>,
    status: Seq<char>,
)
    requires
        term_w >= msg.len() + status.len() + 8,
    ensures
        layout(term_w, msg, status) matches Layout::OneLine { msg: shown, .. } && shown == msg,
        seen_line(term_w, prefix, msg, status).len() == term_w,
        seen_line(term_w, prefix, msg, status).take((msg.len() + 2) as int) == seq![prefix, ' '] + msg,
        seen_line(term_w, prefix, msg, status).skip(term_w - status.len() - 4) == seq!['[', ' ']
            + status + seq![' ', ']'],
        forall|i: int|
            msg.len() + 2 <= i < term_w - status.len() - 4 ==> #[trigger] seen_line(
                term_w,
                prefix,
                msg,
                status,
            )[i] == ' ',
{
    let pad = (term_w - msg.len() - status.len() - 6) as nat;
    lemma_seen_parts(msg, status);
    lemma_repeated_len(" "@, pad);
    law_repeated_is_all_the_same(' ', pad);
    let line = seen_line(term_w, prefix, msg, status);
    assert(line.take((msg.len() + 2) as int) =~= seq![prefix, ' '] + msg);
    assert(line.skip(term_w - status.len() - 4) =~= seq!['[', ' '] + status + seq![' ', ']']);
}

/// A message that fits alone, but not with its status, stands in full on a line that is not
/// wider than the terminal, and the status on an indented line below it.
pub proof fn law_status_that_does_not_fit_is_wrapped(
    term_w: nat,
    prefix: char,
    msg: Seq<char>,
    status: Seq<char>,
)
    requires
        msg.len() + 2 <= term_w < msg.len() + status.len() + 8,
    ensures
        seen_line(term_w, prefix, msg, status) == seq![prefix, ' '] + msg + "\n    [ "@ + status
            + " ]"@,
        (seq![prefix, ' '] + msg).len() <= term_w,
{
    lemma_seen_parts(msg, status);
    reveal_strlit("\n    ");
    reveal_strlit("\n    [ ");
    reveal_strlit(" ]");
    assert(seen_line(term_w, prefix, msg, status) =~= seq![prefix, ' '] + msg + "\n    [ "@ + status
        + " ]"@);
}

/// A message that does not fit alone, and has more than a few characters, is cut at the front,
/// and what is left of it stands on one line with its status. The line ends at the edge of the
/// terminal if that has room for the status and a few characters more.
pub proof fn law_message_that_does_not_fit_is_cut(
    term_w: nat,
    prefix: char,
    msg: Seq<char>,
    status: Seq<char>,
)
    requires
        term_w < msg.len() + 2,
        msg.len() > 5,
    ensures
        layout(term_w, msg, status) matches Layout::OneLine { msg: shown, .. } && shown
            == shortened(
            msg,
            if term_w >= status.len() + 13 {
                (term_w - status.len() - 11) as nat
            } else {
                2
            },
        ) && shown.len() < msg.len(),
        term_w >= status.len() + 13 ==> {
            &&& seen_line(term_w, prefix, msg, status).len() == term_w
            &&& seen_line(term_w, prefix, msg, status).take(5) == seq![prefix, ' ', '.', '.', '.']
            &&& seen_line(term_w, prefix, msg, status).subrange(5, term_w - status.len() - 6)
                == msg.skip(msg.len() + status.len() + 11 - term_w)
            &&& seen_line(term_w, prefix, msg, status).skip(term_w - status.len() - 6) == seq![
                ' ',
                ' ',
                '[',
                ' ',
            ] + status + seq![' ', ']']
        },
{
    reveal_strlit("...");
    if term_w >= status.len() + 13 {
        let shown = shortened(msg, (term_w - status.len() - 11) as nat);
        lemma_seen_parts(shown, status);
        lemma_repeated_len(" "@, 2);
        law_repeated_is_all_the_same(' ', 2);
        let line = seen_line(term_w, prefix, msg, status);
        assert(line.take(5) =~= seq![prefix, ' ', '.', '.', '.']);
        assert(line.subrange(5, term_w - status.len() - 6) =~= msg.skip(
            msg.len() + status.len() + 11 - term_w,
        ));
        assert(line.skip(term_w - status.len() - 6) =~= seq![' ', ' ', '[', ' '] + status
            + seq![' ', ']']);
    }
}

/// A line as it is written, with its colors: prefix and message, then the status in brackets,
/// all the way to the right or on a line below.
pub proof fn law_written_line_has_its_colors(
    term_w: nat,
    prefix: Seq<char>,
    pcolor: Seq<char>,
    msg: Seq<char>,
    status: Seq<char>,
    scolor: Seq<char>,
)
    ensures
        ({
            let line = line_text(painted(), term_w, prefix, pcolor, msg, status, scolor);
            let head = pcolor + prefix + RESET@ + " "@;
            let end = BLUE@ + "["@ + RESET@ + " "@ + scolor + status + RESET@ + " "@ + BLUE@ + "]"@
                + RESET@;
            &&& term_w >= msg.len() + status.len() + 8 ==> line == head + msg + repeated(
                " "@,
                (term_w - msg.len() - status.len() - 6) as nat,
            ) + end
            &&& msg.len() + 2 <= term_w < msg.len() + status.len() + 8 ==> line == head + msg
                + "\n    "@ + end
            &&& term_w < msg.len() + 2 && msg.len() > 5 && term_w >= status.len() + 13 ==> line
                == head + shortened(msg, (term_w - status.len() - 11) as nat) + repeated(" "@, 2)
                + end
            &&& term_w < msg.len() + 2 && msg.len() > 5 && term_w < status.len() + 13 ==> line
                == head + shortened(msg, 2) + repeated(
                " "@,
                if term_w > status.len() + 11 {
                    (term_w - status.len() - 11) as nat
                } else {
                    1
                },
            ) + end
            &&& term_w < msg.len() + 2 && msg.len() <= 5 ==> line == head + msg + " "@ + end
        }),
{
    reveal_strlit("...");
    reveal_strlit(" ");
    reveal_with_fuel(repeated, 3);
    assert(repeated(" "@, 1) =~= " "@);
}

/// Wiping a status goes up from its last line to its first, and clears from there.
pub proof fn law_wiping_goes_up_all_lines(lines: nat)
    ensures
        lines <= 1 ==> clear_text(lines) == "\r\x1b[J"@,
        lines > 1 ==> clear_text(lines) == "\x1b["@ + decimal((lines - 1) as nat) + "A"@
            + "\r\x1b[J"@,
{
}

/// The lengths of the fixed parts of a line.
proof fn lemma_seen_parts(msg: Seq<char>, status: Seq<char>)
    ensures
        " "@ == seq![' '],
        "["@ == seq!['['],
        "]"@ == seq![']'],
        badge(unpainted(), status, Seq::empty()).len() == status.len() + 4,
        forall|prefix: char|
            #[trigger] heading(unpainted(), seq![prefix], Seq::empty(), msg).len() == msg.len() + 2,
{
    reveal_strlit(" ");
    reveal_strlit("[");
    reveal_strlit("]");
}

/// The percentage is a percentage, and is full when everything is done and not before; so is
/// the bar, whose width does not depend on how much is done.
pub proof fn law_progress_is_full_at_the_end(width: nat, index: nat, total: nat)
    requires
        0 < width,
        0 < total,
    ensures
        percent(index, total) <= 100,
        percent(index, total) == 100 <==> index >= total,
        bar_filled(width, index, total) <= width,
        bar_filled(width, index, total) == width <==> index >= total,
        bar_text(width, bar_filled(width, index, total)).len() == width,
{
    let done = done_count(index, total);
    lemma_share(100, done, total);
    lemma_share(width, done, total);
    reveal_strlit("#");
    reveal_strlit("-");
    let filled = bar_filled(width, index, total);
    lemma_repeated_len("#"@, filled);
    lemma_repeated_len("-"@, (width - filled) as nat);
}

/// A progress line is not wider than a terminal with room for the shortest bar and what stands
/// beside it, whatever the name of the file: it is one line.
pub proof fn law_progress_line_fits_the_terminal(
    term_w: nat,
    index: nat,
    total: nat,
    err: nat,
    file: Seq<char>,
)
    requires
        has_room(term_w, reserved_columns(index, total, err)),
    ensures
        seen_progress(term_w, index, total, err, file).len() <= term_w,
{
    reveal_strlit("*");
    reveal_strlit(" Checking ");
    reveal_strlit(" ");
    reveal_strlit("[");
    reveal_strlit("]");
    reveal_strlit("  ");
    reveal_strlit("...");
    reveal_strlit("#");
    reveal_strlit("-");
    let width = bar_width(term_w, reserved_columns(index, total, err));
    let filled = bar_filled(width, index, total);
    if total > 0 {
        lemma_share(width, done_count(index, total), total);
    }
    lemma_repeated_len("#"@, filled);
    lemma_repeated_len("-"@, (width - filled) as nat);
}

/// The percentage and the bar are what is done of the whole, rounded down.
pub proof fn law_progress_is_rounded_down(width: nat, index: nat, total: nat)
    requires
        0 < total,
        index <= total,
    ensures
        percent(index, total) * total <= index * 100 < (percent(index, total) + 1) * total,
        bar_filled(width, index, total) * total <= index * width < (bar_filled(width, index, total)
            + 1) * total,
        bar_text(width, bar_filled(width, index, total)) == repeated(
            "#"@,
            bar_filled(width, index, total),
        ) + repeated("-"@, (width - bar_filled(width, index, total)) as nat),
{
    assert(done_count(index, total) == index);
    assert(index * 100 / total * total <= index * 100 < (index * 100 / total + 1) * total)
        by (nonlinear_arith)
        requires
            0 < total,
    ;
    assert(width * index / total * total <= index * width < (width * index / total + 1) * total)
        by (nonlinear_arith)
        requires
            0 < total,
    ;
}

/// What is seen of a progress line: the count, the bar, the percentage, the errors and the
/// name.
pub proof fn law_progress_line_says(
    term_w: nat,
    index: nat,
    total: nat,
    err: nat,
    file: Seq<char>,
)
    requires
        index <= total,
        0 < total,
    ensures
        ({
            let count = decimal(index) + " of "@ + decimal(total);
            let pct = decimal(percent(index, total));
            let gap = repeated(" "@, if pct.len() < 3 { (3 - pct.len()) as nat } else { 0 });
            let beside = 25 + count.len() + gap.len() + pct.len() + decimal(err).len();
            let width: nat = if term_w < beside + 10 {
                10
            } else if term_w < beside + 40 {
                (term_w - beside) as nat
            } else {
                40
            };
            let name = if term_w < beside + 10 || file.len() + beside + width <= term_w {
                file
            } else if term_w > beside + width + 3 {
                shortened(file, (term_w - beside - width - 3) as nat)
            } else {
                Seq::empty()
            };
            seen_progress(term_w, index, total, err, file) == "* Checking ("@ + count + ") ["@
                + bar_text(width, bar_filled(width, index, total)) + "] "@ + gap + pct + "% err:"@
                + decimal(err) + "  "@ + name
        }),
{
    reveal_strlit("* Checking (");
    reveal_strlit("*");
    reveal_strlit(" Checking ");
    reveal_strlit("(");
    reveal_strlit(")");
    reveal_strlit(") [");
    reveal_strlit("[");
    reveal_strlit("]");
    reveal_strlit("] ");
    reveal_strlit(" ");
    reveal_strlit("%");
    reveal_strlit("err:");
    reveal_strlit("% err:");
    let reserved = reserved_columns(index, total, err);
    let width = bar_width(term_w, reserved);
    let name = name_text(
        has_room(term_w, reserved),
        name_budget(term_w, reserved, width),
        file,
    );
    let count = decimal(index) + " of "@ + decimal(total);
    let pct = decimal(percent(index, total));
    let gap = repeated(" "@, if pct.len() < 3 { (3 - pct.len()) as nat } else { 0 });
    let bar = bar_text(width, bar_filled(width, index, total));
    assert(seen_progress(term_w, index, total, err, file) =~= "* Checking ("@ + count + ") ["@ + bar
        + "] "@ + gap + pct + "% err:"@ + decimal(err) + "  "@ + name);
}

/// The percentage and the bar never go back.
pub proof fn law_progress_grows(width: nat, index: nat, later: nat, total: nat)
    requires
        index <= later,
    ensures
        percent(index, total) <= percent(later, total),
        bar_filled(width, index, total) <= bar_filled(width, later, total),
{
    if total > 0 {
        let a = done_count(index, total);
        let b = done_count(later, total);
        assert(a * 100 / total <= b * 100 / total && width * a / total <= width * b / total)
            by (nonlinear_arith)
            requires
                a <= b,
                0 < total,
        ;
    }
}

} // verus!
