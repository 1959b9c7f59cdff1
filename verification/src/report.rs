//! Reporting the results of a run.

use vstd::prelude::*;

use crate::check::CheckResult;
use crate::status::{clear_text, progress_text, status_text, Status};
use crate::style::{BLUE, CYAN, GREEN, RED, RESET, YELLOW};
use crate::text::{decimal, push_decimal};

verus! {

/// How far a run is.
#[derive(Clone, Copy, Debug, PartialEq, Eq, Structural)]
pub struct Tally {
    /// The files whose content was found.
    pub ok: usize,
    /// The files whose content was not found.
    pub err: usize,
    /// The file that is being checked.
    pub index: usize,
    /// All files of the run.
    pub total: usize,
}

/// What of the results is shown.
#[derive(Clone, Copy, Debug)]
pub struct OutputOpts {
    /// A progress bar instead of a line for each file.
    pub progress: bool,
    /// Errors only.
    pub quiet: bool,
}

/// A file that was checked.
#[derive(Debug)]
pub struct Checked {
    pub result: CheckResult,
    /// The name under which the file is shown.
    pub name: String,
    /// The path of the file.
    pub source: String,
    /// The path of its counterpart.
    pub destination: String,
}

/// One more, as an atomic counter counts: after the greatest number comes zero.
pub open spec fn counted(n: usize) -> usize {
    if n == usize::MAX {
        0
    } else {
        (n + 1) as usize
    }
}

/// One more.
fn count(n: usize) -> (r: usize)
    ensures
        r == counted(n),
{
    if n == usize::MAX {
        0
    } else {
        n + 1
    }
}

/// The color of the prefix of the line for a result.
pub open spec fn prefix_color(result: CheckResult) -> Seq<char> {
    match result {
        CheckResult::Same => GREEN@,
        CheckResult::Renamed(_) => GREEN@,
        CheckResult::RenamedNotFound => CYAN@,
        CheckResult::RenamedTimedOut => CYAN@,
        CheckResult::Missing => RED@,
        CheckResult::Differ => RED@,
    }
}

/// What was done with the file.
pub open spec fn verb(result: CheckResult) -> Seq<char> {
    match result {
        CheckResult::Same => "Check "@,
        CheckResult::Renamed(_) => "Find "@,
        CheckResult::RenamedNotFound => "Find "@,
        CheckResult::RenamedTimedOut => "Find "@,
        CheckResult::Missing => "Check "@,
        CheckResult::Differ => "Check "@,
    }
}

/// The status of a result and its color.
pub open spec fn status_of(result: CheckResult) -> (Seq<char>, Seq<char>) {
    match result {
        CheckResult::Same => ("ok"@, GREEN@),
        CheckResult::Renamed(_) => ("found"@, GREEN@),
        CheckResult::RenamedNotFound => ("!!"@, RED@),
        CheckResult::RenamedTimedOut => ("outTime"@, YELLOW@),
        CheckResult::Missing => ("!!"@, RED@),
        CheckResult::Differ => ("!!"@, RED@),
    }
}

/// The lines below the status line that explain a result.
pub open spec fn explanation(
    result: CheckResult,
    source: Seq<char>,
    destination: Seq<char>,
) -> Seq<char> {
    match result {
        CheckResult::Same => Seq::empty(),
        CheckResult::Renamed(found) => GREEN@ + "*"@ + RESET@
            + " Looks like the file was renamed/moved:\n    Found as: "@ + found@ + "\n\n"@,
        CheckResult::RenamedNotFound => RED@ + "*"@ + RESET@
            + " File not found in destination, and no renamed match was found:\n    "@ + destination
            + "\n\n"@,
        CheckResult::RenamedTimedOut => YELLOW@ + "*"@ + RESET@
            + " Rename search aborted: --max-find-time exceeded before a match was found.\n    "@
            + destination + "\n\n"@,
        CheckResult::Missing => RED@ + "*"@ + RESET@ + " File not found in destination:\n    "@
            + destination + "\n\n"@,
        CheckResult::Differ => RED@ + "*"@ + RESET@ + " File contents differ.\n"@ + RED@ + "*"@
            + RESET@ + " The file may be corrupted or modified.\n    Source      : "@ + source
            + "\n    Destination : "@ + destination + "\n\n"@,
    }
}

impl OutputOpts {
    /// A result is worth showing.
    pub open spec fn shows(self, result: CheckResult) -> bool {
        self.quiet ==> !result.is_success()
    }
}

/// What the terminal shows and what was counted, between two files.
pub struct Screen {
    pub last_lines: nat,
    pub ok: usize,
    pub err: usize,
}

/// The text that reports a file. With a progress bar, what there is to say stands below it.
pub open spec fn report_text(
    out: OutputOpts,
    term_w: nat,
    last_lines: nat,
    file: Checked,
) -> Seq<char> {
    let (status, color) = status_of(file.result);
    let line = status_text(
        last_lines,
        term_w,
        "*"@,
        prefix_color(file.result),
        verb(file.result) + file.name@,
        status,
        color,
    ) + "\n"@;
    let lines = explanation(file.result, file.source@, file.destination@);
    if !out.shows(file.result) {
        Seq::empty()
    } else if out.progress {
        if file.result is Same {
            Seq::empty()
        } else {
            "\n"@ + lines
        }
    } else {
        line + lines
    }
}

/// The screen after a file was reported.
pub open spec fn reported(out: OutputOpts, s: Screen, result: CheckResult) -> Screen {
    Screen {
        last_lines: if out.shows(result) && !(out.progress && result is Same) {
            1
        } else {
            s.last_lines
        },
        ok: if result.is_success() {
            counted(s.ok)
        } else {
            s.ok
        },
        err: if result.is_success() {
            s.err
        } else {
            counted(s.err)
        },
    }
}

/// The status line of a result.
fn result_line(status: &mut Status, term_w: u16, result: &CheckResult, name: &str) -> (r: String)
    ensures
        r@ == status_text(
            old(status).last_lines as nat,
            term_w as nat,
            "*"@,
            prefix_color(*result),
            verb(*result) + name@,
            status_of(*result).0,
            status_of(*result).1,
        ),
{
    let (pcolor, verb_s, text, color) = match result {
        CheckResult::Same => (GREEN, "Check ", "ok", GREEN),
        CheckResult::Renamed(_) => (GREEN, "Find ", "found", GREEN),
        CheckResult::RenamedNotFound => (CYAN, "Find ", "!!", RED),
        CheckResult::RenamedTimedOut => (CYAN, "Find ", "outTime", YELLOW),
        CheckResult::Missing => (RED, "Check ", "!!", RED),
        CheckResult::Differ => (RED, "Check ", "!!", RED),
    };
    let mut msg = verb_s.to_owned();
    msg.append(name);
    status.status_line(term_w, "*", pcolor, msg.as_str(), text, color)
}

/// The lines that explain a result.
fn explain(result: &CheckResult, source: &str, destination: &str) -> (r: String)
    ensures
        r@ == explanation(*result, source@, destination@),
{
    match result {
        CheckResult::Same => String::new(),
        CheckResult::Renamed(found) => {
            let mut out = GREEN.to_owned();
            out.append("*");
            out.append(RESET);
            out.append(" Looks like the file was renamed/moved:\n    Found as: ");
            out.append(found.as_str());
            out.append("\n\n");
            out
        },
        CheckResult::RenamedNotFound => {
            let mut out = RED.to_owned();
            out.append("*");
            out.append(RESET);
            out.append(" File not found in destination, and no renamed match was found:\n    ");
            out.append(destination);
            out.append("\n\n");
            out
        },
        CheckResult::RenamedTimedOut => {
            let mut out = YELLOW.to_owned();
            out.append("*");
            out.append(RESET);
            out.append(
                " Rename search aborted: --max-find-time exceeded before a match was found.\n    ",
            );
            out.append(destination);
            out.append("\n\n");
            out
        },
        CheckResult::Missing => {
            let mut out = RED.to_owned();
            out.append("*");
            out.append(RESET);
            out.append(" File not found in destination:\n    ");
            out.append(destination);
            out.append("\n\n");
            out
        },
        CheckResult::Differ => {
            let mut out = RED.to_owned();
            out.append("*");
            out.append(RESET);
            out.append(" File contents differ.\n");
            out.append(RED);
            out.append("*");
            out.append(RESET);
            out.append(" The file may be corrupted or modified.\n    Source      : ");
            out.append(source);
            out.append("\n    Destination : ");
            out.append(destination);
            out.append("\n\n");
            out
        },
    }
}

/// Counts a result and says what to write for it.
pub fn report(
    status: &mut Status,
    tally: &mut Tally,
    file: &Checked,
    out: &OutputOpts,
    term_w: u16,
) -> (r: String)
    ensures
        r@ == report_text(*out, term_w as nat, old(status).last_lines as nat, *file),
        final(tally).index == old(tally).index,
        final(tally).total == old(tally).total,
        reported(*out, screen(*old(status), *old(tally)), file.result) == screen(
            *final(status),
            *final(tally),
        ),
        if out.quiet && (file.result is Same || file.result is Renamed) || out.progress
            && file.result is Same {
            r@ == Seq::<char>::empty()
        } else {
            match file.result {
                CheckResult::Same => r@ == status_text(
                    old(status).last_lines as nat,
                    term_w as nat,
                    "*"@,
                    GREEN@,
                    "Check "@ + file.name@,
                    "ok"@,
                    GREEN@,
                ) + "\n"@,
                CheckResult::Renamed(found) => r@ == (if out.progress {
                    "\n"@
                } else {
                    status_text(
                    old(status).last_lines as nat,
                    term_w as nat,
                    "*"@,
                    GREEN@,
                    "Find "@ + file.name@,
                    "found"@,
                    GREEN@,
                ) + "\n"@
                }) + (GREEN@ + "*"@ + RESET@ + " Looks like the file was renamed/moved:\n    Found as: "@ + found@ + "\n\n"@),
                CheckResult::RenamedNotFound => r@ == (if out.progress {
                    "\n"@
                } else {
                    status_text(
                    old(status).last_lines as nat,
                    term_w as nat,
                    "*"@,
                    CYAN@,
                    "Find "@ + file.name@,
                    "!!"@,
                    RED@,
                ) + "\n"@
                }) + (RED@ + "*"@ + RESET@ + " File not found in destination, and no renamed match was found:\n    "@
                    + file.destination@ + "\n\n"@),
                CheckResult::RenamedTimedOut => r@ == (if out.progress {
                    "\n"@
                } else {
                    status_text(
                    old(status).last_lines as nat,
                    term_w as nat,
                    "*"@,
                    CYAN@,
                    "Find "@ + file.name@,
                    "outTime"@,
                    YELLOW@,
                ) + "\n"@
                }) + (YELLOW@ + "*"@ + RESET@
                    + " Rename search aborted: --max-find-time exceeded before a match was found.\n    "@
                    + file.destination@ + "\n\n"@),
                CheckResult::Missing => r@ == (if out.progress {
                    "\n"@
                } else {
                    status_text(
                    old(status).last_lines as nat,
                    term_w as nat,
                    "*"@,
                    RED@,
                    "Check "@ + file.name@,
                    "!!"@,
                    RED@,
                ) + "\n"@
                }) + (RED@ + "*"@ + RESET@ + " File not found in destination:\n    "@ + file.destination@ + "\n\n"@),
                CheckResult::Differ => r@ == (if out.progress {
                    "\n"@
                } else {
                    status_text(
                    old(status).last_lines as nat,
                    term_w as nat,
                    "*"@,
                    RED@,
                    "Check "@ + file.name@,
                    "!!"@,
                    RED@,
                ) + "\n"@
                }) + (RED@ + "*"@ + RESET@ + " File contents differ.\n"@ + RED@ + "*"@ + RESET@
                    + " The file may be corrupted or modified.\n    Source      : "@ + file.source@
                    + "\n    Destination : "@ + file.destination@ + "\n\n"@),
            }
        },
        if file.result is Same || file.result is Renamed {
            &&& final(tally).err == old(tally).err
            &&& old(tally).ok < usize::MAX ==> final(tally).ok == old(tally).ok + 1
        } else {
            &&& final(tally).ok == old(tally).ok
            &&& old(tally).err < usize::MAX ==> final(tally).err == old(tally).err + 1
        },
        final(status).last_lines == if out.quiet && (file.result is Same || file.result is Renamed)
            || out.progress && file.result is Same {
            old(status).last_lines
        } else {
            1
        },
{
    let success = match &file.result {
        CheckResult::Same => true,
        CheckResult::Renamed(_) => true,
        _ => false,
    };
    if success {
        tally.ok = count(tally.ok);
    } else {
        tally.err = count(tally.err);
    }
    if success && out.quiet {
        return String::new();
    }
    let lines = explain(&file.result, file.source.as_str(), file.destination.as_str());
    let mut text = if !out.progress {
        result_line(status, term_w, &file.result, file.name.as_str())
    } else if matches!(file.result, CheckResult::Same) {
        return lines;
    } else {
        String::new()
    };
    text.append(status.finish_line().as_str());
    text.append(lines.as_str());
    text
}

/// What the terminal shows and what was counted.
pub open spec fn screen(status: Status, tally: Tally) -> Screen {
    Screen { last_lines: status.last_lines as nat, ok: tally.ok, err: tally.err }
}

/// The text for the file at `index` once it is checked: the progress bar, if there is one, and
/// the report.
pub open spec fn result_text(
    out: OutputOpts,
    term_w: nat,
    index: nat,
    total: nat,
    s: Screen,
    file: Checked,
) -> Seq<char> {
    if out.progress {
        clear_text(s.last_lines) + progress_text(term_w, index + 1, total, s.err as nat, file.name@)
            + report_text(out, term_w, 1, file)
    } else {
        report_text(out, term_w, s.last_lines, file)
    }
}

/// The screen after the result of a file was shown.
pub open spec fn shown(out: OutputOpts, s: Screen, result: CheckResult) -> Screen {
    reported(
        out,
        Screen {
            last_lines: if out.progress {
                1
            } else {
                s.last_lines
            },
            ..s
        },
        result,
    )
}

/// Counts the result of the file at `index` and says what to write for it.
pub fn show_result(
    status: &mut Status,
    tally: &mut Tally,
    index: usize,
    file: &Checked,
    out: &OutputOpts,
    term_w: u16,
) -> (r: String)
    requires
        index < old(tally).total,
    ensures
        r@ == result_text(
            *out,
            term_w as nat,
            index as nat,
            old(tally).total as nat,
            screen(*old(status), *old(tally)),
            *file,
        ),
        final(tally).index == index,
        final(tally).total == old(tally).total,
        shown(*out, screen(*old(status), *old(tally)), file.result) == screen(
            *final(status),
            *final(tally),
        ),
        r@ == if out.progress {
            clear_text(old(status).last_lines as nat) + progress_text(
                term_w as nat,
                (index + 1) as nat,
                old(tally).total as nat,
                old(tally).err as nat,
                file.name@,
            ) + report_text(*out, term_w as nat, 1, *file)
        } else {
            report_text(*out, term_w as nat, old(status).last_lines as nat, *file)
        },
        if file.result is Same || file.result is Renamed {
            &&& final(tally).err == old(tally).err
            &&& old(tally).ok < usize::MAX ==> final(tally).ok == old(tally).ok + 1
        } else {
            &&& final(tally).ok == old(tally).ok
            &&& old(tally).err < usize::MAX ==> final(tally).err == old(tally).err + 1
        },
        final(status).last_lines == if !out.progress && out.quiet && (file.result is Same
            || file.result is Renamed) {
            old(status).last_lines
        } else {
            1
        },
{
    tally.index = index;
    if out.progress {
        let mut text = status.progress_line(
            term_w,
            index + 1,
            tally.total,
            tally.err,
            file.name.as_str(),
        );
        text.append(report(status, tally, file, out, term_w).as_str());
        text
    } else {
        report(status, tally, file, out, term_w)
    }
}

/// The files that are not checked yet.
pub open spec fn unchecked(tally: Tally) -> nat {
    if tally.total > tally.index {
        (tally.total - tally.index) as nat
    } else {
        0
    }
}

impl Tally {
    /// The count of a run over `total` files that has not begun.
    pub fn new(total: usize) -> (r: Self)
        ensures
            r == (Tally { ok: 0, err: 0, index: 0, total }),
    {
        Tally { ok: 0, err: 0, index: 0, total }
    }

    /// The file at `index` is being checked.
    pub fn begin(&mut self, index: usize)
        ensures
            *final(self) == (Tally { index, ..*old(self) }),
    {
        self.index = index;
    }

    /// The run is over: every file was checked. Says what ends a progress bar.
    pub fn finish(&mut self, out: &OutputOpts) -> (r: String)
        ensures
            *final(self) == (Tally { index: old(self).total, ..*old(self) }),
            r@ == if out.progress {
                "\n"@
            } else {
                Seq::<char>::empty()
            },
    {
        self.index = self.total;
        if out.progress {
            "\n".to_owned()
        } else {
            String::new()
        }
    }

    /// What is written when the run ends before all files are checked.
    pub fn interrupt_summary(&self, reason: &str) -> (r: String)
        ensures
            r@ == interrupt_text(*self, reason@),
            ({
                let left: nat = if self.index < self.total {
                    (self.total - self.index) as nat
                } else {
                    0
                };
                r@ == "\r\x1b[J"@ + YELLOW@ + "*"@ + RESET@ + " Verification interrupted ["@
                    + decimal(left) + "/"@ + decimal(self.total as nat) + " unchecked]\n\n"@ + RED@
                    + "*"@ + RESET@ + " "@ + reason@ + "\n"@ + BLUE@ + "*"@ + RESET@ + " OK: "@
                    + decimal(self.ok as nat) + "  Errors: "@ + decimal(self.err as nat)
                    + "  Unchecked: "@ + decimal(left) + "\n"@
            }),
    {
        let left: usize = if self.total > self.index {
            self.total - self.index
        } else {
            0
        };
        let mut out = "\r\x1b[J".to_owned();
        out.append(YELLOW);
        out.append("*");
        out.append(RESET);
        out.append(" Verification interrupted [");
        push_decimal(&mut out, left as u64);
        out.append("/");
        push_decimal(&mut out, self.total as u64);
        out.append(" unchecked]\n\n");
        out.append(RED);
        out.append("*");
        out.append(RESET);
        out.append(" ");
        out.append(reason);
        out.append("\n");
        out.append(BLUE);
        out.append("*");
        out.append(RESET);
        out.append(" OK: ");
        push_decimal(&mut out, self.ok as u64);
        out.append("  Errors: ");
        push_decimal(&mut out, self.err as u64);
        out.append("  Unchecked: ");
        push_decimal(&mut out, left as u64);
        out.append("\n");
        out
    }

    /// What is written when the run is over.
    pub fn summary(&self) -> (r: String)
        ensures
            r@ == summary_text(*self),
            r@ == "\n"@ + GREEN@ + "*"@ + RESET@ + " Verification finished.\n"@ + BLUE@ + "*"@
                + RESET@ + " OK: "@ + decimal(self.ok as nat) + "  Errors: "@ + decimal(
                self.err as nat,
            ) + "\n"@,
    {
        let mut out = "\n".to_owned();
        out.append(GREEN);
        out.append("*");
        out.append(RESET);
        out.append(" Verification finished.\n");
        out.append(BLUE);
        out.append("*");
        out.append(RESET);
        out.append(" OK: ");
        push_decimal(&mut out, self.ok as u64);
        out.append("  Errors: ");
        push_decimal(&mut out, self.err as u64);
        out.append("\n");
        out
    }
}

/// The summary of a run that was interrupted.
pub open spec fn interrupt_text(tally: Tally, reason: Seq<char>) -> Seq<char> {
    "\r\x1b[J"@ + YELLOW@ + "*"@ + RESET@ + " Verification interrupted ["@ + decimal(
        unchecked(tally),
    ) + "/"@ + decimal(tally.total as nat) + " unchecked]\n\n"@ + RED@ + "*"@ + RESET@ + " "@
        + reason + "\n"@ + BLUE@ + "*"@ + RESET@ + " OK: "@ + decimal(tally.ok as nat)
        + "  Errors: "@ + decimal(tally.err as nat) + "  Unchecked: "@ + decimal(unchecked(tally))
        + "\n"@
}

/// The summary of a run.
pub open spec fn summary_text(tally: Tally) -> Seq<char> {
    "\n"@ + GREEN@ + "*"@ + RESET@ + " Verification finished.\n"@ + BLUE@ + "*"@ + RESET@
        + " OK: "@ + decimal(tally.ok as nat) + "  Errors: "@ + decimal(tally.err as nat) + "\n"@
}

/// The screen after the results of the first files of a run were shown.
pub open spec fn screen_after(out: OutputOpts, files: Seq<Checked>) -> Screen
    decreases files.len(),
{
    if files.len() == 0 {
        Screen { last_lines: 1, ok: 0, err: 0 }
    } else {
        shown(out, screen_after(out, files.drop_last()), files.last().result)
    }
}

/// The text that a run writes for its first files.
pub open spec fn transcript(
    out: OutputOpts,
    term_w: nat,
    total: nat,
    files: Seq<Checked>,
) -> Seq<char>
    decreases files.len(),
{
    if files.len() == 0 {
        Seq::empty()
    } else {
        let before = files.drop_last();
        transcript(out, term_w, total, before) + result_text(
            out,
            term_w,
            before.len(),
            total,
            screen_after(out, before),
            files.last(),
        )
    }
}

/// Showing one more result continues the text of the run, and the screen with it.
pub proof fn law_results_continue_the_transcript(
    out: OutputOpts,
    term_w: nat,
    total: nat,
    files: Seq<Checked>,
    file: Checked,
)
    ensures
        transcript(out, term_w, total, files.push(file)) == transcript(out, term_w, total, files)
            + result_text(
            out,
            term_w,
            files.len(),
            total,
            screen_after(out, files),
            file,
        ),
        screen_after(out, files.push(file)) == shown(out, screen_after(out, files), file.result),
{
    assert(files.push(file).drop_last() == files);
}

/// The number of files whose content was found.
pub open spec fn successes(files: Seq<Checked>) -> nat
    decreases files.len(),
{
    if files.len() == 0 {
        0
    } else {
        successes(files.drop_last()) + if files.last().result.is_success() {
            1nat
        } else {
            0
        }
    }
}

/// Every file that was shown is counted once, as a success or as an error.
pub proof fn law_every_file_is_counted_once(out: OutputOpts, files: Seq<Checked>)
    requires
        files.len() <= usize::MAX,
    ensures
        screen_after(out, files).ok == successes(files),
        screen_after(out, files).err == files.len() - successes(files),
        screen_after(out, files).ok + screen_after(out, files).err == files.len(),
    decreases files.len(),
{
    if files.len() > 0 {
        law_every_file_is_counted_once(out, files.drop_last());
    }
}

/// After the results of files were shown, the count of successes is the number of those whose
/// content was found, and the count of errors is the number of the others.
pub proof fn law_counts_are_those_of_the_results(out: OutputOpts, files: Seq<Checked>)
    requires
        files.len() <= usize::MAX,
    ensures
        screen_after(out, files).ok == files.filter(
            |f: Checked| f.result is Same || f.result is Renamed,
        ).len(),
        screen_after(out, files).err == files.filter(
            |f: Checked| !(f.result is Same || f.result is Renamed),
        ).len(),
        screen_after(out, files).ok + screen_after(out, files).err == files.len(),
    decreases files.len(),
{
    reveal(Seq::filter);
    if files.len() > 0 {
        law_counts_are_those_of_the_results(out, files.drop_last());
    }
}

/// The summary of a run says how many files were found behind `OK`, and how many were not
/// behind `Errors`, and ends there.
pub proof fn law_summary_counts_the_results(out: OutputOpts, files: Seq<Checked>, tally: Tally)
    requires
        files.len() <= usize::MAX,
        tally.ok == screen_after(out, files).ok,
        tally.err == screen_after(out, files).err,
    ensures
        ({
            let end = " OK: "@ + decimal(
                files.filter(|f: Checked| f.result is Same || f.result is Renamed).len(),
            ) + "  Errors: "@ + decimal(
                files.filter(|f: Checked| !(f.result is Same || f.result is Renamed)).len(),
            ) + "\n"@;
            end.is_suffix_of(summary_text(tally))
        }),
{
    law_counts_are_those_of_the_results(out, files);
    let head = "\n"@ + GREEN@ + "*"@ + RESET@ + " Verification finished.\n"@ + BLUE@ + "*"@ + RESET@;
    let end = " OK: "@ + decimal(tally.ok as nat) + "  Errors: "@ + decimal(tally.err as nat)
        + "\n"@;
    let (a, b, c, d) = (
        " OK: "@,
        decimal(tally.ok as nat),
        "  Errors: "@,
        decimal(tally.err as nat),
    );
    lemma_regroup(head, a, b, c);
    lemma_regroup(head, a + b + c, d, "\n"@);
    lemma_regroup(head, a + b, c, d);
    assert(summary_text(tally) == head + end);
    lemma_ends_with(head, end);
}

/// The summary of a run that was interrupted gives the same counts, and as unchecked the files
/// whose results were not shown.
pub proof fn law_interrupt_counts_the_results(
    out: OutputOpts,
    files: Seq<Checked>,
    tally: Tally,
    reason: Seq<char>,
)
    requires
        files.len() <= tally.total,
        tally.index == files.len(),
        tally.ok == screen_after(out, files).ok,
        tally.err == screen_after(out, files).err,
    ensures
        ({
            let left = decimal((tally.total - files.len()) as nat);
            let end = " OK: "@ + decimal(
                files.filter(|f: Checked| f.result is Same || f.result is Renamed).len(),
            ) + "  Errors: "@ + decimal(
                files.filter(|f: Checked| !(f.result is Same || f.result is Renamed)).len(),
            ) + ("  Unchecked: "@ + left + "\n"@);
            end.is_suffix_of(interrupt_text(tally, reason))
        }),
{
    law_counts_are_those_of_the_results(out, files);
    let left = decimal((tally.total - files.len()) as nat);
    let head = "\r\x1b[J"@ + YELLOW@ + "*"@ + RESET@ + " Verification interrupted ["@ + left + "/"@
        + decimal(tally.total as nat) + " unchecked]\n\n"@ + RED@ + "*"@ + RESET@ + " "@ + reason
        + "\n"@ + BLUE@ + "*"@ + RESET@;
    let (a, b, c, d) = (
        " OK: "@,
        decimal(tally.ok as nat),
        "  Errors: "@,
        decimal(tally.err as nat),
    );
    lemma_regroup(head, a, b, c);
    lemma_regroup(head, a + b, c, d);
    lemma_regroup(head, a + b + c, d, "  Unchecked: "@);
    let rest = "  Unchecked: "@ + left + "\n"@;
    let end = a + b + c + d + rest;
    lemma_regroup(head + (a + b + c + d), "  Unchecked: "@, left, "\n"@);
    lemma_regroup(head, a + b + c + d, rest, Seq::empty());
    assert(interrupt_text(tally, reason) =~= head + end);
    lemma_ends_with(head, end);
}

/// A text ends with what is put behind it.
proof fn lemma_ends_with(head: Seq<char>, end: Seq<char>)
    ensures
        end.is_suffix_of(head + end),
{
    assert((head + end).subrange(head.len() as int, (head + end).len() as int) =~= end);
}

/// A quiet run without a progress bar writes nothing as long as there is no error.
pub proof fn law_quiet_run_is_silent_without_errors(
    out: OutputOpts,
    term_w: nat,
    total: nat,
    files: Seq<Checked>,
)
    requires
        out.quiet,
        !out.progress,
        forall|i: int| 0 <= i < files.len() ==> (#[trigger] files[i]).result.is_success(),
    ensures
        transcript(out, term_w, total, files) == Seq::<char>::empty(),
    decreases files.len(),
{
    if files.len() > 0 {
        let before = files.drop_last();
        assert forall|i: int| 0 <= i < before.len() implies (
        #[trigger] before[i]).result.is_success() by {
            assert(before[i] == files[i]);
        }
        law_quiet_run_is_silent_without_errors(out, term_w, total, before);
    }
}

/// Every error is reported with the path that was expected, however little is shown.
pub proof fn law_errors_name_the_destination(
    out: OutputOpts,
    term_w: nat,
    last_lines: nat,
    file: Checked,
)
    requires
        !file.result.is_success(),
    ensures
        exists|before: Seq<char>|
            #[trigger] (before + file.destination@ + "\n\n"@) == report_text(
                out,
                term_w,
                last_lines,
                file,
            ),
{
    let d = file.destination@;
    let head = match file.result {
        CheckResult::RenamedNotFound => RED@ + "*"@ + RESET@
            + " File not found in destination, and no renamed match was found:\n    "@,
        CheckResult::RenamedTimedOut => YELLOW@ + "*"@ + RESET@
            + " Rename search aborted: --max-find-time exceeded before a match was found.\n    "@,
        CheckResult::Missing => RED@ + "*"@ + RESET@ + " File not found in destination:\n    "@,
        _ => RED@ + "*"@ + RESET@ + " File contents differ.\n"@ + RED@ + "*"@ + RESET@
            + " The file may be corrupted or modified.\n    Source      : "@ + file.source@
            + "\n    Destination : "@,
    };
    let lines = explanation(file.result, file.source@, d);
    assert(lines == head + d + "\n\n"@);
    let start = if out.progress {
        "\n"@
    } else {
        let (status, color) = status_of(file.result);
        status_text(
            last_lines,
            term_w,
            "*"@,
            prefix_color(file.result),
            verb(file.result) + file.name@,
            status,
            color,
        ) + "\n"@
    };
    assert(report_text(out, term_w, last_lines, file) == start + lines);
    lemma_regroup(start, head, d, "\n\n"@);
}

/// Putting texts together in another order of steps makes no difference.
proof fn lemma_regroup(a: Seq<char>, b: Seq<char>, c: Seq<char>, d: Seq<char>)
    ensures
        (a + b) + c + d == a + (b + c + d),
{
    assert((a + b) + c + d =~= a + (b + c + d));
}

/// What is written for each result: a line with its status, unless there is a progress bar, and
/// below it what there is to say.
pub proof fn law_each_result_is_reported_as_what_it_is(
    out: OutputOpts,
    term_w: nat,
    last_lines: nat,
    file: Checked,
)
    ensures
        file.result is Same && !out.progress && !out.quiet ==> report_text(
            out,
            term_w,
            last_lines,
            file,
        ) == status_text(
                last_lines,
                term_w,
                "*"@,
                GREEN@,
                "Check "@ + file.name@,
                "ok"@,
                GREEN@,
            ) + "\n"@,
        file.result is Renamed && !out.progress && !out.quiet ==> report_text(out, term_w, last_lines, file)
            == status_text(
                last_lines,
                term_w,
                "*"@,
                GREEN@,
                "Find "@ + file.name@,
                "found"@,
                GREEN@,
            ) + "\n"@ + (GREEN@ + "*"@ + RESET@ + " Looks like the file was renamed/moved:\n    Found as: "@
                + file.result->Renamed_0@ + "\n\n"@),
        file.result is Renamed && out.progress && !out.quiet ==> report_text(out, term_w, last_lines, file)
            == "\n"@ + (GREEN@ + "*"@ + RESET@ + " Looks like the file was renamed/moved:\n    Found as: "@
                + file.result->Renamed_0@ + "\n\n"@),
        file.result is RenamedNotFound && !out.progress ==> report_text(out, term_w, last_lines, file)
            == status_text(
                last_lines,
                term_w,
                "*"@,
                CYAN@,
                "Find "@ + file.name@,
                "!!"@,
                RED@,
            ) + "\n"@ + (RED@ + "*"@ + RESET@
                + " File not found in destination, and no renamed match was found:\n    "@
                + file.destination@ + "\n\n"@),
        file.result is RenamedNotFound && out.progress ==> report_text(out, term_w, last_lines, file)
            == "\n"@ + (RED@ + "*"@ + RESET@
                + " File not found in destination, and no renamed match was found:\n    "@
                + file.destination@ + "\n\n"@),
        file.result is RenamedTimedOut && !out.progress ==> report_text(out, term_w, last_lines, file)
            == status_text(
                last_lines,
                term_w,
                "*"@,
                CYAN@,
                "Find "@ + file.name@,
                "outTime"@,
                YELLOW@,
            ) + "\n"@ + (YELLOW@ + "*"@ + RESET@
                + " Rename search aborted: --max-find-time exceeded before a match was found.\n    "@
                + file.destination@ + "\n\n"@),
        file.result is RenamedTimedOut && out.progress ==> report_text(out, term_w, last_lines, file)
            == "\n"@ + (YELLOW@ + "*"@ + RESET@
                + " Rename search aborted: --max-find-time exceeded before a match was found.\n    "@
                + file.destination@ + "\n\n"@),
        file.result is Missing && !out.progress ==> report_text(out, term_w, last_lines, file)
            == status_text(
                last_lines,
                term_w,
                "*"@,
                RED@,
                "Check "@ + file.name@,
                "!!"@,
                RED@,
            ) + "\n"@ + (RED@ + "*"@ + RESET@ + " File not found in destination:\n    "@ + file.destination@
                + "\n\n"@),
        file.result is Missing && out.progress ==> report_text(out, term_w, last_lines, file)
            == "\n"@ + (RED@ + "*"@ + RESET@ + " File not found in destination:\n    "@ + file.destination@
                + "\n\n"@),
        file.result is Differ && !out.progress ==> report_text(out, term_w, last_lines, file)
            == status_text(
                last_lines,
                term_w,
                "*"@,
                RED@,
                "Check "@ + file.name@,
                "!!"@,
                RED@,
            ) + "\n"@ + (RED@ + "*"@ + RESET@ + " File contents differ.\n"@ + RED@ + "*"@ + RESET@
                + " The file may be corrupted or modified.\n    Source      : "@ + file.source@
                + "\n    Destination : "@ + file.destination@ + "\n\n"@),
        file.result is Differ && out.progress ==> report_text(out, term_w, last_lines, file)
            == "\n"@ + (RED@ + "*"@ + RESET@ + " File contents differ.\n"@ + RED@ + "*"@ + RESET@
                + " The file may be corrupted or modified.\n    Source      : "@ + file.source@
                + "\n    Destination : "@ + file.destination@ + "\n\n"@),
        (file.result is Same || file.result is Renamed) && out.quiet ==> report_text(
            out,
            term_w,
            last_lines,
            file,
        ) == Seq::<char>::empty(),
        file.result is Same && out.progress ==> report_text(out, term_w, last_lines, file) == Seq::<
            char,
        >::empty(),
{
    if file.result is Same && !out.progress && !out.quiet {
        assert(report_text(out, term_w, last_lines, file) =~= status_text(
                last_lines,
                term_w,
                "*"@,
                GREEN@,
                "Check "@ + file.name@,
                "ok"@,
                GREEN@,
            ) + "\n"@);
    }
}

/// With a progress bar there is no line for a file whose content is where it belongs.
pub proof fn law_progress_replaces_the_lines(
    out: OutputOpts,
    term_w: nat,
    last_lines: nat,
    file: Checked,
)
    requires
        out.progress,
        file.result is Same,
    ensures
        report_text(out, term_w, last_lines, file) == Seq::<char>::empty(),
{
}

/// With a progress bar, what there is to say of any other file stands on lines of its own below
/// the bar, unless the run is quiet and there is no error.
pub proof fn law_messages_stand_below_the_progress_bar(
    out: OutputOpts,
    term_w: nat,
    index: nat,
    total: nat,
    s: Screen,
    file: Checked,
)
    requires
        out.progress,
        out.shows(file.result),
        !(file.result is Same),
    ensures
        result_text(out, term_w, index, total, s, file) == clear_text(s.last_lines)
            + progress_text(term_w, index + 1, total, s.err as nat, file.name@) + "\n"@
            + explanation(file.result, file.source@, file.destination@),
        shown(out, s, file.result).last_lines == 1,
{
    assert(result_text(out, term_w, index, total, s, file) =~= clear_text(s.last_lines)
        + progress_text(term_w, index + 1, total, s.err as nat, file.name@) + "\n"@ + explanation(
        file.result,
        file.source@,
        file.destination@,
    ));
}

/// A run that has shown no more files than it has leaves as many unchecked as are left.
pub proof fn law_unchecked_files_are_the_rest(tally: Tally)
    requires
        tally.index <= tally.total,
    ensures
        unchecked(tally) + tally.index == tally.total,
{
}

} // verus!
