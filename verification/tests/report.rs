use compare_dirs::check::CheckResult;
use compare_dirs::report::{report, show_result, Checked, OutputOpts, Tally};
use compare_dirs::status::Status;

const PLAIN: OutputOpts = OutputOpts { progress: false, quiet: false };
const QUIET: OutputOpts = OutputOpts { progress: false, quiet: true };
const PROGRESS: OutputOpts = OutputOpts { progress: true, quiet: false };
const QUIET_PROGRESS: OutputOpts = OutputOpts { progress: true, quiet: true };

fn file(result: CheckResult) -> Checked {
    Checked {
        result,
        name: "f".to_string(),
        source: "one/f".to_string(),
        destination: "two/f".to_string(),
    }
}

fn reported(result: CheckResult, out: &OutputOpts) -> (String, usize, usize) {
    let mut status = Status::new();
    let mut tally = Tally::new(1);
    let text = report(&mut status, &mut tally, &file(result), out, 24);
    assert_eq!(status.last_lines, 1);
    (text, tally.ok, tally.err)
}

fn line(prefix: &str, msg: &str, color: &str, status: &str) -> String {
    let pad = " ".repeat(24 - msg.len() - status.len() - 6);
    format!(
        "\r\x1b[J{prefix}*\x1b[0m {msg}{pad}\x1b[1;34m[\x1b[0m {color}{status}\x1b[0m \x1b[1;34m]\x1b[0m\n"
    )
}

const GREEN: &str = "\x1b[1;32m";
const RED: &str = "\x1b[1;31m";
const CYAN: &str = "\x1b[1;36m";
const YELLOW: &str = "\x1b[1;33m";

const FOUND: &str =
    "\x1b[1;32m*\x1b[0m Looks like the file was renamed/moved:\n    Found as: two/g\n\n";
const NOT_FOUND: &str =
    "\x1b[1;31m*\x1b[0m File not found in destination, and no renamed match was found:\n    two/f\n\n";
const TIMED_OUT: &str = "\x1b[1;33m*\x1b[0m Rename search aborted: --max-find-time exceeded before a match was found.\n    two/f\n\n";
const MISSING: &str = "\x1b[1;31m*\x1b[0m File not found in destination:\n    two/f\n\n";
const DIFFER: &str = "\x1b[1;31m*\x1b[0m File contents differ.\n\x1b[1;31m*\x1b[0m The file may be corrupted or modified.\n    Source      : one/f\n    Destination : two/f\n\n";

fn renamed() -> CheckResult {
    CheckResult::Renamed("two/g".to_string())
}

#[test]
fn same_files_are_reported() {
    let expected = line(GREEN, "Check f", GREEN, "ok");
    assert_eq!(reported(CheckResult::Same, &PLAIN), (expected, 1, 0));
}

#[test]
fn renamed_files_are_reported() {
    let expected = line(GREEN, "Find f", GREEN, "found") + FOUND;
    assert_eq!(reported(renamed(), &PLAIN), (expected, 1, 0));
}

#[test]
fn files_found_nowhere_are_reported() {
    let expected = line(CYAN, "Find f", RED, "!!") + NOT_FOUND;
    assert_eq!(reported(CheckResult::RenamedNotFound, &PLAIN), (expected, 0, 1));
}

#[test]
fn searches_out_of_time_are_reported() {
    let expected = line(CYAN, "Find f", YELLOW, "outTime") + TIMED_OUT;
    assert_eq!(reported(CheckResult::RenamedTimedOut, &PLAIN), (expected, 0, 1));
}

#[test]
fn missing_files_are_reported() {
    let expected = line(RED, "Check f", RED, "!!") + MISSING;
    assert_eq!(reported(CheckResult::Missing, &PLAIN), (expected, 0, 1));
}

#[test]
fn different_files_are_reported() {
    let expected = line(RED, "Check f", RED, "!!") + DIFFER;
    assert_eq!(reported(CheckResult::Differ, &PLAIN), (expected, 0, 1));
}

#[test]
fn quiet_reports_errors_alone() {
    assert_eq!(reported(CheckResult::Same, &QUIET), (String::new(), 1, 0));
    assert_eq!(reported(renamed(), &QUIET), (String::new(), 1, 0));
    let expected = line(RED, "Check f", RED, "!!") + MISSING;
    assert_eq!(reported(CheckResult::Missing, &QUIET), (expected, 0, 1));
    let expected = line(CYAN, "Find f", RED, "!!") + NOT_FOUND;
    assert_eq!(reported(CheckResult::RenamedNotFound, &QUIET), (expected, 0, 1));
}

#[test]
fn messages_stand_below_the_progress_bar() {
    assert_eq!(reported(CheckResult::Same, &PROGRESS), (String::new(), 1, 0));
    assert_eq!(reported(renamed(), &PROGRESS), (format!("\n{FOUND}"), 1, 0));
    assert_eq!(
        reported(CheckResult::RenamedNotFound, &PROGRESS),
        (format!("\n{NOT_FOUND}"), 0, 1)
    );
    assert_eq!(
        reported(CheckResult::RenamedTimedOut, &PROGRESS),
        (format!("\n{TIMED_OUT}"), 0, 1)
    );
    assert_eq!(reported(CheckResult::Missing, &PROGRESS), (format!("\n{MISSING}"), 0, 1));
    assert_eq!(reported(CheckResult::Differ, &PROGRESS), (format!("\n{DIFFER}"), 0, 1));
    assert_eq!(reported(renamed(), &QUIET_PROGRESS), (String::new(), 1, 0));
    assert_eq!(reported(CheckResult::Differ, &QUIET_PROGRESS), (format!("\n{DIFFER}"), 0, 1));
}

#[test]
fn progress_bar_counts_the_errors_before_the_file() {
    let mut status = Status::new();
    let mut tally = Tally::new(2);
    let first = show_result(
        &mut status,
        &mut tally,
        0,
        &file(CheckResult::Missing),
        &PROGRESS,
        80,
    );
    assert!(first.contains("Checking (1 of 2)"));
    assert!(first.contains("\x1b[1;32merr:0\x1b[0m  f\n\x1b[1;31m*"));
    let second = show_result(
        &mut status,
        &mut tally,
        1,
        &file(CheckResult::Same),
        &PROGRESS,
        80,
    );
    assert!(second.contains("Checking (2 of 2)"));
    assert!(second.ends_with("\x1b[1;31merr:1\x1b[0m  f"));
    assert_eq!(tally, Tally { ok: 1, err: 1, index: 1, total: 2 });
}

#[test]
fn without_a_progress_bar_the_report_is_all() {
    let mut status = Status::new();
    let mut tally = Tally::new(3);
    let text = show_result(&mut status, &mut tally, 2, &file(CheckResult::Same), &PLAIN, 24);
    assert_eq!(text, line(GREEN, "Check f", GREEN, "ok"));
    assert_eq!(tally.index, 2);
}

#[test]
fn tally_follows_the_run() {
    let mut tally = Tally::new(5);
    assert_eq!(tally, Tally { ok: 0, err: 0, index: 0, total: 5 });
    tally.begin(3);
    assert_eq!(tally.index, 3);
    assert_eq!(tally.finish(&PLAIN), "");
    assert_eq!(tally.index, 5);
    assert_eq!(Tally::new(1).finish(&PROGRESS), "\n");
}

#[test]
fn summary_of_a_finished_run() {
    let tally = Tally { ok: 12, err: 3, index: 15, total: 15 };
    assert_eq!(
        tally.summary(),
        "\n\x1b[1;32m*\x1b[0m Verification finished.\n\x1b[1;34m*\x1b[0m OK: 12  Errors: 3\n"
    );
}

#[test]
fn summary_of_an_interrupted_run() {
    let tally = Tally { ok: 4, err: 1, index: 5, total: 20 };
    assert_eq!(
        tally.interrupt_summary("Enough."),
        "\r\x1b[J\x1b[1;33m*\x1b[0m Verification interrupted [15/20 unchecked]\n\n\x1b[1;31m*\x1b[0m Enough.\n\x1b[1;34m*\x1b[0m OK: 4  Errors: 1  Unchecked: 15\n"
    );
    let over = Tally { ok: 0, err: 0, index: 7, total: 2 };
    assert!(over.interrupt_summary("x").contains("[0/2 unchecked]"));
}
