use compare_dirs::check::CheckResult;
use compare_dirs::queue::WorkQueue;
use compare_dirs::report::{Checked, OutputOpts, Tally};
use compare_dirs::run::{run_parallel, run_sequential, ParallelStep, RunEvent};
use compare_dirs::status::Status;

const OUTPUTS: [OutputOpts; 4] = [
    OutputOpts { progress: false, quiet: false },
    OutputOpts { progress: false, quiet: true },
    OutputOpts { progress: true, quiet: false },
    OutputOpts { progress: true, quiet: true },
];

fn checked(i: usize) -> Checked {
    Checked {
        result: match i % 6 {
            0 => CheckResult::Same,
            1 => CheckResult::Renamed("two/other".to_string()),
            2 => CheckResult::Differ,
            3 => CheckResult::RenamedNotFound,
            4 => CheckResult::RenamedTimedOut,
            _ => CheckResult::Missing,
        },
        name: format!("file{i}"),
        source: format!("one/file{i}"),
        destination: format!("two/file{i}"),
    }
}

fn sequential(total: usize, out: &OutputOpts) -> (String, Tally) {
    let mut status = Status::new();
    let mut tally = Tally::new(total);
    let mut step = run_sequential(&mut status, &mut tally, RunEvent::Begun, out, 60);
    let mut written = step.text;
    let mut expected: usize = 0;
    while let Some(i) = step.next {
        assert_eq!(i, expected);
        assert_eq!(tally.index, i);
        expected += 1;
        step = run_sequential(&mut status, &mut tally, RunEvent::Done(checked(i)), out, 60);
        written.push_str(&step.text);
    }
    assert_eq!(expected, total);
    (written, tally)
}

fn parallel(order: &[usize], out: &OutputOpts) -> (String, Tally) {
    let total = order.len();
    let mut queue: WorkQueue<Checked> = WorkQueue::new(total);
    let mut status = Status::new();
    let mut tally = Tally::new(total);
    let mut written = String::new();
    let mut stored: usize = 0;
    loop {
        match run_parallel(&mut queue, &mut status, &mut tally, false, out, 60) {
            ParallelStep::Stop => unreachable!(),
            ParallelStep::Wait => {
                queue.store(order[stored], checked(order[stored]));
                stored += 1;
            }
            ParallelStep::Write(text) => written.push_str(&text),
            ParallelStep::Finished(text) => {
                written.push_str(&text);
                return (written, tally);
            }
        }
    }
}

#[test]
fn files_are_checked_one_after_the_other() {
    for out in &OUTPUTS {
        let (_, tally) = sequential(7, out);
        assert_eq!(tally, Tally { ok: 3, err: 4, index: 7, total: 7 });
    }
}

#[test]
fn run_over_nothing_is_over_at_once() {
    assert_eq!(sequential(0, &OUTPUTS[0]).0, "");
    assert_eq!(sequential(0, &OUTPUTS[2]).0, "\n");
    assert_eq!(parallel(&[], &OUTPUTS[0]).0, "");
    assert_eq!(parallel(&[], &OUTPUTS[2]).0, "\n");
}

#[test]
fn progress_bar_is_ended_by_a_line_break() {
    let (written, _) = sequential(1, &OUTPUTS[2]);
    assert!(written.ends_with("100% \x1b[1;32merr:0\x1b[0m  \n"));
}

#[test]
fn many_workers_write_what_one_writes() {
    for out in &OUTPUTS {
        let expected = sequential(7, out);
        assert_eq!(parallel(&[0, 1, 2, 3, 4, 5, 6], out), expected);
        assert_eq!(parallel(&[6, 5, 4, 3, 2, 1, 0], out), expected);
        assert_eq!(parallel(&[2, 0, 6, 1, 4, 3, 5], out), expected);
    }
}

#[test]
fn interrupted_run_shows_no_more_results() {
    let out = &OUTPUTS[0];
    let mut queue: WorkQueue<Checked> = WorkQueue::new(2);
    let mut status = Status::new();
    let mut tally = Tally::new(2);
    queue.store(0, checked(0));
    let step = run_parallel(&mut queue, &mut status, &mut tally, true, out, 60);
    assert!(matches!(step, ParallelStep::Stop));
    assert_eq!(tally, Tally::new(2));
    let step = run_parallel(&mut queue, &mut status, &mut tally, false, out, 60);
    assert!(matches!(step, ParallelStep::Write(_)));
    assert_eq!(tally, Tally { ok: 1, err: 0, index: 0, total: 2 });
}
