//! The order of a run, with one worker or with many.

use vstd::prelude::*;

use crate::queue::{law_results_are_taken_in_order, lemma_queue_shape, lemma_taken_count};
use crate::queue::{queue_after, taken_results, tells, DrainStep, QueueEvent, QueueView, WorkQueue};
use crate::report::{law_results_continue_the_transcript, result_text, screen, screen_after};
use crate::report::{report_text, show_result, shown, transcript, Checked, OutputOpts};
use crate::report::{Screen, Tally};
use crate::status::{clear_text, progress_text, Status};

verus! {

/// What happened in a run that checks one file at a time.
#[derive(Debug)]
pub enum RunEvent {
    /// The run begins.
    Begun,
    /// The file that was to be checked was checked.
    Done(Checked),
}

/// The next step of a run that checks one file at a time.
#[derive(Debug)]
pub struct RunStep {
    /// What to write first.
    pub text: String,
    /// The file to check then; `None` if the run is over.
    pub next: Option<usize>,
}

/// What ends the text of a run.
pub open spec fn finish_text(out: OutputOpts) -> Seq<char> {
    if out.progress {
        "\n"@
    } else {
        Seq::empty()
    }
}

/// The text for the file at `index`, with what ends the run if it is the last one.
pub open spec fn step_text(
    out: OutputOpts,
    term_w: nat,
    index: nat,
    total: nat,
    s: Screen,
    file: Checked,
) -> Seq<char> {
    result_text(out, term_w, index, total, s, file) + if index + 1 < total {
        Seq::empty()
    } else {
        finish_text(out)
    }
}

/// The terminal and the count of a run.
pub struct RunState {
    pub status: Status,
    pub tally: Tally,
}

/// `r` is the step after an event, and takes a run that checks one file at a time from the one
/// state to the other.
pub open spec fn sequential_step(
    before: RunState,
    event: RunEvent,
    out: OutputOpts,
    term_w: nat,
    after: RunState,
    r: RunStep,
) -> bool {
    let (index, total) = (before.tally.index, before.tally.total);
    let (s, t) = (screen(before.status, before.tally), screen(after.status, after.tally));
    &&& after.tally.total == total
    &&& match event {
        RunEvent::Begun => {
            &&& t == s
            &&& after.tally.index == 0
            &&& if total > 0 {
                &&& r.next == Some(0usize)
                &&& r.text@ == Seq::<char>::empty()
            } else {
                &&& r.next is None
                &&& r.text@ == finish_text(out)
            }
        },
        RunEvent::Done(file) => {
            &&& t == shown(out, s, file.result)
            &&& after.tally.index == index + 1
            &&& r.text@ == step_text(out, term_w, index as nat, total as nat, s, file)
            &&& r.next == if index + 1 < total {
                Some((index + 1) as usize)
            } else {
                None
            }
        },
    }
}

/// Decides the next step of a run that checks one file at a time.
pub fn run_sequential(
    status: &mut Status,
    tally: &mut Tally,
    event: RunEvent,
    out: &OutputOpts,
    term_w: u16,
) -> (r: RunStep)
    requires
        event is Done ==> old(tally).index < old(tally).total,
    ensures
        sequential_step(
            (RunState { status: *old(status), tally: *old(tally) }),
            event,
            *out,
            term_w as nat,
            (RunState { status: *final(status), tally: *final(tally) }),
            r,
        ),
        final(tally).total == old(tally).total,
        match event {
            RunEvent::Begun => {
                &&& final(tally).ok == old(tally).ok
                &&& final(tally).err == old(tally).err
                &&& final(tally).index == 0
                &&& final(status).last_lines == old(status).last_lines
                &&& old(tally).total > 0 ==> r.next == Some(0usize) && r.text@ == Seq::<
                    char,
                >::empty()
                &&& old(tally).total == 0 ==> r.next is None && r.text@ == if out.progress {
                    "\n"@
                } else {
                    Seq::<char>::empty()
                }
            },
            RunEvent::Done(file) => {
                &&& final(tally).index == old(tally).index + 1
                &&& old(tally).index + 1 < old(tally).total ==> r.next == Some(
                    (old(tally).index + 1) as usize,
                )
                &&& old(tally).index + 1 == old(tally).total ==> r.next is None
                &&& r.text@ == result_text(
                    *out,
                    term_w as nat,
                    old(tally).index as nat,
                    old(tally).total as nat,
                    screen(*old(status), *old(tally)),
                    file,
                ) + if out.progress && old(tally).index + 1 == old(tally).total {
                    "\n"@
                } else {
                    Seq::<char>::empty()
                }
                &&& if file.result is Same || file.result is Renamed {
                    &&& final(tally).err == old(tally).err
                    &&& old(tally).ok < usize::MAX ==> final(tally).ok == old(tally).ok + 1
                } else {
                    &&& final(tally).ok == old(tally).ok
                    &&& old(tally).err < usize::MAX ==> final(tally).err == old(tally).err + 1
                }
            },
        },
{
    match event {
        RunEvent::Begun => {
            tally.begin(0);
            if tally.total > 0 {
                RunStep { text: String::new(), next: Some(0) }
            } else {
                RunStep { text: tally.finish(out), next: None }
            }
        },
        RunEvent::Done(file) => {
            let index = tally.index;
            let ghost before = screen(*status, *tally);
            let mut text = show_result(status, tally, index, &file, out, term_w);
            if index + 1 < tally.total {
                tally.begin(index + 1);
                assert(text@ =~= step_text(
                    *out,
                    term_w as nat,
                    index as nat,
                    tally.total as nat,
                    before,
                    file,
                ));
                RunStep { text, next: Some(index + 1) }
            } else {
                text.append(tally.finish(out).as_str());
                RunStep { text, next: None }
            }
        },
    }
}

/// The next step of the thread that shows the results of a run with many workers.
#[derive(Debug)]
pub enum ParallelStep {
    /// The run was interrupted: no more results are shown.
    Stop,
    /// The next result is not in: wait, and ask again.
    Wait,
    /// Write this, and ask again.
    Write(String),
    /// All results were shown: write this, and the run is over.
    Finished(String),
}

/// `r` is the next step of the thread that shows the results of a run with many workers, and
/// takes the run and its queue from the one state to the other.
pub open spec fn parallel_step(
    queue: QueueView<Checked>,
    before: RunState,
    interrupted: bool,
    out: OutputOpts,
    term_w: nat,
    queue_then: QueueView<Checked>,
    after: RunState,
    r: ParallelStep,
) -> bool {
    let total = before.tally.total;
    let (s, t) = (screen(before.status, before.tally), screen(after.status, after.tally));
    &&& after.tally.total == total
    &&& if queue.taken >= total {
        &&& r matches ParallelStep::Finished(text)
        &&& text@ == finish_text(out)
        &&& queue_then == queue
        &&& t == s
        &&& after.tally.index == total
    } else if interrupted {
        &&& r is Stop
        &&& queue_then == queue
        &&& after == before
    } else {
        &&& queue_then == queue.after(QueueEvent::Take)
        &&& match queue.ready() {
            Some(file) => {
                &&& r matches ParallelStep::Write(text)
                &&& text@ == result_text(out, term_w, queue.taken, total as nat, s, file)
                &&& t == shown(out, s, file.result)
                &&& after.tally.index == queue.taken
            },
            None => {
                &&& r is Wait
                &&& after == before
            },
        }
    }
}

/// Decides the next step of the thread that shows the results of a run with many workers: they
/// are shown in the order of the files, each as soon as it and all before it are in.
pub fn run_parallel(
    queue: &mut WorkQueue<Checked>,
    status: &mut Status,
    tally: &mut Tally,
    interrupted: bool,
    out: &OutputOpts,
    term_w: u16,
) -> (r: ParallelStep)
    requires
        old(tally).total == old(queue)@.slots.len(),
    ensures
        old(queue).wf() ==> final(queue).wf(),
        parallel_step(
            old(queue)@,
            (RunState { status: *old(status), tally: *old(tally) }),
            interrupted,
            *out,
            term_w as nat,
            final(queue)@,
            (RunState { status: *final(status), tally: *final(tally) }),
            r,
        ),
        final(tally).total == old(tally).total,
        final(queue).next == old(queue).next,
        match r {
            ParallelStep::Finished(text) => {
                &&& old(queue).taken >= old(queue).slots@.len()
                &&& final(tally).index == old(tally).total
                &&& text@ == if out.progress {
                    "\n"@
                } else {
                    Seq::<char>::empty()
                }
            },
            ParallelStep::Stop => interrupted && old(queue).taken < old(queue).slots@.len(),
            ParallelStep::Wait => {
                &&& !interrupted
                &&& old(queue).taken < old(queue).slots@.len()
                &&& old(queue).slots@[old(queue).taken as int] is None
            },
            ParallelStep::Write(text) => {
                &&& !interrupted
                &&& old(queue).taken < old(queue).slots@.len()
                &&& old(queue).slots@[old(queue).taken as int] matches Some(file)
                &&& text@ == result_text(
                    *out,
                    term_w as nat,
                    old(queue).taken as nat,
                    old(tally).total as nat,
                    screen(*old(status), *old(tally)),
                    file,
                )
                &&& final(tally).index == old(queue).taken
                &&& if file.result is Same || file.result is Renamed {
                    &&& final(tally).err == old(tally).err
                    &&& old(tally).ok < usize::MAX ==> final(tally).ok == old(tally).ok + 1
                } else {
                    &&& final(tally).ok == old(tally).ok
                    &&& old(tally).err < usize::MAX ==> final(tally).err == old(tally).err + 1
                }
            },
        },
        if r is Write {
            final(queue).taken == old(queue).taken + 1
        } else {
            &&& final(queue).taken == old(queue).taken
            &&& final(queue).slots@ == old(queue).slots@
            &&& final(tally).ok == old(tally).ok
            &&& final(tally).err == old(tally).err
            &&& final(status).last_lines == old(status).last_lines
        },
{
    match queue.drain_step(interrupted) {
        DrainStep::Stop => ParallelStep::Stop,
        DrainStep::Wait => ParallelStep::Wait,
        DrainStep::Finished => ParallelStep::Finished(tally.finish(out)),
        DrainStep::Show(index, file) => ParallelStep::Write(
            show_result(status, tally, index, &file, out, term_w),
        ),
    }
}

/// The text of a run that checks one file at a time, after the first files of `total`, where no
/// spinner is drawn in between.
pub open spec fn sequential_text(
    out: OutputOpts,
    term_w: nat,
    total: nat,
    files: Seq<Checked>,
) -> Seq<char>
    decreases files.len(),
{
    if files.len() == 0 {
        if total > 0 {
            Seq::empty()
        } else {
            finish_text(out)
        }
    } else {
        let before = files.drop_last();
        sequential_text(out, term_w, total, before) + step_text(
            out,
            term_w,
            before.len(),
            total,
            screen_after(out, before),
            files.last(),
        )
    }
}

/// The text of a run whose files are shared among workers, after a history of its queue and,
/// if so, its end.
pub open spec fn parallel_text(
    out: OutputOpts,
    term_w: nat,
    total: nat,
    events: Seq<QueueEvent<Checked>>,
    finished: bool,
) -> Seq<char> {
    transcript(out, term_w, total, taken_results(total, events)) + if finished {
        finish_text(out)
    } else {
        Seq::empty()
    }
}

/// A run that checks one file at a time begins with the first file and the text of no files.
pub proof fn law_sequential_run_begins(
    out: OutputOpts,
    term_w: nat,
    before: RunState,
    after: RunState,
    r: RunStep,
)
    requires
        screen(before.status, before.tally) == screen_after(out, Seq::empty()),
        sequential_step(before, RunEvent::Begun, out, term_w, after, r),
    ensures
        r.text@ == sequential_text(out, term_w, before.tally.total as nat, Seq::empty()),
        screen(after.status, after.tally) == screen_after(out, Seq::empty()),
        after.tally.total == before.tally.total,
        after.tally.index == 0,
        r.next == if before.tally.total > 0 {
            Some(0usize)
        } else {
            None
        },
{
}

/// From the state that the first files of a run leave, checking the next one continues the text
/// of the run, leaves the state that one file more leaves, and goes on with the file after it.
pub proof fn law_sequential_step_continues_the_run(
    out: OutputOpts,
    term_w: nat,
    files: Seq<Checked>,
    file: Checked,
    before: RunState,
    after: RunState,
    r: RunStep,
)
    requires
        before.tally.index == files.len(),
        before.tally.index < before.tally.total,
        screen(before.status, before.tally) == screen_after(out, files),
        sequential_step(before, RunEvent::Done(file), out, term_w, after, r),
    ensures
        sequential_text(out, term_w, before.tally.total as nat, files.push(file))
            == sequential_text(out, term_w, before.tally.total as nat, files) + r.text@,
        screen(after.status, after.tally) == screen_after(out, files.push(file)),
        after.tally.total == before.tally.total,
        after.tally.index == files.push(file).len(),
        r.next == if files.push(file).len() < before.tally.total {
            Some(files.push(file).len() as usize)
        } else {
            None
        },
{
    assert(files.push(file).drop_last() == files);
}

/// From the state that a history leaves, a step of the thread that shows the results continues
/// the text of the run and leaves the state that the longer history leaves; all results are
/// shown when it finishes.
pub proof fn law_parallel_step_continues_the_run(
    out: OutputOpts,
    term_w: nat,
    events: Seq<QueueEvent<Checked>>,
    before: RunState,
    queue_then: QueueView<Checked>,
    after: RunState,
    r: ParallelStep,
)
    requires
        screen(before.status, before.tally) == screen_after(
            out,
            taken_results(before.tally.total as nat, events),
        ),
        parallel_step(
            queue_after(before.tally.total as nat, events),
            before,
            false,
            out,
            term_w,
            queue_then,
            after,
            r,
        ),
    ensures
        ({
            let total = before.tally.total as nat;
            let longer = events.push(QueueEvent::Take);
            let text = parallel_text(out, term_w, total, events, false);
            &&& after.tally.total == before.tally.total
            &&& queue_then == queue_after(total, longer)
            &&& screen(after.status, after.tally) == screen_after(
                out,
                taken_results(total, longer),
            )
            &&& match r {
                ParallelStep::Stop => false,
                ParallelStep::Wait => parallel_text(out, term_w, total, longer, false) == text,
                ParallelStep::Write(more) => parallel_text(out, term_w, total, longer, false)
                    == text + more@,
                ParallelStep::Finished(more) => {
                    &&& parallel_text(out, term_w, total, events, true) == text + more@
                    &&& taken_results(total, events).len() >= total
                },
            }
        }),
{
    let total = before.tally.total as nat;
    let longer = events.push(QueueEvent::Take);
    let shown_files = taken_results(total, events);
    assert(longer.drop_last() == events);
    lemma_taken_count(total, events);
    lemma_queue_shape(total, events);
    if let Some(file) = queue_after(total, events).ready() {
        law_results_continue_the_transcript(out, term_w, total, shown_files, file);
    }
    let text = transcript(out, term_w, total, shown_files);
    assert(text + Seq::empty() =~= text);
    let more = transcript(out, term_w, total, taken_results(total, longer));
    assert(more + Seq::empty() =~= more);
}

/// What a worker does, asking for a file or handing in a result, writes nothing.
pub proof fn law_workers_write_nothing(
    out: OutputOpts,
    term_w: nat,
    total: nat,
    events: Seq<QueueEvent<Checked>>,
    event: QueueEvent<Checked>,
    finished: bool,
)
    requires
        !(event is Take),
    ensures
        parallel_text(out, term_w, total, events.push(event), finished) == parallel_text(
            out,
            term_w,
            total,
            events,
            finished,
        ),
        queue_after(total, events.push(event)) == queue_after(total, events).after(event),
{
    assert(events.push(event).drop_last() == events);
}

/// A run writes what there is for each file, and after the last one a line break if there is a
/// progress bar, and nothing else.
pub proof fn law_progress_bar_is_ended_after_the_last_file(
    out: OutputOpts,
    term_w: nat,
    index: nat,
    total: nat,
    s: Screen,
    file: Checked,
)
    requires
        index < total,
    ensures
        index + 1 < total || !out.progress ==> step_text(out, term_w, index, total, s, file)
            == result_text(out, term_w, index, total, s, file),
        index + 1 == total && out.progress ==> step_text(out, term_w, index, total, s, file)
            == result_text(out, term_w, index, total, s, file) + "\n"@,
        out.progress ==> finish_text(out) == "\n"@,
        !out.progress ==> finish_text(out) == Seq::<char>::empty(),
{
    let text = result_text(out, term_w, index, total, s, file);
    assert(text + Seq::empty() =~= text);
}

/// The text for a file is the progress bar with the number of the file and the errors before
/// it, if there is one, and the report.
pub proof fn law_each_file_has_its_text(
    out: OutputOpts,
    term_w: nat,
    index: nat,
    total: nat,
    s: Screen,
    file: Checked,
)
    ensures
        out.progress ==> result_text(out, term_w, index, total, s, file) == clear_text(s.last_lines)
            + progress_text(term_w, index + 1, total, s.err as nat, file.name@) + report_text(
            out,
            term_w,
            1,
            file,
        ),
        !out.progress ==> result_text(out, term_w, index, total, s, file) == report_text(
            out,
            term_w,
            s.last_lines,
            file,
        ),
{
}

/// The text of a run that checks one file at a time is that of its results in order.
pub proof fn law_sequential_run_shows_all_results(
    out: OutputOpts,
    term_w: nat,
    total: nat,
    files: Seq<Checked>,
)
    requires
        files.len() <= total,
    ensures
        sequential_text(out, term_w, total, files) == transcript(out, term_w, total, files)
            + if files.len() == total {
            finish_text(out)
        } else {
            Seq::empty()
        },
    decreases files.len(),
{
    if files.len() > 0 {
        let before = files.drop_last();
        law_sequential_run_shows_all_results(out, term_w, total, before);
        let text = result_text(
            out,
            term_w,
            before.len(),
            total,
            screen_after(out, before),
            files.last(),
        );
        assert(sequential_text(out, term_w, total, files) =~= transcript(
            out,
            term_w,
            total,
            before,
        ) + text + if files.len() == total {
            finish_text(out)
        } else {
            Seq::empty()
        });
    } else {
        assert(sequential_text(out, term_w, total, files) =~= transcript(
            out,
            term_w,
            total,
            files,
        ) + if files.len() == total {
            finish_text(out)
        } else {
            Seq::empty()
        });
    }
}

/// A run whose files are shared among workers writes, once it is over, what a run that checks
/// one file at a time writes for the same results, whatever the order in which the workers
/// hand them in.
pub proof fn law_output_does_not_depend_on_the_workers(
    out: OutputOpts,
    term_w: nat,
    results: Seq<Checked>,
    events: Seq<QueueEvent<Checked>>,
)
    requires
        tells(events, results),
        queue_after(results.len(), events).taken == results.len(),
    ensures
        parallel_text(out, term_w, results.len(), events, true) == sequential_text(
            out,
            term_w,
            results.len(),
            results,
        ),
{
    law_results_are_taken_in_order(results, events);
    assert(results.take(results.len() as int) =~= results);
    law_sequential_run_shows_all_results(out, term_w, results.len(), results);
}

/// At any time a run whose files are shared among workers has written the beginning of what a
/// run that checks one file at a time writes.
pub proof fn law_output_comes_in_file_order(
    out: OutputOpts,
    term_w: nat,
    results: Seq<Checked>,
    events: Seq<QueueEvent<Checked>>,
)
    requires
        tells(events, results),
    ensures
        parallel_text(out, term_w, results.len(), events, false).is_prefix_of(
            sequential_text(out, term_w, results.len(), results),
        ),
{
    let total = results.len();
    law_results_are_taken_in_order(results, events);
    let n = queue_after(total, events).taken;
    lemma_transcript_grows(out, term_w, total, results, n);
    law_sequential_run_shows_all_results(out, term_w, total, results);
    let text = transcript(out, term_w, total, results.take(n as int));
    assert(parallel_text(out, term_w, total, events, false) =~= text);
}

/// The text for the first files of a run is the beginning of the text for all of them.
proof fn lemma_transcript_grows(
    out: OutputOpts,
    term_w: nat,
    total: nat,
    files: Seq<Checked>,
    n: nat,
)
    requires
        n <= files.len(),
    ensures
        transcript(out, term_w, total, files.take(n as int)).is_prefix_of(
            transcript(out, term_w, total, files),
        ),
    decreases files.len(),
{
    if n == files.len() {
        assert(files.take(n as int) == files);
    } else {
        let before = files.drop_last();
        lemma_transcript_grows(out, term_w, total, before, n);
        assert(before.take(n as int) == files.take(n as int));
    }
}

} // verus!
