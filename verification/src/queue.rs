//! Sharing the files of a run among workers, and taking the results in order.

use vstd::prelude::*;

verus! {

/// The files of a run by their index: which are handed out, which results are in, and which
/// results were taken.
#[derive(Debug)]
pub struct WorkQueue<R> {
    /// The results that are in and were not taken.
    pub slots: Vec<Option<R>>,
    /// The next file to hand out.
    pub next: usize,
    /// The next result to take.
    pub taken: usize,
}

/// What a worker does next.
#[derive(Debug, PartialEq, Eq, Structural)]
pub enum WorkerStep {
    /// There is nothing left to do.
    Exit,
    /// The run is paused: wait, and ask again.
    Wait,
    /// Check the file at this index.
    Check(usize),
}

/// What the thread that shows the results does next.
#[derive(Debug)]
pub enum DrainStep<R> {
    /// The run was interrupted: no more results are shown.
    Stop,
    /// All results were shown.
    Finished,
    /// The next result is not in: wait, and ask again.
    Wait,
    /// Show this result of the file at this index.
    Show(usize, R),
}

/// A queue as a mathematical object.
#[verifier::ext_equal]
pub struct QueueView<R> {
    pub slots: Seq<Option<R>>,
    pub next: nat,
    pub taken: nat,
}

/// A queue of `total` files before anything happened.
pub open spec fn fresh<R>(total: nat) -> QueueView<R> {
    QueueView { slots: Seq::new(total, |i: int| None), next: 0, taken: 0 }
}

/// What is done to a queue.
pub enum QueueEvent<R> {
    /// A worker asks for a file.
    Claim,
    /// A worker hands in the result of the file at this index.
    Store(nat, R),
    /// The next result is asked for.
    Take,
}

impl<R> QueueView<R> {
    /// The file that a worker gets that asks for one.
    pub open spec fn claimed(self) -> Option<nat> {
        if self.next < self.slots.len() {
            Some(self.next)
        } else {
            None
        }
    }

    /// The result that is taken if the next one is asked for.
    pub open spec fn ready(self) -> Option<R> {
        if self.taken < self.slots.len() {
            self.slots[self.taken as int]
        } else {
            None
        }
    }

    /// The queue after an event.
    pub open spec fn after(self, event: QueueEvent<R>) -> Self {
        match event {
            QueueEvent::Claim => if self.claimed() is Some {
                QueueView { next: self.next + 1, ..self }
            } else {
                self
            },
            QueueEvent::Store(i, r) => if i < self.slots.len() {
                QueueView { slots: self.slots.update(i as int, Some(r)), ..self }
            } else {
                self
            },
            QueueEvent::Take => if self.ready() is Some {
                QueueView {
                    slots: self.slots.update(self.taken as int, None),
                    taken: self.taken + 1,
                    ..self
                }
            } else {
                self
            },
        }
    }
}

impl<R> View for WorkQueue<R> {
    type V = QueueView<R>;

    open spec fn view(&self) -> QueueView<R> {
        QueueView { slots: self.slots@, next: self.next as nat, taken: self.taken as nat }
    }
}

impl<R> WorkQueue<R> {
    /// No more is handed out or taken than there is.
    pub open spec fn wf(self) -> bool {
        &&& self.next <= self.slots@.len()
        &&& self.taken <= self.slots@.len()
    }

    /// A queue of `total` files.
    pub fn new(total: usize) -> (r: Self)
        ensures
            r.wf(),
            r@ == fresh::<R>(total as nat),
            r.next == 0,
            r.taken == 0,
            r.slots@.len() == total,
            forall|i: int| 0 <= i < total ==> (#[trigger] r.slots@[i]) is None,
    {
        let mut slots: Vec<Option<R>> = Vec::new();
        let mut i: usize = 0;
        while i < total
            invariant
                i <= total,
                slots@ == Seq::new(i as nat, |k: int| None::<R>),
            decreases total - i,
        {
            slots.push(None);
            i = i + 1;
            assert(slots@ =~= Seq::new(i as nat, |k: int| None::<R>));
        }
        let r = WorkQueue { slots, next: 0, taken: 0 };
        assert(r@ =~= fresh::<R>(total as nat));
        r
    }

    /// Hands out the next file, if one is left.
    pub fn claim(&mut self) -> (r: Option<usize>)
        ensures
            old(self).wf() ==> final(self).wf(),
            final(self)@ == old(self)@.after(QueueEvent::Claim),
            match r {
                Some(i) => old(self)@.claimed() == Some(i as nat),
                None => old(self)@.claimed() is None,
            },
            final(self).slots@ == old(self).slots@,
            final(self).taken == old(self).taken,
            if old(self).next < old(self).slots@.len() {
                r == Some(old(self).next) && final(self).next == old(self).next + 1
            } else {
                r is None && final(self).next == old(self).next
            },
    {
        if self.next < self.slots.len() {
            let i = self.next;
            self.next = i + 1;
            Some(i)
        } else {
            None
        }
    }

    /// Takes in the result of the file at `index`.
    pub fn store(&mut self, index: usize, result: R)
        requires
            index < old(self)@.slots.len(),
        ensures
            old(self).wf() ==> final(self).wf(),
            final(self)@ == old(self)@.after(QueueEvent::Store(index as nat, result)),
            final(self).slots@ == old(self).slots@.update(index as int, Some(result)),
            final(self).next == old(self).next,
            final(self).taken == old(self).taken,
    {
        self.slots.set(index, Some(result));
    }

    /// Takes the next result in the order of the files, if it is in.
    pub fn take(&mut self) -> (r: Option<R>)
        ensures
            old(self).wf() ==> final(self).wf(),
            r == old(self)@.ready(),
            final(self)@ == old(self)@.after(QueueEvent::Take),
            final(self).next == old(self).next,
            if old(self).taken < old(self).slots@.len() && old(self).slots@[old(self).taken as int]
                is Some {
                &&& r == old(self).slots@[old(self).taken as int]
                &&& final(self).taken == old(self).taken + 1
                &&& final(self).slots@ == old(self).slots@.update(old(self).taken as int, None)
            } else {
                &&& r is None
                &&& final(self).taken == old(self).taken
                &&& final(self).slots@ == old(self).slots@
            },
    {
        if self.taken < self.slots.len() {
            let i = self.taken;
            let r = self.slots[i].take();
            if r.is_some() {
                self.taken = i + 1;
            }
            assert(r is None ==> self.slots@ =~= old(self).slots@);
            r
        } else {
            None
        }
    }

    /// Decides what a worker does next. `resumed` says that it was told to wait before.
    pub fn worker_step(&mut self, interrupted: bool, paused: bool, resumed: bool) -> (r: WorkerStep)
        ensures
            old(self).wf() ==> final(self).wf(),
            if interrupted && !resumed {
                &&& r is Exit
                &&& final(self)@ == old(self)@
            } else if paused {
                &&& r is Wait
                &&& final(self)@ == old(self)@
            } else {
                &&& r == match old(self)@.claimed() {
                    Some(i) => WorkerStep::Check(i as usize),
                    None => WorkerStep::Exit,
                }
                &&& final(self)@ == old(self)@.after(QueueEvent::Claim)
            },
            final(self).slots@ == old(self).slots@,
            final(self).taken == old(self).taken,
            match r {
                WorkerStep::Wait => paused && (!interrupted || resumed) && final(self).next == old(
                    self,
                ).next,
                WorkerStep::Check(i) => {
                    &&& !paused
                    &&& !interrupted || resumed
                    &&& i == old(self).next
                    &&& i < old(self).slots@.len()
                    &&& final(self).next == i + 1
                },
                WorkerStep::Exit => {
                    &&& interrupted && !resumed || !paused && old(self).next >= old(
                        self,
                    ).slots@.len()
                    &&& final(self).next == old(self).next
                },
            },
    {
        if interrupted && !resumed {
            return WorkerStep::Exit;
        }
        if paused {
            return WorkerStep::Wait;
        }
        match self.claim() {
            Some(i) => WorkerStep::Check(i),
            None => WorkerStep::Exit,
        }
    }

    /// Decides what the thread that shows the results does next.
    pub fn drain_step(&mut self, interrupted: bool) -> (r: DrainStep<R>)
        ensures
            old(self).wf() ==> final(self).wf(),
            if old(self)@.taken >= old(self)@.slots.len() {
                &&& r is Finished
                &&& final(self)@ == old(self)@
            } else if interrupted {
                &&& r is Stop
                &&& final(self)@ == old(self)@
            } else {
                &&& r == match old(self)@.ready() {
                    Some(result) => DrainStep::Show(old(self).taken, result),
                    None => DrainStep::Wait,
                }
                &&& final(self)@ == old(self)@.after(QueueEvent::Take)
            },
            final(self).next == old(self).next,
            match r {
                DrainStep::Finished => old(self).taken >= old(self).slots@.len(),
                DrainStep::Stop => interrupted && old(self).taken < old(self).slots@.len(),
                DrainStep::Wait => {
                    &&& !interrupted
                    &&& old(self).taken < old(self).slots@.len()
                    &&& old(self).slots@[old(self).taken as int] is None
                },
                DrainStep::Show(i, result) => {
                    &&& !interrupted
                    &&& i == old(self).taken
                    &&& i < old(self).slots@.len()
                    &&& old(self).slots@[i as int] == Some(result)
                },
            },
            if r is Show {
                &&& final(self).taken == old(self).taken + 1
                &&& final(self).slots@ == old(self).slots@.update(old(self).taken as int, None)
            } else {
                &&& final(self).taken == old(self).taken
                &&& final(self).slots@ == old(self).slots@
            },
    {
        if self.taken >= self.slots.len() {
            return DrainStep::Finished;
        }
        if interrupted {
            return DrainStep::Stop;
        }
        let index = self.taken;
        match self.take() {
            Some(result) => DrainStep::Show(index, result),
            None => DrainStep::Wait,
        }
    }
}

/// The queue after a history of events.
pub open spec fn queue_after<R>(total: nat, events: Seq<QueueEvent<R>>) -> QueueView<R>
    decreases events.len(),
{
    if events.len() == 0 {
        fresh(total)
    } else {
        queue_after(total, events.drop_last()).after(events.last())
    }
}

/// The results that were taken over a history, in the order in which they were taken.
pub open spec fn taken_results<R>(total: nat, events: Seq<QueueEvent<R>>) -> Seq<R>
    decreases events.len(),
{
    if events.len() == 0 {
        Seq::empty()
    } else {
        let before = taken_results(total, events.drop_last());
        let ready = queue_after(total, events.drop_last()).ready();
        if events.last() is Take && ready is Some {
            before.push(ready->0)
        } else {
            before
        }
    }
}

/// The files that were handed out over a history, in the order in which they were.
pub open spec fn claimed_files<R>(total: nat, events: Seq<QueueEvent<R>>) -> Seq<nat>
    decreases events.len(),
{
    if events.len() == 0 {
        Seq::empty()
    } else {
        let before = claimed_files(total, events.drop_last());
        let claimed = queue_after(total, events.drop_last()).claimed();
        if events.last() is Claim && claimed is Some {
            before.push(claimed->0)
        } else {
            before
        }
    }
}

/// Every result that is handed in over a history is the one that `results` holds for its file.
pub open spec fn tells<R>(events: Seq<QueueEvent<R>>, results: Seq<R>) -> bool {
    forall|k: int|
        0 <= k < events.len() ==> ((#[trigger] events[k]) matches QueueEvent::Store(i, r)
            ==> i < results.len() && r == results[i as int])
}

/// No file is handed out twice, and none is left out: the files are handed out in order.
pub proof fn law_every_file_is_handed_out_once<R>(total: nat, events: Seq<QueueEvent<R>>)
    ensures
        queue_after(total, events).next <= total,
        claimed_files(total, events) == Seq::new(
            queue_after(total, events).next,
            |i: int| i as nat,
        ),
    decreases events.len(),
{
    lemma_queue_shape(total, events);
    if events.len() > 0 {
        law_every_file_is_handed_out_once(total, events.drop_last());
    }
    assert(claimed_files(total, events) =~= Seq::new(
        queue_after(total, events).next,
        |i: int| i as nat,
    ));
}

/// A worker is refused a file if and only if all files were handed out, and otherwise gets the
/// first that was not.
pub proof fn law_worker_is_refused_only_at_the_end<R>(total: nat, events: Seq<QueueEvent<R>>)
    ensures
        queue_after(total, events).claimed() is None <==> queue_after(total, events).next == total,
        queue_after(total, events).next < total ==> queue_after(total, events).claimed() == Some(
            queue_after(total, events).next,
        ),
{
    lemma_queue_shape(total, events);
}

/// As many files are handed out as were asked for, up to all of them; once they were asked for
/// often enough, all were handed out, from the first to the last.
pub proof fn law_as_many_are_handed_out_as_asked_for<R>(total: nat, events: Seq<QueueEvent<R>>)
    ensures
        ({
            let asked = events.filter(|e: QueueEvent<R>| e is Claim).len();
            &&& asked < total ==> claimed_files(total, events) == Seq::new(asked, |i: int| i as nat)
            &&& asked >= total ==> claimed_files(total, events) == Seq::new(
                total,
                |i: int| i as nat,
            )
        }),
{
    lemma_next_counts_claims(total, events);
    law_every_file_is_handed_out_once(total, events);
}

/// The next file to hand out is as far as files were asked for.
proof fn lemma_next_counts_claims<R>(total: nat, events: Seq<QueueEvent<R>>)
    ensures
        ({
            let asked = events.filter(|e: QueueEvent<R>| e is Claim).len();
            queue_after(total, events).next == if asked < total {
                asked
            } else {
                total
            }
        }),
    decreases events.len(),
{
    reveal(Seq::filter);
    lemma_queue_shape(total, events);
    if events.len() > 0 {
        lemma_queue_shape(total, events.drop_last());
        lemma_next_counts_claims(total, events.drop_last());
    }
}

/// Asking for results, so many times.
pub open spec fn takes<R>(n: nat) -> Seq<QueueEvent<R>> {
    Seq::new(n, |i: int| QueueEvent::Take)
}

/// Once the results of all files are in, in whatever order, asking for as many results gives
/// all of them, in the order of the files: none is lost, and none is waited for.
pub proof fn law_all_results_come_out<R>(results: Seq<R>, events: Seq<QueueEvent<R>>, n: nat)
    requires
        tells(events, results),
        n <= results.len(),
        forall|k: int| 0 <= k < events.len() ==> !(#[trigger] events[k] is Take),
        forall|i: int|
            0 <= i < results.len() ==> events.contains(
                QueueEvent::Store(i as nat, #[trigger] results[i]),
            ),
    ensures
        taken_results(results.len(), events + takes(n)) == results.take(n as int),
        queue_after(results.len(), events + takes(n)).taken == n,
        n < results.len() ==> queue_after(results.len(), events + takes(n)).ready() == Some(
            results[n as int],
        ),
    decreases n,
{
    let total = results.len();
    lemma_after_takes(results, events, n);
    if n < total {
        assert(queue_after(total, events + takes(n)).slots[n as int] == Some(results[n as int]));
    }
    if n == 0 {
        assert(events + takes(0) =~= events);
        lemma_taken_count(total, events);
        assert(taken_results(total, events) =~= results.take(0));
    } else {
        let m = (n - 1) as nat;
        law_all_results_come_out(results, events, m);
        assert((events + takes::<R>(n)).drop_last() =~= events + takes(m));
        assert((events + takes::<R>(n)).last() == QueueEvent::<R>::Take);
        assert(taken_results(total, events + takes(n)) =~= results.take(n as int));
    }
}

/// Without a result being asked for, every result that was handed in is in.
proof fn lemma_stored<R>(results: Seq<R>, events: Seq<QueueEvent<R>>)
    requires
        tells(events, results),
        forall|k: int| 0 <= k < events.len() ==> !(#[trigger] events[k] is Take),
    ensures
        queue_after(results.len(), events).taken == 0,
        forall|k: int|
            0 <= k < events.len() ==> ((#[trigger] events[k]) matches QueueEvent::Store(i, r)
                ==> queue_after(results.len(), events).slots[i as int] == Some(r)),
    decreases events.len(),
{
    let total = results.len();
    lemma_queue_shape(total, events);
    if events.len() > 0 {
        let before = events.drop_last();
        assert forall|k: int| 0 <= k < before.len() implies before[k] == #[trigger] events[k] by {}
        assert forall|k: int| 0 <= k < before.len() implies ((
        #[trigger] before[k]) matches QueueEvent::Store(i, r) ==> i < results.len() && r
            == results[i as int]) by {
            assert(before[k] == events[k]);
        }
        lemma_stored(results, before);
        lemma_queue_shape(total, before);
        let last = events[events.len() - 1];
        assert(!(last is Take));
        assert forall|k: int| 0 <= k < events.len() implies ((
        #[trigger] events[k]) matches QueueEvent::Store(i, r) ==> queue_after(
            total,
            events,
        ).slots[i as int] == Some(r)) by {
            if k < before.len() {
                assert(before[k] == events[k]);
            }
        }
    }
}

/// The queue after all results are in and the first were taken.
proof fn lemma_after_takes<R>(results: Seq<R>, events: Seq<QueueEvent<R>>, n: nat)
    requires
        tells(events, results),
        n <= results.len(),
        forall|k: int| 0 <= k < events.len() ==> !(#[trigger] events[k] is Take),
        forall|i: int|
            0 <= i < results.len() ==> events.contains(
                QueueEvent::Store(i as nat, #[trigger] results[i]),
            ),
    ensures
        queue_after(results.len(), events + takes(n)).taken == n,
        queue_after(results.len(), events + takes(n)).slots.len() == results.len(),
        forall|i: int|
            n <= i < results.len() ==> #[trigger] queue_after(
                results.len(),
                events + takes(n),
            ).slots[i] == Some(results[i]),
    decreases n,
{
    let total = results.len();
    lemma_queue_shape(total, events + takes(n));
    if n == 0 {
        assert(events + takes(0) =~= events);
        lemma_stored(results, events);
        assert forall|i: int| 0 <= i < total implies #[trigger] queue_after(
            total,
            events,
        ).slots[i] == Some(results[i]) by {
            assert(events.contains(QueueEvent::Store(i as nat, results[i])));
            let k = choose|k: int|
                0 <= k < events.len() && events[k] == QueueEvent::Store(i as nat, results[i]);
            assert(events[k] is Store);
        }
    } else {
        let m = (n - 1) as nat;
        lemma_after_takes(results, events, m);
        assert((events + takes::<R>(n)).drop_last() =~= events + takes(m));
        assert((events + takes::<R>(n)).last() == QueueEvent::<R>::Take);
        assert(queue_after(total, events + takes(m)).slots[m as int] == Some(results[m as int]));
    }
}

/// A queue keeps its length, and never hands out or takes more than there is.
pub proof fn lemma_queue_shape<R>(total: nat, events: Seq<QueueEvent<R>>)
    ensures
        queue_after(total, events).slots.len() == total,
        queue_after(total, events).next <= total,
        queue_after(total, events).taken <= total,
    decreases events.len(),
{
    if events.len() > 0 {
        lemma_queue_shape(total, events.drop_last());
    }
}

/// As many results were taken as the queue counts.
pub proof fn lemma_taken_count<R>(total: nat, events: Seq<QueueEvent<R>>)
    ensures
        taken_results(total, events).len() == queue_after(total, events).taken,
    decreases events.len(),
{
    if events.len() > 0 {
        lemma_taken_count(total, events.drop_last());
    }
}

/// The results are taken in the order of the files, whatever the order in which they are
/// handed in.
pub proof fn law_results_are_taken_in_order<R>(results: Seq<R>, events: Seq<QueueEvent<R>>)
    requires
        tells(events, results),
    ensures
        queue_after(results.len(), events).taken <= results.len(),
        taken_results(results.len(), events) == results.take(
            queue_after(results.len(), events).taken as int,
        ),
        forall|i: int|
            0 <= i < results.len() ==> (#[trigger] queue_after(
                results.len(),
                events,
            ).slots[i] matches Some(r) ==> r == results[i]),
    decreases events.len(),
{
    let total = results.len();
    lemma_queue_shape(total, events);
    if events.len() > 0 {
        let before = events.drop_last();
        assert forall|k: int| 0 <= k < before.len() implies ((
        #[trigger] before[k]) matches QueueEvent::Store(i, r) ==> i < results.len() && r
            == results[i as int]) by {
            assert(before[k] == events[k]);
        }
        law_results_are_taken_in_order(results, before);
        lemma_queue_shape(total, before);
        let last = events.last();
        assert(last == events[events.len() - 1]);
        let q = queue_after(total, before);
        if last is Take && q.ready() is Some {
            assert(q.slots[q.taken as int] == Some(results[q.taken as int]));
        }
        assert(taken_results(total, events) =~= results.take(
            queue_after(total, events).taken as int,
        ));
    } else {
        assert(taken_results(total, events) =~= results.take(0));
    }
}

/// Two runs over the same files that have shown all their results have shown the same, however
/// many workers there were and whichever was faster.
pub proof fn law_order_does_not_depend_on_the_workers<R>(
    results: Seq<R>,
    one: Seq<QueueEvent<R>>,
    other: Seq<QueueEvent<R>>,
)
    requires
        tells(one, results),
        tells(other, results),
        queue_after(results.len(), one).taken == results.len(),
        queue_after(results.len(), other).taken == results.len(),
    ensures
        taken_results(results.len(), one) == taken_results(results.len(), other),
        taken_results(results.len(), one) == results,
{
    law_results_are_taken_in_order(results, one);
    law_results_are_taken_in_order(results, other);
    assert(results.take(results.len() as int) =~= results);
}

} // verus!
