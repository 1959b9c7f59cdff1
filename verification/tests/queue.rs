use compare_dirs::queue::{DrainStep, WorkQueue, WorkerStep};

#[test]
fn files_are_handed_out_in_order() {
    let mut q: WorkQueue<char> = WorkQueue::new(3);
    assert_eq!(q.claim(), Some(0));
    assert_eq!(q.claim(), Some(1));
    assert_eq!(q.claim(), Some(2));
    assert_eq!(q.claim(), None);
    assert_eq!(q.claim(), None);
}

#[test]
fn results_wait_for_those_before_them() {
    let mut q: WorkQueue<char> = WorkQueue::new(3);
    assert_eq!(q.take(), None);
    q.store(2, 'c');
    assert_eq!(q.take(), None);
    q.store(0, 'a');
    assert_eq!(q.take(), Some('a'));
    assert_eq!(q.take(), None);
    q.store(1, 'b');
    assert_eq!(q.take(), Some('b'));
    assert_eq!(q.take(), Some('c'));
    assert_eq!(q.take(), None);
}

#[test]
fn workers_stop_wait_or_check() {
    let mut q: WorkQueue<char> = WorkQueue::new(1);
    assert_eq!(q.worker_step(true, false, false), WorkerStep::Exit);
    assert_eq!(q.worker_step(true, true, false), WorkerStep::Exit);
    assert_eq!(q.worker_step(false, true, false), WorkerStep::Wait);
    assert_eq!(q.worker_step(true, true, true), WorkerStep::Wait);
    assert_eq!(q.worker_step(true, false, true), WorkerStep::Check(0));
    assert_eq!(q.worker_step(false, false, false), WorkerStep::Exit);
}

#[test]
fn results_are_drained_in_order() {
    let mut q: WorkQueue<char> = WorkQueue::new(2);
    assert!(matches!(q.drain_step(false), DrainStep::Wait));
    q.store(1, 'b');
    assert!(matches!(q.drain_step(false), DrainStep::Wait));
    q.store(0, 'a');
    assert!(matches!(q.drain_step(true), DrainStep::Stop));
    assert!(matches!(q.drain_step(false), DrainStep::Show(0, 'a')));
    assert!(matches!(q.drain_step(false), DrainStep::Show(1, 'b')));
    assert!(matches!(q.drain_step(false), DrainStep::Finished));
    assert!(matches!(q.drain_step(true), DrainStep::Finished));
}
