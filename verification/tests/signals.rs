use compare_dirs::report::Tally;
use compare_dirs::signals::{install_interrupt_handler, install_suspend_handler};
use compare_dirs::signals::{InterruptAction, Signal, SuspendAction, SuspendHandler};
use compare_dirs::signals::EXIT_INTERRUPTED;

#[test]
fn first_interrupt_ends_with_a_summary() {
    let mut handler = install_interrupt_handler();
    let tally = Tally { ok: 1, err: 2, index: 3, total: 10 };
    match handler.on_interrupt(&tally) {
        InterruptAction::Summarize(text) => {
            assert_eq!(text, tally.interrupt_summary("Interrupted by user."));
        }
        other => panic!("{other:?}"),
    }
    assert!(handler.interrupted);
    assert_eq!(EXIT_INTERRUPTED, 130);
}

#[test]
fn second_interrupt_ends_at_once() {
    let mut handler = install_interrupt_handler();
    let tally = Tally::new(1);
    let _ = handler.on_interrupt(&tally);
    match handler.on_interrupt(&tally) {
        InterruptAction::ForceExit(text) => {
            assert_eq!(text, "\n\x1b[1;31m*\x1b[0m Force exit.\n");
        }
        other => panic!("{other:?}"),
    }
}

#[test]
fn run_is_suspended_and_resumed() {
    let mut handler = install_suspend_handler(true).unwrap();
    match handler.on_signal(Signal::Stop) {
        SuspendAction::Suspend(text) => assert_eq!(
            text,
            "\r\x1b[J\x1b[1;33m*\x1b[0m Paused (Ctrl+Z). Resume with 'fg'.\n"
        ),
        other => panic!("{other:?}"),
    }
    assert_eq!(handler, SuspendHandler { paused: true });
    assert!(matches!(handler.on_signal(Signal::Other), SuspendAction::Ignore));
    assert!(handler.paused);
    match handler.on_signal(Signal::Continue) {
        SuspendAction::Announce(text) => assert_eq!(text, "\x1b[1;32m*\x1b[0m Resumed.\n"),
        other => panic!("{other:?}"),
    }
    assert!(!handler.paused);
}

#[test]
fn run_that_is_not_suspended_is_not_resumed() {
    let mut handler = install_suspend_handler(true).unwrap();
    assert!(matches!(handler.on_signal(Signal::Continue), SuspendAction::Ignore));
    assert!(!handler.paused);
}

#[test]
fn run_goes_on_without_signals() {
    assert_eq!(install_suspend_handler(false), None);
}
