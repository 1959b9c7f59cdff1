use compare_dirs::check::{Check, CheckAction, CheckEvent, CheckNext, CheckResult};
use compare_dirs::search::FindResult;
use compare_dirs::style::{CYAN, WHITE};

fn check(find_renamed: bool, live_ui: bool) -> Check {
    Check { find_renamed, live_ui, name: "a/b.txt".to_string() }
}

fn quiet(action: &CheckAction) -> bool {
    !action.stop_spinner && action.start_spinner.is_none()
}

#[test]
fn file_with_a_counterpart_is_compared() {
    let c = check(true, false);
    let begun = c.check_one(CheckEvent::Begun);
    assert!(quiet(&begun) && matches!(begun.next, CheckNext::Probe));
    let probed = c.check_one(CheckEvent::Probed(true));
    assert!(quiet(&probed) && matches!(probed.next, CheckNext::Compare));
    let same = c.check_one(CheckEvent::Compared(true));
    assert!(quiet(&same) && matches!(same.next, CheckNext::Done(CheckResult::Same)));
    let differ = c.check_one(CheckEvent::Compared(false));
    assert!(matches!(differ.next, CheckNext::Done(CheckResult::Differ)));
}

#[test]
fn file_without_a_counterpart_is_missing() {
    let action = check(false, false).check_one(CheckEvent::Probed(false));
    assert!(matches!(action.next, CheckNext::Done(CheckResult::Missing)));
}

#[test]
fn file_without_a_counterpart_is_searched_for() {
    let c = check(true, false);
    assert!(matches!(c.check_one(CheckEvent::Probed(false)).next, CheckNext::Search));
    match c.check_one(CheckEvent::Searched(FindResult::Found("d/x".to_string()))).next {
        CheckNext::Done(CheckResult::Renamed(path)) => assert_eq!(path, "d/x"),
        other => panic!("{other:?}"),
    }
    let none = c.check_one(CheckEvent::Searched(FindResult::NotFound)).next;
    assert!(matches!(none, CheckNext::Done(CheckResult::RenamedNotFound)));
    let late = c.check_one(CheckEvent::Searched(FindResult::TimedOut)).next;
    assert!(matches!(late, CheckNext::Done(CheckResult::RenamedTimedOut)));
}

#[test]
fn spinners_follow_each_other() {
    let c = check(true, true);
    let begun = c.check_one(CheckEvent::Begun);
    assert!(!begun.stop_spinner);
    let spinner = begun.start_spinner.unwrap();
    assert_eq!(spinner.msg, "Checking a/b.txt");
    assert_eq!(spinner.color, WHITE);
    assert!(!spinner.finding);

    let probed = c.check_one(CheckEvent::Probed(false));
    assert!(probed.stop_spinner);
    let spinner = probed.start_spinner.unwrap();
    assert_eq!(spinner.msg, "Find a/b.txt");
    assert_eq!(spinner.color, CYAN);
    assert!(spinner.finding);

    let searched = c.check_one(CheckEvent::Searched(FindResult::NotFound));
    assert!(searched.stop_spinner && searched.start_spinner.is_none());
}

#[test]
fn spinner_turns_until_the_files_are_compared() {
    let c = check(false, true);
    assert!(quiet(&c.check_one(CheckEvent::Probed(true))));
    assert!(c.check_one(CheckEvent::Compared(true)).stop_spinner);
    assert!(c.check_one(CheckEvent::Probed(false)).stop_spinner);
}
