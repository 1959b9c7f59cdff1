use compare_dirs::check::Spinner;
use compare_dirs::spinner::{SpinnerState, SpinnerStep};
use compare_dirs::status::Status;
use compare_dirs::style::{CYAN, WHITE};

fn drawn(spinner: &mut SpinnerState) -> String {
    match spinner.tick(false, false) {
        SpinnerStep::Draw(text) => text,
        other => panic!("{other:?}"),
    }
}

#[test]
fn cursor_turns() {
    let mut spinner = SpinnerState::start_spinner(false);
    let seen: Vec<String> = (0..6).map(|_| drawn(&mut spinner)).collect();
    assert_eq!(seen, vec!["/", "-", "\\", "|", "/", "-"]);
}

#[test]
fn search_is_marked() {
    let mut spinner = SpinnerState::start_spinner(true);
    assert_eq!(drawn(&mut spinner), "finding /");
    assert_eq!(drawn(&mut spinner), "finding -");
}

#[test]
fn suspended_spinner_does_not_turn() {
    let mut spinner = SpinnerState::start_spinner(false);
    assert!(matches!(spinner.tick(false, true), SpinnerStep::Wait));
    assert_eq!(drawn(&mut spinner), "/");
}

#[test]
fn stopped_spinner_ends() {
    let mut spinner = SpinnerState::start_spinner(false);
    assert!(matches!(spinner.tick(true, false), SpinnerStep::Exit));
    assert!(matches!(spinner.tick(true, true), SpinnerStep::Exit));
}

#[test]
fn redraw_has_no_prefix() {
    let spinner = Spinner { msg: "Checking f".to_string(), color: WHITE, finding: false };
    let mut status = Status::new();
    assert_eq!(
        spinner.redraw(&mut status, 20, "/"),
        "\r\x1b[J\x1b[0m \x1b[0m Checking f   \x1b[1;34m[\x1b[0m \x1b[1;37m/\x1b[0m \x1b[1;34m]\x1b[0m"
    );
    assert_eq!(status.last_lines, 1);
}

#[test]
fn redraw_wipes_the_last_one() {
    let spinner = Spinner { msg: "Find f".to_string(), color: CYAN, finding: true };
    let mut status = Status::new();
    let first = spinner.redraw(&mut status, 10, "finding /");
    assert_eq!(
        first,
        "\r\x1b[J\x1b[0m \x1b[0m Find f\n    \x1b[1;34m[\x1b[0m \x1b[1;36mfinding /\x1b[0m \x1b[1;34m]\x1b[0m"
    );
    assert_eq!(status.last_lines, 2);
    assert!(spinner.redraw(&mut status, 80, "finding -").starts_with("\x1b[1A\r\x1b[J"));
}
