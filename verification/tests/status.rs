use compare_dirs::status::Status;
use compare_dirs::style::{GREEN, RED};

const BADGE: &str = "\x1b[1;34m[\x1b[0m \x1b[1;32mok\x1b[0m \x1b[1;34m]\x1b[0m";

#[test]
fn fresh_status_wipes_the_line() {
    assert_eq!(Status::new().clear(), "\r\x1b[J");
}

#[test]
fn finished_line_is_left_alone() {
    let mut st = Status { last_lines: 2 };
    assert_eq!(st.finish_line(), "\n");
    assert_eq!(st.last_lines, 1);
}

#[test]
fn line_that_fits_is_padded() {
    let mut st = Status::new();
    let text = st.status_line(40, "*", GREEN, "Check a.txt", "ok", GREEN);
    let blanks = " ".repeat(21);
    assert_eq!(text, format!("\r\x1b[J\x1b[1;32m*\x1b[0m Check a.txt{blanks}{BADGE}"));
    assert_eq!(st.last_lines, 1);
}

#[test]
fn line_that_just_fits_has_two_blanks() {
    let mut st = Status::new();
    let text = st.status_line(21, "*", GREEN, "Check a.txt", "ok", GREEN);
    assert_eq!(text, format!("\r\x1b[J\x1b[1;32m*\x1b[0m Check a.txt  {BADGE}"));
    assert_eq!(st.last_lines, 1);
}

#[test]
fn status_is_wrapped_to_a_second_line() {
    for width in [20, 13] {
        let mut st = Status::new();
        let text = st.status_line(width, "*", GREEN, "Check a.txt", "ok", GREEN);
        assert_eq!(text, format!("\r\x1b[J\x1b[1;32m*\x1b[0m Check a.txt\n    {BADGE}"));
        assert_eq!(st.last_lines, 2);
        assert_eq!(st.clear(), "\x1b[1A\r\x1b[J");
    }
}

#[test]
fn message_is_cut_at_the_front() {
    let msg = format!("Check {}", "0123456789".repeat(4));
    let mut st = Status { last_lines: 2 };
    let text = st.status_line(30, "*", GREEN, &msg, "ok", GREEN);
    assert_eq!(
        text,
        format!("\x1b[1A\r\x1b[J\x1b[1;32m*\x1b[0m ...34567890123456789  {BADGE}")
    );
    assert_eq!(st.last_lines, 1);
}

#[test]
fn very_narrow_terminals_show_the_end_of_the_message() {
    let mut st = Status::new();
    let text = st.status_line(12, "*", GREEN, "Check a.txt", "ok", GREEN);
    assert_eq!(text, format!("\r\x1b[J\x1b[1;32m*\x1b[0m ...xt {BADGE}"));
    let text = st.status_line(0, "*", GREEN, "Check a.txt", "ok", GREEN);
    assert_eq!(text, format!("\r\x1b[J\x1b[1;32m*\x1b[0m ...xt {BADGE}"));
    let text = st.status_line(3, "*", GREEN, "abcde", "ok", GREEN);
    assert_eq!(text, format!("\r\x1b[J\x1b[1;32m*\x1b[0m abcde {BADGE}"));
}

#[test]
fn characters_are_counted_and_not_bytes() {
    let mut st = Status::new();
    let text = st.status_line(21, "*", GREEN, "Check ä.txt", "ok", GREEN);
    assert_eq!(text, format!("\r\x1b[J\x1b[1;32m*\x1b[0m Check ä.txt  {BADGE}"));
}

#[test]
fn colors_of_prefix_and_status_may_differ() {
    let mut st = Status::new();
    let text = st.status_line(20, "*", RED, "x", "!!", GREEN);
    assert!(text.starts_with("\r\x1b[J\x1b[1;31m*\x1b[0m x"));
    assert!(text.ends_with("\x1b[1;34m[\x1b[0m \x1b[1;32m!!\x1b[0m \x1b[1;34m]\x1b[0m"));
}

fn progress(width: u16, index: usize, total: usize, err: usize, file: &str) -> String {
    Status::new().progress_line(width, index, total, err, file)
}

fn bar(counter: &str, bar: &str, pct: &str, color: &str, err: usize, name: &str) -> String {
    format!(
        "\r\x1b[J\x1b[1;32m*\x1b[0m Checking {counter} \x1b[1;34m[\x1b[0m\x1b[1;36m{bar}\x1b[0m\x1b[1;34m]\x1b[0m {pct} {color}err:{err}\x1b[0m  {name}"
    )
}

#[test]
fn progress_bar_of_a_wide_terminal() {
    let expected = bar(
        "(1 of 4)",
        &("#".repeat(10) + &"-".repeat(30)),
        " 25%",
        GREEN,
        0,
        "a.txt",
    );
    assert_eq!(progress(80, 1, 4, 0, "a.txt"), expected);
}

#[test]
fn progress_bar_shows_errors_in_red() {
    let expected = bar("(4 of 4)", &"#".repeat(40), "100%", RED, 2, "a.txt");
    assert_eq!(progress(80, 4, 4, 2, "a.txt"), expected);
}

#[test]
fn progress_bar_cuts_the_name_at_the_front() {
    let expected = bar(
        "(2 of 4)",
        &("#".repeat(20) + &"-".repeat(20)),
        " 50%",
        GREEN,
        0,
        "...xt",
    );
    assert_eq!(progress(80, 2, 4, 0, "directory/file.txt"), expected);
}

#[test]
fn progress_bar_of_a_narrow_terminal() {
    let expected = bar("(1 of 3)", "###-------", " 33%", GREEN, 0, "directory/file.txt");
    assert_eq!(progress(20, 1, 3, 0, "directory/file.txt"), expected);
    assert_eq!(progress(44, 1, 3, 0, "directory/file.txt"), expected);
    let expected = bar("(1 of 3)", "###-------", " 33%", GREEN, 0, "");
    assert_eq!(progress(45, 1, 3, 0, "directory/file.txt"), expected);
    let expected = bar("(1 of 2)", "#####-----", " 50%", GREEN, 0, "abc");
    assert_eq!(progress(40, 1, 2, 0, "abc"), expected);
    let expected = bar("(1 of 3)", "####--------", " 33%", GREEN, 0, "");
    assert_eq!(progress(47, 1, 3, 0, "directory/file.txt"), expected);
    assert_eq!(progress(47, 1, 3, 0, ""), expected);
}

fn seen(text: &str) -> String {
    let mut out = String::new();
    let mut rest = text.trim_start_matches("\r\x1b[J");
    while let Some(i) = rest.find('\x1b') {
        out.push_str(&rest[..i]);
        let end = rest[i..].find('m').unwrap();
        rest = &rest[i + end + 1..];
    }
    out + rest
}

#[test]
fn progress_line_is_one_line() {
    let name = "a".repeat(50);
    let line = seen(&progress(80, 1, 2, 0, &name));
    assert_eq!(
        line,
        format!("* Checking (1 of 2) [{}{}]  50% err:0  ...aa", "#".repeat(20), "-".repeat(20))
    );
    assert_eq!(line.chars().count(), 80);
    for width in 45..200 {
        for total in [1, 2] {
            for file in ["", "abc", "abcd", "abcdef", &name] {
                assert!(seen(&progress(width, 1, total, 0, file)).chars().count() <= width.into());
            }
        }
    }
}

#[test]
fn name_is_shown_in_full_if_there_is_room() {
    let name = "a".repeat(50);
    assert!(progress(125, 1, 2, 0, &name).ends_with(&format!("\x1b[0m  {name}")));
    assert!(progress(124, 1, 2, 0, &name).ends_with(&format!("\x1b[0m  ...{}", "a".repeat(46))));
    assert!(progress(79, 1, 2, 0, &name).ends_with("\x1b[0m  ...a"));
    assert!(progress(78, 1, 2, 0, &name).ends_with("\x1b[0m  "));
    assert!(progress(78, 1, 2, 0, "abc").ends_with("\x1b[0m  abc"));
}

#[test]
fn progress_bar_of_nothing_is_full() {
    let expected = bar("(0 of 0)", &"#".repeat(40), "100%", GREEN, 0, "");
    assert_eq!(progress(200, 0, 0, 0, ""), expected);
}

#[test]
fn progress_never_exceeds_the_whole() {
    assert_eq!(progress(80, 9, 4, 0, "x"), progress(80, 4, 4, 0, "x"));
}

#[test]
fn progress_wipes_a_status_of_two_lines() {
    let mut st = Status { last_lines: 2 };
    let text = st.progress_line(80, 1, 1, 0, "x");
    assert!(text.starts_with("\x1b[1A\r\x1b[J\x1b[1;32m*"));
    assert_eq!(st.last_lines, 1);
}
