use compare_dirs::algo::HashAlgo;
use compare_dirs::options::{cache_enabled, cache_file_name, check_range, directory_not_found};
use compare_dirs::options::{dry_run, live_ui, parse_directories, parse_limits, resolve_jobs};
use compare_dirs::options::{select_algo, term_width, usage, Limits};
use compare_dirs::options::{EXIT_BAD_ARGUMENTS, EXIT_FINISHED};
use compare_dirs::report::OutputOpts;

fn text(s: &str) -> Option<String> {
    Some(s.to_string())
}

#[test]
fn bounds_are_read() {
    assert_eq!(
        parse_limits(&text("1MiB"), &text("500MB"), &text("5s")),
        Ok(Limits { min_size: 1_048_576, max_size: 500_000_000, max_find_time: 5 })
    );
    assert_eq!(
        parse_limits(&None, &None, &None),
        Ok(Limits { min_size: 0, max_size: 0, max_find_time: 0 })
    );
}

#[test]
fn first_wrong_bound_is_named() {
    assert_eq!(
        parse_limits(&text("x"), &text("y"), &text("z")),
        Err("Error: Invalid size format 'x'".to_string())
    );
    assert_eq!(
        parse_limits(&text("1"), &text("2q"), &text("z")),
        Err("Error: Unknown size suffix 'q' in argument '2q'".to_string())
    );
    assert_eq!(
        parse_limits(&text("3"), &text("2"), &text("z")),
        Err("Error: --min-size cannot be greater than --max-size".to_string())
    );
    assert_eq!(
        parse_limits(&text("1"), &text("2"), &text("z")),
        Err("Error: Invalid time format 'z'".to_string())
    );
}

#[test]
fn range_must_not_be_empty() {
    assert_eq!(check_range(5, 5), Ok(()));
    assert_eq!(check_range(5, 0), Ok(()));
    assert!(check_range(6, 5).is_err());
}

#[test]
fn two_directories_are_needed() {
    let one = vec!["a".to_string()];
    let two = vec!["a//".to_string(), "b".to_string()];
    let three = vec!["a".to_string(), "b".to_string(), "c".to_string()];
    assert_eq!(parse_directories(&vec![]), None);
    assert_eq!(parse_directories(&one), None);
    assert_eq!(parse_directories(&two), Some(("a".to_string(), "b".to_string())));
    assert_eq!(parse_directories(&three), None);
}

#[test]
fn missing_directory_is_named() {
    assert_eq!(directory_not_found("x/y"), "Directory not found: x/y");
}

#[test]
fn algorithms_are_selected_by_either_name() {
    assert_eq!(select_algo(true, "b3sum"), Ok(HashAlgo::Blake3));
    assert_eq!(select_algo(true, "blake3"), Ok(HashAlgo::Blake3));
    assert_eq!(select_algo(true, "sha256"), Ok(HashAlgo::Sha256));
}

#[test]
fn unknown_algorithm_is_refused() {
    assert_eq!(
        select_algo(true, "md6"),
        Err("Unsupported hash algorithm: md6\nAvailable: md5sum sha1sum sha256sum sha512sum sha3-256sum sha3-512sum b2sum b3sum xxh32sum xxh64sum xxh3sum crc32sum".to_string())
    );
}

#[test]
fn algorithm_does_not_count_without_digests() {
    assert_eq!(select_algo(false, "md6"), Ok(HashAlgo::Sha256));
    assert_eq!(select_algo(false, "md5sum"), Ok(HashAlgo::Sha256));
}

#[test]
fn number_of_workers() {
    assert_eq!(resolve_jobs(None, 8), 1);
    assert_eq!(resolve_jobs(Some(0), 8), 8);
    assert_eq!(resolve_jobs(Some(0), 0), 1);
    assert_eq!(resolve_jobs(Some(3), 8), 3);
}

#[test]
fn spinner_is_for_one_worker_and_plain_output() {
    let plain = OutputOpts { progress: false, quiet: false };
    assert!(live_ui(&plain, 1));
    assert!(!live_ui(&plain, 2));
    assert!(!live_ui(&OutputOpts { progress: true, quiet: false }, 1));
    assert!(!live_ui(&OutputOpts { progress: false, quiet: true }, 1));
}

#[test]
fn cache_is_for_searches_by_digest() {
    assert!(cache_enabled(true, true, false));
    assert!(!cache_enabled(true, true, true));
    assert!(!cache_enabled(false, true, false));
    assert!(!cache_enabled(true, false, false));
}

#[test]
fn cache_file_is_named_after_the_process() {
    assert_eq!(cache_file_name(4711), "compareDirs2-hashes-4711.tsv");
    assert_eq!(cache_file_name(0), "compareDirs2-hashes-0.tsv");
}

#[test]
fn unknown_width_is_eighty() {
    assert_eq!(term_width(None), 80);
    assert_eq!(term_width(Some(132)), 132);
}

#[test]
fn dry_run_lists_the_files() {
    assert_eq!(
        dry_run(&vec!["a".to_string(), "b/c".to_string()]),
        "\x1b[1;34m*\x1b[0m Dry run: 2 file(s) would be checked.\n    a\n    b/c\n"
    );
    assert_eq!(
        dry_run(&vec![]),
        "\x1b[1;34m*\x1b[0m Dry run: 0 file(s) would be checked.\n"
    );
}

#[test]
fn usage_names_the_program_and_every_option() {
    let help = usage("prog");
    assert!(help.starts_with("Usage: prog [OPTIONS] DIR1 DIR2\n\nOptions:\n  -x, --hash "));
    for option in [
        "--hash", "--algo", "--min-size", "--max-size", "--max-find-time", "--find-renamed",
        "--progress", "--jobs", "--quiet", "--verbose", "--follow-symlinks", "--exclude",
        "--dry-run", "--no-hash-cache", "--cache-file", "--keep-cache-file", "--stats", "--help",
        "--version",
    ] {
        assert!(help.contains(option));
    }
    assert!(help.ends_with("Show version information\n\n"));
}

#[test]
fn exit_statuses() {
    assert_eq!(EXIT_FINISHED, 0);
    assert_eq!(EXIT_BAD_ARGUMENTS, 1);
}
