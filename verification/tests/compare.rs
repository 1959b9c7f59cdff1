use compare_dirs::algo::HashAlgo;
use compare_dirs::compare::{compare_files, compare_lengths, files_equal_bytes};
use compare_dirs::compare::{CompareAction, CompareEvent, CompareOpts};
use compare_dirs::hashing::hash_of;

fn opts(hash_mode: bool, min_size: u64, max_size: u64) -> CompareOpts {
    CompareOpts { hash_mode, algo: HashAlgo::Sha256, min_size, max_size }
}

fn sized(o: &CompareOpts, size: u64) -> CompareAction {
    compare_files(o, CompareEvent::Sized(Some(size)))
}

#[test]
fn files_are_compared_by_bytes_unless_digests_are_asked_for() {
    assert_eq!(compare_files(&opts(false, 0, 0), CompareEvent::Begun), CompareAction::AskBytes);
    assert_eq!(compare_files(&opts(true, 0, 0), CompareEvent::Begun), CompareAction::AskSize);
}

#[test]
fn size_bounds_choose_between_digests_and_bytes() {
    let o = opts(true, 10, 100);
    assert_eq!(sized(&o, 9), CompareAction::AskBytes);
    assert_eq!(sized(&o, 10), CompareAction::AskHashes);
    assert_eq!(sized(&o, 100), CompareAction::AskHashes);
    assert_eq!(sized(&o, 101), CompareAction::AskBytes);
    assert_eq!(sized(&opts(true, 0, 100), 0), CompareAction::AskHashes);
    assert_eq!(sized(&opts(true, 10, 0), u64::MAX), CompareAction::AskHashes);
    assert_eq!(sized(&opts(true, 0, 0), 5), CompareAction::AskHashes);
}

#[test]
fn unknown_size_counts_as_zero() {
    let small = compare_files(&opts(true, 1, 0), CompareEvent::Sized(None));
    assert_eq!(small, CompareAction::AskBytes);
    let any = compare_files(&opts(true, 0, 1), CompareEvent::Sized(None));
    assert_eq!(any, CompareAction::AskHashes);
}

#[test]
fn digests_decide() {
    let o = opts(true, 0, 0);
    let one = || Some(hash_of(b"one", HashAlgo::Sha256));
    let two = || Some(hash_of(b"two", HashAlgo::Sha256));
    let verdict = |a: Option<String>, b: Option<String>| compare_files(&o, CompareEvent::Hashed(a, b));
    assert_eq!(verdict(one(), one()), CompareAction::Verdict(true));
    assert_eq!(verdict(one(), two()), CompareAction::Verdict(false));
    assert_eq!(verdict(None, one()), CompareAction::Verdict(false));
    assert_eq!(verdict(one(), None), CompareAction::Verdict(false));
    assert_eq!(verdict(None, None), CompareAction::Verdict(false));
    assert_eq!(verdict(Some(String::new()), Some(String::new())), CompareAction::Verdict(false));
}

#[test]
fn bytes_decide() {
    let o = opts(false, 0, 0);
    for (same, expected) in [(Some(true), true), (Some(false), false), (None, false)] {
        let action = compare_files(&o, CompareEvent::Compared(same));
        assert_eq!(action, CompareAction::Verdict(expected));
    }
}

#[test]
fn different_lengths_decide_at_once() {
    assert_eq!(compare_lengths(3, 4), Some(false));
    assert_eq!(compare_lengths(4, 3), Some(false));
    assert_eq!(compare_lengths(4, 4), None);
}

#[test]
fn reads_are_held_against_each_other() {
    assert_eq!(files_equal_bytes(b"abc", b"abc"), None);
    assert_eq!(files_equal_bytes(b"abc", b"abd"), Some(false));
    assert_eq!(files_equal_bytes(b"abc", b"ab"), Some(false));
    assert_eq!(files_equal_bytes(b"", b"a"), Some(false));
    assert_eq!(files_equal_bytes(b"", b""), Some(true));
}

fn read_all(first: &[&[u8]], second: &[&[u8]]) -> Option<bool> {
    for i in 0..first.len() {
        let verdict = files_equal_bytes(first[i], second[i]);
        if verdict.is_some() {
            return verdict;
        }
    }
    None
}

#[test]
fn contents_read_in_pieces_are_compared() {
    assert_eq!(read_all(&[b"ab", b"cd", b""], &[b"ab", b"cd", b""]), Some(true));
    assert_eq!(read_all(&[b"ab", b"cd", b""], &[b"ab", b"ce", b""]), Some(false));
    assert_eq!(read_all(&[b"ab", b"cd", b""], &[b"ab", b"", b""]), Some(false));
}

#[test]
fn a_copy_is_the_same_for_every_algorithm() {
    for algo in [HashAlgo::Md5, HashAlgo::Blake3, HashAlgo::Xxh3, HashAlgo::Crc32] {
        let o = CompareOpts { hash_mode: true, algo, min_size: 0, max_size: 0 };
        let digest = || Some(hash_of(b"content", algo));
        let action = compare_files(&o, CompareEvent::Hashed(digest(), digest()));
        assert_eq!(action, CompareAction::Verdict(true));
    }
}
