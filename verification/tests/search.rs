use compare_dirs::algo::HashAlgo;
use compare_dirs::compare::CompareOpts;
use compare_dirs::search::{FindResult, RenameSearch, SearchAction, SearchEvent};

fn search(hash_mode: bool, max_find_time: u64) -> RenameSearch {
    let opts = CompareOpts { hash_mode, algo: HashAlgo::Md5, min_size: 0, max_size: 0 };
    RenameSearch::new(&opts, max_find_time)
}

fn entry(elapsed: u64, interrupted: bool, is_file: bool) -> SearchEvent {
    SearchEvent::Entry { elapsed, interrupted, is_file }
}

#[test]
fn search_by_bytes_finds_the_first_match() {
    let mut s = search(false, 0);
    assert!(matches!(s.find_renamed(SearchEvent::Begun), SearchAction::NextEntry));
    assert!(matches!(s.find_renamed(entry(0, false, false)), SearchAction::NextEntry));
    assert!(matches!(s.find_renamed(entry(0, false, true)), SearchAction::CompareCandidate));
    let miss = SearchEvent::CandidateCompared("d/a".to_string(), Some(false));
    assert!(matches!(s.find_renamed(miss), SearchAction::NextEntry));
    let unknown = SearchEvent::CandidateCompared("d/b".to_string(), None);
    assert!(matches!(s.find_renamed(unknown), SearchAction::NextEntry));
    let hit = SearchEvent::CandidateCompared("d/c".to_string(), Some(true));
    match s.find_renamed(hit) {
        SearchAction::Done(FindResult::Found(path)) => assert_eq!(path, "d/c"),
        other => panic!("{other:?}"),
    }
}

#[test]
fn search_by_digest_finds_the_first_match() {
    let mut s = search(true, 0);
    assert!(matches!(s.find_renamed(SearchEvent::Begun), SearchAction::HashTarget));
    let target = SearchEvent::TargetHashed(Some("0a".to_string()));
    assert!(matches!(s.find_renamed(target), SearchAction::NextEntry));
    assert!(matches!(s.find_renamed(entry(0, false, true)), SearchAction::HashCandidate));
    let miss = SearchEvent::CandidateHashed("d/a".to_string(), Some("0b".to_string()));
    assert!(matches!(s.find_renamed(miss), SearchAction::NextEntry));
    let unreadable = SearchEvent::CandidateHashed("d/b".to_string(), None);
    assert!(matches!(s.find_renamed(unreadable), SearchAction::NextEntry));
    let hit = SearchEvent::CandidateHashed("d/c".to_string(), Some("0a".to_string()));
    match s.find_renamed(hit) {
        SearchAction::Done(FindResult::Found(path)) => assert_eq!(path, "d/c"),
        other => panic!("{other:?}"),
    }
}

#[test]
fn search_for_an_unreadable_file_finds_nothing() {
    let mut s = search(true, 0);
    let action = s.find_renamed(SearchEvent::TargetHashed(None));
    assert!(matches!(action, SearchAction::Done(FindResult::NotFound)));
}

#[test]
fn search_without_a_match_finds_nothing() {
    let mut s = search(false, 0);
    let action = s.find_renamed(SearchEvent::Exhausted);
    assert!(matches!(action, SearchAction::Done(FindResult::NotFound)));
}

#[test]
fn search_stops_when_its_time_is_up() {
    let mut s = search(false, 5);
    assert!(matches!(s.find_renamed(entry(4, false, true)), SearchAction::CompareCandidate));
    let late = s.find_renamed(entry(5, false, true));
    assert!(matches!(late, SearchAction::Done(FindResult::TimedOut)));
    let late_and_interrupted = s.find_renamed(entry(6, true, false));
    assert!(matches!(late_and_interrupted, SearchAction::Done(FindResult::TimedOut)));
    let mut unlimited = search(false, 0);
    let action = unlimited.find_renamed(entry(u64::MAX, false, true));
    assert!(matches!(action, SearchAction::CompareCandidate));
}

#[test]
fn search_stops_at_an_interrupt() {
    let mut s = search(false, 5);
    let action = s.find_renamed(entry(0, true, true));
    assert!(matches!(action, SearchAction::Done(FindResult::NotFound)));
}
