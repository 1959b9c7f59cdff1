//! Searching a directory for a file under another name.

use vstd::prelude::*;

use crate::compare::CompareOpts;
use crate::text::{same_text, text_view};

verus! {

/// How a search for a renamed file ended.
#[derive(Debug)]
pub enum FindResult {
    /// A file with the same content, by its path.
    Found(String),
    NotFound,
    /// The time allowed for the search ran out.
    TimedOut,
}

/// What happened during a search.
#[derive(Debug)]
pub enum SearchEvent {
    /// The search begins.
    Begun,
    /// The digest of the file that is searched for; `None` if it could not be read.
    TargetHashed(Option<String>),
    /// The walk came to an entry after `elapsed` whole seconds of searching.
    Entry { elapsed: u64, interrupted: bool, is_file: bool },
    /// The digest of the file at this path; `None` if it could not be read.
    CandidateHashed(String, Option<String>),
    /// Whether the file at this path has the bytes that are searched for; `None` if it could
    /// not be found out.
    CandidateCompared(String, Option<bool>),
    /// The walk has come to its end.
    Exhausted,
}

/// What to do next in a search.
#[derive(Debug)]
pub enum SearchAction {
    /// Compute the digest of the file that is searched for.
    HashTarget,
    /// Walk on to the next entry.
    NextEntry,
    /// Compute the digest of the file at this entry.
    HashCandidate,
    /// Compare the file at this entry byte for byte.
    CompareCandidate,
    /// The search is over.
    Done(FindResult),
}

/// A search for a file with the content of another one.
#[derive(Debug)]
pub struct RenameSearch {
    /// By digest instead of byte for byte.
    pub hash_mode: bool,
    /// The seconds that the search may take; zero is no limit.
    pub max_find_time: u64,
    /// The digest that is searched for, once it is known.
    pub target: String,
}

/// What to do at an entry.
pub open spec fn entry_action(
    hash_mode: bool,
    max_find_time: u64,
    elapsed: u64,
    interrupted: bool,
    is_file: bool,
) -> SearchAction {
    if max_find_time > 0 && elapsed >= max_find_time {
        SearchAction::Done(FindResult::TimedOut)
    } else if interrupted {
        SearchAction::Done(FindResult::NotFound)
    } else if !is_file {
        SearchAction::NextEntry
    } else if hash_mode {
        SearchAction::HashCandidate
    } else {
        SearchAction::CompareCandidate
    }
}

/// What to do once a candidate is known to be what is searched for, or not to be.
pub open spec fn candidate_action(path: String, hit: bool) -> SearchAction {
    if hit {
        SearchAction::Done(FindResult::Found(path))
    } else {
        SearchAction::NextEntry
    }
}

impl RenameSearch {
    /// What to do after an event.
    pub open spec fn action(self, event: SearchEvent) -> SearchAction {
        match event {
            SearchEvent::Begun => if self.hash_mode {
                SearchAction::HashTarget
            } else {
                SearchAction::NextEntry
            },
            SearchEvent::TargetHashed(digest) => if digest is Some {
                SearchAction::NextEntry
            } else {
                SearchAction::Done(FindResult::NotFound)
            },
            SearchEvent::Entry { elapsed, interrupted, is_file } => entry_action(
                self.hash_mode,
                self.max_find_time,
                elapsed,
                interrupted,
                is_file,
            ),
            SearchEvent::CandidateHashed(path, digest) => candidate_action(
                path,
                text_view(digest) == Some(self.target@),
            ),
            SearchEvent::CandidateCompared(path, same) => candidate_action(
                path,
                same == Some(true),
            ),
            SearchEvent::Exhausted => SearchAction::Done(FindResult::NotFound),
        }
    }

    /// What is searched for after an event.
    pub open spec fn next_target(self, event: SearchEvent) -> String {
        match event {
            SearchEvent::TargetHashed(Some(digest)) => digest,
            _ => self.target,
        }
    }

    /// A search that has not begun.
    pub fn new(opts: &CompareOpts, max_find_time: u64) -> (r: Self)
        ensures
            r.hash_mode == opts.hash_mode,
            r.max_find_time == max_find_time,
            r.target@ == Seq::<char>::empty(),
    {
        RenameSearch { hash_mode: opts.hash_mode, max_find_time, target: String::new() }
    }

    /// Decides the next step of the search.
    pub fn find_renamed(&mut self, event: SearchEvent) -> (r: SearchAction)
        ensures
            r == old(self).action(event),
            *final(self) == (RenameSearch { target: old(self).next_target(event), ..*old(self) }),
            final(self).hash_mode == old(self).hash_mode,
            final(self).max_find_time == old(self).max_find_time,
            match event {
                SearchEvent::Begun => if old(self).hash_mode {
                    r is HashTarget
                } else {
                    r is NextEntry
                },
                SearchEvent::TargetHashed(Some(_)) => r is NextEntry,
                SearchEvent::TargetHashed(None) => r == SearchAction::Done(FindResult::NotFound),
                SearchEvent::Entry { elapsed, interrupted, is_file } => if 0 < old(
                    self,
                ).max_find_time <= elapsed {
                    r == SearchAction::Done(FindResult::TimedOut)
                } else if interrupted {
                    r == SearchAction::Done(FindResult::NotFound)
                } else if !is_file {
                    r is NextEntry
                } else if old(self).hash_mode {
                    r is HashCandidate
                } else {
                    r is CompareCandidate
                },
                SearchEvent::CandidateHashed(path, digest) => if digest is Some && digest->0@
                    == old(self).target@ {
                    r == SearchAction::Done(FindResult::Found(path))
                } else {
                    r is NextEntry
                },
                SearchEvent::CandidateCompared(path, same) => if same is Some && same->0 {
                    r == SearchAction::Done(FindResult::Found(path))
                } else {
                    r is NextEntry
                },
                SearchEvent::Exhausted => r == SearchAction::Done(FindResult::NotFound),
            },
            match event {
                SearchEvent::TargetHashed(Some(digest)) => final(self).target@ == digest@,
                _ => final(self).target@ == old(self).target@,
            },
    {
        match event {
            SearchEvent::Begun => if self.hash_mode {
                SearchAction::HashTarget
            } else {
                SearchAction::NextEntry
            },
            SearchEvent::TargetHashed(digest) => match digest {
                Some(d) => {
                    self.target = d;
                    SearchAction::NextEntry
                },
                None => SearchAction::Done(FindResult::NotFound),
            },
            SearchEvent::Entry { elapsed, interrupted, is_file } => {
                if self.max_find_time > 0 && elapsed >= self.max_find_time {
                    SearchAction::Done(FindResult::TimedOut)
                } else if interrupted {
                    SearchAction::Done(FindResult::NotFound)
                } else if !is_file {
                    SearchAction::NextEntry
                } else if self.hash_mode {
                    SearchAction::HashCandidate
                } else {
                    SearchAction::CompareCandidate
                }
            },
            SearchEvent::CandidateHashed(path, digest) => {
                let hit = match &digest {
                    Some(d) => same_text(d.as_str(), self.target.as_str()),
                    None => false,
                };
                if hit {
                    SearchAction::Done(FindResult::Found(path))
                } else {
                    SearchAction::NextEntry
                }
            },
            SearchEvent::CandidateCompared(path, same) => {
                if let Some(true) = same {
                    SearchAction::Done(FindResult::Found(path))
                } else {
                    SearchAction::NextEntry
                }
            },
            SearchEvent::Exhausted => SearchAction::Done(FindResult::NotFound),
        }
    }
}

/// An entry of a walk as a search sees it.
pub struct Seen {
    pub elapsed: u64,
    pub interrupted: bool,
    pub is_file: bool,
    pub path: String,
    /// The digest of the file; `None` if it cannot be read.
    pub digest: Option<String>,
    /// Whether the file has the bytes that are searched for.
    pub same: Option<bool>,
}

impl Seen {
    /// The entry ends the search before it is looked at.
    pub open spec fn stops(self, s: RenameSearch) -> bool {
        self.interrupted || s.max_find_time > 0 && self.elapsed >= s.max_find_time
    }

    /// The entry is a file with the content that is searched for.
    pub open spec fn hits(self, s: RenameSearch) -> bool {
        self.is_file && if s.hash_mode {
            text_view(self.digest) == Some(s.target@)
        } else {
            self.same == Some(true)
        }
    }
}

/// The result of a search over the entries of a walk, step by step.
pub open spec fn search_result(s: RenameSearch, walk: Seq<Seen>) -> FindResult
    decreases walk.len(),
{
    if walk.len() == 0 {
        s.action(SearchEvent::Exhausted)->Done_0
    } else {
        let e = walk[0];
        let looked_at = s.action(
            SearchEvent::Entry {
                elapsed: e.elapsed,
                interrupted: e.interrupted,
                is_file: e.is_file,
            },
        );
        let decided = match looked_at {
            SearchAction::HashCandidate => s.action(
                SearchEvent::CandidateHashed(e.path, e.digest),
            ),
            SearchAction::CompareCandidate => s.action(
                SearchEvent::CandidateCompared(e.path, e.same),
            ),
            _ => looked_at,
        };
        match decided {
            SearchAction::Done(r) => r,
            _ => search_result(s, walk.drop_first()),
        }
    }
}

/// A search that is not stopped finds the first file of the walk with the content that is
/// searched for.
pub proof fn law_first_match_is_found(s: RenameSearch, walk: Seq<Seen>, k: int)
    requires
        0 <= k < walk.len(),
        forall|i: int| 0 <= i <= k ==> !(#[trigger] walk[i]).stops(s),
        forall|i: int| 0 <= i < k ==> !(#[trigger] walk[i]).hits(s),
        walk[k].hits(s),
    ensures
        search_result(s, walk) == FindResult::Found(walk[k].path),
    decreases walk.len(),
{
    assert(!walk[0].stops(s));
    if k > 0 {
        assert(!walk[0].hits(s));
        lemma_shift(s, walk, k);
        law_first_match_is_found(s, walk.drop_first(), k - 1);
    }
}

/// A search as it is after the digest of the file that is searched for came in.
pub open spec fn with_target(s: RenameSearch, digest: String) -> RenameSearch {
    RenameSearch { target: s.next_target(SearchEvent::TargetHashed(Some(digest))), ..s }
}

/// A search by digest finds the first file of the walk whose digest is, character for
/// character, the one that came in for the file that is searched for, if it is neither
/// interrupted nor out of time before; and it finds no other file.
pub proof fn law_search_by_digest_finds_the_first_equal(
    s: RenameSearch,
    digest: String,
    walk: Seq<Seen>,
    k: int,
)
    requires
        s.hash_mode,
        0 <= k <= walk.len(),
        forall|i: int|
            0 <= i <= k && i < walk.len() ==> !(#[trigger] walk[i]).interrupted && (s.max_find_time
                == 0 || walk[i].elapsed < s.max_find_time),
        forall|i: int|
            0 <= i < k ==> !((#[trigger] walk[i]).is_file && walk[i].digest is Some
                && walk[i].digest->0@ == digest@),
        k < walk.len() ==> walk[k].is_file && walk[k].digest is Some && walk[k].digest->0@
            == digest@,
    ensures
        s.action(SearchEvent::Begun) is HashTarget,
        s.action(SearchEvent::TargetHashed(Some(digest))) is NextEntry,
        with_target(s, digest).target@ == digest@,
        search_result(with_target(s, digest), walk) == if k < walk.len() {
            FindResult::Found(walk[k].path)
        } else {
            FindResult::NotFound
        },
{
    let t = with_target(s, digest);
    if k < walk.len() {
        law_first_match_is_found(t, walk, k);
    } else {
        law_without_a_match_nothing_is_found(t, walk);
    }
}

/// A search byte for byte finds the first file of the walk with the bytes that are searched
/// for, if it is neither interrupted nor out of time before; and it finds no other file.
pub proof fn law_search_by_bytes_finds_the_first_equal(s: RenameSearch, walk: Seq<Seen>, k: int)
    requires
        !s.hash_mode,
        0 <= k <= walk.len(),
        forall|i: int|
            0 <= i <= k && i < walk.len() ==> !(#[trigger] walk[i]).interrupted && (s.max_find_time
                == 0 || walk[i].elapsed < s.max_find_time),
        forall|i: int|
            0 <= i < k ==> !((#[trigger] walk[i]).is_file && walk[i].same is Some
                && walk[i].same->0),
        k < walk.len() ==> walk[k].is_file && walk[k].same is Some && walk[k].same->0,
    ensures
        s.action(SearchEvent::Begun) is NextEntry,
        search_result(s, walk) == if k < walk.len() {
            FindResult::Found(walk[k].path)
        } else {
            FindResult::NotFound
        },
{
    if k < walk.len() {
        law_first_match_is_found(s, walk, k);
    } else {
        law_without_a_match_nothing_is_found(s, walk);
    }
}

/// A search ends at the first entry that comes too late or after an interrupt, if nothing was
/// found before: out of time if it is too late, and with nothing found if it is not.
pub proof fn law_search_ends_at_the_first_late_entry(s: RenameSearch, walk: Seq<Seen>, k: int)
    requires
        0 <= k < walk.len(),
        forall|i: int|
            0 <= i < k ==> !(#[trigger] walk[i]).interrupted && (s.max_find_time == 0
                || walk[i].elapsed < s.max_find_time),
        forall|i: int|
            0 <= i < k && s.hash_mode ==> !((#[trigger] walk[i]).is_file && walk[i].digest is Some
                && walk[i].digest->0@ == s.target@),
        forall|i: int|
            0 <= i < k && !s.hash_mode ==> !((#[trigger] walk[i]).is_file && walk[i].same is Some
                && walk[i].same->0),
        walk[k].interrupted || 0 < s.max_find_time <= walk[k].elapsed,
    ensures
        search_result(s, walk) == if 0 < s.max_find_time <= walk[k].elapsed {
            FindResult::TimedOut
        } else {
            FindResult::NotFound
        },
    decreases walk.len(),
{
    if k > 0 {
        let rest = walk.drop_first();
        assert forall|i: int| 0 <= i < rest.len() implies #[trigger] rest[i] == walk[i + 1] by {}
        assert(!walk[0].interrupted);
        law_search_ends_at_the_first_late_entry(s, rest, k - 1);
    }
}

/// A search that is not stopped and meets no file with the content that is searched for finds
/// nothing.
pub proof fn law_without_a_match_nothing_is_found(s: RenameSearch, walk: Seq<Seen>)
    requires
        forall|i: int| 0 <= i < walk.len() ==> !(#[trigger] walk[i]).stops(s),
        forall|i: int| 0 <= i < walk.len() ==> !(#[trigger] walk[i]).hits(s),
    ensures
        search_result(s, walk) == FindResult::NotFound,
    decreases walk.len(),
{
    if walk.len() > 0 {
        assert(!walk[0].stops(s) && !walk[0].hits(s));
        lemma_shift(s, walk, walk.len() as int);
        law_without_a_match_nothing_is_found(s, walk.drop_first());
    }
}

/// A search that meets no match before its time is up has timed out.
pub proof fn law_time_limit_ends_the_search(s: RenameSearch, walk: Seq<Seen>, k: int)
    requires
        0 <= k < walk.len(),
        s.max_find_time > 0,
        walk[k].elapsed >= s.max_find_time,
        forall|i: int| 0 <= i < k ==> !(#[trigger] walk[i]).stops(s),
        forall|i: int| 0 <= i < k ==> !(#[trigger] walk[i]).hits(s),
    ensures
        search_result(s, walk) == FindResult::TimedOut,
    decreases walk.len(),
{
    if k > 0 {
        assert(!walk[0].stops(s) && !walk[0].hits(s));
        lemma_shift(s, walk, k);
        law_time_limit_ends_the_search(s, walk.drop_first(), k - 1);
    }
}

/// A file is only ever reported as found if it has the content that is searched for.
pub proof fn law_what_is_found_matches(s: RenameSearch, walk: Seq<Seen>)
    ensures
        search_result(s, walk) matches FindResult::Found(path) ==> exists|k: int|
            0 <= k < walk.len() && (#[trigger] walk[k]).hits(s) && walk[k].path == path,
    decreases walk.len(),
{
    if walk.len() > 0 {
        let rest = walk.drop_first();
        law_what_is_found_matches(s, rest);
        if let FindResult::Found(path) = search_result(s, walk) {
            if walk[0].stops(s) || !walk[0].hits(s) {
                let k = choose|k: int|
                    0 <= k < rest.len() && (#[trigger] rest[k]).hits(s) && rest[k].path == path;
                assert(walk[k + 1] == rest[k]);
            }
        }
    }
}

/// What holds of the first entries of a walk holds of those of the walk without the first.
proof fn lemma_shift(s: RenameSearch, walk: Seq<Seen>, k: int)
    requires
        0 < k <= walk.len(),
        forall|i: int| 0 <= i < k ==> !(#[trigger] walk[i]).stops(s),
        forall|i: int| 0 <= i < k ==> !(#[trigger] walk[i]).hits(s),
    ensures
        forall|i: int| 0 <= i < k - 1 ==> !(#[trigger] walk.drop_first()[i]).stops(s),
        forall|i: int| 0 <= i < k - 1 ==> !(#[trigger] walk.drop_first()[i]).hits(s),
        forall|i: int| 0 <= i < walk.len() - 1 ==> #[trigger] walk.drop_first()[i] == walk[i + 1],
{
    let rest = walk.drop_first();
    assert forall|i: int| 0 <= i < k - 1 implies !(#[trigger] rest[i]).stops(s) && !rest[i].hits(
        s,
    ) by {
        assert(rest[i] == walk[i + 1]);
    }
}

} // verus!
