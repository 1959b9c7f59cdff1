//! Remembering digests, and the file in which they are kept.

use vstd::hash_map::StringHashMap;
use vstd::prelude::*;

use crate::algo::HashAlgo;

verus! {

/// The digests that are known, by the algorithm and a text that stands for one path.
pub struct HashCache {
    /// Digests are remembered at all.
    pub enabled: bool,
    /// The digests, by the letter of the algorithm with the text behind it.
    pub map: StringHashMap<String>,
}

/// The letter under which the digests of an algorithm are kept.
pub open spec fn algo_letter(algo: HashAlgo) -> char {
    match algo {
        HashAlgo::Md5 => 'a',
        HashAlgo::Sha1 => 'b',
        HashAlgo::Sha256 => 'c',
        HashAlgo::Sha512 => 'd',
        HashAlgo::Sha3_256 => 'e',
        HashAlgo::Sha3_512 => 'f',
        HashAlgo::Blake2b => 'g',
        HashAlgo::Blake3 => 'h',
        HashAlgo::Xxh32 => 'i',
        HashAlgo::Xxh64 => 'j',
        HashAlgo::Xxh3 => 'k',
        HashAlgo::Crc32 => 'l',
    }
}

/// Where the digest of a path is kept.
pub open spec fn slot(algo: HashAlgo, key: Seq<char>) -> Seq<char> {
    seq![algo_letter(algo)] + key
}

/// No two digests are kept in one place.
proof fn lemma_slots_are_distinct(a: HashAlgo, j: Seq<char>, b: HashAlgo, k: Seq<char>)
    ensures
        slot(a, j) == slot(b, k) <==> a == b && j == k,
{
    assert(slot(a, j)[0] == algo_letter(a) && slot(b, k)[0] == algo_letter(b));
    assert(slot(a, j).skip(1) == j && slot(b, k).skip(1) == k);
}

/// Where the digest of a path is kept.
fn slot_of(algo: HashAlgo, key: &str) -> (r: String)
    ensures
        r@ == slot(algo, key@),
{
    proof {
        reveal_strlit("a");
        reveal_strlit("b");
        reveal_strlit("c");
        reveal_strlit("d");
        reveal_strlit("e");
        reveal_strlit("f");
        reveal_strlit("g");
        reveal_strlit("h");
        reveal_strlit("i");
        reveal_strlit("j");
        reveal_strlit("k");
        reveal_strlit("l");
    }
    let letter = match algo {
        HashAlgo::Md5 => "a",
        HashAlgo::Sha1 => "b",
        HashAlgo::Sha256 => "c",
        HashAlgo::Sha512 => "d",
        HashAlgo::Sha3_256 => "e",
        HashAlgo::Sha3_512 => "f",
        HashAlgo::Blake2b => "g",
        HashAlgo::Blake3 => "h",
        HashAlgo::Xxh32 => "i",
        HashAlgo::Xxh64 => "j",
        HashAlgo::Xxh3 => "k",
        HashAlgo::Crc32 => "l",
    };
    assert(letter@ == seq![algo_letter(algo)]);
    let mut r = letter.to_owned();
    r.append(key);
    r
}

/// What happened while a digest is looked up.
#[derive(Debug)]
pub enum CacheEvent {
    /// The digest is asked for.
    Asked,
    /// The digest was computed; `None` if the file could not be read.
    Hashed(Option<String>),
}

/// What to do next to answer a question for a digest.
#[derive(Debug)]
pub enum CacheAction {
    /// This is the digest.
    Answer(String),
    /// Compute the digest.
    Compute,
    /// This is the digest, and this line goes into the cache file.
    Record { digest: String, line: String },
    /// There is no digest.
    Fail,
}

/// The line of the cache file for a path.
pub open spec fn cache_line(shown: Seq<char>, digest: Seq<char>) -> Seq<char> {
    shown + "\t"@ + digest + "\n"@
}

impl HashCache {
    /// The digest by an algorithm that is remembered for a path.
    pub open spec fn known(self, algo: HashAlgo, key: Seq<char>) -> Option<Seq<char>> {
        if self.enabled && self.map@.dom().contains(slot(algo, key)) {
            Some(self.map@[slot(algo, key)]@)
        } else {
            None
        }
    }

    /// A cache that knows nothing.
    pub fn new(enabled: bool) -> (r: Self)
        ensures
            r.enabled == enabled,
            r.map@ == Map::<Seq<char>, String>::empty(),
            forall|algo: HashAlgo, key: Seq<char>| (#[trigger] r.known(algo, key)) is None,
    {
        HashCache { enabled, map: StringHashMap::new() }
    }

    /// Decides how the digest of a file by an algorithm is come by. `key` stands for the path
    /// of the file, and `shown` is that path as text.
    pub fn hash_of_cached(
        &mut self,
        key: &str,
        algo: HashAlgo,
        shown: &str,
        event: CacheEvent,
    ) -> (r: CacheAction)
        ensures
            final(self).enabled == old(self).enabled,
            match event {
                CacheEvent::Asked => {
                    &&& *final(self) == *old(self)
                    &&& match r {
                        CacheAction::Answer(digest) => old(self).known(algo, key@) == Some(
                            digest@,
                        ),
                        CacheAction::Compute => old(self).known(algo, key@) is None,
                        _ => false,
                    }
                },
                CacheEvent::Hashed(None) => {
                    &&& *final(self) == *old(self)
                    &&& r is Fail
                },
                CacheEvent::Hashed(Some(digest)) => if old(self).enabled {
                    &&& r matches CacheAction::Record { digest: d, line }
                    &&& d == digest
                    &&& line@ == cache_line(shown@, digest@)
                    &&& recorded(*old(self), *final(self), algo, key@, digest@)
                    &&& line@ == shown@ + "\t"@ + digest@ + "\n"@
                    &&& final(self).known(algo, key@) == Some(digest@)
                    &&& forall|a: HashAlgo, k: Seq<char>|
                        a != algo || k != key@ ==> #[trigger] final(self).known(a, k) == old(
                            self,
                        ).known(a, k)
                } else {
                    &&& r == CacheAction::Answer(digest)
                    &&& *final(self) == *old(self)
                },
            },
    {
        match event {
            CacheEvent::Asked => {
                if self.enabled {
                    if let Some(digest) = self.map.get(slot_of(algo, key).as_str()) {
                        return CacheAction::Answer(digest.clone());
                    }
                }
                CacheAction::Compute
            },
            CacheEvent::Hashed(None) => CacheAction::Fail,
            CacheEvent::Hashed(Some(digest)) => {
                if self.enabled {
                    self.map.insert(slot_of(algo, key), digest.clone());
                    proof {
                        assert forall|a: HashAlgo, k: Seq<char>| #[trigger]
                            self.known(a, k) == if a == algo && k == key@ {
                                Some(digest@)
                            } else {
                                old(self).known(a, k)
                            } by {
                            lemma_slots_are_distinct(a, k, algo, key@);
                        }
                    }
                    let mut line = shown.to_owned();
                    line.append("\t");
                    line.append(digest.as_str());
                    line.append("\n");
                    CacheAction::Record { digest, line }
                } else {
                    CacheAction::Answer(digest)
                }
            },
        }
    }
}

/// The cache has come to know a digest, and nothing else has changed.
pub open spec fn recorded(
    before: HashCache,
    after: HashCache,
    algo: HashAlgo,
    key: Seq<char>,
    digest: Seq<char>,
) -> bool {
    forall|a: HashAlgo, k: Seq<char>| #[trigger]
        after.known(a, k) == if a == algo && k == key {
            Some(digest)
        } else {
            before.known(a, k)
        }
}

/// A digest that a cache takes in.
pub struct Recording {
    pub algo: HashAlgo,
    pub key: Seq<char>,
    pub digest: Seq<char>,
}

impl Recording {
    /// The digest is that of a path by an algorithm.
    pub open spec fn concerns(self, algo: HashAlgo, key: Seq<char>) -> bool {
        self.algo == algo && self.key == key
    }
}

/// `caches` are the states of a cache that begins empty and takes in the digests of `records`,
/// one after the other.
pub open spec fn is_history(caches: Seq<HashCache>, records: Seq<Recording>) -> bool {
    &&& caches.len() == records.len() + 1
    &&& forall|a: HashAlgo, k: Seq<char>| (#[trigger] caches[0].known(a, k)) is None
    &&& forall|i: int|
        0 <= i < records.len() ==> recorded(
            caches[i],
            caches[i + 1],
            (#[trigger] records[i]).algo,
            records[i].key,
            records[i].digest,
        )
}

/// Of the first `n` records the one at `i` is the last for an algorithm and a path.
pub open spec fn is_last(
    records: Seq<Recording>,
    n: nat,
    i: int,
    algo: HashAlgo,
    key: Seq<char>,
) -> bool {
    &&& 0 <= i < n
    &&& records[i].concerns(algo, key)
    &&& forall|j: int| i < j < n ==> !(#[trigger] records[j]).concerns(algo, key)
}

/// A digest that was taken in is known from then on, and what is known of a file is what was
/// taken in last for it and the algorithm: where nothing was taken in, nothing is known.
pub proof fn law_last_recorded_digest_is_known(
    caches: Seq<HashCache>,
    records: Seq<Recording>,
    algo: HashAlgo,
    key: Seq<char>,
    n: nat,
)
    requires
        is_history(caches, records),
        n <= records.len(),
    ensures
        match caches[n as int].known(algo, key) {
            Some(digest) => exists|i: int|
                #[trigger] is_last(records, n, i, algo, key) && records[i].digest == digest,
            None => forall|i: int| 0 <= i < n ==> !(#[trigger] records[i]).concerns(algo, key),
        },
    decreases n,
{
    if n > 0 {
        let m = (n - 1) as nat;
        let r = records[m as int];
        law_last_recorded_digest_is_known(caches, records, algo, key, m);
        assert(recorded(caches[m as int], caches[n as int], r.algo, r.key, r.digest));
        if r.concerns(algo, key) {
            assert(is_last(records, n, m as int, algo, key));
        } else if let Some(digest) = caches[m as int].known(algo, key) {
            let i = choose|i: int|
                #[trigger] is_last(records, m, i, algo, key) && records[i].digest == digest;
            assert(is_last(records, n, i, algo, key));
        }
    }
}

/// As long as every digest that is taken in is the one of its file by its algorithm, the cache
/// answers with the digest that computing it anew by the same algorithm would give.
pub proof fn law_known_digests_are_right(
    caches: Seq<HashCache>,
    records: Seq<Recording>,
    digest_of: spec_fn(HashAlgo, Seq<char>) -> Seq<char>,
    algo: HashAlgo,
    key: Seq<char>,
)
    requires
        is_history(caches, records),
        forall|i: int|
            0 <= i < records.len() ==> (#[trigger] records[i]).digest == digest_of(
                records[i].algo,
                records[i].key,
            ),
    ensures
        caches.last().known(algo, key) matches Some(digest) ==> digest == digest_of(algo, key),
{
    law_last_recorded_digest_is_known(caches, records, algo, key, records.len());
}

/// A line of the cache file is the path, a tab and the digest, and ends there.
pub proof fn law_cache_line_is_path_tab_digest(shown: Seq<char>, digest: Seq<char>)
    ensures
        cache_line(shown, digest).len() == shown.len() + digest.len() + 2,
        cache_line(shown, digest).take(shown.len() as int) == shown,
        cache_line(shown, digest)[shown.len() as int] == '\t',
        cache_line(shown, digest).subrange(
            (shown.len() + 1) as int,
            (shown.len() + 1 + digest.len()) as int,
        ) == digest,
        cache_line(shown, digest).last() == '\n',
{
    reveal_strlit("\t");
    reveal_strlit("\n");
    let line = cache_line(shown, digest);
    assert(line.take(shown.len() as int) =~= shown);
    let start = (shown.len() + 1) as int;
    assert(line.subrange(start, start + digest.len()) =~= digest);
}

/// A cache that is switched off knows nothing.
pub proof fn law_disabled_cache_knows_nothing(c: HashCache, algo: HashAlgo, key: Seq<char>)
    requires
        !c.enabled,
    ensures
        c.known(algo, key) is None,
{
}

/// The file in which the digests of a run are kept.
#[derive(Debug)]
pub struct CacheFile<P> {
    /// The path of the file, until the file is removed.
    pub path: Option<P>,
    /// The file outlives the run.
    pub keep: bool,
}

impl<P> CacheFile<P> {
    /// No file yet.
    pub fn new() -> (r: Self)
        ensures
            r.path is None,
            !r.keep,
    {
        CacheFile { path: None, keep: false }
    }
}

/// Notes the path of the cache file.
pub fn register_cache_path<P>(file: &mut CacheFile<P>, path: P)
    ensures
        final(file).path == Some(path),
        final(file).keep == old(file).keep,
{
    file.path = Some(path);
}

/// The path of the file to remove, unless it is to be kept or was removed before.
pub fn cleanup_cache_file<P>(file: &mut CacheFile<P>) -> (r: Option<P>)
    ensures
        final(file).keep == old(file).keep,
        if old(file).keep {
            &&& r is None
            &&& final(file).path == old(file).path
        } else {
            &&& r == old(file).path
            &&& final(file).path is None
        },
{
    if file.keep {
        None
    } else {
        file.path.take()
    }
}

} // verus!
