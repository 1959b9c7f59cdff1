//! Comparing two files by digest or byte for byte.

use vstd::prelude::*;

use crate::algo::HashAlgo;
use crate::hashing::{digest_text, is_digest};
use crate::text::{same_text, text_view};

verus! {

/// How files are compared.
#[derive(Clone, Copy, Debug)]
pub struct CompareOpts {
    /// By digest where the size allows it.
    pub hash_mode: bool,
    pub algo: HashAlgo,
    /// The least size that is compared by digest; zero is no bound.
    pub min_size: u64,
    /// The greatest size that is compared by digest; zero is no bound.
    pub max_size: u64,
}

impl CompareOpts {
    /// A file of `size` bytes is compared by digest.
    pub open spec fn by_hash(self, size: u64) -> bool {
        &&& self.hash_mode
        &&& self.min_size > 0 ==> size >= self.min_size
        &&& self.max_size > 0 ==> size <= self.max_size
    }
}

/// What happened while two files are compared.
#[derive(Debug)]
pub enum CompareEvent {
    /// The comparison begins.
    Begun,
    /// The first file has so many bytes; `None` if that could not be found out, which counts
    /// as zero.
    Sized(Option<u64>),
    /// The digests of the two files; `None` for a file that could not be read.
    Hashed(Option<String>, Option<String>),
    /// Whether the two files have the same bytes; `None` if one could not be read.
    Compared(Option<bool>),
}

/// What to do next to compare two files.
#[derive(Debug, PartialEq, Eq, Structural)]
pub enum CompareAction {
    /// Find out the size of the first file.
    AskSize,
    /// Compute the digests of both files.
    AskHashes,
    /// Compare the files byte for byte.
    AskBytes,
    /// The files are the same, or they are not.
    Verdict(bool),
}

/// The two digests are there, are the same and are not empty.
pub open spec fn same_digest(first: Option<Seq<char>>, second: Option<Seq<char>>) -> bool {
    first is Some && first == second && first->0.len() > 0
}

/// The size of a file as far as it is known.
pub open spec fn known_size(size: Option<u64>) -> u64 {
    match size {
        Some(n) => n,
        None => 0,
    }
}

/// What to do after an event of a comparison.
pub open spec fn compare_action(opts: CompareOpts, event: CompareEvent) -> CompareAction {
    match event {
        CompareEvent::Begun => if opts.hash_mode {
            CompareAction::AskSize
        } else {
            CompareAction::AskBytes
        },
        CompareEvent::Sized(size) => if opts.by_hash(known_size(size)) {
            CompareAction::AskHashes
        } else {
            CompareAction::AskBytes
        },
        CompareEvent::Hashed(first, second) => CompareAction::Verdict(
            same_digest(text_view(first), text_view(second)),
        ),
        CompareEvent::Compared(same) => CompareAction::Verdict(same == Some(true)),
    }
}

/// Decides the next step of comparing two files. A file that cannot be read is never the same
/// as another.
pub fn compare_files(opts: &CompareOpts, event: CompareEvent) -> (r: CompareAction)
    ensures
        r == compare_action(*opts, event),
        match event {
            CompareEvent::Begun => r == if opts.hash_mode {
                CompareAction::AskSize
            } else {
                CompareAction::AskBytes
            },
            CompareEvent::Sized(size) => {
                let n: u64 = if size is Some {
                    size->0
                } else {
                    0
                };
                if opts.hash_mode && (opts.min_size == 0 || n >= opts.min_size) && (opts.max_size
                    == 0 || n <= opts.max_size) {
                    r is AskHashes
                } else {
                    r is AskBytes
                }
            },
            CompareEvent::Hashed(Some(a), Some(b)) => r == CompareAction::Verdict(
                a@ == b@ && a@.len() > 0,
            ),
            CompareEvent::Hashed(_, _) => r == CompareAction::Verdict(false),
            CompareEvent::Compared(same) => r == CompareAction::Verdict(
                same is Some && same->0,
            ),
        },
{
    match event {
        CompareEvent::Begun => if opts.hash_mode {
            CompareAction::AskSize
        } else {
            CompareAction::AskBytes
        },
        CompareEvent::Sized(size) => {
            let size: u64 = match size {
                Some(n) => n,
                None => 0,
            };
            let mut use_hash = opts.hash_mode;
            if opts.min_size > 0 && size < opts.min_size {
                use_hash = false;
            }
            if opts.max_size > 0 && size > opts.max_size {
                use_hash = false;
            }
            if use_hash {
                CompareAction::AskHashes
            } else {
                CompareAction::AskBytes
            }
        },
        CompareEvent::Hashed(first, second) => {
            let same = match (&first, &second) {
                (Some(a), Some(b)) => same_text(a.as_str(), b.as_str()) && !a.as_str().is_empty(),
                _ => false,
            };
            CompareAction::Verdict(same)
        },
        CompareEvent::Compared(same) => CompareAction::Verdict(
            match same {
                Some(true) => true,
                _ => false,
            },
        ),
    }
}

/// What is known of two files whose metadata alone was read: files of different length are
/// not the same.
pub fn compare_lengths(first: u64, second: u64) -> (r: Option<bool>)
    ensures
        r == if first == second {
            None::<bool>
        } else {
            Some(false)
        },
{
    if first != second {
        Some(false)
    } else {
        None
    }
}

/// What two reads, one from each file, say of the files: `None` as long as they agree, and a
/// verdict once they differ or both files have ended.
pub open spec fn reads_verdict(first: Seq<u8>, second: Seq<u8>) -> Option<bool> {
    if first != second {
        Some(false)
    } else if first.len() == 0 {
        Some(true)
    } else {
        None
    }
}

/// Whether two rows of bytes are the same.
fn same_bytes(a: &[u8], b: &[u8]) -> (r: bool)
    ensures
        r == (a@ == b@),
{
    if a.len() != b.len() {
        return false;
    }
    let mut i: usize = 0;
    while i < a.len()
        invariant
            i <= a@.len(),
            a@.len() == b@.len(),
            forall|k: int| 0 <= k < i ==> a@[k] == b@[k],
        decreases a@.len() - i,
    {
        if a[i] != b[i] {
            return false;
        }
        i = i + 1;
    }
    assert(a@ == b@);
    true
}

/// Holds the bytes of two reads, one from each file, against each other. An empty read is the
/// end of a file.
pub fn files_equal_bytes(first: &[u8], second: &[u8]) -> (r: Option<bool>)
    ensures
        r == reads_verdict(first@, second@),
        r == Some(false) <==> first@ != second@,
        r == Some(true) <==> first@.len() == 0 && second@.len() == 0,
{
    assert(first@.len() == 0 && second@.len() == 0 ==> first@ =~= second@);
    if !same_bytes(first, second) {
        Some(false)
    } else if first.len() == 0 {
        Some(true)
    } else {
        None
    }
}

/// The verdict of reading two files to the end, if there is one.
pub open spec fn run_reads(first: Seq<Seq<u8>>, second: Seq<Seq<u8>>) -> Option<bool>
    decreases first.len(),
{
    if first.len() == 0 || second.len() == 0 {
        None
    } else {
        match reads_verdict(first[0], second[0]) {
            Some(v) => Some(v),
            None => run_reads(first.drop_first(), second.drop_first()),
        }
    }
}

/// The bytes of a file that was read piece by piece, up to the first empty read.
pub open spec fn content_of(reads: Seq<Seq<u8>>) -> Seq<u8>
    decreases reads.len(),
{
    if reads.len() == 0 || reads[0].len() == 0 {
        Seq::empty()
    } else {
        reads[0] + content_of(reads.drop_first())
    }
}

/// Two files that are found the same have the same bytes.
pub proof fn law_found_same_is_same(first: Seq<Seq<u8>>, second: Seq<Seq<u8>>)
    requires
        run_reads(first, second) == Some(true),
    ensures
        content_of(first) == content_of(second),
    decreases first.len(),
{
    if reads_verdict(first[0], second[0]) is None {
        law_found_same_is_same(first.drop_first(), second.drop_first());
    }
}

/// Two files that are read in pieces of the same length and found to differ do differ.
pub proof fn law_found_different_is_different(first: Seq<Seq<u8>>, second: Seq<Seq<u8>>)
    requires
        run_reads(first, second) == Some(false),
        forall|i: int|
            0 <= i < first.len() && i < second.len() ==> #[trigger] first[i].len()
                == #[trigger] second[i].len(),
    ensures
        content_of(first) != content_of(second),
    decreases first.len(),
{
    let (a, b) = (content_of(first), content_of(second));
    assert(first[0].len() == second[0].len());
    if reads_verdict(first[0], second[0]) is None {
        let (f, s) = (first.drop_first(), second.drop_first());
        assert forall|i: int| 0 <= i < f.len() && i < s.len() implies #[trigger] f[i].len()
            == #[trigger] s[i].len() by {
            assert(first[i + 1].len() == second[i + 1].len());
        }
        law_found_different_is_different(f, s);
        assert(a.skip(first[0].len() as int) == content_of(f));
        assert(b.skip(second[0].len() as int) == content_of(s));
    } else {
        assert(a.take(first[0].len() as int) == first[0]);
        assert(b.take(second[0].len() as int) == second[0]);
    }
}

/// The verdict on two files whose contents are `first` and `second`, or `None` where a file
/// cannot be read; the first has `size` bytes.
pub open spec fn compare_verdict(
    opts: CompareOpts,
    size: Option<u64>,
    first: Option<Seq<u8>>,
    second: Option<Seq<u8>>,
) -> bool {
    if opts.by_hash(known_size(size)) {
        same_digest(content_digest(opts.algo, first), content_digest(opts.algo, second))
    } else {
        first is Some && first == second
    }
}

/// The digest of a content, if there is one.
pub open spec fn content_digest(algo: HashAlgo, content: Option<Seq<u8>>) -> Option<Seq<char>> {
    match content {
        Some(c) => Some(digest_text(algo, c)),
        None => None,
    }
}

/// An event that tells the truth about two files.
pub open spec fn true_event(
    opts: CompareOpts,
    size: Option<u64>,
    first: Option<Seq<u8>>,
    second: Option<Seq<u8>>,
    asked: CompareAction,
    event: CompareEvent,
) -> bool {
    match asked {
        CompareAction::AskSize => event == CompareEvent::Sized(size),
        CompareAction::AskHashes => event matches CompareEvent::Hashed(a, b) && {
            &&& text_view(a) == content_digest(opts.algo, first)
            &&& text_view(b) == content_digest(opts.algo, second)
        },
        CompareAction::AskBytes => event == CompareEvent::Compared(
            if first is Some && second is Some {
                Some(first == second)
            } else {
                None
            },
        ),
        CompareAction::Verdict(_) => false,
    }
}

/// A comparison whose questions are answered truly ends after at most two answers, in the
/// verdict on the two files.
pub proof fn law_comparison_ends_in_the_verdict(
    opts: CompareOpts,
    size: Option<u64>,
    first: Option<Seq<u8>>,
    second: Option<Seq<u8>>,
    one: CompareEvent,
    two: CompareEvent,
)
    requires
        true_event(
            opts,
            size,
            first,
            second,
            compare_action(opts, CompareEvent::Begun),
            one,
        ),
        opts.hash_mode ==> true_event(opts, size, first, second, compare_action(opts, one), two),
    ensures
        compare_action(
            opts,
            if opts.hash_mode {
                two
            } else {
                one
            },
        ) == CompareAction::Verdict(compare_verdict(opts, size, first, second)),
{
}

/// Two digests make the files the same if and only if they are equal character for character
/// and not empty.
pub proof fn law_equal_digests_decide(opts: CompareOpts, a: String, b: String)
    ensures
        compare_action(opts, CompareEvent::Hashed(Some(a), Some(b))) == CompareAction::Verdict(true)
            <==> a@ == b@ && a@.len() > 0,
        compare_action(opts, CompareEvent::Hashed(Some(a), Some(b))) is Verdict,
        compare_action(opts, CompareEvent::Hashed(Some(a), None)) == CompareAction::Verdict(false),
        compare_action(opts, CompareEvent::Hashed(None, Some(a))) == CompareAction::Verdict(false),
        compare_action(opts, CompareEvent::Hashed(None, None)) == CompareAction::Verdict(false),
{
}

/// If a single character of one digest is another one in the other, or one is longer, the files
/// differ.
pub proof fn law_any_difference_of_digests_counts(opts: CompareOpts, a: String, b: String, i: int)
    requires
        a@.len() != b@.len() || 0 <= i < a@.len() && a@[i] != b@[i],
    ensures
        compare_action(opts, CompareEvent::Hashed(Some(a), Some(b))) == CompareAction::Verdict(
            false,
        ),
{
}

/// Files that are read in full and compared byte for byte are the same if and only if they have
/// the same bytes, whatever their size.
pub proof fn law_bytes_decide(opts: CompareOpts, size: u64, first: Seq<u8>, second: Seq<u8>)
    requires
        !opts.hash_mode || opts.min_size > 0 && size < opts.min_size || opts.max_size > 0 && size
            > opts.max_size,
    ensures
        compare_verdict(opts, Some(size), Some(first), Some(second)) <==> first == second,
{
}

/// Files that are compared by digest are the same if and only if their digests are the same and
/// not empty.
pub proof fn law_digests_of_contents_decide(
    opts: CompareOpts,
    size: u64,
    first: Seq<u8>,
    second: Seq<u8>,
)
    requires
        opts.hash_mode,
        opts.min_size == 0 || size >= opts.min_size,
        opts.max_size == 0 || size <= opts.max_size,
    ensures
        compare_verdict(opts, Some(size), Some(first), Some(second)) <==> digest_text(
            opts.algo,
            first,
        ) == digest_text(opts.algo, second) && digest_text(opts.algo, first).len() > 0,
{
}

/// Reading two files in equal pieces to their ends gives a verdict, and it is true if and only
/// if the bytes of all pieces, put together, are the same.
pub proof fn law_reads_decide(first: Seq<Seq<u8>>, second: Seq<Seq<u8>>)
    requires
        first.len() == second.len(),
        first.len() > 0,
        first.last().len() == 0,
        forall|i: int| 0 <= i < first.len() ==> #[trigger] first[i].len() == second[i].len(),
        forall|i: int| 0 <= i < first.len() - 1 ==> (#[trigger] first[i]).len() > 0,
    ensures
        run_reads(first, second) is Some,
        run_reads(first, second) == Some(true) <==> first.flatten() == second.flatten(),
    decreases first.len(),
{
    let (f, s) = (first.drop_first(), second.drop_first());
    let (a, b) = (first.flatten(), second.flatten());
    assert(first[0].len() == second[0].len());
    assert(a == first[0] + f.flatten());
    assert(b == second[0] + s.flatten());
    if first.len() == 1 {
        assert(first[0] =~= second[0]);
        assert(f =~= s);
    } else {
        assert(first[0].len() > 0);
        assert(f.last() == first.last());
        assert forall|i: int| 0 <= i < f.len() implies #[trigger] f[i].len() == s[i].len() by {
            assert(first[i + 1].len() == second[i + 1].len());
        }
        assert forall|i: int| 0 <= i < f.len() - 1 implies (#[trigger] f[i]).len() > 0 by {
            assert(first[i + 1].len() > 0);
        }
        law_reads_decide(f, s);
        let n = first[0].len() as int;
        assert(a.take(n) =~= first[0] && b.take(n) =~= second[0]);
        assert(a.skip(n) =~= f.flatten() && b.skip(n) =~= s.flatten());
    }
}

/// Files below the least size or above the greatest are compared byte for byte, and so are all
/// files if digests are not asked for.
pub proof fn law_bounds_limit_the_use_of_digests(opts: CompareOpts, size: u64)
    ensures
        compare_action(opts, CompareEvent::Sized(Some(size))) == CompareAction::AskBytes <==> {
            ||| !opts.hash_mode
            ||| opts.min_size > 0 && size < opts.min_size
            ||| opts.max_size > 0 && size > opts.max_size
        },
{
}

/// A file that is readable is always found the same as a copy of it. `digest` is what hashing
/// its content gives.
pub proof fn law_copies_are_the_same(
    opts: CompareOpts,
    size: Option<u64>,
    content: Seq<u8>,
    digest: Seq<char>,
)
    requires
        is_digest(opts.algo, content, digest),
    ensures
        compare_verdict(opts, size, Some(content), Some(content)),
{
}

/// The digest of a file depends on its content and the algorithm alone, and not on the pieces
/// in which the file is read: two files with the same content have the same digest.
pub proof fn law_same_contents_have_the_same_digest(
    algo: HashAlgo,
    first: Seq<Seq<u8>>,
    second: Seq<Seq<u8>>,
    one: Seq<char>,
    two: Seq<char>,
)
    requires
        content_of(first) == content_of(second),
        is_digest(algo, content_of(first), one),
        is_digest(algo, content_of(second), two),
    ensures
        one == two,
        one == digest_text(algo, content_of(first)),
{
}

/// A file that cannot be read is never found the same as any file.
pub proof fn law_unreadable_is_never_the_same(
    opts: CompareOpts,
    size: Option<u64>,
    content: Option<Seq<u8>>,
)
    ensures
        !compare_verdict(opts, size, None, content),
        !compare_verdict(opts, size, content, None),
{
}

} // verus!
