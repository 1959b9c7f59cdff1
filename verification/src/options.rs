//! What the command line asks for.

use vstd::prelude::*;

use crate::algo::{goes_by, HashAlgo, ALLOWED_ALGOS};
use crate::paths::{trim_end_slashes, without_slashes};
use crate::report::OutputOpts;
use crate::style::{BLUE, RESET};
use crate::text::{decimal, push_decimal};
use crate::unicode::{is_ascii_text, lowercase, trimmed};
use crate::units::{clean, complaint, parse_size, parse_time, reading, Quantity, Reading};

verus! {

/// The exit status of a run that came to its end.
pub const EXIT_FINISHED: i32 = 0;

/// The exit status of a run that could not begin.
pub const EXIT_BAD_ARGUMENTS: i32 = 1;

/// The width of a terminal that does not tell its own.
pub const DEFAULT_WIDTH: u16 = 80;

/// The explanation of the command line, from the program's name on.
pub const USAGE: &'static str = " [OPTIONS] DIR1 DIR2

Options:
  -x, --hash              Compare files by hash instead of byte-for-byte cmp
  -a, --algo ALGO         Hash algorithm (default: sha256sum). One of:
                           md5sum, sha1sum, sha256sum, sha512sum,
                           sha3-256sum, sha3-512sum, b2sum, b3sum,
                           xxh32sum, xxh64sum, xxh3sum, crc32sum
      --min-size SIZE      Only hash-compare files >= SIZE (e.g., 500B, 2KB, 10MiB, 1GB)
                           (smaller files use cmp)
      --max-size SIZE      Only hash-compare files <= SIZE (e.g., 100MB, 2GiB)
                           (larger files use cmp)
      --max-find-time T    Max time allowed for find search per file (e.g., 5s, 2m, 1h)
  -r, --find-renamed       If a file is missing in DIR2 — search DIR2 for a
                           file with identical content/hash (rename detection)
  -p, --progress           Show a single-line emerge-style progress bar
  -j, --jobs N             Parallel worker threads (0 = auto, default: 1)
  -q, --quiet              Only print errors and the final summary
  -v, --verbose            Always print full paths instead of relative paths
  -L, --follow-symlinks    Follow symlinks while walking directories
      --exclude SUBSTR     Skip paths containing SUBSTR (repeatable)
      --dry-run            List what would be checked, then exit
      --no-hash-cache      Disable the on-disk hash cache used by --find-renamed
      --cache-file PATH    Custom path for the hash-cache temp file
                           (default: /tmp/compareDirs2-hashes-<pid>.tsv)
      --keep-cache-file    Keep the hash-cache temp file after the run
      --stats              Print elapsed time and throughput in the summary
  -h, --help               Show this help
  -V, --version            Show version information

";

/// How the program is used.
pub fn usage(prog: &str) -> (r: String)
    ensures
        r@ == "Usage: "@ + prog@ + USAGE@,
{
    let mut out = "Usage: ".to_owned();
    out.append(prog);
    out.append(USAGE);
    out
}

/// The bounds that the command line sets; zero is no bound.
#[derive(Clone, Copy, Debug, PartialEq, Eq, Structural)]
pub struct Limits {
    pub min_size: u64,
    pub max_size: u64,
    pub max_find_time: u64,
}

/// What the text of a bound says, in the lower case of Unicode or of ASCII; a bound that is
/// not there is zero.
pub open spec fn bound(q: Quantity, text: Option<String>, ascii: bool) -> Reading {
    match text {
        Some(t) => reading(q, clean(t@, ascii)),
        None => Reading::Amount(0),
    }
}

/// The message for a bound that cannot be read.
pub open spec fn bound_complaint(q: Quantity, text: Option<String>, ascii: bool) -> Seq<char> {
    complaint(q, bound(q, text, ascii), text->0@)
}

/// The bound is not there or is an ASCII text.
pub open spec fn is_ascii_bound(text: Option<String>) -> bool {
    text matches Some(t) ==> is_ascii_text(t@)
}

/// The message for size bounds that leave nothing between them.
pub open spec fn range_complaint() -> Seq<char> {
    "Error: --min-size cannot be greater than --max-size"@
}

/// The size bounds leave nothing between them.
pub open spec fn is_empty_range(min_size: nat, max_size: nat) -> bool {
    max_size > 0 && min_size > max_size
}

/// `r` holds the bounds that the texts set, or the message for the first that is wrong.
pub open spec fn limits_answer(
    min_size: Option<String>,
    max_size: Option<String>,
    max_find_time: Option<String>,
    ascii: bool,
    r: Result<Limits, String>,
) -> bool {
    match (
        bound(Quantity::Size, min_size, ascii),
        bound(Quantity::Size, max_size, ascii),
        bound(Quantity::Time, max_find_time, ascii),
    ) {
        (Reading::Amount(min), Reading::Amount(max), time) => if is_empty_range(min, max) {
            r matches Err(e) && e@ == range_complaint()
        } else {
            match time {
                Reading::Amount(t) => {
                    &&& r matches Ok(l)
                    &&& l.min_size == min
                    &&& l.max_size == max
                    &&& l.max_find_time == t
                },
                _ => r matches Err(e) && e@ == bound_complaint(
                    Quantity::Time,
                    max_find_time,
                    ascii,
                ),
            }
        },
        (Reading::Amount(_), _, _) => r matches Err(e) && e@ == bound_complaint(
            Quantity::Size,
            max_size,
            ascii,
        ),
        _ => r matches Err(e) && e@ == bound_complaint(Quantity::Size, min_size, ascii),
    }
}

/// The bound is what its text says, or zero without one.
pub open spec fn bound_is(q: Quantity, text: Option<String>, n: u64) -> bool {
    match text {
        Some(t) => reading(q, lowercase(trimmed(t@))) == Reading::Amount(n as nat),
        None => n == 0,
    }
}

/// The text says no amount, and `e` is the message for it.
pub open spec fn is_refused(q: Quantity, text: Seq<char>, e: Seq<char>) -> bool {
    &&& !(reading(q, lowercase(trimmed(text))) is Amount)
    &&& e == complaint(q, reading(q, lowercase(trimmed(text))), text)
}

/// Bounds that were accepted are the amounts that their texts say, and leave something between
/// them; bounds that say amounts with something between them are accepted.
pub proof fn law_bounds_are_what_the_texts_say(
    min_size: Option<String>,
    max_size: Option<String>,
    max_find_time: Option<String>,
    ascii: bool,
    r: Result<Limits, String>,
)
    requires
        limits_answer(min_size, max_size, max_find_time, ascii, r),
    ensures
        r matches Ok(l) ==> {
            &&& bound(Quantity::Size, min_size, ascii) == Reading::Amount(l.min_size as nat)
            &&& bound(Quantity::Size, max_size, ascii) == Reading::Amount(l.max_size as nat)
            &&& bound(Quantity::Time, max_find_time, ascii) == Reading::Amount(
                l.max_find_time as nat,
            )
            &&& !(0 < l.max_size < l.min_size)
        },
        r is Err ==> {
            ||| !(bound(Quantity::Size, min_size, ascii) is Amount)
            ||| !(bound(Quantity::Size, max_size, ascii) is Amount)
            ||| !(bound(Quantity::Time, max_find_time, ascii) is Amount)
            ||| 0 < bound(Quantity::Size, max_size, ascii)->Amount_0 < bound(
                Quantity::Size,
                min_size,
                ascii,
            )->Amount_0
        },
        min_size is None ==> bound(Quantity::Size, min_size, ascii) == Reading::Amount(0),
{
}

/// Checks that the size bounds leave something between them.
pub fn check_range(min_size: u64, max_size: u64) -> (r: Result<(), String>)
    ensures
        match r {
            Ok(_) => !is_empty_range(min_size as nat, max_size as nat),
            Err(e) => is_empty_range(min_size as nat, max_size as nat) && e@ == range_complaint(),
        },
        r is Err <==> 0 < max_size < min_size,
        r matches Err(e) ==> e@ == "Error: --min-size cannot be greater than --max-size"@,
{
    if max_size > 0 && min_size > max_size {
        Err("Error: --min-size cannot be greater than --max-size".to_owned())
    } else {
        Ok(())
    }
}

/// Reads the bounds of the command line.
pub fn parse_limits(
    min_size: &Option<String>,
    max_size: &Option<String>,
    max_find_time: &Option<String>,
) -> (r: Result<Limits, String>)
    ensures
        limits_answer(*min_size, *max_size, *max_find_time, false, r),
        is_ascii_bound(*min_size) && is_ascii_bound(*max_size) && is_ascii_bound(*max_find_time)
            ==> limits_answer(*min_size, *max_size, *max_find_time, true, r),
        match r {
            Ok(l) => {
                &&& bound_is(Quantity::Size, *min_size, l.min_size)
                &&& bound_is(Quantity::Size, *max_size, l.max_size)
                &&& bound_is(Quantity::Time, *max_find_time, l.max_find_time)
                &&& l.max_size == 0 || l.min_size <= l.max_size
            },
            Err(e) => {
                ||| min_size is Some && is_refused(Quantity::Size, min_size->0@, e@)
                ||| max_size is Some && is_refused(Quantity::Size, max_size->0@, e@)
                ||| max_find_time is Some && is_refused(Quantity::Time, max_find_time->0@, e@)
                ||| {
                    &&& e@ == "Error: --min-size cannot be greater than --max-size"@
                    &&& exists|lo: u64, hi: u64|
                        0 < hi < lo && #[trigger] bound_is(Quantity::Size, *min_size, lo)
                            && #[trigger] bound_is(Quantity::Size, *max_size, hi)
                }
            },
        },
{
    let min: u64 = match min_size {
        Some(s) => match parse_size(s.as_str()) {
            Ok(v) => v,
            Err(e) => {
                return Err(e);
            },
        },
        None => 0,
    };
    let max: u64 = match max_size {
        Some(s) => match parse_size(s.as_str()) {
            Ok(v) => v,
            Err(e) => {
                return Err(e);
            },
        },
        None => 0,
    };
    if let Err(e) = check_range(min, max) {
        assert(bound_is(Quantity::Size, *min_size, min));
        assert(bound_is(Quantity::Size, *max_size, max));
        return Err(e);
    }
    let time: u64 = match max_find_time {
        Some(s) => match parse_time(s.as_str()) {
            Ok(v) => v,
            Err(e) => {
                return Err(e);
            },
        },
        None => 0,
    };
    Ok(Limits { min_size: min, max_size: max, max_find_time: time })
}

/// The two directories of the command line, without slashes at their ends; `None` if there are
/// not exactly two.
pub fn parse_directories(positional: &Vec<String>) -> (r: Option<(String, String)>)
    ensures
        match r {
            Some((one, two)) => {
                &&& positional@.len() == 2
                &&& one@ == without_slashes(positional@[0]@)
                &&& two@ == without_slashes(positional@[1]@)
            },
            None => positional@.len() != 2,
        },
{
    if positional.len() != 2 {
        None
    } else {
        Some(
            (trim_end_slashes(positional[0].as_str()), trim_end_slashes(positional[1].as_str())),
        )
    }
}

/// The message for a directory that does not exist.
pub fn directory_not_found(dir: &str) -> (r: String)
    ensures
        r@ == "Directory not found: "@ + dir@,
{
    let mut out = "Directory not found: ".to_owned();
    out.append(dir);
    out
}

/// Words with a blank between them.
pub open spec fn words_text(words: Seq<&'static str>) -> Seq<char>
    decreases words.len(),
{
    if words.len() == 0 {
        Seq::empty()
    } else if words.len() == 1 {
        words[0]@
    } else {
        words_text(words.drop_last()) + " "@ + words.last()@
    }
}

/// Joins words with a blank between them.
fn join_words(words: &[&'static str]) -> (r: String)
    ensures
        r@ == words_text(words@),
{
    let mut out = String::new();
    let mut i: usize = 0;
    while i < words.len()
        invariant
            i <= words@.len(),
            out@ == words_text(words@.take(i as int)),
        decreases words@.len() - i,
    {
        let ghost next = words@.take(i + 1);
        assert(next.drop_last() == words@.take(i as int));
        assert(next.last() == words@[i as int]);
        if i > 0 {
            out.append(" ");
        }
        out.append(words[i]);
        i = i + 1;
        assert(out@ =~= words_text(next));
    }
    assert(words@.take(i as int) == words@);
    out
}

/// Rows of words are joined by a blank, as the words in them are, and a word alone is itself.
pub proof fn law_words_are_joined_by_blanks(
    word: &'static str,
    one: Seq<&'static str>,
    two: Seq<&'static str>,
)
    requires
        one.len() > 0,
        two.len() > 0,
    ensures
        words_text(seq![word]) == word@,
        words_text(one + two) == words_text(one) + " "@ + words_text(two),
    decreases two.len(),
{
    let all = one + two;
    assert(all.last() == two.last());
    if two.len() == 1 {
        assert(all.drop_last() =~= one);
    } else {
        let less = two.drop_last();
        law_words_are_joined_by_blanks(word, one, less);
        assert(all.drop_last() =~= one + less);
        assert(words_text(all) =~= words_text(one) + " "@ + words_text(two));
    }
}

/// The message for an algorithm that does not exist.
pub open spec fn unsupported_algo(name: Seq<char>) -> Seq<char> {
    "Unsupported hash algorithm: "@ + name + "\nAvailable: "@ + words_text(ALLOWED_ALGOS@)
}

/// The algorithm that the command line names. A name only counts if files are compared by
/// digest.
pub fn select_algo(hash_mode: bool, name: &str) -> (r: Result<HashAlgo, String>)
    ensures
        !hash_mode ==> r == Ok::<HashAlgo, String>(HashAlgo::Sha256),
        hash_mode ==> match r {
            Ok(algo) => goes_by(algo, name@),
            Err(e) => {
                &&& forall|algo: HashAlgo| !(#[trigger] goes_by(algo, name@))
                &&& e@ == unsupported_algo(name@)
            },
        },
        hash_mode ==> (r == Ok::<HashAlgo, String>(HashAlgo::Md5) <==> name@ == "md5sum"@
            || name@ == "md5"@),
        hash_mode ==> (r == Ok::<HashAlgo, String>(HashAlgo::Sha1) <==> name@ == "sha1sum"@
            || name@ == "sha1"@),
        hash_mode ==> (r == Ok::<HashAlgo, String>(HashAlgo::Sha256) <==> name@ == "sha256sum"@
            || name@ == "sha256"@),
        hash_mode ==> (r == Ok::<HashAlgo, String>(HashAlgo::Sha512) <==> name@ == "sha512sum"@
            || name@ == "sha512"@),
        hash_mode ==> (r == Ok::<HashAlgo, String>(HashAlgo::Sha3_256) <==> name@ == "sha3-256sum"@
            || name@ == "sha3-256"@),
        hash_mode ==> (r == Ok::<HashAlgo, String>(HashAlgo::Sha3_512) <==> name@ == "sha3-512sum"@
            || name@ == "sha3-512"@),
        hash_mode ==> (r == Ok::<HashAlgo, String>(HashAlgo::Blake2b) <==> name@ == "b2sum"@
            || name@ == "blake2b"@),
        hash_mode ==> (r == Ok::<HashAlgo, String>(HashAlgo::Blake3) <==> name@ == "b3sum"@
            || name@ == "blake3"@),
        hash_mode ==> (r == Ok::<HashAlgo, String>(HashAlgo::Xxh32) <==> name@ == "xxh32sum"@
            || name@ == "xxh32"@),
        hash_mode ==> (r == Ok::<HashAlgo, String>(HashAlgo::Xxh64) <==> name@ == "xxh64sum"@
            || name@ == "xxh64"@),
        hash_mode ==> (r == Ok::<HashAlgo, String>(HashAlgo::Xxh3) <==> name@ == "xxh3sum"@
            || name@ == "xxh3"@),
        hash_mode ==> (r == Ok::<HashAlgo, String>(HashAlgo::Crc32) <==> name@ == "crc32sum"@
            || name@ == "crc32"@),
        r matches Err(e) ==> e@ == "Unsupported hash algorithm: "@ + name@ + "\nAvailable: "@
            + words_text(ALLOWED_ALGOS@),
{
    if !hash_mode {
        return Ok(HashAlgo::Sha256);
    }
    match HashAlgo::from_name(name) {
        Some(algo) => Ok(algo),
        None => {
            let mut e = "Unsupported hash algorithm: ".to_owned();
            e.append(name);
            e.append("\nAvailable: ");
            e.append(join_words(ALLOWED_ALGOS.as_slice()).as_str());
            Err(e)
        },
    }
}

/// How many workers check files at once: one unless the command line says otherwise, and as
/// many as there are processors if it says zero.
pub fn resolve_jobs(jobs: Option<usize>, processors: usize) -> (r: usize)
    ensures
        r == match jobs {
            None => 1,
            Some(n) => if n > 0 {
                n
            } else if processors > 0 {
                processors
            } else {
                1
            },
        },
        r >= 1,
{
    match jobs {
        None => 1,
        Some(n) => if n > 0 {
            n
        } else if processors > 0 {
            processors
        } else {
            1
        },
    }
}

/// Whether a spinner shows the file that is checked: only if one file is checked at a time and
/// each gets a line of its own.
pub fn live_ui(out: &OutputOpts, jobs: usize) -> (r: bool)
    ensures
        r == (jobs <= 1 && !out.progress && !out.quiet),
{
    jobs <= 1 && !out.progress && !out.quiet
}

/// Whether digests are remembered: only a search by digest computes the same ones over again.
pub fn cache_enabled(hash_mode: bool, find_renamed: bool, no_hash_cache: bool) -> (r: bool)
    ensures
        r == (hash_mode && find_renamed && !no_hash_cache),
{
    hash_mode && find_renamed && !no_hash_cache
}

/// The name of the cache file of a process.
pub fn cache_file_name(pid: u32) -> (r: String)
    ensures
        r@ == "compareDirs2-hashes-"@ + decimal(pid as nat) + ".tsv"@,
{
    let mut out = "compareDirs2-hashes-".to_owned();
    push_decimal(&mut out, pid as u64);
    out.append(".tsv");
    out
}

/// The width of the terminal.
pub fn term_width(detected: Option<u16>) -> (r: u16)
    ensures
        r == match detected {
            Some(w) => w,
            None => DEFAULT_WIDTH,
        },
{
    match detected {
        Some(w) => w,
        None => DEFAULT_WIDTH,
    }
}

/// The indented names, each on a line of its own.
pub open spec fn name_list(names: Seq<String>) -> Seq<char>
    decreases names.len(),
{
    if names.len() == 0 {
        Seq::empty()
    } else {
        name_list(names.drop_last()) + "    "@ + names.last()@ + "\n"@
    }
}

/// Rows of names are listed one after the other, and a name on a line of its own.
pub proof fn law_names_are_listed_one_by_one(name: String, one: Seq<String>, two: Seq<String>)
    ensures
        name_list(Seq::empty()) == Seq::<char>::empty(),
        name_list(seq![name]) == "    "@ + name@ + "\n"@,
        name_list(one + two) == name_list(one) + name_list(two),
    decreases two.len(),
{
    reveal_with_fuel(name_list, 2);
    assert(seq![name].drop_last() =~= Seq::<String>::empty());
    assert(name_list(seq![name]) =~= "    "@ + name@ + "\n"@);
    if two.len() == 0 {
        assert(one + two =~= one);
        assert(name_list(one + two) =~= name_list(one) + name_list(two));
    } else {
        law_names_are_listed_one_by_one(name, one, two.drop_last());
        assert((one + two).drop_last() =~= one + two.drop_last());
        assert(name_list(one + two) =~= name_list(one) + name_list(two));
    }
}

/// What a dry run writes: the names of the files that would be checked.
pub fn dry_run(names: &Vec<String>) -> (r: String)
    ensures
        r@ == BLUE@ + "*"@ + RESET@ + " Dry run: "@ + decimal(names@.len())
            + " file(s) would be checked.\n"@ + name_list(names@),
{
    let mut out = BLUE.to_owned();
    out.append("*");
    out.append(RESET);
    out.append(" Dry run: ");
    push_decimal(&mut out, names.len() as u64);
    out.append(" file(s) would be checked.\n");
    let ghost heading = out@;
    let mut i: usize = 0;
    while i < names.len()
        invariant
            i <= names@.len(),
            out@ == heading + name_list(names@.take(i as int)),
        decreases names@.len() - i,
    {
        let ghost next = names@.take(i + 1);
        assert(next.drop_last() == names@.take(i as int));
        out.append("    ");
        out.append(names[i].as_str());
        out.append("\n");
        i = i + 1;
        assert(out@ =~= heading + name_list(next));
    }
    assert(names@.take(i as int) == names@);
    out
}

/// Every algorithm that is offered is one that can be selected.
pub proof fn law_offered_algorithms_exist(i: int)
    requires
        0 <= i < ALLOWED_ALGOS@.len(),
    ensures
        exists|algo: HashAlgo| #[trigger] goes_by(algo, ALLOWED_ALGOS@[i]@),
{
    let names = ALLOWED_ALGOS@;
    assert(goes_by(HashAlgo::Md5, names[0]@));
    assert(goes_by(HashAlgo::Sha1, names[1]@));
    assert(goes_by(HashAlgo::Sha256, names[2]@));
    assert(goes_by(HashAlgo::Sha512, names[3]@));
    assert(goes_by(HashAlgo::Sha3_256, names[4]@));
    assert(goes_by(HashAlgo::Sha3_512, names[5]@));
    assert(goes_by(HashAlgo::Blake2b, names[6]@));
    assert(goes_by(HashAlgo::Blake3, names[7]@));
    assert(goes_by(HashAlgo::Xxh32, names[8]@));
    assert(goes_by(HashAlgo::Xxh64, names[9]@));
    assert(goes_by(HashAlgo::Xxh3, names[10]@));
    assert(goes_by(HashAlgo::Crc32, names[11]@));
}

} // verus!
