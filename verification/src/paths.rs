//! Unix paths as text: relative names, counterparts, and which files of a walk are checked.

use std::path::Path;

use vstd::prelude::*;

use crate::text::{contains, law_occurs_between, occurs, text_view};

verus! {

/// `rel` is the name of a file relative to a directory: components with one slash between
/// them, none of which is a single dot.
pub open spec fn is_relative_name(rel: Seq<char>) -> bool {
    &&& rel.len() > 0
    &&& rel.first() != '/'
    &&& rel.last() != '/'
    &&& forall|i: int| 0 <= i < rel.len() - 1 && #[trigger] rel[i] == '/' ==> rel[i + 1] != '/'
    &&& forall|i: int|
        0 <= i < rel.len() && #[trigger] rel[i] == '.' ==> {
            ||| i > 0 && rel[i - 1] != '/'
            ||| i < rel.len() - 1 && rel[i + 1] != '/'
        }
}

/// `path` is `rel` in the directory `base`, with one slash between the two.
pub open spec fn lies_under(path: Seq<char>, base: Seq<char>, rel: Seq<char>) -> bool {
    &&& base.len() > 0
    &&& base.last() != '/'
    &&& is_relative_name(rel)
    &&& path == base + "/"@ + rel
}

/// What stands between the slashes of a path.
pub open spec fn pieces(path: Seq<char>) -> Seq<Seq<char>>
    decreases path.len(),
{
    if path.len() == 0 {
        seq![Seq::empty()]
    } else {
        let before = pieces(path.drop_last());
        if path.last() == '/' {
            before.push(Seq::empty())
        } else {
            before.drop_last().push(before.last().push(path.last()))
        }
    }
}

/// A piece of a path that names something: not empty and not a single dot.
pub open spec fn is_proper(piece: Seq<char>) -> bool {
    piece.len() > 0 && piece != seq!['.']
}

/// The components of a path: the root or a single dot if the path begins with it, and every
/// piece that names something.
pub open spec fn components(path: Seq<char>) -> Seq<Seq<char>> {
    let start = if path.len() > 0 && path.first() == '/' {
        seq![seq!['/']]
    } else if pieces(path).first() == seq!['.'] {
        seq![seq!['.']]
    } else {
        Seq::empty()
    };
    start + pieces(path).filter(|piece: Seq<char>| is_proper(piece))
}

/// The path does not begin at the root.
pub open spec fn is_relative(path: Seq<char>) -> bool {
    path.len() == 0 || path.first() != '/'
}

/// The path begins with the components of the base.
pub open spec fn begins_with(path: Seq<char>, base: Seq<char>) -> bool {
    components(base).is_prefix_of(components(path))
}

/// What is left of a path without the components of a base with which it begins; `None` if it
/// does not begin with them.
pub uninterp spec fn stripped(path: Seq<char>, base: Seq<char>) -> Option<Seq<char>>;

/// Calls `Path::strip_prefix`, by the rules of Unix: the result is a function of the two paths.
/// There is one if and only if `path` begins with the components of `base`, and joined to `base`
/// it has the components of `path`. It is a relative path unless `base` is empty; of a file in
/// the directory `base` it is the name relative to that directory.
#[verifier::external_body]
fn strip_prefix(path: &str, base: &str) -> (r: Option<String>)
    ensures
        text_view(r) == stripped(path@, base@),
        r is Some <==> begins_with(path@, base@),
        r matches Some(rest) ==> components(joined(base@, rest@)) == components(path@),
        r matches Some(rest) ==> base@.len() == 0 || is_relative(rest@),
        forall|rel: Seq<char>| #[trigger]
            lies_under(path@, base@, rel) ==> text_view(r) == Some(rel),
{
    match Path::new(path).strip_prefix(base) {
        Ok(rest) => Some(rest.display().to_string()),
        Err(_) => None,
    }
}

/// The name of a file, once it is known what is left of its path without the directory.
pub open spec fn name_or_path(path: Seq<char>, rest: Option<Seq<char>>) -> Seq<char> {
    match rest {
        Some(r) => r,
        None => path,
    }
}

/// The name of a file relative to a directory, or its path if it does not lie there.
pub open spec fn relative_name(path: Seq<char>, dir: Seq<char>) -> Seq<char> {
    name_or_path(path, stripped(path, dir))
}

/// The name of a file: its path in full, or what is left of the path without the directory, if
/// anything is.
pub fn choose_name(path: &str, rest: Option<String>, verbose: bool) -> (r: String)
    ensures
        r@ == if verbose {
            path@
        } else {
            name_or_path(path@, text_view(rest))
        },
        verbose || rest is None ==> r@ == path@,
        !verbose && rest is Some ==> r@ == rest->0@,
{
    if verbose {
        path.to_owned()
    } else {
        match rest {
            Some(r) => r,
            None => path.to_owned(),
        }
    }
}

/// The name under which a file is shown: its path in full, or relative to the directory.
pub fn display_name(dir: &str, file: &str, verbose: bool) -> (r: String)
    ensures
        r@ == if verbose {
            file@
        } else {
            relative_name(file@, dir@)
        },
        verbose ==> r@ == file@,
        !verbose ==> match stripped(file@, dir@) {
            Some(rest) => r@ == rest,
            None => r@ == file@,
        },
        !verbose ==> if begins_with(file@, dir@) {
            &&& components(joined(dir@, r@)) == components(file@)
            &&& dir@.len() > 0 ==> is_relative(r@)
        } else {
            r@ == file@
        },
        forall|rel: Seq<char>| #[trigger]
            lies_under(file@, dir@, rel) && !verbose ==> r@ == rel,
{
    if verbose {
        file.to_owned()
    } else {
        choose_name(file, strip_prefix(file, dir), false)
    }
}

/// `rel` as seen from the directory `base`; an absolute path stays as it is.
pub open spec fn joined(base: Seq<char>, rel: Seq<char>) -> Seq<char> {
    if rel.len() > 0 && rel.first() == '/' {
        rel
    } else if base.len() == 0 || base.last() == '/' {
        base + rel
    } else {
        base + "/"@ + rel
    }
}

/// Whether a text begins with a slash.
fn begins_with_slash(s: &str) -> (r: bool)
    ensures
        r == (s@.len() > 0 && s@.first() == '/'),
{
    s.unicode_len() > 0 && s.get_char(0) == '/'
}

/// Whether a text ends with a slash.
fn ends_with_slash(s: &str) -> (r: bool)
    ensures
        r == (s@.len() > 0 && s@.last() == '/'),
{
    let n = s.unicode_len();
    n > 0 && s.get_char(n - 1) == '/'
}

/// Joins a path to a directory.
pub fn join_path(base: &str, rel: &str) -> (r: String)
    ensures
        r@ == joined(base@, rel@),
        rel@.len() > 0 && rel@[0] == '/' ==> r@ == rel@,
        !(rel@.len() > 0 && rel@[0] == '/') && (base@.len() == 0 || base@.last() == '/') ==> r@
            == base@ + rel@,
        !(rel@.len() > 0 && rel@[0] == '/') && base@.len() > 0 && base@.last() != '/' ==> r@
            == base@ + "/"@ + rel@,
{
    if begins_with_slash(rel) {
        rel.to_owned()
    } else {
        let mut out = base.to_owned();
        if !base.is_empty() && !ends_with_slash(base) {
            out.append("/");
        }
        out.append(rel);
        out
    }
}

/// The path at which the counterpart of a file is expected: in the other directory, under the
/// same relative name.
pub fn counterpart(dir: &str, file: &str, other: &str) -> (r: String)
    ensures
        r@ == joined(other@, relative_name(file@, dir@)),
        if begins_with(file@, dir@) {
            dir@.len() > 0 ==> is_relative(relative_name(file@, dir@))
        } else {
            r@ == joined(other@, file@)
        },
        ({
            let name = match stripped(file@, dir@) {
                Some(rest) => rest,
                None => file@,
            };
            &&& name.len() > 0 && name[0] == '/' ==> r@ == name
            &&& !(name.len() > 0 && name[0] == '/') && other@.len() > 0 && other@.last() != '/'
                ==> r@ == other@ + "/"@ + name
            &&& !(name.len() > 0 && name[0] == '/') && (other@.len() == 0 || other@.last() == '/')
                ==> r@ == other@ + name
        }),
        forall|rel: Seq<char>| #[trigger]
            lies_under(file@, dir@, rel) ==> r@ == joined(other@, rel),
{
    let name = choose_name(file, strip_prefix(file, dir), false);
    join_path(other, name.as_str())
}

/// The pieces of two paths with a slash between them are those of the one and those of the
/// other.
proof fn lemma_pieces_of_joined(base: Seq<char>, rel: Seq<char>)
    ensures
        pieces(base).len() > 0,
        pieces(base + seq!['/'] + rel) == pieces(base) + pieces(rel),
    decreases base.len() + rel.len(),
{
    let path = base + seq!['/'] + rel;
    if rel.len() == 0 {
        assert(path.drop_last() == base);
        if base.len() > 0 {
            lemma_pieces_of_joined(base.drop_last(), rel);
        }
        assert(pieces(path) =~= pieces(base) + pieces(rel));
    } else {
        assert(path.drop_last() == base + seq!['/'] + rel.drop_last());
        lemma_pieces_of_joined(base, rel.drop_last());
        lemma_pieces_of_joined(rel.drop_last(), Seq::empty());
        assert(pieces(path) =~= pieces(base) + pieces(rel));
    }
}

/// A file that lies in a directory begins with the components of the directory, and the name
/// relative to the directory, which is no absolute path, leads back to the file.
pub proof fn law_relative_name_leads_back(file: Seq<char>, dir: Seq<char>, rel: Seq<char>)
    requires
        lies_under(file, dir, rel),
    ensures
        joined(dir, rel) == file,
        is_relative(rel),
        begins_with(file, dir),
{
    reveal_strlit("/");
    assert("/"@ == seq!['/']);
    lemma_pieces_of_joined(dir, rel);
    let proper = |piece: Seq<char>| is_proper(piece);
    Seq::filter_distributes_over_add(pieces(dir), pieces(rel), proper);
    assert(pieces(file).first() == pieces(dir).first());
    assert(file.first() == dir.first());
    let start = components(file).take(components(dir).len() as int);
    assert(start =~= components(dir));
}

/// A file and its counterpart have the same name relative to their directories.
pub proof fn law_counterpart_has_the_same_name(other: Seq<char>, rel: Seq<char>)
    requires
        other.len() > 0,
        other.last() != '/',
        is_relative_name(rel),
    ensures
        lies_under(joined(other, rel), other, rel),
{
}

/// Two files of a directory with different names have different counterparts.
pub proof fn law_counterparts_are_distinct(other: Seq<char>, one: Seq<char>, two: Seq<char>)
    requires
        is_relative_name(one),
        is_relative_name(two),
        joined(other, one) == joined(other, two),
    ensures
        one == two,
{
    let j = joined(other, one);
    let base = if other.len() == 0 || other.last() == '/' {
        other
    } else {
        other + "/"@
    };
    assert(j == base + one);
    assert(j == base + two);
    assert(j.skip(base.len() as int) == one);
    assert(j.skip(base.len() as int) == two);
}

/// An entry of a walk through a directory.
#[derive(Debug)]
pub struct WalkEntry {
    /// The entry could be looked at.
    pub readable: bool,
    /// The entry is a regular file.
    pub is_file: bool,
    pub path: String,
}

/// One of the patterns occurs in the name.
pub open spec fn is_excluded(name: Seq<char>, exclude: Seq<String>) -> bool {
    exists|j: int| 0 <= j < exclude.len() && occurs((#[trigger] exclude[j])@, name)
}

/// Whether one of the patterns occurs in the name.
pub fn excluded(name: &str, exclude: &Vec<String>) -> (r: bool)
    ensures
        r == is_excluded(name@, exclude@),
        r <==> exists|j: int| 0 <= j < exclude@.len() && occurs((#[trigger] exclude@[j])@, name@),
{
    let mut j: usize = 0;
    while j < exclude.len()
        invariant
            j <= exclude@.len(),
            forall|k: int| 0 <= k < j ==> !occurs((#[trigger] exclude@[k])@, name@),
        decreases exclude@.len() - j,
    {
        if contains(name, exclude[j].as_str()) {
            return true;
        }
        j = j + 1;
    }
    false
}

/// Without a pattern nothing is excluded, and a further pattern excludes the names in which it
/// occurs and no others.
pub proof fn law_pattern_excludes_where_it_occurs(
    name: Seq<char>,
    exclude: Seq<String>,
    pattern: String,
)
    ensures
        exclude.len() == 0 ==> !is_excluded(name, exclude),
        is_excluded(name, exclude.push(pattern)) <==> is_excluded(name, exclude) || occurs(
            pattern@,
            name,
        ),
{
    let more = exclude.push(pattern);
    if is_excluded(name, exclude) {
        let j = choose|j: int| 0 <= j < exclude.len() && occurs((#[trigger] exclude[j])@, name);
        assert(more[j] == exclude[j]);
    }
    assert(more[exclude.len() as int] == pattern);
    if is_excluded(name, more) && !occurs(pattern@, name) {
        let j = choose|j: int| 0 <= j < more.len() && occurs((#[trigger] more[j])@, name);
        assert(exclude[j] == more[j]);
    }
}

/// An entry of the walk through `dir` is a file to check.
pub open spec fn is_kept(dir: Seq<char>, entry: WalkEntry, exclude: Seq<String>) -> bool {
    &&& entry.readable
    &&& entry.is_file
    &&& !is_excluded(relative_name(entry.path@, dir), exclude)
}

/// The indices of the files to check among the first `n` entries of a walk.
pub open spec fn kept_among(
    dir: Seq<char>,
    entries: Seq<WalkEntry>,
    exclude: Seq<String>,
    n: nat,
) -> Seq<usize>
    decreases n,
{
    if n == 0 {
        Seq::empty()
    } else {
        let before = kept_among(dir, entries, exclude, (n - 1) as nat);
        if is_kept(dir, entries[n - 1], exclude) {
            before.push((n - 1) as usize)
        } else {
            before
        }
    }
}

/// The files to check, as indices into the entries of a walk through `dir`, in the order of
/// the walk: the regular files in whose relative name no pattern occurs.
pub fn collect_files(dir: &str, entries: &Vec<WalkEntry>, exclude: &Vec<String>) -> (r: Vec<usize>)
    ensures
        r@ == kept_among(dir@, entries@, exclude@, entries@.len()),
        forall|i: int, rel: Seq<char>|
            0 <= i < entries@.len() && #[trigger] lies_under(entries@[i].path@, dir@, rel) ==> (
            r@.contains(i as usize) <==> {
                &&& entries@[i].readable
                &&& entries@[i].is_file
                &&& !is_excluded(rel, exclude@)
            }),
        forall|j: int, k: int| 0 <= j < k < r@.len() ==> #[trigger] r@[j] < #[trigger] r@[k],
        forall|k: int| 0 <= k < r@.len() ==> #[trigger] r@[k] < entries@.len(),
        forall|i: int|
            #![trigger entries@[i]]
            0 <= i < entries@.len() ==> (r@.contains(i as usize) <==> {
                &&& entries@[i].readable
                &&& entries@[i].is_file
                &&& !exists|j: int|
                    0 <= j < exclude@.len() && occurs(
                        (#[trigger] exclude@[j])@,
                        match stripped(entries@[i].path@, dir@) {
                            Some(rest) => rest,
                            None => entries@[i].path@,
                        },
                    )
            }),
{
    let mut r: Vec<usize> = Vec::new();
    let mut i: usize = 0;
    while i < entries.len()
        invariant
            i <= entries@.len(),
            r@ == kept_among(dir@, entries@, exclude@, i as nat),
            forall|k: int, rel: Seq<char>|
                0 <= k < i && #[trigger] lies_under(entries@[k].path@, dir@, rel) ==> (is_kept(
                    dir@,
                    entries@[k],
                    exclude@,
                ) <==> {
                    &&& entries@[k].readable
                    &&& entries@[k].is_file
                    &&& !is_excluded(rel, exclude@)
                }),
        decreases entries@.len() - i,
    {
        let e = &entries[i];
        if e.readable && e.is_file {
            let keep = if exclude.len() == 0 {
                true
            } else {
                let name = choose_name(
                    e.path.as_str(),
                    strip_prefix(e.path.as_str(), dir),
                    false,
                );
                !excluded(name.as_str(), exclude)
            };
            if keep {
                r.push(i);
            }
        }
        i = i + 1;
    }
    proof {
        law_files_are_collected_once_in_order(dir@, entries@, exclude@, entries@.len());
        assert forall|k: int| 0 <= k < entries@.len() implies (r@.contains(k as usize) <==> {
            &&& (#[trigger] entries@[k]).readable
            &&& entries@[k].is_file
            &&& !exists|j: int|
                0 <= j < exclude@.len() && occurs(
                    (#[trigger] exclude@[j])@,
                    match stripped(entries@[k].path@, dir@) {
                        Some(rest) => rest,
                        None => entries@[k].path@,
                    },
                )
        }) by {
            assert(is_kept(dir@, entries@[k], exclude@) <==> r@.contains(k as usize));
        }
    }
    r
}

/// The files to check are exactly the regular files that are not excluded, each of them once
/// and in the order of the walk.
pub proof fn law_files_are_collected_once_in_order(
    dir: Seq<char>,
    entries: Seq<WalkEntry>,
    exclude: Seq<String>,
    n: nat,
)
    requires
        n <= entries.len() <= usize::MAX,
    ensures
        forall|i: int|
            0 <= i < n ==> (#[trigger] is_kept(dir, entries[i], exclude) <==> kept_among(
                dir,
                entries,
                exclude,
                n,
            ).contains(i as usize)),
        forall|k: int|
            0 <= k < kept_among(dir, entries, exclude, n).len() ==> #[trigger] kept_among(
                dir,
                entries,
                exclude,
                n,
            )[k] < n,
        forall|j: int, k: int|
            0 <= j < k < kept_among(dir, entries, exclude, n).len() ==> #[trigger] kept_among(
                dir,
                entries,
                exclude,
                n,
            )[j] < #[trigger] kept_among(dir, entries, exclude, n)[k],
    decreases n,
{
    if n > 0 {
        let m = (n - 1) as nat;
        let before = kept_among(dir, entries, exclude, m);
        let all = kept_among(dir, entries, exclude, n);
        law_files_are_collected_once_in_order(dir, entries, exclude, m);
        assert forall|i: int| 0 <= i < n implies (#[trigger] is_kept(dir, entries[i], exclude)
            <==> all.contains(i as usize)) by {
            if i < m {
                if before.contains(i as usize) {
                    let k = choose|k: int| 0 <= k < before.len() && before[k] == i as usize;
                    assert(all[k] == i as usize);
                }
                if all.contains(i as usize) {
                    let k = choose|k: int| 0 <= k < all.len() && all[k] == i as usize;
                    assert(k < before.len());
                    assert(before[k] == i as usize);
                }
            } else if is_kept(dir, entries[i], exclude) {
                assert(all[all.len() - 1] == i as usize);
            } else if all.contains(i as usize) {
                let k = choose|k: int| 0 <= k < all.len() && all[k] == i as usize;
                assert(before[k] < m);
            }
        }
    }
}

/// An entry is checked if and only if it can be looked at, is a regular file, and no pattern
/// stands anywhere in its name relative to the directory, or in its path if it has no such
/// name.
pub proof fn law_kept_files(dir: Seq<char>, entry: WalkEntry, exclude: Seq<String>)
    ensures
        ({
            let name = match stripped(entry.path@, dir) {
                Some(rest) => rest,
                None => entry.path@,
            };
            is_kept(dir, entry, exclude) <==> {
                &&& entry.readable
                &&& entry.is_file
                &&& forall|j: int|
                    0 <= j < exclude.len() ==> !(exists|before: Seq<char>, after: Seq<char>|
                        name == #[trigger] (before + (#[trigger] exclude[j])@ + after))
            }
        }),
{
    let name = match stripped(entry.path@, dir) {
        Some(rest) => rest,
        None => entry.path@,
    };
    assert forall|j: int| 0 <= j < exclude.len() implies (occurs((#[trigger] exclude[j])@, name)
        <==> exists|before: Seq<char>, after: Seq<char>|
        name == #[trigger] (before + exclude[j]@ + after)) by {
        law_occurs_between(exclude[j]@, name);
    }
}

/// A path joined to a directory is the path itself if it begins at the root, and otherwise the
/// two with one slash between them, the directory's own if it ends with one.
pub proof fn law_joining_puts_one_slash(base: Seq<char>, rel: Seq<char>)
    ensures
        joined(base, seq!['/'] + rel) == seq!['/'] + rel,
        is_relative(rel) ==> joined(base.push('/'), rel) == base + seq!['/'] + rel,
        is_relative(rel) && base.len() > 0 && base.last() != '/' ==> joined(base, rel)
            == joined(base.push('/'), rel),
        is_relative(rel) ==> joined(Seq::empty(), rel) == rel,
        is_relative(rel) <==> !(rel.len() > 0 && rel[0] == '/'),
{
    reveal_strlit("/");
    assert("/"@ =~= seq!['/']);
    assert(base.push('/') + rel =~= base + seq!['/'] + rel);
    assert(Seq::<char>::empty() + rel =~= rel);
    assert((seq!['/'] + rel).first() == '/');
}

/// `s` without the slashes at its end.
pub open spec fn without_slashes(s: Seq<char>) -> Seq<char>
    decreases s.len(),
{
    if s.len() > 0 && s.last() == '/' {
        without_slashes(s.drop_last())
    } else {
        s
    }
}

/// What is left without the slashes at the end begins the text and does not end with one, and
/// what was removed is slashes alone.
pub proof fn law_slashes_alone_are_removed(s: Seq<char>)
    ensures
        without_slashes(s).is_prefix_of(s),
        without_slashes(s).len() > 0 ==> without_slashes(s).last() != '/',
        forall|i: int| without_slashes(s).len() <= i < s.len() ==> #[trigger] s[i] == '/',
    decreases s.len(),
{
    if s.len() > 0 && s.last() == '/' {
        let t = s.drop_last();
        law_slashes_alone_are_removed(t);
        assert forall|i: int| without_slashes(s).len() <= i < s.len() implies #[trigger] s[i]
            == '/' by {
            if i < t.len() {
                assert(t[i] == s[i]);
            }
        }
    }
}

/// Removes the slashes at the end of a text.
pub fn trim_end_slashes(s: &str) -> (r: String)
    ensures
        r@ == without_slashes(s@),
        r@.is_prefix_of(s@),
        r@.len() > 0 ==> r@.last() != '/',
        forall|i: int| r@.len() <= i < s@.len() ==> #[trigger] s@[i] == '/',
{
    let len = s.unicode_len();
    let mut n: usize = len;
    assert(s@.take(n as int) == s@);
    while n > 0 && s.get_char(n - 1) == '/'
        invariant
            n <= len,
            len == s@.len(),
            without_slashes(s@) == without_slashes(s@.take(n as int)),
        decreases n,
    {
        assert(s@.take(n as int).drop_last() == s@.take(n - 1));
        n = n - 1;
    }
    assert(s@.subrange(0, n as int) == s@.take(n as int));
    proof {
        law_slashes_alone_are_removed(s@);
    }
    s.substring_char(0, n).to_owned()
}

} // verus!
