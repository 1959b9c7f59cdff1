//! White space and letter case.

use vstd::prelude::*;

use crate::text::to_chars;

verus! {

/// `c` has the Unicode property White_Space.
pub open spec fn is_white_space(c: char) -> bool {
    ||| '\u{9}' <= c <= '\u{d}'
    ||| c == ' '
    ||| c == '\u{85}'
    ||| c == '\u{a0}'
    ||| c == '\u{1680}'
    ||| '\u{2000}' <= c <= '\u{200a}'
    ||| c == '\u{2028}'
    ||| c == '\u{2029}'
    ||| c == '\u{202f}'
    ||| c == '\u{205f}'
    ||| c == '\u{3000}'
}

/// `s` without the white space that it begins with.
pub open spec fn trimmed_start(s: Seq<char>) -> Seq<char>
    decreases s.len(),
{
    if s.len() > 0 && is_white_space(s.first()) {
        trimmed_start(s.drop_first())
    } else {
        s
    }
}

/// `s` without the white space that it ends with.
pub open spec fn trimmed_end(s: Seq<char>) -> Seq<char>
    decreases s.len(),
{
    if s.len() > 0 && is_white_space(s.last()) {
        trimmed_end(s.drop_last())
    } else {
        s
    }
}

/// `s` without the white space around it.
pub open spec fn trimmed(s: Seq<char>) -> Seq<char> {
    trimmed_end(trimmed_start(s))
}

/// Whether `c` has the Unicode property White_Space.
fn white_space(c: char) -> (r: bool)
    ensures
        r == is_white_space(c),
{
    c >= '\u{9}' && c <= '\u{d}' || c == ' ' || c == '\u{85}' || c == '\u{a0}' || c == '\u{1680}'
        || c >= '\u{2000}' && c <= '\u{200a}' || c == '\u{2028}' || c == '\u{2029}' || c
        == '\u{202f}' || c == '\u{205f}' || c == '\u{3000}'
}

/// Removes the white space around a text.
pub fn trim(s: &str) -> (r: String)
    ensures
        r@ == trimmed(s@),
{
    let chars = to_chars(s);
    let mut from: usize = 0;
    let mut to: usize = chars.len();
    assert(s@.skip(0) == s@);
    while from < to && white_space(chars[from])
        invariant
            chars@ == s@,
            to == s@.len(),
            from <= to,
            trimmed_start(s@) == trimmed_start(s@.skip(from as int)),
        decreases to - from,
    {
        assert(s@.skip(from as int).drop_first() == s@.skip(from + 1));
        from = from + 1;
    }
    let ghost rest = s@.skip(from as int);
    assert(s@.subrange(from as int, to as int) == rest);
    while from < to && white_space(chars[to - 1])
        invariant
            chars@ == s@,
            from <= to <= s@.len(),
            trimmed_end(rest) == trimmed_end(s@.subrange(from as int, to as int)),
        decreases to - from,
    {
        assert(s@.subrange(from as int, to as int).drop_last() == s@.subrange(
            from as int,
            to - 1,
        ));
        to = to - 1;
    }
    s.substring_char(from, to).to_owned()
}

/// Every character of `s` is an ASCII character.
pub open spec fn is_ascii_text(s: Seq<char>) -> bool {
    forall|i: int| 0 <= i < s.len() ==> #[trigger] s[i] <= '\u{7f}'
}

/// `c` with an upper-case ASCII letter turned into the lower-case one.
pub open spec fn ascii_lower_char(c: char) -> char {
    if 'A' <= c <= 'Z' {
        (c as int + 32) as char
    } else {
        c
    }
}

/// `s` with its ASCII letters in lower case.
pub open spec fn ascii_lower(s: Seq<char>) -> Seq<char> {
    s.map_values(|c: char| ascii_lower_char(c))
}

/// The lower-case equivalent of a text, by the Unicode rules.
pub uninterp spec fn lowercase(s: Seq<char>) -> Seq<char>;

/// Calls `str::to_lowercase`: the lower-case equivalent of `s` is a function of `s` alone; in
/// an ASCII text it is that of each letter, and every other character stays.
#[verifier::external_body]
pub(crate) fn to_lowercase(s: &str) -> (r: String)
    ensures
        r@ == lowercase(s@),
        is_ascii_text(s@) ==> r@ == ascii_lower(s@),
{
    s.to_lowercase()
}

/// Lowering a text changes the capital letters from A to Z alone, each into the letter that is
/// 32 places behind it.
pub proof fn law_lowering_goes_letter_by_letter(s: Seq<char>, i: int)
    requires
        0 <= i < s.len(),
    ensures
        ascii_lower(s).len() == s.len(),
        'A' <= s[i] <= 'Z' ==> ascii_lower(s)[i] as int == s[i] as int + 32,
        !('A' <= s[i] <= 'Z') ==> ascii_lower(s)[i] == s[i],
{
}

/// What is left of a trimmed text neither begins nor ends with white space, and what was
/// removed around it is nothing else.
pub proof fn law_trimmed_is_the_middle(s: Seq<char>)
    ensures
        trimmed(s).len() > 0 ==> !is_white_space(trimmed(s).first()) && !is_white_space(
            trimmed(s).last(),
        ),
        exists|a: int, b: int|
            0 <= a <= b <= s.len() && trimmed(s) == #[trigger] s.subrange(a, b) && (forall|i: int|
                0 <= i < a || b <= i < s.len() ==> is_white_space(#[trigger] s[i])),
{
    lemma_trimmed_start_skips_space(s);
    let a = choose|a: int|
        0 <= a <= s.len() && trimmed_start(s) == #[trigger] s.skip(a) && forall|i: int|
            0 <= i < a ==> is_white_space(#[trigger] s[i]);
    let t = s.skip(a);
    lemma_trimmed_end_drops_space(t);
    let n = choose|n: int|
        0 <= n <= t.len() && trimmed_end(t) == #[trigger] t.take(n) && forall|i: int|
            n <= i < t.len() ==> is_white_space(#[trigger] t[i]);
    assert(s.subrange(a, a + n) =~= t.take(n));
    assert forall|i: int| 0 <= i < a || a + n <= i < s.len() implies is_white_space(
        #[trigger] s[i],
    ) by {
        if i >= a + n {
            assert(t[i - a] == s[i]);
        }
    }
    if n > 0 {
        assert(t.take(n).first() == t.first());
    }
}

/// Trimming the start of a text skips white space alone, and all of it.
proof fn lemma_trimmed_start_skips_space(s: Seq<char>)
    ensures
        trimmed_start(s).len() > 0 ==> !is_white_space(trimmed_start(s).first()),
        exists|a: int|
            0 <= a <= s.len() && trimmed_start(s) == #[trigger] s.skip(a) && forall|i: int|
                0 <= i < a ==> is_white_space(#[trigger] s[i]),
    decreases s.len(),
{
    if s.len() > 0 && is_white_space(s.first()) {
        let t = s.drop_first();
        lemma_trimmed_start_skips_space(t);
        let a = choose|a: int|
            0 <= a <= t.len() && trimmed_start(t) == #[trigger] t.skip(a) && forall|i: int|
                0 <= i < a ==> is_white_space(#[trigger] t[i]);
        assert(s.skip(a + 1) =~= t.skip(a));
        assert forall|i: int| 0 <= i < a + 1 implies is_white_space(#[trigger] s[i]) by {
            if i > 0 {
                assert(t[i - 1] == s[i]);
            }
        }
    } else {
        assert(s.skip(0) =~= s);
    }
}

/// Trimming the end of a text drops white space alone, and all of it.
proof fn lemma_trimmed_end_drops_space(s: Seq<char>)
    ensures
        trimmed_end(s).len() > 0 ==> !is_white_space(trimmed_end(s).last()),
        exists|n: int|
            0 <= n <= s.len() && trimmed_end(s) == #[trigger] s.take(n) && forall|i: int|
                n <= i < s.len() ==> is_white_space(#[trigger] s[i]),
    decreases s.len(),
{
    if s.len() > 0 && is_white_space(s.last()) {
        let t = s.drop_last();
        lemma_trimmed_end_drops_space(t);
        let n = choose|n: int|
            0 <= n <= t.len() && trimmed_end(t) == #[trigger] t.take(n) && forall|i: int|
                n <= i < t.len() ==> is_white_space(#[trigger] t[i]);
        assert(s.take(n) =~= t.take(n));
        assert forall|i: int| n <= i < s.len() implies is_white_space(#[trigger] s[i]) by {
            if i < t.len() {
                assert(t[i] == s[i]);
            }
        }
    } else {
        assert(s.take(s.len() as int) =~= s);
    }
}

/// What stands around a text does not count if it is white space.
pub proof fn law_trimming_ignores_surrounding_space(
    before: Seq<char>,
    s: Seq<char>,
    after: Seq<char>,
)
    requires
        forall|i: int| 0 <= i < before.len() ==> is_white_space(#[trigger] before[i]),
        forall|i: int| 0 <= i < after.len() ==> is_white_space(#[trigger] after[i]),
    ensures
        trimmed(before + s + after) == trimmed(s),
{
    let t = s + after;
    lemma_trim_start_skips(before, t);
    assert(before + s + after == before + t);
    lemma_trim_end_skips(s, after);
}

/// Trimming the start of a text skips white space put before it.
proof fn lemma_trim_start_skips(before: Seq<char>, t: Seq<char>)
    requires
        forall|i: int| 0 <= i < before.len() ==> is_white_space(#[trigger] before[i]),
    ensures
        trimmed_start(before + t) == trimmed_start(t),
    decreases before.len(),
{
    if before.len() == 0 {
        assert(before + t == t);
    } else {
        let rest = before.drop_first();
        assert((before + t).drop_first() == rest + t);
        assert((before + t).first() == before[0]);
        assert forall|i: int| 0 <= i < rest.len() implies is_white_space(#[trigger] rest[i]) by {
            assert(rest[i] == before[i + 1]);
        }
        lemma_trim_start_skips(rest, t);
    }
}

/// Trimming a text skips white space put behind it.
proof fn lemma_trim_end_skips(s: Seq<char>, after: Seq<char>)
    requires
        forall|i: int| 0 <= i < after.len() ==> is_white_space(#[trigger] after[i]),
    ensures
        trimmed(s + after) == trimmed(s),
    decreases s.len(), after.len(),
{
    let t = s + after;
    if s.len() == 0 {
        assert(t == after);
        lemma_trim_start_skips(after, Seq::empty());
        assert(after + Seq::empty() == after);
        assert(s == Seq::<char>::empty());
    } else if is_white_space(s.first()) {
        assert(t.first() == s.first());
        assert(t.drop_first() == s.drop_first() + after);
        lemma_trim_end_skips(s.drop_first(), after);
    } else {
        assert(t.first() == s.first());
        lemma_trim_end_drops(s, after);
    }
}

/// Trimming the end of a text skips white space put behind it.
proof fn lemma_trim_end_drops(s: Seq<char>, after: Seq<char>)
    requires
        forall|i: int| 0 <= i < after.len() ==> is_white_space(#[trigger] after[i]),
    ensures
        trimmed_end(s + after) == trimmed_end(s),
    decreases after.len(),
{
    if after.len() == 0 {
        assert(s + after == s);
    } else {
        assert((s + after).drop_last() == s + after.drop_last());
        assert((s + after).last() == after.last());
        lemma_trim_end_drops(s, after.drop_last());
    }
}

/// What is left of an ASCII text after trimming is ASCII.
pub proof fn lemma_trimmed_ascii(s: Seq<char>)
    requires
        is_ascii_text(s),
    ensures
        is_ascii_text(trimmed(s)),
{
    lemma_trimmed_start_ascii(s);
    lemma_trimmed_end_ascii(trimmed_start(s));
}

proof fn lemma_trimmed_start_ascii(s: Seq<char>)
    requires
        is_ascii_text(s),
    ensures
        is_ascii_text(trimmed_start(s)),
    decreases s.len(),
{
    if s.len() > 0 && is_white_space(s.first()) {
        assert forall|i: int| 0 <= i < s.drop_first().len() implies #[trigger] s.drop_first()[i]
            <= '\u{7f}' by {
            assert(s.drop_first()[i] == s[i + 1]);
        }
        lemma_trimmed_start_ascii(s.drop_first());
    }
}

proof fn lemma_trimmed_end_ascii(s: Seq<char>)
    requires
        is_ascii_text(s),
    ensures
        is_ascii_text(trimmed_end(s)),
    decreases s.len(),
{
    if s.len() > 0 && is_white_space(s.last()) {
        lemma_trimmed_end_ascii(s.drop_last());
    }
}

/// Trimming and lowering commute.
proof fn lemma_lower_trimmed(s: Seq<char>)
    ensures
        ascii_lower(trimmed(s)) == trimmed(ascii_lower(s)),
    decreases s.len(),
{
    lemma_lower_trimmed_start(s);
    lemma_lower_trimmed_end(trimmed_start(s));
}

proof fn lemma_lower_trimmed_start(s: Seq<char>)
    ensures
        ascii_lower(trimmed_start(s)) == trimmed_start(ascii_lower(s)),
    decreases s.len(),
{
    if s.len() > 0 {
        assert(ascii_lower(s).first() == ascii_lower_char(s.first()));
        if is_white_space(s.first()) {
            assert(ascii_lower(s).drop_first() == ascii_lower(s.drop_first()));
            lemma_lower_trimmed_start(s.drop_first());
        }
    }
}

proof fn lemma_lower_trimmed_end(s: Seq<char>)
    ensures
        ascii_lower(trimmed_end(s)) == trimmed_end(ascii_lower(s)),
    decreases s.len(),
{
    if s.len() > 0 {
        assert(ascii_lower(s).last() == ascii_lower_char(s.last()));
        if is_white_space(s.last()) {
            assert(ascii_lower(s).drop_last() == ascii_lower(s.drop_last()));
            lemma_lower_trimmed_end(s.drop_last());
        }
    }
}

/// Two texts that differ in the case of ASCII letters alone are the same once trimmed and
/// put in lower case.
pub proof fn law_case_does_not_count(a: Seq<char>, b: Seq<char>)
    requires
        ascii_lower(a) == ascii_lower(b),
    ensures
        ascii_lower(trimmed(a)) == ascii_lower(trimmed(b)),
{
    lemma_lower_trimmed(a);
    lemma_lower_trimmed(b);
}

} // verus!
