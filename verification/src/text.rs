//! Numbers, repetitions and excerpts as text.

use vstd::arithmetic::power::{lemma_pow0, pow};
use vstd::prelude::*;

verus! {

/// The character of a decimal or hexadecimal digit, in lower case.
pub open spec fn digit_char(d: nat) -> char {
    if d < 10 {
        (48 + d) as char
    } else {
        (87 + d) as char
    }
}

/// `base` to the power of `n`.
pub open spec fn power(base: nat, n: nat) -> nat
    decreases n,
{
    if n == 0 {
        1
    } else {
        base * power(base, (n - 1) as nat)
    }
}

/// `n` in decimal, without leading zeros.
pub open spec fn decimal(n: nat) -> Seq<char>
    decreases n,
{
    if n < 10 {
        seq![digit_char(n)]
    } else {
        decimal(n / 10) + seq![digit_char(n % 10)]
    }
}

/// The last `width` hexadecimal digits of `n`, with leading zeros.
pub open spec fn fixed_hex(n: nat, width: nat) -> Seq<char>
    decreases width,
{
    if width == 0 {
        Seq::empty()
    } else {
        fixed_hex(n / 16, (width - 1) as nat) + seq![digit_char(n % 16)]
    }
}

/// Two hexadecimal digits for each byte, in the order of the bytes.
pub open spec fn hex_of(bytes: Seq<u8>) -> Seq<char>
    decreases bytes.len(),
{
    if bytes.len() == 0 {
        Seq::empty()
    } else {
        hex_of(bytes.drop_last()) + fixed_hex(bytes.last() as nat, 2)
    }
}

/// `unit`, `n` times over.
pub open spec fn repeated(unit: Seq<char>, n: nat) -> Seq<char>
    decreases n,
{
    if n == 0 {
        Seq::empty()
    } else {
        repeated(unit, (n - 1) as nat) + unit
    }
}

/// The last `n` characters of `s`, or all of them if there are no more.
pub open spec fn last_chars(s: Seq<char>, n: nat) -> Seq<char> {
    if n < s.len() {
        s.skip(s.len() - n)
    } else {
        s
    }
}

/// `s` cut at the front to its last `keep` characters, marked by an ellipsis.
pub open spec fn shortened(s: Seq<char>, keep: nat) -> Seq<char> {
    "..."@ + last_chars(s, keep)
}

/// A text that may be missing.
pub open spec fn text_view(text: Option<String>) -> Option<Seq<char>> {
    match text {
        Some(t) => Some(t@),
        None => None,
    }
}

/// `pat` stands somewhere in `text` without a gap.
pub open spec fn occurs(pat: Seq<char>, text: Seq<char>) -> bool {
    exists|i: int|
        0 <= i <= text.len() - pat.len() && #[trigger] text.subrange(i, i + pat.len()) == pat
}

/// The length of a repetition of one character.
pub proof fn lemma_repeated_len(unit: Seq<char>, n: nat)
    requires
        unit.len() == 1,
    ensures
        repeated(unit, n).len() == n,
    decreases n,
{
    if n > 0 {
        lemma_repeated_len(unit, (n - 1) as nat);
    }
}

/// The length of a zero-padded number.
pub proof fn lemma_fixed_hex_len(n: nat, width: nat)
    ensures
        fixed_hex(n, width).len() == width,
    decreases width,
{
    if width > 0 {
        lemma_fixed_hex_len(n / 16, (width - 1) as nat);
    }
}

/// The length of a byte string in hexadecimal.
pub proof fn lemma_hex_of_len(bytes: Seq<u8>)
    ensures
        hex_of(bytes).len() == 2 * bytes.len(),
    decreases bytes.len(),
{
    if bytes.len() > 0 {
        lemma_hex_of_len(bytes.drop_last());
        lemma_fixed_hex_len(bytes.last() as nat, 2);
    }
}

/// `c` is a lower-case hexadecimal digit.
pub open spec fn is_hex_digit(c: char) -> bool {
    '0' <= c <= '9' || 'a' <= c <= 'f'
}

/// Every character of a zero-padded number is a hexadecimal digit.
pub proof fn lemma_fixed_hex_digits(n: nat, width: nat)
    ensures
        forall|i: int|
            0 <= i < fixed_hex(n, width).len() ==> is_hex_digit(#[trigger] fixed_hex(n, width)[i]),
    decreases width,
{
    if width > 0 {
        let front = fixed_hex(n / 16, (width - 1) as nat);
        lemma_fixed_hex_digits(n / 16, (width - 1) as nat);
        assert forall|i: int| 0 <= i < fixed_hex(n, width).len() implies is_hex_digit(
            #[trigger] fixed_hex(n, width)[i],
        ) by {
            if i < front.len() {
                assert(is_hex_digit(front[i]));
            }
        }
    }
}

/// Every character of a byte string in hexadecimal is a hexadecimal digit.
pub proof fn lemma_hex_of_digits(bytes: Seq<u8>)
    ensures
        forall|i: int| 0 <= i < hex_of(bytes).len() ==> is_hex_digit(#[trigger] hex_of(bytes)[i]),
    decreases bytes.len(),
{
    if bytes.len() > 0 {
        lemma_hex_of_digits(bytes.drop_last());
        lemma_fixed_hex_digits(bytes.last() as nat, 2);
        let front = hex_of(bytes.drop_last());
        let back = fixed_hex(bytes.last() as nat, 2);
        assert forall|i: int| 0 <= i < hex_of(bytes).len() implies is_hex_digit(
            #[trigger] hex_of(bytes)[i],
        ) by {
            if i < front.len() {
                assert(is_hex_digit(front[i]));
            } else {
                assert(is_hex_digit(back[i - front.len()]));
            }
        }
    }
}

/// A decimal number has at least one digit, and every character of it is one.
pub proof fn lemma_decimal_digits(n: nat)
    ensures
        decimal(n).len() > 0,
        forall|i: int| 0 <= i < decimal(n).len() ==> '0' <= #[trigger] decimal(n)[i] <= '9',
    decreases n,
{
    if n >= 10 {
        lemma_decimal_digits(n / 10);
    }
}

/// A number below ten to the power of `k` has at most `k` digits.
pub proof fn lemma_decimal_len(n: nat, k: nat)
    requires
        k > 0,
        n < power(10, k),
    ensures
        decimal(n).len() <= k,
    decreases k,
{
    reveal_with_fuel(power, 2);
    if n >= 10 {
        lemma_decimal_len(n / 10, (k - 1) as nat);
    }
}

/// A 64-bit number has at most twenty digits.
pub proof fn lemma_decimal_len_u64(n: u64)
    ensures
        decimal(n as nat).len() <= 20,
{
    reveal_with_fuel(power, 21);
    lemma_decimal_len(n as nat, 20);
}

/// The digits are the ten of decimal and then the first six letters, in lower case.
pub proof fn law_digits_in_order(d: nat)
    requires
        d < 16,
    ensures
        digit_char(d) == "0123456789abcdef"@[d as int],
{
    reveal_strlit("0123456789abcdef");
}

/// A power is a repeated multiplication.
pub proof fn law_power_multiplies(base: nat, n: nat)
    ensures
        power(base, n) == pow(base as int, n),
    decreases n,
{
    reveal(pow);
    if n > 0 {
        law_power_multiplies(base, (n - 1) as nat);
    } else {
        lemma_pow0(base as int);
    }
}

/// The number that a row of lower-case hexadecimal digits writes.
pub open spec fn hex_value(s: Seq<char>) -> nat
    decreases s.len(),
{
    if s.len() == 0 {
        0
    } else {
        hex_value(s.drop_last()) * 16 + if '0' <= s.last() <= '9' {
            (s.last() as nat - 48) as nat
        } else {
            (s.last() as nat - 87) as nat
        }
    }
}

/// A number in hexadecimal has the digits that it was given, and they write the number, if they
/// are enough for it.
pub proof fn law_fixed_hex_is_read_back(n: nat, width: nat)
    requires
        n < pow(16, width),
    ensures
        fixed_hex(n, width).len() == width,
        hex_value(fixed_hex(n, width)) == n,
        forall|i: int|
            0 <= i < width ==> '0' <= #[trigger] fixed_hex(n, width)[i] <= '9' || 'a' <= fixed_hex(
                n,
                width,
            )[i] <= 'f',
    decreases width,
{
    law_power_multiplies(16, width);
    lemma_fixed_hex_len(n, width);
    lemma_fixed_hex_digits(n, width);
    if width > 0 {
        law_power_multiplies(16, (width - 1) as nat);
        law_fixed_hex_is_read_back(n / 16, (width - 1) as nat);
        assert(fixed_hex(n, width).drop_last() =~= fixed_hex(n / 16, (width - 1) as nat));
    }
}

/// A row of bytes in hexadecimal is the two digits of each byte, in the order of the bytes.
pub proof fn law_hex_of_goes_byte_by_byte(bytes: Seq<u8>, i: int)
    requires
        0 <= i < bytes.len(),
    ensures
        hex_of(bytes).len() == 2 * bytes.len(),
        hex_value(hex_of(bytes).subrange(2 * i, 2 * i + 2)) == bytes[i],
    decreases bytes.len(),
{
    reveal_with_fuel(power, 3);
    law_power_multiplies(16, 2);
    lemma_hex_of_len(bytes);
    let front = bytes.drop_last();
    lemma_hex_of_len(front);
    lemma_fixed_hex_len(bytes.last() as nat, 2);
    if i == bytes.len() - 1 {
        law_fixed_hex_is_read_back(bytes.last() as nat, 2);
        assert(hex_of(bytes).subrange(2 * i, 2 * i + 2) =~= fixed_hex(bytes.last() as nat, 2));
    } else {
        law_hex_of_goes_byte_by_byte(front, i);
        assert(hex_of(bytes).subrange(2 * i, 2 * i + 2) =~= hex_of(front).subrange(
            2 * i,
            2 * i + 2,
        ));
    }
}

/// Different rows of bytes are different in hexadecimal.
pub proof fn law_hex_tells_bytes_apart(a: Seq<u8>, b: Seq<u8>)
    ensures
        hex_of(a) == hex_of(b) <==> a == b,
{
    lemma_hex_of_len(a);
    lemma_hex_of_len(b);
    if hex_of(a) == hex_of(b) {
        assert forall|i: int| 0 <= i < a.len() implies a[i] == b[i] by {
            law_hex_of_goes_byte_by_byte(a, i);
            law_hex_of_goes_byte_by_byte(b, i);
        }
        assert(a =~= b);
    }
}

/// Different numbers are different in hexadecimal, if the digits are enough for both.
pub proof fn law_hex_tells_numbers_apart(m: nat, n: nat, width: nat)
    requires
        m < pow(16, width),
        n < pow(16, width),
    ensures
        fixed_hex(m, width) == fixed_hex(n, width) <==> m == n,
{
    law_fixed_hex_is_read_back(m, width);
    law_fixed_hex_is_read_back(n, width);
}

/// A repeated character stands as often as it was asked for, and nothing else does.
pub proof fn law_repeated_is_all_the_same(c: char, n: nat)
    ensures
        repeated(seq![c], n).len() == n,
        forall|i: int| 0 <= i < n ==> #[trigger] repeated(seq![c], n)[i] == c,
    decreases n,
{
    if n > 0 {
        law_repeated_is_all_the_same(c, (n - 1) as nat);
    }
}

/// A text that is cut at the front is three dots and the end of the text, as much of it as is
/// kept.
pub proof fn law_shortened_keeps_the_end(s: Seq<char>, keep: nat)
    ensures
        shortened(s, keep).take(3) == seq!['.', '.', '.'],
        shortened(s, keep).skip(3).is_suffix_of(s),
        shortened(s, keep).len() == 3 + if keep < s.len() {
            keep
        } else {
            s.len()
        },
{
    reveal_strlit("...");
    assert(shortened(s, keep).take(3) =~= seq!['.', '.', '.']);
    assert(shortened(s, keep).skip(3) =~= last_chars(s, keep));
}

/// A text occurs in every text that is put together with it, and in no other.
pub proof fn law_occurs_between(pat: Seq<char>, text: Seq<char>)
    ensures
        occurs(pat, text) <==> exists|before: Seq<char>, after: Seq<char>|
            text == #[trigger] (before + pat + after),
{
    if occurs(pat, text) {
        let i = choose|i: int|
            0 <= i <= text.len() - pat.len() && #[trigger] text.subrange(i, i + pat.len()) == pat;
        let (before, after) = (text.take(i), text.skip(i + pat.len()));
        assert(text =~= before + pat + after);
    }
    if exists|before: Seq<char>, after: Seq<char>| text == #[trigger] (before + pat + after) {
        let (before, after) = choose|before: Seq<char>, after: Seq<char>|
            text == #[trigger] (before + pat + after);
        let i = before.len() as int;
        assert(text.subrange(i, i + pat.len()) =~= pat);
    }
}

/// Whether two texts are the same.
pub fn same_text(a: &str, b: &str) -> (r: bool)
    ensures
        r == (a@ == b@),
{
    a.to_owned() == b.to_owned()
}

/// The characters of a text.
pub fn to_chars(s: &str) -> (r: Vec<char>)
    ensures
        r@ == s@,
{
    let mut r: Vec<char> = Vec::new();
    for c in it: s.chars()
        invariant
            it.seq() == s@,
            r@ == it.seq().take(it.index() as int),
    {
        r.push(c);
    }
    r
}

/// The text of one digit.
fn digit_text(d: u64) -> (r: &'static str)
    requires
        d < 16,
    ensures
        r@ == seq![digit_char(d as nat)],
{
    proof {
        reveal_strlit("0");
        reveal_strlit("1");
        reveal_strlit("2");
        reveal_strlit("3");
        reveal_strlit("4");
        reveal_strlit("5");
        reveal_strlit("6");
        reveal_strlit("7");
        reveal_strlit("8");
        reveal_strlit("9");
        reveal_strlit("a");
        reveal_strlit("b");
        reveal_strlit("c");
        reveal_strlit("d");
        reveal_strlit("e");
        reveal_strlit("f");
    }
    match d {
        0 => "0",
        1 => "1",
        2 => "2",
        3 => "3",
        4 => "4",
        5 => "5",
        6 => "6",
        7 => "7",
        8 => "8",
        9 => "9",
        10 => "a",
        11 => "b",
        12 => "c",
        13 => "d",
        14 => "e",
        _ => "f",
    }
}

/// Appends `n` in decimal.
pub fn push_decimal(out: &mut String, n: u64)
    ensures
        final(out)@ == old(out)@ + decimal(n as nat),
    decreases n,
{
    if n >= 10 {
        push_decimal(out, n / 10);
    }
    out.append(digit_text(n % 10));
}

/// Appends the last `width` hexadecimal digits of `n`.
fn push_fixed_hex(out: &mut String, n: u64, width: usize)
    ensures
        final(out)@ == old(out)@ + fixed_hex(n as nat, width as nat),
    decreases width,
{
    if width > 0 {
        push_fixed_hex(out, n / 16, width - 1);
        out.append(digit_text(n % 16));
    }
}

/// `n` in lower-case hexadecimal, padded with zeros to `width` digits.
pub fn hex_number(n: u64, width: usize) -> (r: String)
    ensures
        r@ == fixed_hex(n as nat, width as nat),
{
    let mut out = String::new();
    push_fixed_hex(&mut out, n, width);
    out
}

/// Each byte as two lower-case hexadecimal digits.
pub fn hex_bytes(bytes: &[u8]) -> (r: String)
    ensures
        r@ == hex_of(bytes@),
{
    let mut out = String::new();
    let mut i: usize = 0;
    while i < bytes.len()
        invariant
            i <= bytes@.len(),
            out@ == hex_of(bytes@.take(i as int)),
        decreases bytes@.len() - i,
    {
        assert(bytes@.take(i + 1).drop_last() == bytes@.take(i as int));
        push_fixed_hex(&mut out, bytes[i] as u64, 2);
        i = i + 1;
    }
    assert(bytes@.take(i as int) == bytes@);
    out
}

/// Appends `unit`, `n` times over.
pub fn push_repeat(out: &mut String, unit: &str, n: usize)
    ensures
        final(out)@ == old(out)@ + repeated(unit@, n as nat),
{
    let mut i: usize = 0;
    while i < n
        invariant
            i <= n,
            out@ == old(out)@ + repeated(unit@, i as nat),
        decreases n - i,
    {
        out.append(unit);
        i = i + 1;
        assert(out@ == old(out)@ + repeated(unit@, i as nat));
    }
}

/// Cuts `s` at the front to its last `keep` characters, after an ellipsis.
pub fn shorten(s: &str, keep: usize) -> (r: String)
    ensures
        r@ == shortened(s@, keep as nat),
{
    let len = s.unicode_len();
    let mut out = String::new();
    out.append("...");
    if keep < len {
        out.append(s.substring_char(len - keep, len));
        assert(s@.subrange(len - keep, len as int) == s@.skip(len - keep));
    } else {
        out.append(s);
    }
    out
}

/// Whether `pat` occurs in `text`; the empty pattern occurs in every text.
pub fn contains(text: &str, pat: &str) -> (r: bool)
    ensures
        r == occurs(pat@, text@),
{
    let t = to_chars(text);
    let p = to_chars(pat);
    let n = t.len();
    let m = p.len();
    if m > n {
        return false;
    }
    let mut i: usize = 0;
    while i <= n - m
        invariant
            t@ == text@,
            p@ == pat@,
            n == t@.len(),
            m == p@.len(),
            m <= n,
            i <= n - m + 1,
            forall|k: int| 0 <= k < i ==> #[trigger] t@.subrange(k, k + m) != p@,
        decreases n - m + 1 - i,
    {
        let mut j: usize = 0;
        while j < m && t[i + j] == p[j]
            invariant
                n == t@.len(),
                m == p@.len(),
                j <= m,
                i + m <= n,
                forall|k: int| 0 <= k < j ==> t@[i + k] == #[trigger] p@[k],
            decreases m - j,
        {
            j = j + 1;
        }
        let ghost window = t@.subrange(i as int, i + m);
        if j == m {
            assert(window == p@);
            return true;
        }
        assert(window[j as int] == t@[i + j]);
        i = i + 1;
    }
    false
}

} // verus!
