//! Sizes and times as a user writes them: a number, with or without a unit.

use vstd::arithmetic::power::pow;
use vstd::prelude::*;

use crate::text::{decimal, digit_char, lemma_decimal_digits, power, same_text, to_chars};
use crate::unicode::{ascii_lower, is_ascii_text, lemma_trimmed_ascii, lowercase, trimmed};
use crate::unicode::{to_lowercase, trim};

verus! {

/// What is measured: bytes or seconds.
#[derive(Clone, Copy, Debug, PartialEq, Eq, Structural)]
pub enum Quantity {
    Size,
    Time,
}

/// `c` is a decimal digit.
pub open spec fn is_digit(c: char) -> bool {
    '0' <= c <= '9'
}

/// `c` is an ASCII letter.
pub open spec fn is_letter(c: char) -> bool {
    'a' <= c <= 'z' || 'A' <= c <= 'Z'
}

/// Every character of `s` is an ASCII letter.
pub open spec fn is_word(s: Seq<char>) -> bool {
    forall|i: int| 0 <= i < s.len() ==> is_letter(#[trigger] s[i])
}

/// How many digits `s` begins with.
pub open spec fn digit_count(s: Seq<char>) -> nat
    decreases s.len(),
{
    if s.len() > 0 && is_digit(s.first()) {
        1 + digit_count(s.drop_first())
    } else {
        0
    }
}

/// The number that a row of digits writes in decimal.
pub open spec fn number(s: Seq<char>) -> nat
    decreases s.len(),
{
    if s.len() == 0 {
        0
    } else {
        number(s.drop_last()) * 10 + (s.last() as nat - 48) as nat
    }
}

/// The power for which the prefix letter of a size unit stands.
pub open spec fn prefix_power(c: char) -> Option<nat> {
    if c == 'k' {
        Some(1)
    } else if c == 'm' {
        Some(2)
    } else if c == 'g' {
        Some(3)
    } else if c == 't' {
        Some(4)
    } else if c == 'p' {
        Some(5)
    } else {
        None
    }
}

/// How many bytes a size unit stands for. A prefix letter, alone or before `b`, is a power of
/// 1000; before `i` or `ib` it is a power of 1024.
pub open spec fn size_factor(unit: Seq<char>) -> Option<nat> {
    if unit == seq!['b'] {
        Some(1)
    } else if unit.len() == 0 {
        None
    } else {
        match prefix_power(unit.first()) {
            None => None,
            Some(n) => {
                let rest = unit.drop_first();
                if rest == Seq::<char>::empty() || rest == seq!['b'] {
                    Some(power(1000, n))
                } else if rest == seq!['i'] || rest == seq!['i', 'b'] {
                    Some(power(1024, n))
                } else {
                    None
                }
            },
        }
    }
}

/// How many seconds a time unit stands for.
pub open spec fn time_factor(unit: Seq<char>) -> Option<nat> {
    if unit == seq!['s'] {
        Some(1)
    } else if unit == seq!['m'] {
        Some(60)
    } else if unit == seq!['h'] {
        Some(60 * 60)
    } else if unit == seq!['d'] {
        Some(24 * 60 * 60)
    } else if unit == seq!['w'] {
        Some(7 * 24 * 60 * 60)
    } else {
        None
    }
}

/// The factor of a unit of a quantity.
pub open spec fn factor(q: Quantity, unit: Seq<char>) -> Option<nat> {
    match q {
        Quantity::Size => size_factor(unit),
        Quantity::Time => time_factor(unit),
    }
}

/// What a written amount says.
pub enum Reading {
    /// An amount in bytes or seconds.
    Amount(nat),
    /// Not a number with at most a word behind it, or a number that is too large.
    Invalid,
    /// A number with a word behind it that is no unit.
    UnknownSuffix(Seq<char>),
    /// An amount that no `u64` holds.
    Overflow,
}

/// The meaning of an amount in lower case, with no space around it.
pub open spec fn reading(q: Quantity, bare: Seq<char>) -> Reading {
    let digits = bare.take(digit_count(bare) as int);
    let unit = bare.skip(digit_count(bare) as int);
    if digits.len() == 0 || !is_word(unit) || number(digits) > u64::MAX {
        Reading::Invalid
    } else if unit.len() == 0 {
        Reading::Amount(number(digits))
    } else {
        match factor(q, unit) {
            None => Reading::UnknownSuffix(unit),
            Some(f) => if number(digits) * f > u64::MAX {
                Reading::Overflow
            } else {
                Reading::Amount(number(digits) * f)
            },
        }
    }
}

/// The message for an amount that cannot be read; `val` is what the user wrote.
pub open spec fn complaint(q: Quantity, reading: Reading, val: Seq<char>) -> Seq<char> {
    match (q, reading) {
        (Quantity::Size, Reading::UnknownSuffix(unit)) => "Error: Unknown size suffix '"@ + unit
            + "' in argument '"@ + val + "'"@,
        (Quantity::Size, Reading::Overflow) => "Error: Size '"@ + val + "' overflows u64"@,
        (Quantity::Size, _) => "Error: Invalid size format '"@ + val + "'"@,
        (Quantity::Time, Reading::UnknownSuffix(unit)) => "Error: Unknown time suffix '"@ + unit
            + "' in argument '"@ + val + "'"@,
        (Quantity::Time, Reading::Overflow) => "Error: Time '"@ + val + "' overflows u64"@,
        (Quantity::Time, _) => "Error: Invalid time format '"@ + val + "'"@,
    }
}

/// An amount as it is read: with no space around it, and in the lower case of Unicode or of
/// ASCII.
pub open spec fn clean(val: Seq<char>, ascii: bool) -> Seq<char> {
    if ascii {
        ascii_lower(trimmed(val))
    } else {
        lowercase(trimmed(val))
    }
}

/// `r` gives the amount that `reading` holds, or says why there is none.
pub open spec fn answers(
    q: Quantity,
    reading: Reading,
    val: Seq<char>,
    r: Result<u64, String>,
) -> bool {
    match reading {
        Reading::Amount(n) => r matches Ok(v) && v == n,
        _ => r matches Err(e) && e@ == complaint(q, reading, val),
    }
}

/// Reads the digits that `bare` begins with: how many they are, and the number that they
/// write if it fits.
fn read_digits(bare: &Vec<char>) -> (r: (usize, Option<u64>))
    ensures
        r.0 == digit_count(bare@),
        r.0 <= bare@.len(),
        match r.1 {
            Some(n) => n == number(bare@.take(r.0 as int)),
            None => number(bare@.take(r.0 as int)) > u64::MAX,
        },
{
    let mut k: usize = 0;
    let mut total: Option<u64> = Some(0);
    assert(bare@.skip(0) == bare@);
    while k < bare.len() && bare[k] >= '0' && bare[k] <= '9'
        invariant
            k <= bare@.len(),
            digit_count(bare@) == k + digit_count(bare@.skip(k as int)),
            match total {
                Some(n) => n == number(bare@.take(k as int)),
                None => number(bare@.take(k as int)) > u64::MAX,
            },
        decreases bare@.len() - k,
    {
        let digit: u64 = bare[k] as u64 - 48;
        proof {
            assert(bare@.take(k + 1).drop_last() == bare@.take(k as int));
            assert(bare@.skip(k as int).drop_first() == bare@.skip(k + 1));
        }
        total = match total {
            None => None,
            Some(n) => match n.checked_mul(10) {
                None => None,
                Some(m) => m.checked_add(digit),
            },
        };
        k = k + 1;
    }
    (k, total)
}

/// Whether every character from `from` on is an ASCII letter.
fn word_from(bare: &Vec<char>, from: usize) -> (r: bool)
    requires
        from <= bare@.len(),
    ensures
        r == is_word(bare@.skip(from as int)),
{
    let mut i: usize = from;
    while i < bare.len()
        invariant
            from <= i <= bare@.len(),
            forall|j: int| from <= j < i ==> is_letter(#[trigger] bare@[j]),
        decreases bare@.len() - i,
    {
        let c = bare[i];
        if !(c >= 'a' && c <= 'z' || c >= 'A' && c <= 'Z') {
            assert(bare@.skip(from as int)[i - from] == c);
            return false;
        }
        i = i + 1;
    }
    true
}

/// The size units, letter by letter.
proof fn lemma_size_names()
    ensures
        "b"@ == seq!['b'],
        "k"@ == seq!['k'],
        "kb"@ == seq!['k', 'b'],
        "ki"@ == seq!['k', 'i'],
        "kib"@ == seq!['k', 'i', 'b'],
        "m"@ == seq!['m'],
        "mb"@ == seq!['m', 'b'],
        "mi"@ == seq!['m', 'i'],
        "mib"@ == seq!['m', 'i', 'b'],
        "g"@ == seq!['g'],
        "gb"@ == seq!['g', 'b'],
        "gi"@ == seq!['g', 'i'],
        "gib"@ == seq!['g', 'i', 'b'],
        "t"@ == seq!['t'],
        "tb"@ == seq!['t', 'b'],
        "ti"@ == seq!['t', 'i'],
        "tib"@ == seq!['t', 'i', 'b'],
        "p"@ == seq!['p'],
        "pb"@ == seq!['p', 'b'],
        "pi"@ == seq!['p', 'i'],
        "pib"@ == seq!['p', 'i', 'b'],
{
    reveal_strlit("b");
    reveal_strlit("k");
    reveal_strlit("kb");
    reveal_strlit("ki");
    reveal_strlit("kib");
    reveal_strlit("m");
    reveal_strlit("mb");
    reveal_strlit("mi");
    reveal_strlit("mib");
    reveal_strlit("g");
    reveal_strlit("gb");
    reveal_strlit("gi");
    reveal_strlit("gib");
    reveal_strlit("t");
    reveal_strlit("tb");
    reveal_strlit("ti");
    reveal_strlit("tib");
    reveal_strlit("p");
    reveal_strlit("pb");
    reveal_strlit("pi");
    reveal_strlit("pib");
}

/// The four units that a prefix letter makes.
proof fn lemma_prefix_forms(c: char, n: nat)
    requires
        prefix_power(c) == Some(n),
    ensures
        size_factor(seq![c]) == Some(power(1000, n)),
        size_factor(seq![c, 'b']) == Some(power(1000, n)),
        size_factor(seq![c, 'i']) == Some(power(1024, n)),
        size_factor(seq![c, 'i', 'b']) == Some(power(1024, n)),
{
    assert(seq![c].drop_first() == Seq::<char>::empty());
    assert(seq![c, 'b'].drop_first() == seq!['b']);
    assert(seq![c, 'i'].drop_first() == seq!['i']);
    assert(seq![c, 'i', 'b'].drop_first() == seq!['i', 'b']);
    assert(seq![c][0] != seq!['b'][0]);
    assert(seq![c, 'i'].drop_first()[0] == 'i');
    assert(seq![c, 'i', 'b'].drop_first()[0] == 'i');
}

/// Every size unit is `b` or one of the four that a prefix letter makes.
proof fn lemma_size_unit_shape(unit: Seq<char>)
    ensures
        size_factor(unit) is None || unit == seq!['b'] || {
            &&& prefix_power(unit.first()) is Some
            &&& {
                ||| unit == seq![unit.first()]
                ||| unit == seq![unit.first(), 'b']
                ||| unit == seq![unit.first(), 'i']
                ||| unit == seq![unit.first(), 'i', 'b']
            }
        },
{
    if size_factor(unit) is Some && unit != seq!['b'] {
        let c = unit.first();
        let rest = unit.drop_first();
        assert(unit == seq![c] + rest);
        if rest == Seq::<char>::empty() {
            assert(unit == seq![c]);
        } else if rest == seq!['b'] {
            assert(unit == seq![c, 'b']);
        } else if rest == seq!['i'] {
            assert(unit == seq![c, 'i']);
        } else {
            assert(unit == seq![c, 'i', 'b']);
        }
    }
}

/// How many bytes `unit` stands for.
fn size_unit(unit: &str) -> (r: Option<u64>)
    ensures
        match r {
            Some(f) => size_factor(unit@) == Some(f as nat),
            None => size_factor(unit@) is None,
        },
{
    proof {
        reveal_with_fuel(power, 6);
        lemma_size_names();
        lemma_prefix_forms('k', 1);
        lemma_prefix_forms('m', 2);
        lemma_prefix_forms('g', 3);
        lemma_prefix_forms('t', 4);
        lemma_prefix_forms('p', 5);
        lemma_size_unit_shape(unit@);
    }
    if same_text(unit, "b") {
        Some(1)
    } else if same_text(unit, "k") || same_text(unit, "kb") {
        Some(1_000)
    } else if same_text(unit, "m") || same_text(unit, "mb") {
        Some(1_000_000)
    } else if same_text(unit, "g") || same_text(unit, "gb") {
        Some(1_000_000_000)
    } else if same_text(unit, "t") || same_text(unit, "tb") {
        Some(1_000_000_000_000)
    } else if same_text(unit, "p") || same_text(unit, "pb") {
        Some(1_000_000_000_000_000)
    } else if same_text(unit, "ki") || same_text(unit, "kib") {
        Some(1_024)
    } else if same_text(unit, "mi") || same_text(unit, "mib") {
        Some(1_048_576)
    } else if same_text(unit, "gi") || same_text(unit, "gib") {
        Some(1_073_741_824)
    } else if same_text(unit, "ti") || same_text(unit, "tib") {
        Some(1_099_511_627_776)
    } else if same_text(unit, "pi") || same_text(unit, "pib") {
        Some(1_125_899_906_842_624)
    } else {
        None
    }
}

/// How many seconds `unit` stands for.
fn time_unit(unit: &str) -> (r: Option<u64>)
    ensures
        match r {
            Some(f) => time_factor(unit@) == Some(f as nat),
            None => time_factor(unit@) is None,
        },
{
    proof {
        reveal_strlit("s");
        reveal_strlit("m");
        reveal_strlit("h");
        reveal_strlit("d");
        reveal_strlit("w");
        assert("s"@ == seq!['s']);
        assert("m"@ == seq!['m']);
        assert("h"@ == seq!['h']);
        assert("d"@ == seq!['d']);
        assert("w"@ == seq!['w']);
        assert(seq!['s'][0] == 's' && seq!['m'][0] == 'm' && seq!['h'][0] == 'h');
        assert(seq!['d'][0] == 'd' && seq!['w'][0] == 'w');
    }
    if same_text(unit, "s") {
        Some(1)
    } else if same_text(unit, "m") {
        Some(60)
    } else if same_text(unit, "h") {
        Some(3_600)
    } else if same_text(unit, "d") {
        Some(86_400)
    } else if same_text(unit, "w") {
        Some(604_800)
    } else {
        None
    }
}

/// The message for an amount in no valid format.
fn invalid_format(q: Quantity, val: &str) -> (r: String)
    ensures
        r@ == complaint(q, Reading::Invalid, val@),
{
    let mut e = String::new();
    match q {
        Quantity::Size => e.append("Error: Invalid size format '"),
        Quantity::Time => e.append("Error: Invalid time format '"),
    }
    e.append(val);
    e.append("'");
    e
}

/// The message for a unit that does not exist.
fn unknown_suffix(q: Quantity, unit: &str, val: &str) -> (r: String)
    ensures
        r@ == complaint(q, Reading::UnknownSuffix(unit@), val@),
{
    let mut e = String::new();
    match q {
        Quantity::Size => e.append("Error: Unknown size suffix '"),
        Quantity::Time => e.append("Error: Unknown time suffix '"),
    }
    e.append(unit);
    e.append("' in argument '");
    e.append(val);
    e.append("'");
    e
}

/// The message for an amount that is too large.
fn overflow(q: Quantity, val: &str) -> (r: String)
    ensures
        r@ == complaint(q, Reading::Overflow, val@),
{
    let mut e = String::new();
    match q {
        Quantity::Size => e.append("Error: Size '"),
        Quantity::Time => e.append("Error: Time '"),
    }
    e.append(val);
    e.append("' overflows u64");
    e
}

/// Reads an amount that is in lower case with no space around it. `val` is the text as the
/// user wrote it, for the message.
pub fn parse_clean(q: Quantity, bare: &str, val: &str) -> (r: Result<u64, String>)
    ensures
        answers(q, reading(q, bare@), val@, r),
        match reading(q, bare@) {
            Reading::Amount(n) => n <= u64::MAX && r == Ok::<u64, String>(n as u64),
            Reading::Invalid => r is Err && r->Err_0@ == (if q is Size {
                    "Error: Invalid size format '"@ + val@ + "'"@
                } else {
                    "Error: Invalid time format '"@ + val@ + "'"@
                }),
            Reading::UnknownSuffix(unit) => r is Err && r->Err_0@ == (if q is Size {
                    "Error: Unknown size suffix '"@ + unit + "' in argument '"@ + val@ + "'"@
                } else {
                    "Error: Unknown time suffix '"@ + unit + "' in argument '"@ + val@ + "'"@
                }),
            Reading::Overflow => r is Err && r->Err_0@ == (if q is Size {
                    "Error: Size '"@ + val@ + "' overflows u64"@
                } else {
                    "Error: Time '"@ + val@ + "' overflows u64"@
                }),
        },
{
    let chars = to_chars(bare);
    let (k, num) = read_digits(&chars);
    if k == 0 || !word_from(&chars, k) {
        return Err(invalid_format(q, val));
    }
    let num: u64 = match num {
        None => {
            return Err(invalid_format(q, val));
        },
        Some(n) => n,
    };
    if k == chars.len() {
        return Ok(num);
    }
    let unit = bare.substring_char(k, chars.len());
    assert(unit@ == bare@.skip(k as int));
    let f = match q {
        Quantity::Size => size_unit(unit),
        Quantity::Time => time_unit(unit),
    };
    match f {
        None => Err(unknown_suffix(q, unit, val)),
        Some(f) => match num.checked_mul(f) {
            None => Err(overflow(q, val)),
            Some(n) => Ok(n),
        },
    }
}

/// Trims an amount, puts it in lower case and reads it.
fn parse_amount(q: Quantity, val: &str) -> (r: Result<u64, String>)
    ensures
        answers(q, reading(q, clean(val@, false)), val@, r),
        is_ascii_text(val@) ==> answers(q, reading(q, clean(val@, true)), val@, r),
        match reading(q, lowercase(trimmed(val@))) {
            Reading::Amount(n) => n <= u64::MAX && r == Ok::<u64, String>(n as u64),
            Reading::Invalid => r is Err && r->Err_0@ == (if q is Size {
                    "Error: Invalid size format '"@ + val@ + "'"@
                } else {
                    "Error: Invalid time format '"@ + val@ + "'"@
                }),
            Reading::UnknownSuffix(unit) => r is Err && r->Err_0@ == (if q is Size {
                    "Error: Unknown size suffix '"@ + unit + "' in argument '"@ + val@ + "'"@
                } else {
                    "Error: Unknown time suffix '"@ + unit + "' in argument '"@ + val@ + "'"@
                }),
            Reading::Overflow => r is Err && r->Err_0@ == (if q is Size {
                    "Error: Size '"@ + val@ + "' overflows u64"@
                } else {
                    "Error: Time '"@ + val@ + "' overflows u64"@
                }),
        },
        is_ascii_text(val@) ==> lowercase(trimmed(val@)) == ascii_lower(trimmed(val@)),
{
    let trimmed_val = trim(val);
    let bare = to_lowercase(trimmed_val.as_str());
    proof {
        if is_ascii_text(val@) {
            lemma_trimmed_ascii(val@);
        }
    }
    parse_clean(q, bare.as_str(), val)
}

/// Converts a size as a user writes it into bytes: a number, alone or with a unit behind it,
/// in any case and with any space around it.
pub fn parse_size(val: &str) -> (r: Result<u64, String>)
    ensures
        answers(Quantity::Size, reading(Quantity::Size, clean(val@, false)), val@, r),
        is_ascii_text(val@) ==> answers(
            Quantity::Size,
            reading(Quantity::Size, clean(val@, true)),
            val@,
            r,
        ),
        match reading(Quantity::Size, lowercase(trimmed(val@))) {
            Reading::Amount(n) => n <= u64::MAX && r == Ok::<u64, String>(n as u64),
            Reading::Invalid => r is Err && r->Err_0@ == "Error: Invalid size format '"@ + val@
                + "'"@,
            Reading::UnknownSuffix(unit) => r is Err && r->Err_0@
                == "Error: Unknown size suffix '"@ + unit + "' in argument '"@ + val@ + "'"@,
            Reading::Overflow => r is Err && r->Err_0@ == "Error: Size '"@ + val@
                + "' overflows u64"@,
        },
        is_ascii_text(val@) ==> lowercase(trimmed(val@)) == ascii_lower(trimmed(val@)),
{
    parse_amount(Quantity::Size, val)
}

/// Converts a time as a user writes it into seconds: a number, alone or with a unit behind
/// it, in any case and with any space around it.
pub fn parse_time(val: &str) -> (r: Result<u64, String>)
    ensures
        answers(Quantity::Time, reading(Quantity::Time, clean(val@, false)), val@, r),
        is_ascii_text(val@) ==> answers(
            Quantity::Time,
            reading(Quantity::Time, clean(val@, true)),
            val@,
            r,
        ),
        match reading(Quantity::Time, lowercase(trimmed(val@))) {
            Reading::Amount(n) => n <= u64::MAX && r == Ok::<u64, String>(n as u64),
            Reading::Invalid => r is Err && r->Err_0@ == "Error: Invalid time format '"@ + val@
                + "'"@,
            Reading::UnknownSuffix(unit) => r is Err && r->Err_0@
                == "Error: Unknown time suffix '"@ + unit + "' in argument '"@ + val@ + "'"@,
            Reading::Overflow => r is Err && r->Err_0@ == "Error: Time '"@ + val@
                + "' overflows u64"@,
        },
        is_ascii_text(val@) ==> lowercase(trimmed(val@)) == ascii_lower(trimmed(val@)),
{
    parse_amount(Quantity::Time, val)
}

/// The digits of a number in decimal write that number.
proof fn lemma_number_of_decimal(n: nat)
    ensures
        number(decimal(n)) == n,
    decreases n,
{
    reveal_with_fuel(number, 2);
    assert(decimal(n).last() == digit_char(n % 10));
    if n < 10 {
        assert(decimal(n).drop_last() == Seq::<char>::empty());
    } else {
        lemma_number_of_decimal(n / 10);
        assert(decimal(n).drop_last() == decimal(n / 10));
    }
}

/// A row of digits before anything that does not begin with one is counted in full.
proof fn lemma_digit_count(digits: Seq<char>, rest: Seq<char>)
    requires
        forall|i: int| 0 <= i < digits.len() ==> is_digit(#[trigger] digits[i]),
        rest.len() > 0 ==> !is_digit(rest[0]),
    ensures
        digit_count(digits + rest) == digits.len(),
    decreases digits.len(),
{
    let s = digits + rest;
    if digits.len() == 0 {
        assert(s == rest);
    } else {
        assert(s.drop_first() == digits.drop_first() + rest);
        assert forall|i: int| 0 <= i < digits.drop_first().len() implies is_digit(
            #[trigger] digits.drop_first()[i],
        ) by {
            assert(digits.drop_first()[i] == digits[i + 1]);
        }
        lemma_digit_count(digits.drop_first(), rest);
    }
}

/// Every number that fits, written in decimal without a unit, is read back as it is.
pub proof fn law_plain_number_is_read_back(q: Quantity, n: u64)
    ensures
        reading(q, decimal(n as nat)) == Reading::Amount(n as nat),
{
    let d = decimal(n as nat);
    lemma_decimal_digits(n as nat);
    lemma_number_of_decimal(n as nat);
    lemma_digit_count(d, Seq::empty());
    assert(d + Seq::empty() == d);
    assert(d.take(d.len() as int) == d);
}

/// A number with a unit behind it is the number times the unit, or too large.
pub proof fn law_unit_multiplies(q: Quantity, n: u64, unit: Seq<char>, f: nat)
    requires
        factor(q, unit) == Some(f),
    ensures
        reading(q, decimal(n as nat) + unit) == if n * f <= u64::MAX {
            Reading::Amount((n * f) as nat)
        } else {
            Reading::Overflow
        },
{
    let d = decimal(n as nat);
    lemma_decimal_digits(n as nat);
    lemma_number_of_decimal(n as nat);
    lemma_unit_is_word(q, unit);
    lemma_digit_count(d, unit);
    assert((d + unit).take(d.len() as int) == d);
    assert((d + unit).skip(d.len() as int) == unit);
}

/// A unit is a word.
proof fn lemma_unit_is_word(q: Quantity, unit: Seq<char>)
    requires
        factor(q, unit) is Some,
    ensures
        unit.len() > 0,
        is_word(unit),
        !is_digit(unit[0]),
{
    if q is Size {
        lemma_size_unit_shape(unit);
    }
}

/// The powers of the size units.
proof fn lemma_unit_powers()
    ensures
        power(1000, 1) == 1000,
        power(1000, 2) == 1000000,
        power(1000, 3) == 1000000000,
        power(1000, 4) == 1000000000000,
        power(1000, 5) == 1000000000000000,
        power(1024, 1) == 1024,
        power(1024, 2) == 1048576,
        power(1024, 3) == 1073741824,
        power(1024, 4) == 1099511627776,
        power(1024, 5) == 1125899906842624,
{
    reveal_with_fuel(power, 6);
}

/// What each size unit stands for.
pub proof fn law_size_units()
    ensures
        size_factor("b"@) == Some(1nat),
        size_factor("k"@) == Some(1000nat),
        size_factor("kb"@) == Some(1000nat),
        size_factor("m"@) == Some(1000000nat),
        size_factor("mb"@) == Some(1000000nat),
        size_factor("g"@) == Some(1000000000nat),
        size_factor("gb"@) == Some(1000000000nat),
        size_factor("t"@) == Some(1000000000000nat),
        size_factor("tb"@) == Some(1000000000000nat),
        size_factor("p"@) == Some(1000000000000000nat),
        size_factor("pb"@) == Some(1000000000000000nat),
        size_factor("ki"@) == Some(1024nat),
        size_factor("kib"@) == Some(1024nat),
        size_factor("mi"@) == Some(1048576nat),
        size_factor("mib"@) == Some(1048576nat),
        size_factor("gi"@) == Some(1073741824nat),
        size_factor("gib"@) == Some(1073741824nat),
        size_factor("ti"@) == Some(1099511627776nat),
        size_factor("tib"@) == Some(1099511627776nat),
        size_factor("pi"@) == Some(1125899906842624nat),
        size_factor("pib"@) == Some(1125899906842624nat),
{
    lemma_unit_powers();
    lemma_size_names();
    lemma_prefix_forms('k', 1);
    lemma_prefix_forms('m', 2);
    lemma_prefix_forms('g', 3);
    lemma_prefix_forms('t', 4);
    lemma_prefix_forms('p', 5);
}

/// There is no other size unit.
pub proof fn law_no_other_size_units(unit: Seq<char>)
    requires
        size_factor(unit) is Some,
    ensures
        ({
            ||| unit == "b"@
            ||| unit == "k"@
            ||| unit == "kb"@
            ||| unit == "m"@
            ||| unit == "mb"@
            ||| unit == "g"@
            ||| unit == "gb"@
            ||| unit == "t"@
            ||| unit == "tb"@
            ||| unit == "p"@
            ||| unit == "pb"@
            ||| unit == "ki"@
            ||| unit == "kib"@
            ||| unit == "mi"@
            ||| unit == "mib"@
            ||| unit == "gi"@
            ||| unit == "gib"@
            ||| unit == "ti"@
            ||| unit == "tib"@
            ||| unit == "pi"@
            ||| unit == "pib"@
        }),
{
    lemma_size_names();
    lemma_size_unit_shape(unit);
}

/// What each time unit stands for, and that there is no other.
pub proof fn law_time_units(unit: Seq<char>)
    ensures
        unit == "s"@ ==> time_factor(unit) == Some(1nat),
        unit == "m"@ ==> time_factor(unit) == Some(60nat),
        unit == "h"@ ==> time_factor(unit) == Some(3600nat),
        unit == "d"@ ==> time_factor(unit) == Some(86400nat),
        unit == "w"@ ==> time_factor(unit) == Some(604800nat),
        time_factor(unit) is Some ==> {
            ||| unit == "s"@
            ||| unit == "m"@
            ||| unit == "h"@
            ||| unit == "d"@
            ||| unit == "w"@
        },
{
    reveal_strlit("s");
    reveal_strlit("m");
    reveal_strlit("h");
    reveal_strlit("d");
    reveal_strlit("w");
    assert("s"@ =~= seq!['s']);
    assert("m"@ =~= seq!['m']);
    assert("h"@ =~= seq!['h']);
    assert("d"@ =~= seq!['d']);
    assert("w"@ =~= seq!['w']);
    assert(seq!['s'][0] == 's' && seq!['m'][0] == 'm' && seq!['h'][0] == 'h');
    assert(seq!['d'][0] == 'd' && seq!['w'][0] == 'w');
}

/// A row of digits writes a number by place: each digit counts as much as it says, and those
/// before others ten times as much for each of the others.
pub proof fn law_number_counts_by_place(s: Seq<char>, t: Seq<char>)
    ensures
        number(Seq::empty()) == 0,
        forall|c: char| '0' <= c <= '9' ==> #[trigger] number(seq![c]) == c as nat - 48,
        number(s + t) == number(s) * pow(10, t.len()) + number(t),
    decreases t.len(),
{
    reveal(pow);
    reveal_with_fuel(number, 2);
    assert forall|c: char| '0' <= c <= '9' implies #[trigger] number(seq![c]) == c as nat - 48 by {
        assert(seq![c].drop_last() =~= Seq::<char>::empty());
    }
    if t.len() == 0 {
        assert(s + t =~= s);
    } else {
        let u = t.drop_last();
        law_number_counts_by_place(s, u);
        assert((s + t).drop_last() =~= s + u);
        assert((s + t).last() == t.last());
        let (a, b, p) = (number(s) as int, number(u) as int, pow(10, u.len()));
        assert(pow(10, t.len()) == 10 * p);
        assert((a * p + b) * 10 == a * (10 * p) + b * 10) by (nonlinear_arith);
    }
}

/// A number in decimal has no zero in front, unless it is zero.
pub proof fn law_decimal_has_no_leading_zero(n: nat)
    ensures
        n > 0 ==> decimal(n)[0] != '0',
        number(decimal(n)) == n,
        forall|i: int| 0 <= i < decimal(n).len() ==> '0' <= #[trigger] decimal(n)[i] <= '9',
        decimal(n).len() > 0,
    decreases n,
{
    lemma_decimal_digits(n);
    lemma_number_of_decimal(n);
    if n >= 10 {
        lemma_decimal_digits(n / 10);
        law_decimal_has_no_leading_zero(n / 10);
    }
}

/// What a row of digits with something behind it means, which does not begin with a digit.
pub proof fn law_digits_with_something_behind(q: Quantity, digits: Seq<char>, rest: Seq<char>)
    requires
        digits.len() > 0,
        forall|i: int| 0 <= i < digits.len() ==> '0' <= #[trigger] digits[i] <= '9',
        rest.len() > 0 ==> !('0' <= rest[0] <= '9'),
    ensures
        number(digits) > u64::MAX ==> reading(q, digits + rest) is Invalid,
        (exists|i: int|
            0 <= i < rest.len() && !('a' <= #[trigger] rest[i] <= 'z' || 'A' <= rest[i] <= 'Z'))
            ==> reading(q, digits + rest) is Invalid,
        number(digits) <= u64::MAX && rest.len() == 0 ==> reading(q, digits + rest)
            == Reading::Amount(number(digits)),
        number(digits) <= u64::MAX && rest.len() > 0 && (forall|i: int|
            0 <= i < rest.len() ==> 'a' <= #[trigger] rest[i] <= 'z' || 'A' <= rest[i] <= 'Z')
            ==> match (
            if q is Size {
                size_factor(rest)
            } else {
                time_factor(rest)
            }) {
            None => reading(q, digits + rest) == Reading::UnknownSuffix(rest),
            Some(f) => if number(digits) * f <= u64::MAX {
                reading(q, digits + rest) == Reading::Amount(number(digits) * f)
            } else {
                reading(q, digits + rest) is Overflow
            },
        },
{
    lemma_digit_count(digits, rest);
    assert((digits + rest).take(digits.len() as int) =~= digits);
    assert((digits + rest).skip(digits.len() as int) =~= rest);
    if exists|i: int|
        0 <= i < rest.len() && !('a' <= #[trigger] rest[i] <= 'z' || 'A' <= rest[i] <= 'Z') {
        let i = choose|i: int|
            0 <= i < rest.len() && !('a' <= #[trigger] rest[i] <= 'z' || 'A' <= rest[i] <= 'Z');
        assert(!is_letter(rest[i]));
    }
}

/// A message says what is wrong, and quotes what the user wrote.
pub proof fn law_complaints_quote_the_argument(val: Seq<char>, unit: Seq<char>)
    ensures
        complaint(Quantity::Size, Reading::Invalid, val) == "Error: Invalid size format '"@ + val
            + "'"@,
        complaint(Quantity::Time, Reading::Invalid, val) == "Error: Invalid time format '"@ + val
            + "'"@,
        complaint(Quantity::Size, Reading::UnknownSuffix(unit), val)
            == "Error: Unknown size suffix '"@ + unit + "' in argument '"@ + val + "'"@,
        complaint(Quantity::Time, Reading::UnknownSuffix(unit), val)
            == "Error: Unknown time suffix '"@ + unit + "' in argument '"@ + val + "'"@,
        complaint(Quantity::Size, Reading::Overflow, val) == "Error: Size '"@ + val
            + "' overflows u64"@,
        complaint(Quantity::Time, Reading::Overflow, val) == "Error: Time '"@ + val
            + "' overflows u64"@,
{
}

/// An answer is the amount that was read, and an error without one.
pub proof fn law_answers_are_the_amounts_read(
    q: Quantity,
    reading: Reading,
    val: Seq<char>,
    r: Result<u64, String>,
)
    requires
        answers(q, reading, val, r),
    ensures
        r is Ok <==> reading is Amount,
        r matches Ok(n) ==> reading == Reading::Amount(n as nat),
        r matches Err(e) ==> e@ == complaint(q, reading, val),
{
}

/// What does not begin with a digit is no amount.
pub proof fn law_without_digits_there_is_no_amount(q: Quantity, text: Seq<char>)
    requires
        text.len() == 0 || !('0' <= text[0] <= '9'),
    ensures
        reading(q, text) is Invalid,
{
}

/// The binary unit of a prefix is the larger one.
pub proof fn law_binary_units_exceed_decimal(c: char)
    requires
        prefix_power(c) is Some,
    ensures
        size_factor(seq![c, 'b']) == size_factor(seq![c]),
        size_factor(seq![c, 'i', 'b']) == size_factor(seq![c, 'i']),
        size_factor(seq![c]) matches Some(d) && size_factor(seq![c, 'i']) matches Some(b) && d < b,
{
    lemma_prefix_forms(c, prefix_power(c)->0);
    reveal_with_fuel(power, 6);
}

} // verus!
