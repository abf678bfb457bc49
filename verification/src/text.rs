//! Decimal text: how indexes become file names, and how file names become indexes.

use vstd::prelude::*;

verus! {

/// The character of the decimal digit `d`.
pub open spec fn digit_char(d: nat) -> char
    recommends
        d < 10,
{
    (48 + d) as char
}

/// Whether `c` is one of the characters `0` to `9`.
pub open spec fn is_digit(c: char) -> bool {
    '0' <= c && c <= '9'
}

/// `n` in decimal, without leading zeros.
pub open spec fn decimal_text(n: nat) -> Seq<char>
    decreases n,
{
    if n < 10 {
        seq![digit_char(n)]
    } else {
        decimal_text(n / 10).push(digit_char(n % 10))
    }
}

/// Whether every character of `s` is a decimal digit.
pub open spec fn all_digits(s: Seq<char>) -> bool {
    forall|i: int| 0 <= i < s.len() ==> is_digit(#[trigger] s[i])
}

/// The number that a run of decimal digits denotes.
pub open spec fn digits_value(s: Seq<char>) -> nat
    decreases s.len(),
{
    if s.len() == 0 {
        0
    } else {
        digits_value(s.drop_last()) * 10 + (s.last() as nat - 48) as nat
    }
}

/// The digits of `s`: all of it, or what follows a leading plus sign.
pub open spec fn digits_of(s: Seq<char>) -> Seq<char> {
    if s.len() > 0 && s[0] == '+' {
        s.skip(1)
    } else {
        s
    }
}

/// What `s` denotes when read as a `u64`: one or more digits, with or without a leading plus
/// sign, whose value does not exceed the type.
pub open spec fn parsed_u64(s: Seq<char>) -> Option<u64> {
    let digits = digits_of(s);
    if digits.len() > 0 && all_digits(digits) && digits_value(digits) <= u64::MAX {
        Some(digits_value(digits) as u64)
    } else {
        None
    }
}

/// Whether `needle` occurs in `s`.
pub open spec fn occurs(s: Seq<char>, needle: Seq<char>) -> bool {
    exists|k: int|
        0 <= k <= s.len() - needle.len() && #[trigger] s.subrange(k, k + needle.len()) == needle
}

/// The text of one decimal digit.
fn digit_text(d: u64) -> (r: &'static str)
    requires
        d < 10,
    ensures
        r@ == seq![digit_char(d as nat)],
{
    proof {
        reveal_strlit("0");
        reveal_strlit("1");
        reveal_strlit("2");
        reveal_strlit("3");
        reveal_strlit("4");
        reveal_strlit("5");
        reveal_strlit("6");
        reveal_strlit("7");
        reveal_strlit("8");
        reveal_strlit("9");
    }
    let r = match d {
        0 => "0",
        1 => "1",
        2 => "2",
        3 => "3",
        4 => "4",
        5 => "5",
        6 => "6",
        7 => "7",
        8 => "8",
        _ => "9",
    };
    assert(r@ =~= seq![digit_char(d as nat)]);
    r
}

/// Writes `n` in decimal.
pub fn decimal(n: u64) -> (r: String)
    ensures
        r@ == decimal_text(n as nat),
        digits_value(r@) == n,
    decreases n,
{
    proof {
        lemma_decimal_text(n as nat);
    }
    if n < 10 {
        digit_text(n).to_owned()
    } else {
        let mut r = decimal(n / 10);
        let last = digit_text(n % 10);
        r.append(last);
        proof {
            assert(r@ =~= decimal_text(n as nat));
        }
        r
    }
}

/// The characters of a text.
fn characters(s: &str) -> (r: Vec<char>)
    ensures
        r@ == s@,
{
    let mut r: Vec<char> = Vec::new();
    for c in it: s.chars()
        invariant
            it.seq() == s@,
            r@ == s@.take(it.index() as int),
    {
        proof {
            assert(s@.take(it.index() + 1) =~= s@.take(it.index() as int).push(c));
        }
        r.push(c);
    }
    assert(s@.take(s@.len() as int) =~= s@);
    r
}

/// More digits never denote a smaller number.
proof fn lemma_digits_value_grows(s: Seq<char>, k: int)
    requires
        0 <= k <= s.len(),
    ensures
        digits_value(s.take(k)) <= digits_value(s),
    decreases s.len() - k,
{
    if k == s.len() {
        assert(s.take(k) =~= s);
    } else {
        lemma_digits_value_grows(s, k + 1);
        assert(s.take(k + 1).drop_last() =~= s.take(k));
    }
}

/// Reads a decimal `u64`, with or without a leading plus sign.
pub fn parse_u64(s: &str) -> (r: Option<u64>)
    ensures
        r == parsed_u64(s@),
{
    let chars = characters(s);
    let start: usize = if chars.len() > 0 && chars[0] == '+' { 1 } else { 0 };
    let ghost digits = digits_of(s@);
    proof {
        assert(digits =~= s@.skip(start as int));
    }
    if chars.len() == start {
        return None;
    }
    let mut value: u64 = 0;
    let mut i: usize = start;
    while i < chars.len()
        invariant
            start <= i <= chars.len(),
            chars@ == s@,
            digits == s@.skip(start as int),
            digits == digits_of(s@),
            all_digits(digits.take(i - start)),
            value == digits_value(digits.take(i - start)),
        decreases chars.len() - i,
    {
        let c = chars[i];
        proof {
            assert(digits[i - start] == c);
            assert(digits.take(i - start + 1).drop_last() =~= digits.take(i - start));
            lemma_digits_value_grows(digits, i - start + 1);
        }
        if c < '0' || c > '9' {
            return None;
        }
        let d: u64 = (c as u32 - 48) as u64;
        if value > (u64::MAX - d) / 10 {
            return None;
        }
        value = value * 10 + d;
        i += 1;
    }
    proof {
        assert(digits.take(digits.len() as int) =~= digits);
    }
    Some(value)
}

/// Whether `needle` stands in `chars` at position `k`.
fn stands_at(chars: &Vec<char>, needle: &Vec<char>, k: usize) -> (r: bool)
    requires
        k + needle.len() <= chars.len(),
    ensures
        r == (chars@.subrange(k as int, k + needle.len()) == needle@),
{
    let mut i: usize = 0;
    while i < needle.len()
        invariant
            i <= needle.len(),
            k + needle.len() <= chars.len(),
            forall|j: int| 0 <= j < i ==> #[trigger] needle[j] == chars[k + j],
        decreases needle.len() - i,
    {
        if chars[k + i] != needle[i] {
            assert(chars@.subrange(k as int, k + needle.len())[i as int] != needle[i as int]);
            return false;
        }
        i += 1;
    }
    assert(chars@.subrange(k as int, k + needle.len()) =~= needle@);
    true
}

/// Whether `needle` occurs in `s`.
pub fn contains(s: &str, needle: &str) -> (r: bool)
    ensures
        r == occurs(s@, needle@),
{
    let chars = characters(s);
    let wanted = characters(needle);
    if chars.len() < wanted.len() {
        return false;
    }
    let last: usize = chars.len() - wanted.len();
    let mut k: usize = 0;
    while k <= last
        invariant
            chars@ == s@,
            wanted@ == needle@,
            last == s@.len() - needle@.len(),
            last + wanted.len() == chars.len(),
            k <= last + 1,
            forall|j: int|
                0 <= j < k ==> #[trigger] s@.subrange(j, j + needle@.len()) != needle@,
        decreases last + 1 - k,
    {
        if stands_at(&chars, &wanted, k) {
            return true;
        }
        if k == last {
            return false;
        }
        k += 1;
    }
    false
}

/// The text of a number is made of digits, at least one, and denotes that number.
pub proof fn lemma_decimal_text(n: nat)
    ensures
        decimal_text(n).len() > 0,
        all_digits(decimal_text(n)),
        digits_value(decimal_text(n)) == n,
    decreases n,
{
    if n < 10 {
        assert(decimal_text(n).drop_last() =~= Seq::<char>::empty());
        assert(digits_value(Seq::<char>::empty()) == 0);
    } else {
        lemma_decimal_text(n / 10);
        let prefix = decimal_text(n / 10);
        assert(decimal_text(n).drop_last() =~= prefix);
        assert forall|i: int| 0 <= i < decimal_text(n).len() implies is_digit(
            #[trigger] decimal_text(n)[i],
        ) by {
            if i < prefix.len() {
                assert(decimal_text(n)[i] == prefix[i]);
            }
        }
    }
}

/// Reading a number's own text gives the number back.
pub proof fn law_decimal_round_trip(n: u64)
    ensures
        parsed_u64(decimal_text(n as nat)) == Some(n),
{
    lemma_decimal_text(n as nat);
    assert(is_digit(decimal_text(n as nat)[0]));
    assert(digits_of(decimal_text(n as nat)) == decimal_text(n as nat));
}

/// Different numbers have different texts.
pub proof fn law_decimal_injective(a: nat, b: nat)
    requires
        decimal_text(a) == decimal_text(b),
    ensures
        a == b,
{
    lemma_decimal_text(a);
    lemma_decimal_text(b);
}

/// A character is a digit exactly if it is one of the ten.
pub proof fn law_there_are_ten_digits(c: char)
    ensures
        is_digit(c) <==> (c == '0' || c == '1' || c == '2' || c == '3' || c == '4' || c == '5' || c
            == '6' || c == '7' || c == '8' || c == '9'),
{
}

/// A digit behind a run of digits counts for itself, and makes all that stand before it count ten
/// times as much; no digits denote zero.
pub proof fn law_digits_are_positional(s: Seq<char>, c: char)
    requires
        is_digit(c),
    ensures
        digits_value(seq![]) == 0,
        digits_value(s.push(c)) == 10 * digits_value(s) + (c as int - '0' as int),
{
    assert(s.push(c).drop_last() =~= s);
}

/// A number is written with digits alone, at least one, and never begins with a zero but for zero
/// itself; what is written denotes the number.
pub proof fn law_decimal_is_canonical(n: nat)
    ensures
        decimal_text(n).len() > 0,
        forall|k: int| 0 <= k < decimal_text(n).len() ==> is_digit(#[trigger] decimal_text(n)[k]),
        digits_value(decimal_text(n)) == n,
        decimal_text(n)[0] == '0' ==> n == 0,
        n == 0 ==> decimal_text(n) == seq!['0'],
    decreases n,
{
    lemma_decimal_text(n);
    if n >= 10 {
        law_decimal_is_canonical(n / 10);
        assert(decimal_text(n)[0] == decimal_text(n / 10)[0]);
    }
}

/// Digits are read as the number that they denote, with or without a plus sign before them, as long
/// as it is no greater than the type allows.
pub proof fn law_digits_are_read(digits: Seq<char>)
    requires
        digits.len() > 0,
        forall|k: int| 0 <= k < digits.len() ==> is_digit(#[trigger] digits[k]),
    ensures
        digits_value(digits) <= u64::MAX ==> parsed_u64(digits) == Some(
            digits_value(digits) as u64,
        ) && parsed_u64(seq!['+'] + digits) == Some(digits_value(digits) as u64),
        digits_value(digits) > u64::MAX ==> parsed_u64(digits) is None && parsed_u64(
            seq!['+'] + digits,
        ) is None,
{
    assert(is_digit(digits[0]));
    assert((seq!['+'] + digits).skip(1) =~= digits);
}

/// Nothing is read as a number but digits, with or without a plus sign before them.
pub proof fn law_only_digits_are_read(s: Seq<char>)
    requires
        parsed_u64(s) is Some,
    ensures
        s.len() > 0,
        s[0] == '+' || is_digit(s[0]),
        s[0] == '+' ==> s.len() > 1,
        forall|k: int| 0 < k < s.len() ==> is_digit(#[trigger] s[k]),
{
    let digits = digits_of(s);
    if s.len() > 0 && s[0] == '+' {
        assert forall|k: int| 0 < k < s.len() implies is_digit(#[trigger] s[k]) by {
            assert(is_digit(digits[k - 1]));
        }
    } else {
        assert(digits == s);
    }
}

/// A text occurs wherever it was put.
pub proof fn law_what_was_put_in_occurs(before: Seq<char>, needle: Seq<char>, after: Seq<char>)
    ensures
        occurs(before + needle + after, needle),
{
    let s = before + needle + after;
    let k = before.len() as int;
    assert(s.subrange(k, k + needle.len()) =~= needle);
}

/// Where a text occurs, there is something before it and something after it, and nothing else.
pub proof fn law_what_occurs_was_put_in(s: Seq<char>, needle: Seq<char>) -> (parts: (
    Seq<char>,
    Seq<char>,
))
    requires
        occurs(s, needle),
    ensures
        s == parts.0 + needle + parts.1,
{
    let k = choose|k: int|
        0 <= k <= s.len() - needle.len() && #[trigger] s.subrange(k, k + needle.len()) == needle;
    assert(s =~= s.take(k) + needle + s.skip(k + needle.len()));
    (s.take(k), s.skip(k + needle.len()))
}

} // verus!
