//! Decisions of the number guessing game.
use vstd::prelude::*;

use crate::text::{chars_of, decimal, digit_char, is_unicode_whitespace, trim, trim_ws};

verus! {

/// What the game answers to one line of input.
#[derive(Debug, Clone, Copy, PartialEq, Eq, Structural)]
pub enum GuessVerdict {
    /// The line is not a number.
    NotANumber,
    TooSmall,
    TooBig,
    /// The guess is the secret number.
    Win,
}

pub open spec fn is_ascii_digit(c: char) -> bool {
    48 <= (c as u32) <= 57
}

/// Value of the decimal digit `c`.
pub open spec fn digit_value(c: char) -> nat {
    ((c as u32) - 48) as nat
}

/// Value of a sequence of decimal digits.
pub open spec fn digits_value(s: Seq<char>) -> nat
    decreases s.len(),
{
    if s.len() == 0 {
        0
    } else {
        digits_value(s.drop_last()) * 10 + digit_value(s.last())
    }
}

/// `t` without one leading `+`.
pub open spec fn after_plus(t: Seq<char>) -> Seq<char> {
    if t.len() > 0 && t[0] == '+' {
        t.drop_first()
    } else {
        t
    }
}

/// Whether every character of `d` is an ASCII digit.
pub open spec fn all_digits(d: Seq<char>) -> bool {
    forall|i: int| 0 <= i < d.len() ==> is_ascii_digit(#[trigger] d[i])
}

/// The digits of an unsigned number as `u32::from_str` reads it: an
/// optional `+`, then at least one ASCII digit and nothing else.
pub open spec fn unsigned_digits(t: Seq<char>) -> Option<Seq<char>> {
    let d = after_plus(t);
    if d.len() > 0 && all_digits(d) {
        Some(d)
    } else {
        None
    }
}

/// `text.trim().parse::<u32>().ok()`.
pub open spec fn parsed_u32(text: Seq<char>) -> Option<u32> {
    match unsigned_digits(trim_ws(text)) {
        Some(d) => if digits_value(d) <= u32::MAX {
            Some(digits_value(d) as u32)
        } else {
            None
        },
        None => None,
    }
}

/// The verdict on `text` when the secret is `secret`.
pub open spec fn verdict(text: Seq<char>, secret: u32) -> GuessVerdict {
    match parsed_u32(text) {
        None => GuessVerdict::NotANumber,
        Some(g) => if g < secret {
            GuessVerdict::TooSmall
        } else if g > secret {
            GuessVerdict::TooBig
        } else {
            GuessVerdict::Win
        },
    }
}

/// Reads a guess: the trimmed line as an unsigned 32-bit number.
pub fn parse_guess(input: &str) -> (guess: Option<u32>)
    ensures
        guess == parsed_u32(input@),
{
    let t = trim(input);
    let chars = chars_of(t);
    let n = chars.len();
    let mut i: usize = 0;
    if n > 0 && chars[0] == '+' {
        i = 1;
    }
    let ghost d = t@.skip(i as int);
    assert(d =~= after_plus(t@));
    if i == n {
        return None;
    }
    let start = i;
    let limit: u64 = 0xffff_ffff;
    let mut value: u64 = 0;
    while i < n
        invariant
            start <= i <= n,
            start < n,
            n == t@.len(),
            chars@ == t@,
            t@ == trim_ws(input@),
            d == t@.skip(start as int),
            d == after_plus(t@),
            forall|k: int| start <= k < i ==> is_ascii_digit(#[trigger] t@[k]),
            value <= limit + 1,
            digits_value(t@.subrange(start as int, i as int)) > limit ==> value == limit + 1,
            digits_value(t@.subrange(start as int, i as int)) <= limit ==> value == digits_value(
                t@.subrange(start as int, i as int),
            ),
            limit == 0xffff_ffffu64,
        decreases n - i,
    {
        let code = chars[i] as u32;
        if code < 48 || code > 57 {
            assert(d[i - start] == chars@[i as int]);
            assert(!is_ascii_digit(d[i - start]));
            assert(unsigned_digits(t@) is None);
            return None;
        }
        let digit = (code - 48) as u64;
        assert(t@.subrange(start as int, i + 1).drop_last() =~= t@.subrange(start as int, i as int));
        if value > limit {
            value = limit + 1;
        } else {
            value = value * 10 + digit;
            if value > limit {
                value = limit + 1;
            }
        }
        i = i + 1;
    }
    assert(t@.subrange(start as int, n as int) =~= d);
    if value > limit {
        None
    } else {
        Some(value as u32)
    }
}

/// Judges one line of input against the secret number.
pub fn judge_guess(input: &str, secret: u32) -> (v: GuessVerdict)
    ensures
        v == verdict(input@, secret),
        (v == GuessVerdict::NotANumber) <==> parsed_u32(input@) is None,
        parsed_u32(input@) matches Some(g) ==> {
            &&& (v == GuessVerdict::TooSmall) <==> g < secret
            &&& (v == GuessVerdict::TooBig) <==> g > secret
            &&& (v == GuessVerdict::Win) <==> g == secret
        },
{
    match parse_guess(input) {
        None => GuessVerdict::NotANumber,
        Some(guess) => if guess < secret {
            GuessVerdict::TooSmall
        } else if guess > secret {
            GuessVerdict::TooBig
        } else {
            GuessVerdict::Win
        },
    }
}

proof fn lemma_digit_char(k: nat)
    requires
        k < 10,
    ensures
        is_ascii_digit(digit_char(k)),
        digit_value(digit_char(k)) == k,
{
    if k == 0 {
    } else if k == 1 {
    } else if k == 2 {
    } else if k == 3 {
    } else if k == 4 {
    } else if k == 5 {
    } else if k == 6 {
    } else if k == 7 {
    } else if k == 8 {
    } else {
    }
}

proof fn lemma_decimal_digits(n: nat)
    ensures
        decimal(n).len() > 0,
        forall|i: int| 0 <= i < decimal(n).len() ==> is_ascii_digit(#[trigger] decimal(n)[i]),
        digits_value(decimal(n)) == n,
    decreases n,
{
    lemma_digit_char(n % 10);
    if n >= 10 {
        lemma_decimal_digits(n / 10);
        let s = decimal(n);
        assert(s.drop_last() =~= decimal(n / 10));
        assert(s.last() == digit_char(n % 10));
        assert forall|i: int| 0 <= i < s.len() implies is_ascii_digit(#[trigger] s[i]) by {
            if i < s.len() - 1 {
                assert(s[i] == decimal(n / 10)[i]);
            }
        }
        assert(digits_value(s) == digits_value(s.drop_last()) * 10 + digit_value(s.last()));
        assert((n / 10) * 10 + n % 10 == n);
    } else {
        let s = decimal(n);
        assert(s.drop_last() =~= Seq::<char>::empty());
        assert(digits_value(Seq::<char>::empty()) == 0);
        assert(digits_value(s) == digits_value(s.drop_last()) * 10 + digit_value(s.last()));
    }
}

/// A line is answered `NotANumber` exactly when it does not read as an
/// unsigned 32-bit number; any number that reads, however large, is
/// compared with the secret: too small below it, too big above it, a win
/// when equal.
pub proof fn law_verdict_compares_every_number(text: Seq<char>, secret: u32)
    ensures
        (verdict(text, secret) == GuessVerdict::NotANumber) <==> parsed_u32(text) is None,
        parsed_u32(text) matches Some(g) ==> {
            &&& (verdict(text, secret) == GuessVerdict::TooSmall) <==> g < secret
            &&& (verdict(text, secret) == GuessVerdict::TooBig) <==> g > secret
            &&& (verdict(text, secret) == GuessVerdict::Win) <==> g == secret
        },
{
}

/// Typing the decimal form of a number in range reads back that number,
/// whatever whitespace surrounds it.
pub proof fn law_decimal_reads_back(n: u32, before: Seq<char>, after: Seq<char>)
    requires
        forall|i: int| 0 <= i < before.len() ==> is_unicode_whitespace(#[trigger] before[i]),
        forall|i: int| 0 <= i < after.len() ==> is_unicode_whitespace(#[trigger] after[i]),
    ensures
        parsed_u32(before + decimal(n as nat) + after) == Some(n),
{
    lemma_decimal_digits(n as nat);
    crate::text::lemma_trim_surrounded(before, decimal(n as nat), after);
    assert(decimal(n as nat)[0] != '+');
}

} // verus!
