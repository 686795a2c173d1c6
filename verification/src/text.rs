//! Text helpers: characters of a string, decimal numbers, joining.

use vstd::prelude::*;
use vstd::utf8::{decode_utf8, valid_utf8};

verus! {

/// The character that stands for the decimal digit `d`.
pub open spec fn digit_char(d: nat) -> char {
    ((d + 48) as u8) as char
}

/// Whether `c` is one of `0` to `9`.
pub open spec fn is_digit(c: char) -> bool {
    '0' <= c <= '9'
}

/// The number that the digit `c` stands for.
pub open spec fn digit_value(c: char) -> nat {
    (c as u32 - 48) as nat
}

/// Decimal notation of `n`, without leading zeros.
pub open spec fn decimal(n: nat) -> Seq<char>
    decreases n,
{
    if n < 10 {
        seq![digit_char(n)]
    } else {
        decimal(n / 10).push(digit_char(n % 10))
    }
}

/// Decimal notation of `v`, with a minus sign when it is negative.
pub open spec fn signed_decimal(v: int) -> Seq<char> {
    if v < 0 {
        seq!['-'] + decimal((-v) as nat)
    } else {
        decimal(v as nat)
    }
}

/// Decimal notation of `n` in at least `width` digits, padded with zeros on
/// the left.
pub open spec fn padded_decimal(n: nat, width: nat) -> Seq<char>
    decreases width,
{
    if width <= 1 {
        decimal(n)
    } else if n < 10 {
        padded_decimal(0, (width - 1) as nat).push(digit_char(n))
    } else {
        padded_decimal(n / 10, (width - 1) as nat).push(digit_char(n % 10))
    }
}

/// The views of a sequence of strings.
pub open spec fn texts(parts: Seq<String>) -> Seq<Seq<char>> {
    Seq::new(parts.len(), |i: int| parts[i]@)
}

/// The parts in order, with `sep` between each two neighbours.
pub open spec fn join(parts: Seq<Seq<char>>, sep: Seq<char>) -> Seq<char>
    decreases parts.len(),
{
    if parts.len() == 0 {
        Seq::empty()
    } else if parts.len() == 1 {
        parts[0]
    } else {
        join(parts.drop_last(), sep) + sep + parts.last()
    }
}

/// Why a text is not a whole number of the wanted range.
#[derive(Clone, Copy, Debug, PartialEq, Eq, Structural)]
pub enum ParseReason {
    /// The text is empty.
    Empty,
    /// A character is no digit, or a sign stands alone.
    InvalidDigit,
    /// The number lies above the range.
    PosOverflow,
    /// The number lies below the range.
    NegOverflow,
}

impl ParseReason {
    /// The reason in words.
    pub open spec fn spec_text(self) -> Seq<char> {
        match self {
            ParseReason::Empty => "cannot parse integer from empty string"@,
            ParseReason::InvalidDigit => "invalid digit found in string"@,
            ParseReason::PosOverflow => "number too large to fit in target type"@,
            ParseReason::NegOverflow => "number too small to fit in target type"@,
        }
    }

    pub fn text(self) -> (s: &'static str)
        ensures
            s@ == self.spec_text(),
    {
        match self {
            ParseReason::Empty => "cannot parse integer from empty string",
            ParseReason::InvalidDigit => "invalid digit found in string",
            ParseReason::PosOverflow => "number too large to fit in target type",
            ParseReason::NegOverflow => "number too small to fit in target type",
        }
    }
}

/// Reads `digits` from left to right and stops at the first character that
/// is no digit or that takes the number out of `min..=max`. After a minus
/// sign the digits are counted downwards.
pub open spec fn scan_digits(digits: Seq<char>, negative: bool, min: int, max: int) -> Result<
    int,
    ParseReason,
>
    decreases digits.len(),
{
    if digits.len() == 0 {
        Ok(0)
    } else {
        match scan_digits(digits.drop_last(), negative, min, max) {
            Err(reason) => Err(reason),
            Ok(acc) => {
                let c = digits.last();
                if !is_digit(c) {
                    Err(ParseReason::InvalidDigit)
                } else if negative {
                    if acc * 10 - digit_value(c) < min {
                        Err(ParseReason::NegOverflow)
                    } else {
                        Ok(acc * 10 - digit_value(c))
                    }
                } else {
                    if acc * 10 + digit_value(c) > max {
                        Err(ParseReason::PosOverflow)
                    } else {
                        Ok(acc * 10 + digit_value(c))
                    }
                }
            },
        }
    }
}

/// The whole number that `s` denotes: an optional `+` or `-`, then one or
/// more decimal digits, with a value in `min..=max`.
pub open spec fn parse_integer(s: Seq<char>, min: int, max: int) -> Result<int, ParseReason> {
    if s.len() == 0 {
        Err(ParseReason::Empty)
    } else if s[0] == '-' || s[0] == '+' {
        if s.len() == 1 {
            Err(ParseReason::InvalidDigit)
        } else {
            scan_digits(s.subrange(1, s.len() as int), s[0] == '-', min, max)
        }
    } else {
        scan_digits(s, false, min, max)
    }
}

/// Once a prefix has failed, every longer prefix fails for the same reason.
pub proof fn lemma_scan_failure_stays(
    digits: Seq<char>,
    k: int,
    negative: bool,
    min: int,
    max: int,
)
    requires
        0 <= k <= digits.len(),
        scan_digits(digits.take(k), negative, min, max) is Err,
    ensures
        scan_digits(digits, negative, min, max) == scan_digits(digits.take(k), negative, min, max),
    decreases digits.len(),
{
    if k == digits.len() {
        assert(digits.take(k) =~= digits);
    } else {
        assert(digits.drop_last().take(k) =~= digits.take(k));
        lemma_scan_failure_stays(digits.drop_last(), k, negative, min, max);
    }
}

/// The character at position `i`.
pub fn char_at(chars: &Vec<char>, i: usize) -> (c: char)
    requires
        i < chars.len(),
    ensures
        c == chars@[i as int],
{
    chars[i]
}

/// Parses a whole number of the range `min..=max`.
pub fn parse_in_range(s: &str, min: i64, max: i64) -> (r: Result<i64, ParseReason>)
    requires
        min <= 0 <= max,
    ensures
        match r {
            Ok(v) => parse_integer(s@, min as int, max as int) == Ok::<int, ParseReason>(v as int),
            Err(reason) => parse_integer(s@, min as int, max as int) == Err::<int, ParseReason>(
                reason,
            ),
        },
{
    let chars = chars_of(s);
    let n: usize = chars.len();
    if n == 0 {
        return Err(ParseReason::Empty);
    }
    let negative: bool = chars[0] == '-';
    let signed: bool = negative || chars[0] == '+';
    if signed && n == 1 {
        return Err(ParseReason::InvalidDigit);
    }
    let start: usize = if signed {
        1
    } else {
        0
    };
    let ghost digits: Seq<char> = chars@.subrange(start as int, n as int);
    proof {
        if !signed {
            assert(digits =~= s@);
        }
    }
    let mut acc: i64 = 0;
    let mut i: usize = start;
    while i < n
        invariant
            start <= i <= n,
            n == chars.len(),
            min <= 0 <= max,
            digits == chars@.subrange(start as int, n as int),
            parse_integer(s@, min as int, max as int) == scan_digits(
                digits,
                negative,
                min as int,
                max as int,
            ),
            min <= acc <= max,
            negative ==> acc <= 0,
            !negative ==> acc >= 0,
            scan_digits(digits.take(i - start), negative, min as int, max as int) == Ok::<
                int,
                ParseReason,
            >(acc as int),
        decreases n - i,
    {
        let c: char = char_at(&chars, i);
        let code: u32 = c as u32;
        let ghost prefix = digits.take(i + 1 - start);
        proof {
            assert(prefix.drop_last() =~= digits.take(i - start));
            assert(prefix.last() == c);
        }
        if code < 48 || code > 57 {
            proof {
                lemma_scan_failure_stays(digits, i + 1 - start, negative, min as int, max as int);
            }
            return Err(ParseReason::InvalidDigit);
        }
        let d: i128 = (code - 48) as i128;
        if negative {
            let v: i128 = acc as i128 * 10 - d;
            if v < min as i128 {
                proof {
                    lemma_scan_failure_stays(
                        digits,
                        i + 1 - start,
                        negative,
                        min as int,
                        max as int,
                    );
                }
                return Err(ParseReason::NegOverflow);
            }
            acc = v as i64;
        } else {
            let v: i128 = acc as i128 * 10 + d;
            if v > max as i128 {
                proof {
                    lemma_scan_failure_stays(
                        digits,
                        i + 1 - start,
                        negative,
                        min as int,
                        max as int,
                    );
                }
                return Err(ParseReason::PosOverflow);
            }
            acc = v as i64;
        }
        i += 1;
    }
    proof {
        assert(digits.take(n - start) =~= digits);
    }
    Ok(acc)
}

/// Appends one character; stands for `String::push` of the standard
/// library, which puts the character at the end and leaves the rest alone.
#[verifier::external_body]
pub(crate) fn push_char(out: &mut String, c: char)
    ensures
        final(out)@ == old(out)@.push(c),
{
    out.push(c);
}

/// Reads bytes as UTF-8 text; stands for `String::from_utf8` of the standard
/// library, which takes the bytes as they are when they are well-formed
/// UTF-8 and refuses them otherwise.
#[verifier::external_body]
pub(crate) fn text_from_utf8(bytes: Vec<u8>) -> (text: Option<String>)
    ensures
        text is Some <==> valid_utf8(bytes@),
        text matches Some(s) ==> s@ == decode_utf8(bytes@),
{
    String::from_utf8(bytes).ok()
}

/// The characters of `s`, in order.
pub fn chars_of(s: &str) -> (v: Vec<char>)
    ensures
        v@ == s@,
{
    let mut v: Vec<char> = Vec::new();
    for c in it: s.chars()
        invariant
            it.seq() == s@,
            v.len() == it.index(),
            forall|i: int| 0 <= i < v.len() ==> v@[i] == it.seq()[i],
    {
        v.push(c);
    }
    assert(v@ =~= s@);
    v
}

/// Appends the decimal notation of `n` to `out`.
pub fn push_decimal(out: &mut String, n: u64)
    ensures
        final(out)@ == old(out)@ + decimal(n as nat),
    decreases n,
{
    if n >= 10 {
        push_decimal(out, n / 10);
    }
    let d: u8 = (n % 10) as u8;
    push_char(out, (d + 48) as char);
    assert(final(out)@ =~= old(out)@ + decimal(n as nat));
}

/// Appends the decimal notation of `n` in at least `width` digits.
pub fn push_padded_decimal(out: &mut String, n: u64, width: u8)
    ensures
        final(out)@ == old(out)@ + padded_decimal(n as nat, width as nat),
    decreases width,
{
    if width <= 1 {
        push_decimal(out, n);
    } else {
        push_padded_decimal(out, n / 10, width - 1);
        let d: u8 = (n % 10) as u8;
        push_char(out, (d + 48) as char);
        assert(final(out)@ =~= old(out)@ + padded_decimal(n as nat, width as nat));
    }
}

/// Appends the decimal notation of `v`, with its sign when negative.
pub fn push_signed_decimal(out: &mut String, v: i64)
    ensures
        final(out)@ == old(out)@ + signed_decimal(v as int),
{
    if v < 0 {
        push_char(out, '-');
        let magnitude: u64 = ((-(v + 1)) as u64) + 1;
        push_decimal(out, magnitude);
        assert(final(out)@ =~= old(out)@ + signed_decimal(v as int));
    } else {
        push_decimal(out, v as u64);
    }
}

/// Joins `parts` with `sep` between neighbours.
pub fn join_strings(parts: &Vec<String>, sep: &str) -> (s: String)
    ensures
        s@ == join(texts(parts@), sep@),
{
    let mut s = String::new();
    let mut i: usize = 0;
    while i < parts.len()
        invariant
            i <= parts.len(),
            s@ == join(texts(parts@).take(i as int), sep@),
        decreases parts.len() - i,
    {
        let ghost before = texts(parts@).take(i as int);
        let ghost after = texts(parts@).take(i + 1);
        if i > 0 {
            s.append(sep);
        }
        s.append(parts[i].as_str());
        i += 1;
        proof {
            assert(after.drop_last() =~= before);
            assert(after.last() == parts@[i - 1]@);
            if i == 1 {
                assert(s@ =~= after[0]);
            }
        }
    }
    assert(texts(parts@).take(parts.len() as int) =~= texts(parts@));
    s
}

} // verus!
