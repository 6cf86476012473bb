//! Decimal numbers in attribute values.

use vstd::prelude::*;
use vstd::string::StringExecFns;
use vstd::string::StrSliceExecFns;
use crate::error::ParseIntError;

verus! {

/// Whether a character is one of the ten digits.
pub open spec fn is_digit(c: char) -> bool {
    48 <= c as u32 <= 57
}

/// The number that a digit stands for.
pub open spec fn digit_value(c: char) -> nat {
    (c as u32 - 48) as nat
}

/// The digit that stands for a number below ten.
pub open spec fn digit_char(d: nat) -> char {
    if d == 0 {
        '0'
    } else if d == 1 {
        '1'
    } else if d == 2 {
        '2'
    } else if d == 3 {
        '3'
    } else if d == 4 {
        '4'
    } else if d == 5 {
        '5'
    } else if d == 6 {
        '6'
    } else if d == 7 {
        '7'
    } else if d == 8 {
        '8'
    } else {
        '9'
    }
}

/// Reads `s` as digits, left to right, onto the number `acc` read so far. The
/// first character that is no digit, or that takes the number past `max`,
/// decides the error.
pub open spec fn scan_digits(s: Seq<char>, acc: nat, max: nat) -> Result<nat, ParseIntError>
    decreases s.len(),
{
    if s.len() == 0 {
        Ok(acc)
    } else if !is_digit(s[0]) {
        Err(ParseIntError::InvalidDigit)
    } else if acc * 10 + digit_value(s[0]) > max {
        Err(ParseIntError::PosOverflow)
    } else {
        scan_digits(s.drop_first(), acc * 10 + digit_value(s[0]), max)
    }
}

/// The digits of a string that may begin with a plus sign.
pub open spec fn unsigned_digits(s: Seq<char>) -> Seq<char> {
    if s.len() > 0 && s[0] == '+' {
        s.drop_first()
    } else {
        s
    }
}

/// What a string says as an unsigned decimal number of at most `max`: an
/// optional plus sign, then digits only and at least one.
pub open spec fn parse_unsigned(s: Seq<char>, max: nat) -> Result<nat, ParseIntError> {
    if s.len() == 0 {
        Err(ParseIntError::Empty)
    } else if s.len() == 1 && (s[0] == '+' || s[0] == '-') {
        Err(ParseIntError::InvalidDigit)
    } else {
        scan_digits(unsigned_digits(s), 0, max)
    }
}

/// What a string says as a `u16`.
pub open spec fn parse_u16_spec(s: Seq<char>) -> Result<u16, ParseIntError> {
    match parse_unsigned(s, 65535) {
        Ok(n) => Ok(n as u16),
        Err(e) => Err(e),
    }
}

/// The decimal digits of a number, without leading zeros.
pub open spec fn decimal(n: nat) -> Seq<char>
    decreases n,
{
    if n < 10 {
        seq![digit_char(n)]
    } else {
        decimal(n / 10).push(digit_char(n % 10))
    }
}

/// Reading one more character continues from what the others gave.
pub proof fn lemma_scan_push(s: Seq<char>, c: char, acc: nat, max: nat)
    ensures
        scan_digits(s.push(c), acc, max) == match scan_digits(s, acc, max) {
            Ok(v) => if !is_digit(c) {
                Err(ParseIntError::InvalidDigit)
            } else if v * 10 + digit_value(c) > max {
                Err(ParseIntError::PosOverflow)
            } else {
                Ok(v * 10 + digit_value(c))
            },
            Err(e) => Err(e),
        },
    decreases s.len(),
{
    if s.len() == 0 {
        let t = s.push(c);
        assert(t.drop_first() =~= Seq::<char>::empty());
        assert(t[0] == c);
        assert(scan_digits(s, acc, max) == Ok::<nat, ParseIntError>(acc));
        if is_digit(c) && acc * 10 + digit_value(c) <= max {
            assert(scan_digits(t.drop_first(), acc * 10 + digit_value(c), max) == Ok::<
                nat,
                ParseIntError,
            >(acc * 10 + digit_value(c)));
        }
    } else {
        assert(s.push(c).drop_first() =~= s.drop_first().push(c));
        assert(s.push(c)[0] == s[0]);
        if is_digit(s[0]) && acc * 10 + digit_value(s[0]) <= max {
            lemma_scan_push(s.drop_first(), c, acc * 10 + digit_value(s[0]), max);
        }
    }
}

/// A digit is a digit, and stands for the number it was made from.
pub proof fn lemma_digit_char(d: nat)
    requires
        d < 10,
    ensures
        is_digit(digit_char(d)),
        digit_value(digit_char(d)) == d,
        digit_char(d) != '+',
        digit_char(d) != '-',
{
}

/// The digits of a number read back as that number.
pub proof fn lemma_scan_decimal(n: nat, max: nat)
    requires
        n <= max,
    ensures
        scan_digits(decimal(n), 0, max) == Ok::<nat, ParseIntError>(n),
        decimal(n).len() >= 1,
        decimal(n)[0] != '+',
        decimal(n)[0] != '-',
    decreases n,
{
    if n < 10 {
        lemma_digit_char(n);
        let s = decimal(n);
        assert(s.drop_first() =~= Seq::<char>::empty());
        assert(scan_digits(s.drop_first(), n, max) == Ok::<nat, ParseIntError>(n));
    } else {
        lemma_scan_decimal(n / 10, max);
        lemma_digit_char(n % 10);
        lemma_scan_push(decimal(n / 10), digit_char(n % 10), 0, max);
        assert(decimal(n)[0] == decimal(n / 10)[0]);
    }
}

/// Writing a number and reading it gives the number.
pub proof fn lemma_parse_decimal(n: u16)
    ensures
        parse_u16_spec(decimal(n as nat)) == Ok::<u16, ParseIntError>(n),
{
    lemma_scan_decimal(n as nat, 65535);
}

/// Reads an unsigned decimal number that fits in sixteen bits.
pub fn parse_u16(s: &str) -> (r: Result<u16, ParseIntError>)
    ensures
        r == parse_u16_spec(s@),
{
    let n: usize = s.unicode_len();
    if n == 0 {
        return Err(ParseIntError::Empty);
    }
    let first = s.get_char(0);
    if n == 1 && (first == '+' || first == '-') {
        return Err(ParseIntError::InvalidDigit);
    }
    let start: usize = if first == '+' {
        1
    } else {
        0
    };
    let ghost digits = unsigned_digits(s@);
    let mut acc: u32 = 0;
    let mut i: usize = start;
    assert(digits.take(0) =~= Seq::<char>::empty());
    assert(digits =~= s@.skip(start as int));
    while i < n
        invariant
            start <= i <= n,
            n == s@.len(),
            digits == s@.skip(start as int),
            parse_u16_spec(s@) == match scan_digits(digits, 0, 65535) {
                Ok(v) => Ok::<u16, ParseIntError>(v as u16),
                Err(e) => Err(e),
            },
            acc <= 65535,
            scan_digits(digits.take(i - start), 0, 65535) == Ok::<nat, ParseIntError>(acc as nat),
        decreases n - i,
    {
        let c = s.get_char(i);
        let v: u32 = c as u32;
        proof {
            assert(digits[i - start] == c);
            lemma_scan_push(digits.take(i - start), c, 0, 65535);
            assert(digits.take(i - start).push(c) =~= digits.take(i + 1 - start));
            if !(48 <= v <= 57) || acc * 10 + (v - 48) > 65535 {
                lemma_scan_stops(digits, i + 1 - start, 65535);
            }
        }
        if v < 48 || v > 57 {
            return Err(ParseIntError::InvalidDigit);
        }
        let next: u32 = acc * 10 + (v - 48);
        if next > 65535 {
            return Err(ParseIntError::PosOverflow);
        }
        acc = next;
        i = i + 1;
    }
    assert(digits.take(n - start) =~= digits);
    Ok(acc as u16)
}

/// Once reading has failed, reading on fails the same way.
pub proof fn lemma_scan_stops(s: Seq<char>, k: int, max: nat)
    requires
        0 <= k <= s.len(),
        scan_digits(s.take(k), 0, max) is Err,
    ensures
        scan_digits(s, 0, max) == scan_digits(s.take(k), 0, max),
    decreases s.len() - k,
{
    if k < s.len() {
        lemma_scan_push(s.take(k), s[k], 0, max);
        assert(s.take(k).push(s[k]) =~= s.take(k + 1));
        lemma_scan_stops(s, k + 1, max);
    } else {
        assert(s.take(k) =~= s);
    }
}

fn digit_str(d: u16) -> (r: &'static str)
    requires
        d < 10,
    ensures
        r@ == seq![digit_char(d as nat)],
{
    proof {
        reveal_strlit("0");
        reveal_strlit("1");
        reveal_strlit("2");
        reveal_strlit("3");
        reveal_strlit("4");
        reveal_strlit("5");
        reveal_strlit("6");
        reveal_strlit("7");
        reveal_strlit("8");
        reveal_strlit("9");
    }
    let r = if d == 0 {
        "0"
    } else if d == 1 {
        "1"
    } else if d == 2 {
        "2"
    } else if d == 3 {
        "3"
    } else if d == 4 {
        "4"
    } else if d == 5 {
        "5"
    } else if d == 6 {
        "6"
    } else if d == 7 {
        "7"
    } else if d == 8 {
        "8"
    } else {
        "9"
    };
    assert(r@ =~= seq![digit_char(d as nat)]);
    r
}

/// Writes a number in decimal digits, without leading zeros.
pub fn format_u16(n: u16) -> (r: String)
    ensures
        r@ == decimal(n as nat),
    decreases n,
{
    if n < 10 {
        digit_str(n).to_owned()
    } else {
        let mut s = format_u16(n / 10);
        s.append(digit_str(n % 10));
        assert(s@ =~= decimal((n / 10) as nat).push(digit_char((n % 10) as nat)));
        s
    }
}

} // verus!
