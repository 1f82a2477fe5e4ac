//! Decimal numbers in text: reading them as `str::parse::<u32>` does, and
//! writing them as `u32::to_string` does.
use vstd::prelude::*;

verus! {

/// An ASCII digit.
pub open spec fn is_digit(c: char) -> bool {
    '0' <= c && c <= '9'
}

/// The value of an ASCII digit.
pub open spec fn digit_value(c: char) -> nat {
    ((c as u32) - ('0' as u32)) as nat
}

/// The value of a sequence of digits, most significant first.
pub open spec fn digits_value(s: Seq<char>) -> nat
    decreases s.len(),
{
    if s.len() == 0 {
        0
    } else {
        digits_value(s.drop_last()) * 10 + digit_value(s.last())
    }
}

/// Every character of `s` is a digit.
pub open spec fn all_digits(s: Seq<char>) -> bool {
    forall|i: int| 0 <= i < s.len() ==> is_digit(#[trigger] s[i])
}

/// What `str::parse::<u32>` gives for `s`: an optional `+`, then one or more
/// digits whose value fits in a `u32`.
pub open spec fn spec_parse_u32(s: Seq<char>) -> Option<u32> {
    let digits = if s.len() > 0 && s[0] == '+' {
        s.drop_first()
    } else {
        s
    };
    if digits.len() > 0 && all_digits(digits) && digits_value(digits) <= u32::MAX {
        Some(digits_value(digits) as u32)
    } else {
        None
    }
}

/// The digit character for a value below ten.
pub open spec fn digit_char(d: nat) -> char {
    (('0' as u32) + d) as char
}

/// The shortest decimal writing of `n`.
pub open spec fn decimal(n: nat) -> Seq<char>
    decreases n,
{
    if n < 10 {
        seq![digit_char(n)]
    } else {
        decimal(n / 10).push(digit_char(n % 10))
    }
}

/// A longer prefix of digits is worth at least as much.
proof fn lemma_digits_value_prefix(s: Seq<char>, a: int, b: int)
    requires
        0 <= a <= b <= s.len(),
    ensures
        digits_value(s.take(a)) <= digits_value(s.take(b)),
    decreases b - a,
{
    if a < b {
        assert(s.take(b).drop_last() =~= s.take(b - 1));
        lemma_digits_value_prefix(s, a, b - 1);
    }
}

/// The decimal writing of `n` is digits, does not start with `+`, and is worth `n`.
pub proof fn lemma_decimal(n: nat)
    ensures
        decimal(n).len() > 0,
        all_digits(decimal(n)),
        decimal(n)[0] != '+',
        digits_value(decimal(n)) == n,
    decreases n,
{
    if n >= 10 {
        lemma_decimal(n / 10);
        let p = decimal(n / 10);
        assert(decimal(n).drop_last() =~= p);
        assert(n == (n / 10) * 10 + n % 10);
        assert(digit_value(digit_char(n % 10)) == n % 10);
        assert(decimal(n).last() == digit_char(n % 10));
        assert(digits_value(decimal(n)) == digits_value(p) * 10 + digit_value(digit_char(n % 10)));
        assert(decimal(n)[0] == p[0]);
    } else {
        assert(digit_value(digit_char(n)) == n);
        assert(decimal(n).drop_last() =~= Seq::<char>::empty());
        assert(digits_value(decimal(n)) == digits_value(Seq::<char>::empty()) * 10 + digit_value(
            digit_char(n),
        ));
    }
}

/// Reading back the decimal writing of a number gives the number.
pub proof fn lemma_parse_decimal(n: u32)
    ensures
        spec_parse_u32(decimal(n as nat)) == Some(n),
{
    lemma_decimal(n as nat);
}

/// A number may carry one leading `+`; empty text, a lone `+`, and text
/// with any other character that is not a digit are no number.
pub proof fn lemma_parse_u32_accepts_and_rejects(s: Seq<char>, n: u32)
    ensures
        spec_parse_u32(Seq::<char>::empty()) is None,
        spec_parse_u32(seq!['+']) is None,
        spec_parse_u32(seq!['+'] + decimal(n as nat)) == Some(n),
        (exists|i: int| 0 <= i < s.len() && !is_digit(#[trigger] s[i]) && !(i == 0 && s[i] == '+'))
            ==> spec_parse_u32(s) is None,
{
    lemma_parse_decimal(n);
    lemma_decimal(n as nat);
    let p = seq!['+'] + decimal(n as nat);
    assert(p[0] == '+');
    assert(p.drop_first() =~= decimal(n as nat));
    assert(seq!['+'].drop_first() =~= Seq::<char>::empty());
    if exists|i: int| 0 <= i < s.len() && !is_digit(#[trigger] s[i]) && !(i == 0 && s[i] == '+') {
        let i = choose|i: int| 0 <= i < s.len() && !is_digit(#[trigger] s[i]) && !(i == 0 && s[i] == '+');
        if s.len() > 0 && s[0] == '+' {
            assert(s.drop_first()[i - 1] == s[i]);
        }
    }
}

/// The digit character for a value below ten.
fn digit_to_char(d: u64) -> (c: char)
    requires
        d < 10,
    ensures
        c == digit_char(d as nat),
        is_digit(c),
{
    ((('0' as u64) + d) as u8) as char
}

/// The decimal writing of `n`.
pub fn decimal_chars(n: u64) -> (out: Vec<char>)
    ensures
        out@ == decimal(n as nat),
    decreases n,
{
    if n < 10 {
        vec![digit_to_char(n)]
    } else {
        let mut v = decimal_chars(n / 10);
        v.push(digit_to_char(n % 10));
        v
    }
}

/// The decimal writing of `n` (`u32::to_string`).
pub fn format_u32(n: u32) -> (s: String)
    ensures
        s@ == decimal(n as nat),
{
    let v = decimal_chars(n as u64);
    crate::text::string_from_chars(v.as_slice())
}

/// The decimal writing of `n` (`usize::to_string`).
pub fn format_usize(n: usize) -> (s: String)
    ensures
        s@ == decimal(n as nat),
{
    let v = decimal_chars(n as u64);
    crate::text::string_from_chars(v.as_slice())
}

/// `s` read as a `u32` the way `str::parse::<u32>` reads it.
pub fn parse_u32_chars(s: &[char]) -> (r: Option<u32>)
    ensures
        r == spec_parse_u32(s@),
{
    let start: usize = if s.len() > 0 && s[0] == '+' { 1 } else { 0 };
    let ghost digits = if s@.len() > 0 && s@[0] == '+' {
        s@.drop_first()
    } else {
        s@
    };
    assert(digits =~= s@.skip(start as int));
    if start >= s.len() {
        return None;
    }
    let mut value: u64 = 0;
    let mut i: usize = start;
    while i < s.len()
        invariant
            start <= i <= s@.len(),
            digits == s@.skip(start as int),
            digits == (if s@.len() > 0 && s@[0] == '+' {
                s@.drop_first()
            } else {
                s@
            }),
            value == digits_value(digits.take(i - start)),
            value <= u32::MAX,
            all_digits(digits.take(i - start)),
        decreases s@.len() - i,
    {
        let c = s[i];
        let k = i - start;
        assert(digits.take(k + 1).drop_last() =~= digits.take(k as int));
        assert(digits.take(k + 1).last() == c);
        if !('0' <= c && c <= '9') {
            assert(!all_digits(digits)) by {
                assert(digits[k as int] == c);
            }
            return None;
        }
        let d = ((c as u32) - ('0' as u32)) as u64;
        assert(d == digit_value(c));
        value = value * 10 + d;
        assert(value == digits_value(digits.take(k + 1)));
        if value > 0xffff_ffff {
            proof {
                lemma_digits_value_prefix(digits, k + 1, digits.len() as int);
                assert(digits.take(digits.len() as int) =~= digits);
            }
            return None;
        }
        assert(all_digits(digits.take(k + 1))) by {
            assert forall|j: int| 0 <= j < k + 1 implies is_digit(#[trigger] digits.take(k + 1)[j]) by {
                if j < k {
                    assert(digits.take(k + 1)[j] == digits.take(k as int)[j]);
                }
            }
        }
        i = i + 1;
    }
    assert(digits.take(digits.len() as int) =~= digits);
    Some(value as u32)
}

/// `s` read as a `u32` the way `str::parse::<u32>` reads it.
pub fn parse_u32(s: &str) -> (r: Option<u32>)
    ensures
        r == spec_parse_u32(s@),
{
    let v = crate::text::chars_of(s);
    parse_u32_chars(v.as_slice())
}

} // verus!
