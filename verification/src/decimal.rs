//! Decimal text for integers: rendering as `to_string` does and parsing as
//! `from_str_radix(_, 10)` does, with the round trip proved.
use vstd::prelude::*;
use crate::text::push_char;
use vstd::string::*;

verus! {

/// Whether `c` is an ASCII decimal digit.
pub open spec fn is_digit(c: char) -> bool {
    '0' <= c && c <= '9'
}

/// The value of a decimal digit.
pub open spec fn digit_value(c: char) -> int {
    c as int - '0' as int
}

/// The digit character for a value in `0..10`.
pub open spec fn digit_char(d: int) -> char {
    (d + '0' as int) as char
}

/// Every character of `s` is a decimal digit.
pub open spec fn all_digits(s: Seq<char>) -> bool {
    forall|i: int| 0 <= i < s.len() ==> is_digit(#[trigger] s[i])
}

/// The number that a string of decimal digits denotes (most significant first).
pub open spec fn digits_value(s: Seq<char>) -> int
    decreases s.len(),
{
    if s.len() == 0 {
        0
    } else {
        10 * digits_value(s.drop_last()) + digit_value(s.last())
    }
}

/// The shortest decimal rendering of a natural number.
pub open spec fn nat_digits(n: nat) -> Seq<char>
    decreases n,
{
    if n < 10 {
        seq![digit_char(n as int)]
    } else {
        nat_digits((n / 10) as nat).push(digit_char((n % 10) as int))
    }
}

/// The decimal rendering of an integer: a `-` in front of negative numbers.
pub open spec fn int_digits(n: int) -> Seq<char> {
    if n < 0 {
        seq!['-'] + nat_digits((-n) as nat)
    } else {
        nat_digits(n as nat)
    }
}

/// What `i64::from_str_radix(s, 10)` returns, as an `Option`: an optional
/// sign, then at least one digit and nothing else, and a value in range.
pub open spec fn parse_i64_spec(s: Seq<char>) -> Option<i64> {
    let negative = s.len() > 0 && s[0] == '-';
    let signed = s.len() > 0 && (s[0] == '-' || s[0] == '+');
    let digits = if signed { s.skip(1) } else { s };
    let value = if negative { -digits_value(digits) } else { digits_value(digits) };
    if digits.len() == 0 || !all_digits(digits) {
        None
    } else if i64::MIN <= value && value <= i64::MAX {
        Some(value as i64)
    } else {
        None
    }
}

/// The value of a string of decimal digits is not negative.
pub proof fn lemma_digits_value_nonneg(s: Seq<char>)
    requires
        all_digits(s),
    ensures
        digits_value(s) >= 0,
    decreases s.len(),
{
    if s.len() > 0 {
        assert(all_digits(s.drop_last()));
        lemma_digits_value_nonneg(s.drop_last());
        assert(is_digit(s[s.len() - 1]));
    }
}

proof fn lemma_digits_value_monotone(s: Seq<char>, i: int)
    requires
        all_digits(s),
        0 <= i <= s.len(),
    ensures
        digits_value(s.take(i)) <= digits_value(s),
    decreases s.len() - i,
{
    if i < s.len() {
        lemma_digits_value_monotone(s, i + 1);
        assert(s.take(i + 1).drop_last() =~= s.take(i));
        assert(all_digits(s.take(i)));
        lemma_digits_value_nonneg(s.take(i));
        assert(is_digit(s[i]));
    } else {
        assert(s.take(i) =~= s);
    }
}

proof fn lemma_digit_char_value(d: int)
    requires
        0 <= d < 10,
    ensures
        is_digit(digit_char(d)),
        digit_value(digit_char(d)) == d,
{
    assert(digit_char(d) as int == d + 48);
}

pub proof fn lemma_nat_digits_shape(n: nat)
    ensures
        nat_digits(n).len() > 0,
        all_digits(nat_digits(n)),
        digits_value(nat_digits(n)) == n,
        nat_digits(n)[0] != '-' && nat_digits(n)[0] != '+',
    decreases n,
{
    lemma_digit_char_value((n % 10) as int);
    if n < 10 {
        assert(nat_digits(n).drop_last() =~= Seq::<char>::empty());
        assert(nat_digits(n).last() == digit_char(n as int));
        assert(digits_value(Seq::<char>::empty()) == 0);
    } else {
        lemma_nat_digits_shape((n / 10) as nat);
        let s = nat_digits(n);
        assert(s.last() == digit_char((n % 10) as int));
        assert(s.drop_last() =~= nat_digits((n / 10) as nat));
        assert forall|i: int| 0 <= i < s.len() implies is_digit(#[trigger] s[i]) by {
            if i < s.len() - 1 {
                assert(s[i] == nat_digits((n / 10) as nat)[i]);
            }
        }
    }
}

/// Rendering an `i64` in decimal and parsing it back gives the same number.
pub proof fn lemma_parse_renders(n: i64)
    ensures
        parse_i64_spec(int_digits(n as int)) == Some(n),
{
    if n < 0 {
        let m = (-(n as int)) as nat;
        lemma_nat_digits_shape(m);
        let s = int_digits(n as int);
        assert(s.skip(1) =~= nat_digits(m));
    } else {
        lemma_nat_digits_shape(n as nat);
    }
}

/// The digit character for `d`, which is below ten.
fn digit_of(d: u64) -> (c: char)
    requires
        d < 10,
    ensures
        c == digit_char(d as int),
{
    let b: u8 = d as u8 + 48u8;
    b as char
}

/// Renders a `u64` in decimal, as `to_string` does.
pub fn u64_to_decimal(n: u64) -> (res: String)
    ensures
        res@ == nat_digits(n as nat),
    decreases n,
{
    if n < 10 {
        let mut s = String::new();
        push_char(&mut s, digit_of(n));
        assert(s@ =~= nat_digits(n as nat));
        s
    } else {
        let mut s = u64_to_decimal(n / 10);
        push_char(&mut s, digit_of(n % 10));
        s
    }
}

/// Renders an `i64` in decimal, as `to_string` does.
pub fn i64_to_decimal(n: i64) -> (res: String)
    ensures
        res@ == int_digits(n as int),
{
    if n < 0 {
        let magnitude: u64 = if n == i64::MIN { 9_223_372_036_854_775_808u64 } else { (-n) as u64 };
        let digits = u64_to_decimal(magnitude);
        let mut s = String::new();
        push_char(&mut s, '-');
        let res = s.concat(digits.as_str());
        assert(res@ =~= int_digits(n as int));
        res
    } else {
        u64_to_decimal(n as u64)
    }
}

/// Parses a decimal `i64`: what `i64::from_str_radix(s, 10).ok()` returns.
pub fn parse_i64(s: &str) -> (res: Option<i64>)
    ensures
        res == parse_i64_spec(s@),
{
    let cs = crate::text::chars_of(s);
    let len = cs.len();
    if len == 0 {
        return None;
    }
    let negative = cs[0] == '-';
    let start: usize = if cs[0] == '-' || cs[0] == '+' { 1 } else { 0 };
    if start == len {
        return None;
    }
    let ghost digits = if start == 1 { s@.skip(1) } else { s@ };
    assert(digits =~= cs@.subrange(start as int, len as int));
    assert(digits.len() > 0);
    let mut acc: i64 = 0;
    let mut i: usize = start;
    while i < len
        invariant
            start <= i <= len,
            len == cs@.len(),
            cs@ == s@,
            start == 1 || start == 0,
            digits == cs@.subrange(start as int, len as int),
            len > 0,
            digits == (if s@.len() > 0 && (s@[0] == '-' || s@[0] == '+') { s@.skip(1) } else { s@ }),
            negative == (cs@[0] == '-'),
            negative ==> start == 1,
            all_digits(digits.take(i - start)),
            acc == (if negative { -digits_value(digits.take(i - start)) } else { digits_value(
                digits.take(i - start),
            ) }),
        decreases len - i,
    {
        let c = cs[i];
        let ghost k = i - start;
        assert(digits.take(k + 1).drop_last() =~= digits.take(k));
        assert(digits[k] == c);
        if !('0' <= c && c <= '9') {
            assert(!is_digit(digits[k]));
            assert(!all_digits(digits));
            assert(parse_i64_spec(s@) is None);
            return None;
        }
        let d: i64 = (c as u32 - '0' as u32) as i64;
        assert(digit_value(c) == d);
        assert(digits_value(digits.take(k + 1)) == 10 * digits_value(digits.take(k)) + d);
        assert(all_digits(digits.take(k + 1))) by {
            assert forall|j: int| 0 <= j < k + 1 implies is_digit(#[trigger] digits.take(k + 1)[j]) by {
                if j < k {
                    assert(digits.take(k + 1)[j] == digits.take(k)[j]);
                }
            }
        }
        proof {
            lemma_digits_value_nonneg(digits.take(k));
            if all_digits(digits) {
                lemma_digits_value_monotone(digits, k + 1);
            }
        }
        let next: i128 = if negative { acc as i128 * 10 - d as i128 } else { acc as i128 * 10 + d as i128 };
        if next < i64::MIN as i128 || next > i64::MAX as i128 {
            assert(parse_i64_spec(s@) is None);
            return None;
        }
        acc = next as i64;
        i = i + 1;
    }
    assert(digits.take(len - start) =~= digits);
    Some(acc)
}

} // verus!
