//! Object keys: ULIDs generated at a given time, and the time read back
//! from the first ten Crockford Base32 characters of such a key.
use vstd::prelude::*;
use vstd::string::*;
use rand::rngs::StdRng;

verus! {

/// The Crockford Base32 alphabet, in digit order.
pub open spec fn crockford_alphabet() -> Seq<char> {
    seq![
        '0', '1', '2', '3', '4', '5', '6', '7', '8', '9',
        'A', 'B', 'C', 'D', 'E', 'F', 'G', 'H', 'J', 'K',
        'M', 'N', 'P', 'Q', 'R', 'S', 'T', 'V', 'W', 'X',
        'Y', 'Z',
    ]
}

/// The position of an upper-case Crockford digit in the alphabet, if it is one.
pub open spec fn crockford_digit_value(c: char) -> Option<int> {
    if '0' <= c && c <= '9' {
        Some(c as int - '0' as int)
    } else if 'A' <= c && c <= 'H' {
        Some(c as int - 'A' as int + 10)
    } else if c == 'J' || c == 'K' {
        Some(c as int - 'J' as int + 18)
    } else if c == 'M' || c == 'N' {
        Some(c as int - 'M' as int + 20)
    } else if 'P' <= c && c <= 'T' {
        Some(c as int - 'P' as int + 22)
    } else if 'V' <= c && c <= 'Z' {
        Some(c as int - 'V' as int + 27)
    } else {
        None
    }
}

/// The number that a sequence of bytes denotes read as big-endian Crockford
/// Base32 digits, or `None` when one of them is not a digit.
pub open spec fn crockford_bytes_value(b: Seq<u8>) -> Option<int>
    decreases b.len(),
{
    if b.len() == 0 {
        Some(0)
    } else {
        match (crockford_bytes_value(b.drop_last()), crockford_digit_value(b.last() as char)) {
            (Some(high), Some(low)) => Some(32 * high + low),
            _ => None,
        }
    }
}

/// The `n` big-endian Crockford Base32 digits of `v` (the low `5 * n` bits).
pub open spec fn crockford_digits(v: nat, n: nat) -> Seq<char>
    decreases n,
{
    if n == 0 {
        seq![]
    } else {
        crockford_digits(v / 32, (n - 1) as nat).push(crockford_alphabet()[(v % 32) as int])
    }
}

/// The earliest millisecond timestamp that a UTC date-time can hold (the
/// start of the year -262143).
pub open spec fn min_utc_millis() -> int {
    -8_334_601_228_800_000
}

/// The latest millisecond timestamp that a UTC date-time can hold (the
/// last millisecond of the year 262142).
pub open spec fn max_utc_millis() -> int {
    8_210_266_876_799_999
}

/// The 48 bits of time that a ULID made at `millis` carries: times before
/// the epoch count as the epoch, later ones are taken modulo 2^48.
pub open spec fn ulid_time_bits(millis: int) -> nat {
    if millis < 0 {
        0
    } else {
        (millis % 0x1_0000_0000_0000) as nat
    }
}

/// `s` is the text of a ULID made at `millis`: 26 Crockford digits whose
/// first ten encode the time bits.
pub open spec fn is_ulid_at(s: Seq<char>, millis: int) -> bool {
    &&& s.len() == 26
    &&& s.subrange(0, 10) == crockford_digits(ulid_time_bits(millis), 10)
    &&& forall|i: int| 0 <= i < 26 ==> #[trigger] crockford_digit_value(s[i]) is Some
}

/// What `UlidService::parse` returns for a key whose UTF-8 bytes are `bytes`.
pub open spec fn parse_time_spec(bytes: Seq<u8>) -> Option<int> {
    crockford_bytes_value(bytes.subrange(0, 10))
}

/// The random source that `StdRng` is.
#[verifier::external_type_specification]
#[verifier::external_body]
pub struct ExStdRng(StdRng);

/// Seeds a `StdRng` from the operating system: `SeedableRng::from_os_rng`.
/// Nothing is claimed of the state it returns.
#[verifier::external_body]
fn rng_from_os() -> StdRng {
    <StdRng as rand::SeedableRng>::from_os_rng()
}

/// The current time in milliseconds since the epoch: `chrono::Utc::now()`
/// read with `timestamp_millis`. Claimed, from the crate's source: the time
/// is not before the epoch (`now` refuses such a clock) and lies in the
/// range that a `DateTime<Utc>` can hold; which time it is depends on the
/// clock.
#[verifier::external_body]
pub(crate) fn now_millis() -> (millis: i64)
    ensures
        0 <= millis <= max_utc_millis(),
{
    chrono::Utc::now().timestamp_millis()
}

/// A ULID made at `millis` with randomness from `rng`, as text:
/// `ulid::Ulid::from_datetime_with_source` applied to the `chrono`
/// date-time of `millis` (converted to `SystemTime`), then `to_string`.
/// Claimed, from the crate's source: the text is 26 Crockford Base32 digits
/// and the first ten encode the timestamp bits (the timestamp is clamped at
/// the epoch and masked to 48 bits); the rest is random and not described.
#[verifier::external_body]
fn ulid_text_at(rng: &mut StdRng, millis: i64) -> (s: String)
    requires
        min_utc_millis() <= millis <= max_utc_millis(),
    ensures
        is_ulid_at(s@, millis as int),
{
    let datetime = chrono::DateTime::from_timestamp_millis(millis).unwrap();
    ulid::Ulid::from_datetime_with_source(datetime.into(), rng).to_string()
}

/// Generates object keys.
pub struct UlidService {
    rng: StdRng,
}

/// The Crockford digit value of an upper-case digit byte.
fn crockford_byte_value(b: u8) -> (res: Option<u8>)
    ensures
        match crockford_digit_value(b as char) {
            Some(v) => res == Some(v as u8),
            None => res is None,
        },
{
    if 48 <= b && b <= 57 {
        Some(b - 48)
    } else if 65 <= b && b <= 72 {
        Some(b - 65 + 10)
    } else if b == 74 || b == 75 {
        Some(b - 74 + 18)
    } else if b == 77 || b == 78 {
        Some(b - 77 + 20)
    } else if 80 <= b && b <= 84 {
        Some(b - 80 + 22)
    } else if 86 <= b && b <= 90 {
        Some(b - 86 + 27)
    } else {
        None
    }
}

/// `32^n`.
pub open spec fn pow32(n: nat) -> nat
    decreases n,
{
    if n == 0 {
        1
    } else {
        32 * pow32((n - 1) as nat)
    }
}

proof fn lemma_crockford_value_bound(b: Seq<u8>)
    ensures
        crockford_bytes_value(b) matches Some(v) ==> 0 <= v < pow32(b.len()),
    decreases b.len(),
{
    if b.len() > 0 {
        lemma_crockford_value_bound(b.drop_last());
    }
}

proof fn lemma_pow32_monotone(i: nat, j: nat)
    requires
        i <= j,
    ensures
        pow32(i) <= pow32(j),
    decreases j,
{
    if i < j {
        lemma_pow32_monotone(i, (j - 1) as nat);
    }
}

impl UlidService {
    /// A service whose random source is seeded by the operating system.
    pub fn new() -> (res: Self) {
        UlidService { rng: rng_from_os() }
    }

    /// A key made at `time` (milliseconds since the epoch).
    pub fn gen(&mut self, time: i64) -> (res: String)
        requires
            min_utc_millis() <= time <= max_utc_millis(),
        ensures
            is_ulid_at(res@, time as int),
    {
        ulid_text_at(&mut self.rng, time)
    }

    /// A key made now.
    pub fn gen_now(&mut self) -> (res: String)
        ensures
            exists|time: int| min_utc_millis() <= time <= max_utc_millis() && is_ulid_at(res@, time),
    {
        let time = now_millis();
        self.gen(time)
    }

    /// The time (milliseconds) that the first ten characters of a key encode,
    /// or `None` when one of them is not an upper-case Crockford digit.
    pub fn parse(&self, id: &str) -> (res: Option<i64>)
        requires
            id.spec_bytes().len() >= 10,
            vstd::utf8::is_char_boundary(id.spec_bytes(), 10),
        ensures
            match parse_time_spec(id.spec_bytes()) {
                Some(v) => res == Some(v as i64),
                None => res is None,
            },
    {
        let bytes = id.as_bytes();
        let mut time: i64 = 0;
        let mut i: usize = 0;
        while i < 10
            invariant
                0 <= i <= 10,
                bytes@ == id.spec_bytes(),
                bytes@.len() >= 10,
                crockford_bytes_value(bytes@.subrange(0, i as int)) == Some(time as int),
            decreases 10 - i,
        {
            proof {
                lemma_crockford_value_bound(bytes@.subrange(0, i as int));
                lemma_pow32_monotone(i as nat, 9);
                reveal_with_fuel(pow32, 10);
                assert(pow32(9) == 35184372088832);
            }
            let ghost prefix = bytes@.subrange(0, i as int + 1);
            assert(prefix.drop_last() =~= bytes@.subrange(0, i as int));
            match crockford_byte_value(bytes[i]) {
                Some(d) => {
                    time = time * 32 + d as i64;
                },
                None => {
                    proof {
                        lemma_none_extends(bytes@.subrange(0, 10), i as int);
                        assert(bytes@.subrange(0, 10).subrange(0, i as int + 1) =~= prefix);
                    }
                    return None;
                },
            }
            i = i + 1;
        }
        Some(time)
    }
}

proof fn lemma_none_extends(b: Seq<u8>, i: int)
    requires
        0 <= i < b.len(),
        crockford_bytes_value(b.subrange(0, i + 1)) is None,
    ensures
        crockford_bytes_value(b) is None,
    decreases b.len() - i,
{
    if i + 1 < b.len() {
        assert(b.subrange(0, i + 2).drop_last() =~= b.subrange(0, i + 1));
        lemma_none_extends(b, i + 1);
    } else {
        assert(b.subrange(0, i + 1) =~= b);
    }
}

proof fn lemma_alphabet_values()
    ensures
        forall|d: int| 0 <= d < 32 ==> #[trigger] crockford_digit_value(crockford_alphabet()[d]) == Some(d),
{
    let a = crockford_alphabet();
    assert forall|d: int| 0 <= d < 32 implies #[trigger] crockford_digit_value(a[d]) == Some(d) by {
        if d < 16 {
            if d < 8 {
                assert(a[0] == '0' && a[1] == '1' && a[2] == '2' && a[3] == '3');
                assert(a[4] == '4' && a[5] == '5' && a[6] == '6' && a[7] == '7');
            } else {
                assert(a[8] == '8' && a[9] == '9' && a[10] == 'A' && a[11] == 'B');
                assert(a[12] == 'C' && a[13] == 'D' && a[14] == 'E' && a[15] == 'F');
            }
        } else {
            if d < 24 {
                assert(a[16] == 'G' && a[17] == 'H' && a[18] == 'J' && a[19] == 'K');
                assert(a[20] == 'M' && a[21] == 'N' && a[22] == 'P' && a[23] == 'Q');
            } else {
                assert(a[24] == 'R' && a[25] == 'S' && a[26] == 'T' && a[27] == 'V');
                assert(a[28] == 'W' && a[29] == 'X' && a[30] == 'Y' && a[31] == 'Z');
            }
        }
    }
}

proof fn lemma_digits_len(v: nat, n: nat)
    ensures
        crockford_digits(v, n).len() == n,
    decreases n,
{
    if n > 0 {
        lemma_digits_len(v / 32, (n - 1) as nat);
    }
}

proof fn lemma_digits_read_back(b: Seq<u8>, v: nat, n: nat)
    requires
        b.len() == n,
        forall|i: int| 0 <= i < n ==> #[trigger] crockford_digit_value(b[i] as char)
            == crockford_digit_value(crockford_digits(v, n)[i]),
    ensures
        crockford_bytes_value(b) == Some((v % pow32(n)) as int),
    decreases n,
{
    lemma_alphabet_values();
    if n == 0 {
        assert(v % 1 == 0);
    } else {
        let prev = crockford_digits(v / 32, (n - 1) as nat);
        lemma_digits_len(v / 32, (n - 1) as nat);
        assert(crockford_digits(v, n) == prev.push(crockford_alphabet()[(v % 32) as int]));
        assert forall|i: int| 0 <= i < n - 1 implies #[trigger] crockford_digit_value(b.drop_last()[i] as char)
            == crockford_digit_value(crockford_digits(v / 32, (n - 1) as nat)[i]) by {
            assert(b.drop_last()[i] == b[i]);
            assert(crockford_digits(v, n)[i] == prev[i]);
        }
        lemma_digits_read_back(b.drop_last(), v / 32, (n - 1) as nat);
        assert(crockford_digit_value(b[n - 1] as char) == crockford_digit_value(crockford_digits(v, n)[n - 1]));
        assert(crockford_digits(v, n)[n - 1] == crockford_alphabet()[(v % 32) as int]);
        assert(crockford_digit_value(crockford_alphabet()[(v % 32) as int]) == Some((v % 32) as int));
        assert(crockford_digit_value(b.last() as char) == Some((v % 32) as int));
        lemma_pow32_monotone(0, (n - 1) as nat);
        vstd::arithmetic::div_mod::lemma_breakdown(v as int, 32, pow32((n - 1) as nat) as int);
    }
}

/// A key made at a time reads back as the time bits it was made with: the
/// first ten bytes of the key are a character boundary, and `parse` on it
/// returns `ulid_time_bits(millis)` (which is `millis` itself for times from
/// the epoch up to 2^48 milliseconds).
pub proof fn lemma_parse_reads_gen_time(key: &str, millis: int)
    requires
        is_ulid_at(key@, millis),
    ensures
        key.spec_bytes().len() >= 10,
        vstd::utf8::is_char_boundary(key.spec_bytes(), 10),
        parse_time_spec(key.spec_bytes()) == Some(ulid_time_bits(millis) as int),
{
    let chars = key@;
    assert(vstd::utf8::is_ascii_chars(chars)) by {
        assert forall|i: int| 0 <= i < chars.len() implies '\0' <= #[trigger] chars[i] <= '\u{7f}' by {
            assert(crockford_digit_value(chars[i]) is Some);
        }
    }
    vstd::utf8::is_ascii_chars_encode_utf8(chars);
    vstd::utf8::encode_utf8_valid_utf8(chars);
    let bytes = key.spec_bytes();
    assert(bytes[10] == chars[10] as u8);
    vstd::utf8::is_char_boundary_iff_not_is_continuation_byte(bytes, 10);
    let v = ulid_time_bits(millis);
    let prefix = bytes.subrange(0, 10);
    assert forall|i: int| 0 <= i < 10 implies #[trigger] crockford_digit_value(prefix[i] as char)
        == crockford_digit_value(crockford_digits(v, 10)[i]) by {
        assert(prefix[i] == bytes[i]);
        assert(bytes[i] == chars[i] as u8);
        assert(chars.subrange(0, 10)[i] == chars[i]);
        assert(crockford_digit_value(chars[i]) is Some);
        assert((chars[i] as u8) as char == chars[i]);
    }
    lemma_digits_read_back(prefix, v, 10);
    reveal_with_fuel(pow32, 11);
    assert(pow32(10) == 1125899906842624);
    vstd::arithmetic::div_mod::lemma_small_mod(v, pow32(10));
}

/// `a` comes before `b` in dictionary order of characters: at the first
/// place where they differ, `a` has the smaller character. (For ASCII text,
/// such as keys, this is the order of Rust's `String` comparison.)
pub open spec fn lex_less(a: Seq<char>, b: Seq<char>) -> bool {
    exists|i: int|
        0 <= i < a.len() && i < b.len() && a.subrange(0, i) == b.subrange(0, i) && (a[i] as int) < (b[i] as int)
}

proof fn lemma_alphabet_increasing(a: int, b: int)
    requires
        0 <= a < b < 32,
    ensures
        (crockford_alphabet()[a] as int) < (crockford_alphabet()[b] as int),
{
    lemma_alphabet_values();
    let ca = crockford_alphabet()[a];
    let cb = crockford_alphabet()[b];
    assert(crockford_digit_value(ca) == Some(a));
    assert(crockford_digit_value(cb) == Some(b));
}

proof fn lemma_digits_ordered(v1: nat, v2: nat, n: nat) -> (i: int)
    requires
        v1 < v2 < pow32(n),
    ensures
        0 <= i < n,
        crockford_digits(v1, n).subrange(0, i) == crockford_digits(v2, n).subrange(0, i),
        (crockford_digits(v1, n)[i] as int) < (crockford_digits(v2, n)[i] as int),
    decreases n,
{
    let d1 = crockford_digits(v1, n);
    let d2 = crockford_digits(v2, n);
    lemma_digits_len(v1, n);
    lemma_digits_len(v2, n);
    assert(n > 0);
    let m = (n - 1) as nat;
    let p1 = crockford_digits(v1 / 32, m);
    let p2 = crockford_digits(v2 / 32, m);
    lemma_digits_len(v1 / 32, m);
    lemma_digits_len(v2 / 32, m);
    assert(d1 == p1.push(crockford_alphabet()[(v1 % 32) as int]));
    assert(d2 == p2.push(crockford_alphabet()[(v2 % 32) as int]));
    assert(v2 / 32 < pow32(m)) by (nonlinear_arith)
        requires
            v2 < pow32(n),
            pow32(n) == 32 * pow32(m),
    ;
    assert(v1 / 32 <= v2 / 32) by (nonlinear_arith)
        requires
            v1 < v2,
    ;
    if v1 / 32 < v2 / 32 {
        let j = lemma_digits_ordered(v1 / 32, v2 / 32, m);
        assert(d1.subrange(0, j) =~= p1.subrange(0, j));
        assert(d2.subrange(0, j) =~= p2.subrange(0, j));
        assert(d1[j] == p1[j]);
        assert(d2[j] == p2[j]);
        j
    } else {
        assert(v1 % 32 < v2 % 32) by (nonlinear_arith)
            requires
                v1 < v2,
                v1 / 32 == v2 / 32,
        ;
        lemma_alphabet_increasing((v1 % 32) as int, (v2 % 32) as int);
        assert(d1.subrange(0, m as int) =~= p1);
        assert(d2.subrange(0, m as int) =~= p2);
        m as int
    }
}

/// Keys are ordered by the time they were made at: for times from the epoch
/// up to 2^48 milliseconds, a key made earlier comes before one made later,
/// whatever their random parts.
pub proof fn lemma_keys_ordered_by_time(k1: Seq<char>, t1: int, k2: Seq<char>, t2: int)
    requires
        is_ulid_at(k1, t1),
        is_ulid_at(k2, t2),
        0 <= t1 < t2 < 0x1_0000_0000_0000,
    ensures
        lex_less(k1, k2),
{
    assert(ulid_time_bits(t1) == t1);
    assert(ulid_time_bits(t2) == t2);
    reveal_with_fuel(pow32, 11);
    assert(pow32(10) == 1125899906842624);
    let i = lemma_digits_ordered(t1 as nat, t2 as nat, 10);
    let h1 = k1.subrange(0, 10);
    let h2 = k2.subrange(0, 10);
    assert(k1.subrange(0, i) =~= h1.subrange(0, i));
    assert(k2.subrange(0, i) =~= h2.subrange(0, i));
    assert(k1[i] == h1[i]);
    assert(k2[i] == h2[i]);
}

} // verus!
