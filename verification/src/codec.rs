//! Text codecs used by the protocol: hex payloads, decimal ids, and the
//! base58 encoding of player identities.

use vstd::prelude::*;

verus! {

/// Value of one hex digit, or `None` for any other character.
pub open spec fn hex_digit_value(c: char) -> Option<u8> {
    match c {
        '0' => Some(0u8),
        '1' => Some(1u8),
        '2' => Some(2u8),
        '3' => Some(3u8),
        '4' => Some(4u8),
        '5' => Some(5u8),
        '6' => Some(6u8),
        '7' => Some(7u8),
        '8' => Some(8u8),
        '9' => Some(9u8),
        'a' => Some(10u8),
        'b' => Some(11u8),
        'c' => Some(12u8),
        'd' => Some(13u8),
        'e' => Some(14u8),
        'f' => Some(15u8),
        'A' => Some(10u8),
        'B' => Some(11u8),
        'C' => Some(12u8),
        'D' => Some(13u8),
        'E' => Some(14u8),
        'F' => Some(15u8),
        _ => None,
    }
}

/// A hex string: an even number of hex digits.
pub open spec fn valid_hex(s: Seq<char>) -> bool {
    &&& s.len() % 2 == 0
    &&& forall|i: int| 0 <= i < s.len() ==> hex_digit_value(#[trigger] s[i]) is Some
}

/// The bytes a valid hex string denotes: two digits per byte, high first.
pub open spec fn hex_bytes(s: Seq<char>) -> Seq<u8> {
    Seq::new(
        s.len() / 2,
        |i: int| (hex_digit_value(s[2 * i])->0 * 16 + hex_digit_value(s[2 * i + 1])->0) as u8,
    )
}

/// `s` without one leading `0x`, if present.
pub open spec fn strip_0x(s: Seq<char>) -> Seq<char> {
    if s.len() >= 2 && s[0] == '0' && s[1] == 'x' {
        s.subrange(2, s.len() as int)
    } else {
        s
    }
}

fn hex_digit(c: char) -> (v: Option<u8>)
    ensures
        v == hex_digit_value(c),
{
    match c {
        '0' => Some(0u8),
        '1' => Some(1u8),
        '2' => Some(2u8),
        '3' => Some(3u8),
        '4' => Some(4u8),
        '5' => Some(5u8),
        '6' => Some(6u8),
        '7' => Some(7u8),
        '8' => Some(8u8),
        '9' => Some(9u8),
        'a' => Some(10u8),
        'b' => Some(11u8),
        'c' => Some(12u8),
        'd' => Some(13u8),
        'e' => Some(14u8),
        'f' => Some(15u8),
        'A' => Some(10u8),
        'B' => Some(11u8),
        'C' => Some(12u8),
        'D' => Some(13u8),
        'E' => Some(14u8),
        'F' => Some(15u8),
        _ => None,
    }
}

/// Decodes a hex string (no prefix handling) into its bytes.
///
/// Returns `None` exactly when the string has odd length or holds a
/// character that is no hex digit.
pub fn decode_hex(s: &str) -> (r: Option<Vec<u8>>)
    ensures
        r is Some <==> valid_hex(s@),
        r is Some ==> r->0@ == hex_bytes(s@),
{
    let n = s.unicode_len();
    if n % 2 != 0 {
        return None;
    }
    let mut out: Vec<u8> = Vec::new();
    let mut i: usize = 0;
    while i < n
        invariant
            n == s@.len(),
            n % 2 == 0,
            i % 2 == 0,
            i <= n,
            forall|j: int| 0 <= j < i ==> hex_digit_value(#[trigger] s@[j]) is Some,
            out@.len() == i / 2,
            forall|j: int| 0 <= j < i / 2 ==> out@[j] == hex_bytes(s@)[j],
        decreases n - i,
    {
        let hi = s.get_char(i);
        let lo = s.get_char(i + 1);
        let hv = match hex_digit(hi) {
            Some(v) => v,
            None => {
                return None;
            },
        };
        let lv = match hex_digit(lo) {
            Some(v) => v,
            None => {
                return None;
            },
        };
        out.push(hv * 16 + lv);
        i += 2;
    }
    proof {
        assert(out@ =~= hex_bytes(s@));
    }
    Some(out)
}

/// Strips one leading `0x` from a hex payload, if present.
pub fn strip_hex_prefix(s: &str) -> (r: &str)
    ensures
        r@ == strip_0x(s@),
{
    let n = s.unicode_len();
    if n >= 2 {
        let c0 = s.get_char(0);
        let c1 = s.get_char(1);
        if c0 == '0' && c1 == 'x' {
            return s.substring_char(2, n);
        }
    }
    s
}

/// String equality over character sequences.
pub fn str_eq(a: &str, b: &str) -> (r: bool)
    ensures
        r == (a@ == b@),
{
    let x = a.to_owned();
    let y = b.to_owned();
    x.eq(&y)
}

/// Whether `c` is a decimal digit, and its value.
pub open spec fn dec_digit_value(c: char) -> Option<u8> {
    match c {
        '0' => Some(0u8),
        '1' => Some(1u8),
        '2' => Some(2u8),
        '3' => Some(3u8),
        '4' => Some(4u8),
        '5' => Some(5u8),
        '6' => Some(6u8),
        '7' => Some(7u8),
        '8' => Some(8u8),
        '9' => Some(9u8),
        _ => None,
    }
}

/// A decimal id: one to nineteen digits (every such value fits in 64 bits).
pub open spec fn valid_dec(s: Seq<char>) -> bool {
    &&& 1 <= s.len() <= 19
    &&& forall|i: int| 0 <= i < s.len() ==> dec_digit_value(#[trigger] s[i]) is Some
}

/// The number a digit string denotes, most significant digit first.
pub open spec fn dec_value(s: Seq<char>) -> int
    decreases s.len(),
{
    if s.len() == 0 {
        0
    } else {
        dec_value(s.drop_last()) * 10 + dec_digit_value(s.last())->0
    }
}

spec fn pow10(n: nat) -> int
    decreases n,
{
    if n == 0 {
        1
    } else {
        10 * pow10((n - 1) as nat)
    }
}

/// A digit string of length `n` denotes a value below `10^n`.
proof fn lemma_dec_value_bound(s: Seq<char>)
    requires
        forall|i: int| 0 <= i < s.len() ==> dec_digit_value(#[trigger] s[i]) is Some,
    ensures
        0 <= dec_value(s) < pow10(s.len()),
    decreases s.len(),
{
    if s.len() > 0 {
        lemma_dec_value_bound(s.drop_last());
        assert(dec_value(s.drop_last()) <= pow10((s.len() - 1) as nat) - 1);
        assert((pow10((s.len() - 1) as nat) - 1) * 10 + 9 < pow10((s.len() - 1) as nat) * 10)
            by (nonlinear_arith);
        assert(dec_value(s.drop_last()) * 10 <= (pow10((s.len() - 1) as nat) - 1) * 10)
            by (nonlinear_arith)
            requires
                dec_value(s.drop_last()) <= pow10((s.len() - 1) as nat) - 1,
        ;
    }
}

fn dec_digit(c: char) -> (v: Option<u8>)
    ensures
        v == dec_digit_value(c),
{
    match c {
        '0' => Some(0u8),
        '1' => Some(1u8),
        '2' => Some(2u8),
        '3' => Some(3u8),
        '4' => Some(4u8),
        '5' => Some(5u8),
        '6' => Some(6u8),
        '7' => Some(7u8),
        '8' => Some(8u8),
        '9' => Some(9u8),
        _ => None,
    }
}

proof fn lemma_pow10_19()
    ensures
        pow10(19) < 0x1_0000_0000_0000_0000,
{
    reveal_with_fuel(pow10, 20);
    assert(pow10(19) == 10_000_000_000_000_000_000);
}

/// Parses a decimal id. Returns `Some` exactly for one to nineteen digits.
pub fn parse_u64(s: &str) -> (r: Option<u64>)
    ensures
        r is Some <==> valid_dec(s@),
        r is Some ==> r->0 as int == dec_value(s@),
{
    let n = s.unicode_len();
    if n < 1 || n > 19 {
        return None;
    }
    let mut acc: u64 = 0;
    let mut i: usize = 0;
    while i < n
        invariant
            n == s@.len(),
            1 <= n <= 19,
            i <= n,
            forall|j: int| 0 <= j < i ==> dec_digit_value(#[trigger] s@[j]) is Some,
            acc as int == dec_value(s@.take(i as int)),
        decreases n - i,
    {
        let c = s.get_char(i);
        let d = match dec_digit(c) {
            Some(v) => v,
            None => {
                return None;
            },
        };
        proof {
            lemma_dec_value_bound(s@.take(i as int));
            lemma_pow10_monotone(i as nat, 18);
            lemma_pow10_19();
            let a = acc as int;
            let pi = pow10(i as nat);
            let p18 = pow10(18);
            assert(a * 10 + 9 < p18 * 10) by (nonlinear_arith)
                requires
                    a < pi,
                    pi <= p18,
            ;
            assert(pow10(19) == 10 * pow10(18));
            assert(s@.take(i + 1).drop_last() =~= s@.take(i as int));
            assert(s@.take(i + 1).last() == s@[i as int]);
        }
        acc = acc * 10 + (d as u64);
        i += 1;
    }
    proof {
        assert(s@.take(n as int) =~= s@);
    }
    Some(acc)
}

proof fn lemma_pow10_monotone(a: nat, b: nat)
    requires
        a <= b,
    ensures
        1 <= pow10(a) <= pow10(b),
    decreases b,
{
    if a < b {
        lemma_pow10_monotone(a, (b - 1) as nat);
        assert(pow10(b) == 10 * pow10((b - 1) as nat));
    } else {
        lemma_pow10_pos(a);
    }
}

proof fn lemma_pow10_pos(n: nat)
    ensures
        pow10(n) >= 1,
    decreases n,
{
    if n > 0 {
        lemma_pow10_pos((n - 1) as nat);
        assert(pow10(n) == 10 * pow10((n - 1) as nat));
    }
}

/// Relies on `bs58::encode(..).into_string()`: the base58 text of the input
/// bytes, a pure function of the characters of `s`.
pub uninterp spec fn bs58_of(s: Seq<char>) -> Seq<char>;

/// Relies on the `bs58` crate's encoder, which maps the input bytes to
/// their base58 text using the Bitcoin alphabet; the result depends on the
/// input alone.
#[verifier::external_body]
pub(crate) fn bs58_encode(s: &str) -> (r: String)
    ensures
        r@ == bs58_of(s@),
{
    bs58::encode(s).into_string()
}

} // verus!
