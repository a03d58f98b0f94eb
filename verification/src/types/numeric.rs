//! PostgreSQL NUMERIC values: the on-disk varlena payload decoded into a
//! scaled integer, as 128-bit or 256-bit two's-complement values.

use vstd::prelude::*;
use vstd::arithmetic::div_mod::{
    lemma_div_is_ordered_by_denominator, lemma_div_pos_is_pos, lemma_fundamental_div_mod,
    lemma_mod_multiples_vanish, lemma_small_mod,
};

use arrow::datatypes::i256;

use crate::codec::le::{le16, read_i16, read_u16};

verus! {

// ── 256-bit integers ─────────────────────────────────────────────────────

/// A signed 256-bit integer held as its two's-complement halves: the value is
/// `high * 2^128 + low`.
#[derive(Debug, Clone, Copy, PartialEq, Eq, Structural)]
pub struct I256 {
    pub low: u128,
    pub high: i128,
}

/// 2^128.
pub open spec fn pow2_128() -> int {
    340282366920938463463374607431768211456int
}

/// 2^256, the modulus of 256-bit arithmetic.
pub open spec fn pow2_256() -> int {
    115792089237316195423570985008687907853269984665640564039457584007913129639936int
}

/// 2^255: the values of a signed 256-bit integer are `-2^255 .. 2^255`.
pub open spec fn pow2_255() -> int {
    57896044618658097711785492504343953926634992332820282019728792003956564819968int
}

/// `v` reduced into the signed 256-bit range, as two's-complement
/// arithmetic wraps it.
pub open spec fn wrap256(v: int) -> int {
    (v + pow2_255()) % pow2_256() - pow2_255()
}

impl I256 {
    /// The integer this value stands for.
    pub open spec fn value(self) -> int {
        self.high * pow2_128() + self.low
    }
}

/// Every `I256` lies in the signed 256-bit range.
pub proof fn lemma_i256_range(x: I256)
    ensures
        -pow2_255() <= x.value() < pow2_255(),
{
}

/// Wrapping leaves a value of the signed 256-bit range unchanged.
pub proof fn lemma_wrap256_id(v: int)
    requires
        -pow2_255() <= v < pow2_255(),
    ensures
        wrap256(v) == v,
{
    lemma_small_mod((v + pow2_255()) as nat, pow2_256() as nat);
}

/// Adding a multiple of 2^256 does not change the wrapped value.
proof fn lemma_wrap256_multiple(v: int, t: int)
    ensures
        wrap256(v + pow2_256() * t) == wrap256(v),
{
    lemma_mod_multiples_vanish(t, v + pow2_255(), pow2_256());
    assert(pow2_256() * t + (v + pow2_255()) == (v + pow2_256() * t) + pow2_255());
}

/// A wrapped value differs from the value by a multiple of 2^256.
proof fn lemma_wrap256_offset(v: int) -> (t: int)
    ensures
        wrap256(v) == v + pow2_256() * t,
{
    lemma_fundamental_div_mod(v + pow2_255(), pow2_256());
    -((v + pow2_255()) / pow2_256())
}

/// Wrapping an intermediate result of `x * c + d` does not change the
/// wrapped outcome.
pub proof fn lemma_wrap256_mul_add(x: int, c: int, d: int)
    ensures
        wrap256(wrap256(x) * c + d) == wrap256(x * c + d),
{
    let t = lemma_wrap256_offset(x);
    assert(wrap256(x) * c + d == (x * c + d) + pow2_256() * (t * c)) by (nonlinear_arith)
        requires
            wrap256(x) == x + pow2_256() * t,
    ;
    lemma_wrap256_multiple(x * c + d, t * c);
}

/// One step of accumulating digits in wrapping arithmetic agrees with the
/// wrapped exact step.
proof fn lemma_wrap256_horner_step(x: int, d: int)
    ensures
        wrap256(wrap256(wrap256(x) * 10000) + d) == wrap256(x * 10000 + d),
{
    let y = wrap256(x) * 10000;
    let t = lemma_wrap256_offset(y);
    lemma_wrap256_multiple(y + d, t);
    assert(wrap256(y) + d == (y + d) + pow2_256() * t);
    lemma_wrap256_mul_add(x, 10000, d);
}

/// The signed 256-bit integer with the value of `v`.
///
/// Calls `arrow::datatypes::i256::from_i128`; claims that the result has the
/// value of `v`, as its documentation says.
#[verifier::external_body]
pub(crate) fn i256_from_i128(v: i128) -> (r: I256)
    ensures
        r.value() == v,
{
    let (low, high) = i256::from_i128(v).to_parts();
    I256 { low, high }
}

/// Calls `arrow::datatypes::i256::wrapping_mul`; claims the product wrapped
/// into 256 bits.
#[verifier::external_body]
pub(crate) fn i256_wrapping_mul(a: I256, b: I256) -> (r: I256)
    ensures
        r.value() == wrap256(a.value() * b.value()),
{
    let (low, high) = i256::from_parts(a.low, a.high).wrapping_mul(i256::from_parts(b.low, b.high)).to_parts();
    I256 { low, high }
}

/// Calls `arrow::datatypes::i256::wrapping_add`; claims the sum wrapped into
/// 256 bits.
#[verifier::external_body]
fn i256_wrapping_add(a: I256, b: I256) -> (r: I256)
    ensures
        r.value() == wrap256(a.value() + b.value()),
{
    let (low, high) = i256::from_parts(a.low, a.high).wrapping_add(i256::from_parts(b.low, b.high)).to_parts();
    I256 { low, high }
}

/// The quotient of `a` by `p > 0`, truncated toward zero.
pub open spec fn trunc_div(a: int, p: int) -> int {
    if a >= 0 {
        a / p
    } else {
        -((-a) / p)
    }
}

/// Calls `arrow::datatypes::i256::wrapping_div`, which panics on a zero
/// divisor; claims, for a positive divisor, the quotient truncated toward
/// zero (as its documentation says), wrapped into 256 bits.
#[verifier::external_body]
pub(crate) fn i256_wrapping_div(a: I256, b: I256) -> (r: I256)
    requires
        b.value() > 0,
    ensures
        r.value() == wrap256(trunc_div(a.value(), b.value())),
{
    let (low, high) = i256::from_parts(a.low, a.high).wrapping_div(i256::from_parts(b.low, b.high)).to_parts();
    I256 { low, high }
}

/// Calls `arrow::datatypes::i256::wrapping_neg`; claims the negation wrapped
/// into 256 bits.
#[verifier::external_body]
fn i256_wrapping_neg(a: I256) -> (r: I256)
    ensures
        r.value() == wrap256(-a.value()),
{
    let (low, high) = i256::from_parts(a.low, a.high).wrapping_neg().to_parts();
    I256 { low, high }
}

// ── 128-bit helpers ──────────────────────────────────────────────────────

/// 10 to the power `k`.
pub open spec fn pow10(k: nat) -> int
    decreases k,
{
    if k == 0 {
        1
    } else {
        10 * pow10((k - 1) as nat)
    }
}

pub proof fn lemma_pow10_monotone(j: nat, k: nat)
    requires
        j <= k,
    ensures
        1 <= pow10(j) <= pow10(k),
    decreases k,
{
    if j < k {
        lemma_pow10_monotone(j, (k - 1) as nat);
    } else if k > 0 {
        lemma_pow10_monotone((k - 1) as nat, (k - 1) as nat);
    }
}

proof fn lemma_pow10_38()
    ensures
        pow10(38) == 100000000000000000000000000000000000000,
{
    reveal_with_fuel(pow10, 39);
}

/// `10^k`, for the `k` whose power fits in an `i128`.
pub(crate) fn pow10_i128(k: u32) -> (r: i128)
    requires
        k <= 38,
    ensures
        r == pow10(k as nat),
{
    let mut r: i128 = 1;
    let mut i: u32 = 0;
    while i < k
        invariant
            i <= k <= 38,
            r == pow10(i as nat),
        decreases k - i,
    {
        proof {
            lemma_pow10_monotone((i + 1) as nat, 38);
            lemma_pow10_38();
        }
        r = r * 10;
        i = i + 1;
    }
    r
}

/// `v` clamped into the `i128` range.
pub open spec fn sat_i128(v: int) -> int {
    if v > i128::MAX {
        i128::MAX as int
    } else if v < i128::MIN {
        i128::MIN as int
    } else {
        v
    }
}

/// Saturating `a * p` for a positive `p`.
pub(crate) fn sat_mul_i128(a: i128, p: i128) -> (r: i128)
    requires
        p > 0,
    ensures
        r == sat_i128(a * p),
{
    match a.checked_mul(p) {
        Some(v) => v,
        None => {
            if a < 0 {
                assert(a * p <= a) by (nonlinear_arith)
                    requires
                        a < 0,
                        p > 0,
                ;
                i128::MIN
            } else {
                assert(a * p >= 0) by (nonlinear_arith)
                    requires
                        a >= 0,
                        p > 0,
                ;
                i128::MAX
            }
        },
    }
}

/// `a / p` truncated toward zero, for `p > 1`.
pub(crate) fn trunc_div_i128(a: i128, p: i128) -> (r: i128)
    requires
        p > 1,
    ensures
        r == trunc_div(a as int, p as int),
{
    if a >= 0 {
        let q = (a as u128) / (p as u128);
        assert(q <= a) by (nonlinear_arith)
            requires
                q == a as int / p as int,
                a >= 0,
                p > 1,
        ;
        q as i128
    } else {
        // |a| computed without overflow, also for i128::MIN
        let m: u128 = ((-(a + 1)) as u128) + 1;
        let q = m / (p as u128);
        assert(q <= m / 2) by (nonlinear_arith)
            requires
                q == m as int / p as int,
                p > 1,
        ;
        -(q as i128)
    }
}

// ── The on-disk NUMERIC layout ───────────────────────────────────────────

/// The header of a NUMERIC payload: `(digits_start, ndigits, weight, dscale,
/// is_negative)`, or `None` for a payload too short to hold one and for the
/// special values (NaN, ±Infinity).
///
/// The first little-endian 16-bit word tells the form apart: its two top
/// bits `11` mark a special value; a set top bit the short form, whose word
/// packs the sign (bit 13), the display scale (bits 7..12) and a 7-bit
/// signed weight (bits 0..6); otherwise the long form, whose word holds the
/// sign in its top two bits (`01` negative) and the display scale in its low
/// 14 bits, followed by a signed 16-bit weight. Base-10000 digits, each a
/// signed 16-bit word, fill the rest.
pub open spec fn spec_numeric_header(b: Seq<u8>) -> Option<(int, int, int, int, bool)> {
    if b.len() < 2 {
        None
    } else {
        let h = le16(b, 0);
        if h / 16384 == 3 {
            None
        } else if h / 32768 == 1 {
            let wr = h % 64;
            let weight = if (h / 64) % 2 == 1 { wr - 64 } else { wr };
            Some((2, (b.len() - 2) / 2, weight, (h / 128) % 64, (h / 8192) % 2 == 1))
        } else if b.len() < 4 {
            None
        } else {
            Some((4, (b.len() - 4) / 2, (le16(b, 2) as i16) as int, h % 16384, h / 16384 == 1))
        }
    }
}

/// Parse the NUMERIC header; see [`spec_numeric_header`].
fn parse_numeric_header(bytes: &[u8]) -> (r: Option<(usize, i32, i32, i32, bool)>)
    requires
        bytes@.len() <= i32::MAX,
    ensures
        match (r, spec_numeric_header(bytes@)) {
            (Some((s, n, w, d, neg)), Some((ss, sn, sw, sd, sneg))) => s == ss && n == sn && w == sw && d
                == sd && neg == sneg,
            (None, None) => true,
            _ => false,
        },
{
    if bytes.len() < 2 {
        return None;
    }
    let header = read_u16(bytes, 0);
    assert((header & 0xC000u16 == 0xC000u16) == (header / 16384 == 3)) by (bit_vector);
    assert((header & 0x8000u16 != 0) == (header / 32768 == 1)) by (bit_vector);
    if header & 0xC000 == 0xC000 {
        // NaN or ±Infinity
        return None;
    }
    if header & 0x8000 != 0 {
        // Short form: 2-byte header
        assert((header & 0x2000u16 != 0) == ((header / 8192) % 2 == 1)) by (bit_vector);
        assert((header & 0x1F80u16) >> 7u16 == (header / 128) % 64) by (bit_vector);
        assert(header & 0x003Fu16 == header % 64) by (bit_vector);
        assert((header & 0x0040u16 != 0) == ((header / 64) % 2 == 1)) by (bit_vector);
        let is_neg = (header & 0x2000) != 0;
        let dscale = ((header & 0x1F80) >> 7) as i32;
        let weight_raw = (header & 0x003F) as i32;
        let weight = if header & 0x0040 != 0 {
            weight_raw - 64
        } else {
            weight_raw
        };
        let ndigits = ((bytes.len() - 2) / 2) as i32;
        Some((2, ndigits, weight, dscale, is_neg))
    } else {
        // Long form: 4-byte header
        if bytes.len() < 4 {
            return None;
        }
        assert((header & 0xC000u16 == 0x4000u16) == (header / 16384 == 1)) by (bit_vector);
        assert(header & 0x3FFFu16 == header % 16384) by (bit_vector);
        let weight = read_i16(bytes, 2) as i32;
        let is_neg = (header & 0xC000) == 0x4000;
        let dscale = (header & 0x3FFF) as i32;
        let ndigits = ((bytes.len() - 4) / 2) as i32;
        Some((4, ndigits, weight, dscale, is_neg))
    }
}

/// The `i`-th base-10000 digit of the digits starting at `b[start]`.
pub open spec fn numeric_digit(b: Seq<u8>, start: int, i: int) -> int {
    (le16(b, start + 2 * i) as i16) as int
}

/// The integer formed by the first `n` base-10000 digits starting at
/// `b[start]`, most significant first.
pub open spec fn numeric_digits_value(b: Seq<u8>, start: int, n: nat) -> int
    decreases n,
{
    if n == 0 {
        0
    } else {
        numeric_digits_value(b, start, (n - 1) as nat) * 10000 + numeric_digit(b, start, n - 1)
    }
}

/// Whether accumulating the first `n` digits in an `i128` stays in range at
/// every step.
pub open spec fn digits_fit_i128(b: Seq<u8>, start: int, n: nat) -> bool {
    forall|k: nat|
        k < n ==> {
            &&& i128::MIN <= #[trigger] numeric_digits_value(b, start, k) * 10000 <= i128::MAX
            &&& i128::MIN <= numeric_digits_value(b, start, k + 1) <= i128::MAX
        }
}

/// The exponent by which the digits' natural scale, `(ndigits - 1 - weight)
/// * 4` decimal places, differs from the display scale.
pub open spec fn numeric_scale_diff(ndigits: int, weight: int, dscale: int) -> int {
    dscale - (ndigits - 1 - weight) * 4
}

/// Whether the natural scale fits in an `i32` and the power of ten by which
/// the value is rescaled fits in an `i128`.
pub open spec fn numeric_rescale_defined(ndigits: int, weight: int, dscale: int) -> bool {
    &&& i32::MIN <= (ndigits - 1 - weight) * 4 <= i32::MAX
    &&& -38 <= numeric_scale_diff(ndigits, weight, dscale) <= 38
}

/// The value of a NUMERIC payload at 128 bits before its sign is applied:
/// the digits, rescaled to the display scale (saturating when scaled up,
/// truncating when scaled down).
pub open spec fn numeric_magnitude_i128(b: Seq<u8>, start: int, nd: int, w: int, ds: int) -> int {
    let h = numeric_digits_value(b, start, nd as nat);
    let diff = numeric_scale_diff(nd, w, ds);
    if diff > 0 {
        sat_i128(h * pow10(diff as nat))
    } else if diff < 0 {
        trunc_div(h, pow10((-diff) as nat))
    } else {
        h
    }
}

/// Whether decoding `b` into an `i128` stays within the ranges of its
/// fixed-width arithmetic (the inputs on which it would overflow are left
/// out).
pub open spec fn numeric_i128_defined(b: Seq<u8>) -> bool {
    match spec_numeric_header(b) {
        None => true,
        Some((start, nd, w, ds, neg)) => nd == 0 || {
            &&& digits_fit_i128(b, start, nd as nat)
            &&& numeric_rescale_defined(nd, w, ds)
            &&& neg ==> numeric_magnitude_i128(b, start, nd, w, ds) != i128::MIN
        },
    }
}

/// What a NUMERIC payload decodes to at 128 bits: `(value, scale)` with the
/// number equal to `value * 10^-scale`, or `None` for NaN and ±Infinity (and
/// payloads too short for a header).
pub open spec fn spec_decode_pg_numeric_i128(b: Seq<u8>) -> Option<(int, i8)> {
    match spec_numeric_header(b) {
        None => None,
        Some((start, nd, w, ds, neg)) => if nd == 0 {
            Some((0, ds as i8))
        } else {
            let v = numeric_magnitude_i128(b, start, nd, w, ds);
            Some((if neg { -v } else { v }, ds as i8))
        },
    }
}

/// The value of a NUMERIC payload at 256 bits before its sign is applied,
/// with every step wrapping as 256-bit arithmetic does.
pub open spec fn numeric_magnitude_i256(b: Seq<u8>, start: int, nd: int, w: int, ds: int) -> int {
    let h = wrap256(numeric_digits_value(b, start, nd as nat));
    let diff = numeric_scale_diff(nd, w, ds);
    if diff > 0 {
        wrap256(h * pow10(diff as nat))
    } else if diff < 0 {
        wrap256(trunc_div(h, pow10((-diff) as nat)))
    } else {
        h
    }
}

/// Whether decoding `b` into a 256-bit value stays within the ranges of its
/// fixed-width arithmetic.
pub open spec fn numeric_i256_defined(b: Seq<u8>) -> bool {
    match spec_numeric_header(b) {
        None => true,
        Some((start, nd, w, ds, neg)) => nd == 0 || numeric_rescale_defined(nd, w, ds),
    }
}

/// What a NUMERIC payload decodes to at 256 bits: `(value, scale)`, or
/// `None` for NaN and ±Infinity (and payloads too short for a header).
pub open spec fn spec_decode_pg_numeric_i256(b: Seq<u8>) -> Option<(int, i8)> {
    match spec_numeric_header(b) {
        None => None,
        Some((start, nd, w, ds, neg)) => if nd == 0 {
            Some((0, ds as i8))
        } else {
            let v = numeric_magnitude_i256(b, start, nd, w, ds);
            Some((if neg { wrap256(-v) } else { v }, ds as i8))
        },
    }
}

/// Whether the 128-bit decoding of `b` rescales without saturating.
pub open spec fn numeric_i128_exact(b: Seq<u8>) -> bool {
    match spec_numeric_header(b) {
        None => true,
        Some((start, nd, w, ds, neg)) => nd == 0 || {
            let diff = numeric_scale_diff(nd, w, ds);
            diff > 0 ==> i128::MIN <= numeric_digits_value(b, start, nd as nat) * pow10(diff as nat)
                <= i128::MAX
        },
    }
}

/// A value of the `i128` range lies in the signed 256-bit range.
proof fn lemma_i128_in_i256(v: int)
    requires
        i128::MIN <= v <= i128::MAX,
    ensures
        wrap256(v) == v,
{
    lemma_wrap256_id(v);
}

/// Truncating division by a positive number does not grow the magnitude.
proof fn lemma_trunc_div_bound(a: int, p: int)
    requires
        p >= 1,
    ensures
        a >= 0 ==> 0 <= trunc_div(a, p) <= a,
        a < 0 ==> a <= trunc_div(a, p) <= 0,
{
    if a >= 0 {
        lemma_div_is_ordered_by_denominator(a, 1, p);
        lemma_div_pos_is_pos(a, p);
    } else {
        lemma_div_is_ordered_by_denominator(-a, 1, p);
        lemma_div_pos_is_pos(-a, p);
    }
}

/// Where the 128-bit decoding of a NUMERIC payload does not saturate, the
/// 256-bit decoding gives the same value and scale.
pub proof fn lemma_numeric_widths_agree(b: Seq<u8>)
    requires
        numeric_i128_defined(b),
        numeric_i128_exact(b),
    ensures
        spec_decode_pg_numeric_i256(b) == spec_decode_pg_numeric_i128(b),
{
    match spec_numeric_header(b) {
        None => {},
        Some((start, nd, w, ds, neg)) => {
            if nd != 0 {
                let n = nd as nat;
                let h = numeric_digits_value(b, start, n);
                let k = (n - 1) as nat;
                assert(i128::MIN <= numeric_digits_value(b, start, k) * 10000 <= i128::MAX);
                assert(k + 1 == n);
                lemma_i128_in_i256(h);
                let diff = numeric_scale_diff(nd, w, ds);
                let v = numeric_magnitude_i128(b, start, nd, w, ds);
                if diff > 0 {
                    lemma_i128_in_i256(h * pow10(diff as nat));
                } else if diff < 0 {
                    lemma_pow10_monotone(0, (-diff) as nat);
                    lemma_trunc_div_bound(h, pow10((-diff) as nat));
                    lemma_i128_in_i256(trunc_div(h, pow10((-diff) as nat)));
                }
                assert(numeric_magnitude_i256(b, start, nd, w, ds) == v);
                if neg {
                    lemma_i128_in_i256(-v);
                }
            }
        },
    }
}

/// Accumulate `ndigits` base-10000 digits starting at `bytes[start]` in an
/// `i128`.
fn accumulate_digits_i128(bytes: &[u8], start: usize, ndigits: usize) -> (r: i128)
    requires
        start + 2 * ndigits <= bytes@.len() <= i32::MAX,
        digits_fit_i128(bytes@, start as int, ndigits as nat),
    ensures
        r == numeric_digits_value(bytes@, start as int, ndigits as nat),
{
    let mut value: i128 = 0;
    let mut i: usize = 0;
    while i < ndigits
        invariant
            i <= ndigits,
            start + 2 * ndigits <= bytes@.len() <= i32::MAX,
            digits_fit_i128(bytes@, start as int, ndigits as nat),
            value == numeric_digits_value(bytes@, start as int, i as nat),
        decreases ndigits - i,
    {
        let d = read_i16(bytes, start + 2 * i) as i128;
        assert(i128::MIN <= numeric_digits_value(bytes@, start as int, i as nat) * 10000 <= i128::MAX);
        value = value * 10000 + d;
        i = i + 1;
    }
    value
}

/// Decode a PostgreSQL on-disk NUMERIC payload into a scaled `i128`.
///
/// Returns `(value, scale)` where `value * 10^-scale` is the number, or
/// `None` for NaN and ±Infinity.
pub fn decode_pg_numeric_i128(bytes: &[u8]) -> (r: Option<(i128, i8)>)
    requires
        bytes@.len() <= i32::MAX,
        numeric_i128_defined(bytes@),
    ensures
        r is Some <==> spec_decode_pg_numeric_i128(bytes@) is Some,
        r matches Some((v, s)) ==> spec_decode_pg_numeric_i128(bytes@) == Some((v as int, s)),
{
    let (start, ndigits, weight, dscale, is_neg) = match parse_numeric_header(bytes) {
        Some(h) => h,
        None => return None,
    };
    if ndigits == 0 {
        return Some((0, dscale as i8));
    }
    let value = accumulate_digits_i128(bytes, start, ndigits as usize);
    let natural_scale = (ndigits - 1 - weight) * 4;
    let diff = dscale - natural_scale;
    let mut value = value;
    if diff > 0 {
        let p = pow10_i128(diff as u32);
        proof {
            lemma_pow10_monotone(0, diff as nat);
        }
        value = sat_mul_i128(value, p);
    } else if diff < 0 {
        let p = pow10_i128((-diff) as u32);
        proof {
            lemma_pow10_monotone(1, (-diff) as nat);
        }
        value = trunc_div_i128(value, p);
    }
    if is_neg {
        value = -value;
    }
    Some((value, dscale as i8))
}

/// Accumulate `ndigits` base-10000 digits starting at `bytes[start]` in
/// wrapping 256-bit arithmetic.
fn accumulate_digits_i256(bytes: &[u8], start: usize, ndigits: usize) -> (r: I256)
    requires
        start + 2 * ndigits <= bytes@.len() <= i32::MAX,
    ensures
        r.value() == wrap256(numeric_digits_value(bytes@, start as int, ndigits as nat)),
{
    let nbase = i256_from_i128(10000);
    let mut value = I256 { low: 0, high: 0 };
    let mut i: usize = 0;
    while i < ndigits
        invariant
            i <= ndigits,
            start + 2 * ndigits <= bytes@.len() <= i32::MAX,
            nbase.value() == 10000,
            value.value() == wrap256(numeric_digits_value(bytes@, start as int, i as nat)),
        decreases ndigits - i,
    {
        let d = i256_from_i128(read_i16(bytes, start + 2 * i) as i128);
        let scaled = i256_wrapping_mul(value, nbase);
        let next = i256_wrapping_add(scaled, d);
        proof {
            lemma_wrap256_horner_step(
                numeric_digits_value(bytes@, start as int, i as nat),
                numeric_digit(bytes@, start as int, i as int),
            );
        }
        value = next;
        i = i + 1;
    }
    value
}

/// Decode a PostgreSQL on-disk NUMERIC payload into a scaled 256-bit
/// integer, in wrapping 256-bit arithmetic.
pub fn decode_pg_numeric_i256(bytes: &[u8]) -> (r: Option<(I256, i8)>)
    requires
        bytes@.len() <= i32::MAX,
        numeric_i256_defined(bytes@),
    ensures
        r is Some <==> spec_decode_pg_numeric_i256(bytes@) is Some,
        r matches Some((v, s)) ==> spec_decode_pg_numeric_i256(bytes@) == Some((v.value(), s)),
{
    let (start, ndigits, weight, dscale, is_neg) = match parse_numeric_header(bytes) {
        Some(h) => h,
        None => return None,
    };
    if ndigits == 0 {
        return Some((I256 { low: 0, high: 0 }, dscale as i8));
    }
    let mut value = accumulate_digits_i256(bytes, start, ndigits as usize);
    let natural_scale = (ndigits - 1 - weight) * 4;
    let diff = dscale - natural_scale;
    if diff > 0 {
        let p = i256_from_i128(pow10_i128(diff as u32));
        value = i256_wrapping_mul(value, p);
    } else if diff < 0 {
        let p = i256_from_i128(pow10_i128((-diff) as u32));
        proof {
            lemma_pow10_monotone(0, (-diff) as nat);
        }
        value = i256_wrapping_div(value, p);
    }
    if is_neg {
        value = i256_wrapping_neg(value);
    }
    Some((value, dscale as i8))
}

/// The first `ndigits` base-10000 digits at `bytes[start]` accumulated in
/// an `i128`, or `None` where some step of the accumulation leaves the
/// `i128` range.
#[verifier::rlimit(50)]
#[verifier::spinoff_prover]
fn checked_digits_i128(bytes: &[u8], start: usize, ndigits: usize) -> (r: Option<i128>)
    requires
        start + 2 * ndigits <= bytes@.len() <= i32::MAX,
    ensures
        r is Some <==> digits_fit_i128(bytes@, start as int, ndigits as nat),
        r matches Some(v) ==> v == numeric_digits_value(bytes@, start as int, ndigits as nat),
{
    let mut value: i128 = 0;
    let mut i: usize = 0;
    while i < ndigits
        invariant
            i <= ndigits,
            start + 2 * ndigits <= bytes@.len() <= i32::MAX,
            digits_fit_i128(bytes@, start as int, i as nat),
            value == numeric_digits_value(bytes@, start as int, i as nat),
        decreases ndigits - i,
    {
        let d = read_i16(bytes, start + 2 * i) as i128;
        let ghost vi = numeric_digits_value(bytes@, start as int, i as nat);
        assert(numeric_digits_value(bytes@, start as int, (i + 1) as nat) == vi * 10000 + d);
        let scaled = match value.checked_mul(10000) {
            Some(m) => m,
            None => {
                assert(!(i128::MIN <= numeric_digits_value(bytes@, start as int, i as nat) * 10000 <= i128::MAX));
                return None;
            },
        };
        let next = match scaled.checked_add(d) {
            Some(n) => n,
            None => {
                assert(!(i128::MIN <= numeric_digits_value(bytes@, start as int, (i + 1) as nat) <= i128::MAX));
                assert(i < ndigits);
                return None;
            },
        };
        proof {
            assert forall|k: nat| k < i + 1 implies {
                &&& i128::MIN <= #[trigger] numeric_digits_value(bytes@, start as int, k) * 10000 <= i128::MAX
                &&& i128::MIN <= numeric_digits_value(bytes@, start as int, k + 1) <= i128::MAX
            } by {
                if k < i {
                } else {
                    assert(k == i);
                }
            }
        }
        value = next;
        i = i + 1;
    }
    Some(value)
}

/// Whether a NUMERIC with `ndigits` digits, weight `weight` and display
/// scale `dscale` rescales within range (see `numeric_rescale_defined`).
fn numeric_rescale_is_defined(ndigits: i32, weight: i32, dscale: i32) -> (r: bool)
    ensures
        r == numeric_rescale_defined(ndigits as int, weight as int, dscale as int),
{
    let natural: i64 = (ndigits as i64 - 1 - weight as i64) * 4;
    if natural < i32::MIN as i64 || natural > i32::MAX as i64 {
        return false;
    }
    let diff: i64 = dscale as i64 - natural;
    -38 <= diff && diff <= 38
}

/// Whether decoding `bytes` into an `i128` stays within range: exactly
/// [`numeric_i128_defined`].
pub fn numeric_i128_is_defined(bytes: &[u8]) -> (r: bool)
    requires
        bytes@.len() <= i32::MAX,
    ensures
        r == numeric_i128_defined(bytes@),
{
    let (start, ndigits, weight, dscale, is_neg) = match parse_numeric_header(bytes) {
        Some(h) => h,
        None => return true,
    };
    if ndigits == 0 {
        return true;
    }
    let value = match checked_digits_i128(bytes, start, ndigits as usize) {
        Some(v) => v,
        None => return false,
    };
    if !numeric_rescale_is_defined(ndigits, weight, dscale) {
        return false;
    }
    if !is_neg {
        return true;
    }
    let natural_scale = (ndigits - 1 - weight) * 4;
    let diff = dscale - natural_scale;
    let magnitude = if diff > 0 {
        let p = pow10_i128(diff as u32);
        proof {
            lemma_pow10_monotone(0, diff as nat);
        }
        sat_mul_i128(value, p)
    } else if diff < 0 {
        let p = pow10_i128((-diff) as u32);
        proof {
            lemma_pow10_monotone(1, (-diff) as nat);
        }
        trunc_div_i128(value, p)
    } else {
        value
    };
    magnitude != i128::MIN
}

/// Whether decoding `bytes` into a 256-bit integer stays within range:
/// exactly [`numeric_i256_defined`].
pub fn numeric_i256_is_defined(bytes: &[u8]) -> (r: bool)
    requires
        bytes@.len() <= i32::MAX,
    ensures
        r == numeric_i256_defined(bytes@),
{
    match parse_numeric_header(bytes) {
        Some((_, ndigits, weight, dscale, _)) => ndigits == 0 || numeric_rescale_is_defined(ndigits, weight, dscale),
        None => true,
    }
}

/// Digits read from two payloads that agree from `start` on are the same.
proof fn lemma_digits_agree(b1: Seq<u8>, b2: Seq<u8>, start: int, n: nat)
    requires
        b1.len() == b2.len(),
        0 <= start,
        forall|j: int| start <= j < b1.len() ==> b1[j] == b2[j],
        start + 2 * n <= b1.len(),
    ensures
        numeric_digits_value(b1, start, n) == numeric_digits_value(b2, start, n),
    decreases n,
{
    if n > 0 {
        lemma_digits_agree(b1, b2, start, (n - 1) as nat);
        assert(b1[start + 2 * (n - 1)] == b2[start + 2 * (n - 1)]);
        assert(b1[start + 2 * (n - 1) + 1] == b2[start + 2 * (n - 1) + 1]);
    }
}

/// The first word of a short-form NUMERIC (top bits `10`, sign bit 0x2000
/// clear) and the same word with the sign bit set: they differ by 0x2000,
/// and share their top two bits, weight and display-scale bits.
#[verifier::rlimit(50)]
#[verifier::spinoff_prover]
proof fn lemma_short_sign_header(lo: u8, hi: u8, rest: Seq<u8>)
    requires
        hi & 0xE0u8 == 0x80u8,
    ensures
        ({
            let pos = seq![lo, hi] + rest;
            let neg = seq![lo, hi | 0x20u8] + rest;
            let h = le16(pos, 0);
            &&& pos.len() == neg.len() && pos.len() >= 2
            &&& le16(neg, 0) == h + 8192
            &&& h / 16384 == 2 && (h + 8192) / 16384 == 2
            &&& h / 32768 == 1 && (h + 8192) / 32768 == 1
            &&& (h + 8192) % 64 == h % 64
            &&& ((h + 8192) / 64) % 2 == (h / 64) % 2
            &&& ((h + 8192) / 128) % 64 == (h / 128) % 64
            &&& (h / 8192) % 2 == 0 && ((h + 8192) / 8192) % 2 == 1
        }),
{
    assert((hi & 0xE0u8 == 0x80u8) ==> (hi | 0x20u8) == hi + 32 && 128 <= hi < 160) by (bit_vector);
    let pos = seq![lo, hi] + rest;
    let neg = seq![lo, hi | 0x20u8] + rest;
    let h = le16(pos, 0);
    assert(h == lo + 256 * hi);
    assert(le16(neg, 0) == h + 8192);
    assert(32768 <= h < 40960);
    assert(h / 16384 == 2 && (h + 8192) / 16384 == 2);
    assert(h / 32768 == 1 && (h + 8192) / 32768 == 1);
    assert((h + 8192) % 64 == h % 64);
    assert(((h + 8192) / 64) % 2 == (h / 64) % 2);
    assert(((h + 8192) / 128) % 64 == (h / 128) % 64);
    assert((h / 8192) % 2 == 0 && ((h + 8192) / 8192) % 2 == 1);
}

/// Setting the sign bit of a short-form NUMERIC (first word `10` in its
/// top bits, sign bit 0x2000 clear) negates the decoded value and keeps its
/// scale, at 128 and at 256 bits.
pub proof fn lemma_short_sign_bit_negates(lo: u8, hi: u8, rest: Seq<u8>)
    requires
        hi & 0xE0u8 == 0x80u8,
    ensures
        ({
            let pos = seq![lo, hi] + rest;
            let neg = seq![lo, hi | 0x20u8] + rest;
            &&& spec_decode_pg_numeric_i128(pos) matches Some((v, s)) && spec_decode_pg_numeric_i128(neg) == Some((-v, s))
            &&& spec_decode_pg_numeric_i256(pos) matches Some((v, s)) && spec_decode_pg_numeric_i256(neg) == Some(
                (wrap256(-v), s),
            )
        }),
{
    lemma_short_sign_header(lo, hi, rest);
    let pos = seq![lo, hi] + rest;
    let neg = seq![lo, hi | 0x20u8] + rest;
    let (start, nd, w, ds, sign) = spec_numeric_header(pos)->Some_0;
    assert(spec_numeric_header(pos) is Some && !sign && start == 2 && nd == (pos.len() - 2) / 2);
    assert(spec_numeric_header(neg) == Some((start, nd, w, ds, true)));
    assert(forall|j: int| 2 <= j < pos.len() ==> pos[j] == neg[j]);
    assert(start == 2 && 2 + 2 * nd <= pos.len());
    lemma_digits_agree(pos, neg, 2, nd as nat);
    lemma_magnitudes_agree(pos, neg, nd, w, ds);
}

/// The magnitudes of two payloads whose digits agree are the same.
proof fn lemma_magnitudes_agree(b1: Seq<u8>, b2: Seq<u8>, nd: int, w: int, ds: int)
    requires
        nd >= 0,
        numeric_digits_value(b1, 2, nd as nat) == numeric_digits_value(b2, 2, nd as nat),
    ensures
        numeric_magnitude_i128(b1, 2, nd, w, ds) == numeric_magnitude_i128(b2, 2, nd, w, ds),
        numeric_magnitude_i256(b1, 2, nd, w, ds) == numeric_magnitude_i256(b2, 2, nd, w, ds),
{
}

/// The 2-byte header of a short-form NUMERIC: the first word is `0x8000`,
/// plus the sign bit 0x2000 when negative, the display scale in bits
/// 7..12 and the weight as a 7-bit two's complement number in bits 0..6.
pub open spec fn short_numeric_header(neg: bool, dscale: int, weight: int) -> Seq<u8> {
    let h = 32768 + (if neg { 8192int } else { 0int }) + dscale * 128 + (if weight < 0 { weight + 128 } else { weight });
    seq![(h % 256) as u8, (h / 256) as u8]
}

/// The 4-byte header of a long-form NUMERIC: the first word is the sign
/// (0x4000 when negative) and the display scale, the second the weight as
/// a 16-bit two's complement number.
pub open spec fn long_numeric_header(neg: bool, dscale: int, weight: int) -> Seq<u8> {
    let h0 = (if neg { 16384int } else { 0int }) + dscale;
    let h1 = if weight < 0 { weight + 65536 } else { weight };
    seq![(h0 % 256) as u8, (h0 / 256) as u8, (h1 % 256) as u8, (h1 / 256) as u8]
}

/// Digits read from two payloads whose bytes agree after two different
/// header lengths are the same.
proof fn lemma_digits_shifted(b1: Seq<u8>, s1: int, b2: Seq<u8>, s2: int, n: nat)
    requires
        0 <= s1,
        0 <= s2,
        s1 + 2 * n <= b1.len(),
        s2 + 2 * n <= b2.len(),
        forall|j: int| 0 <= j < 2 * n ==> #[trigger] b1[s1 + j] == b2[s2 + j],
    ensures
        numeric_digits_value(b1, s1, n) == numeric_digits_value(b2, s2, n),
    decreases n,
{
    if n > 0 {
        lemma_digits_shifted(b1, s1, b2, s2, (n - 1) as nat);
        assert(b1[s1 + (2 * (n - 1))] == b2[s2 + (2 * (n - 1))]);
        assert(b1[s1 + (2 * (n - 1) + 1)] == b2[s2 + (2 * (n - 1) + 1)]);
    }
}

/// A 16-bit two's complement weight read back.
proof fn lemma_weight_word(weight: int)
    requires
        -64 <= weight < 64,
    ensures
        ((if weight < 0 { weight + 65536 } else { weight }) as u16 as i16) as int == weight,
{
    let h1 = if weight < 0 { weight + 65536 } else { weight };
    let x: u16 = h1 as u16;
    assert(x as int == h1);
    if weight < 0 {
        let y: u16 = (x - 0xFFC0u16) as u16;
        assert(y as int == x - 0xFFC0);
        assert(y < 64);
        assert((x as i16) == (y as i16) - 64i16) by (bit_vector)
            requires
                y == (x - 0xFFC0u16) as u16,
                x >= 0xFFC0u16,
        ;
        assert((y as i16) as int == y as int);
    } else {
        assert((x as i16) as int == x as int);
    }
}

/// The bits of a short-form header word: top bits `10`, the 7-bit weight,
/// the display scale and the sign.
#[verifier::rlimit(50)]
#[verifier::spinoff_prover]
proof fn lemma_short_header_read_back(neg: bool, dscale: int, weight: int, digits: Seq<u8>)
    requires
        0 <= dscale < 64,
        -64 <= weight < 64,
    ensures
        ({
            let s = short_numeric_header(neg, dscale, weight) + digits;
            let h = le16(s, 0);
            &&& s.len() >= 2 && (s.len() - 2) / 2 == digits.len() / 2
            &&& h / 16384 == 2 && h / 32768 == 1
            &&& (if (h / 64) % 2 == 1 { h % 64 - 64 } else { h % 64 }) == weight
            &&& (h / 128) % 64 == dscale
            &&& ((h / 8192) % 2 == 1) == neg
        }),
{
    let s = short_numeric_header(neg, dscale, weight) + digits;
    let w7 = if weight < 0 { weight + 128 } else { weight };
    let sg: int = if neg { 1 } else { 0 };
    let h = 32768 + sg * 8192 + dscale * 128 + w7;
    assert(0 <= w7 < 128);
    assert(le16(s, 0) == h);
    assert(h / 16384 == 2);
    assert(h / 32768 == 1);
    assert(h % 64 == w7 % 64);
    assert((h / 64) % 2 == w7 / 64);
    assert((h / 128) % 64 == dscale);
    assert((h / 8192) % 2 == sg);
    assert((s.len() - 2) / 2 == digits.len() / 2);
}

/// The words of a long-form header: the sign and display scale, and the
/// 16-bit weight.
#[verifier::rlimit(50)]
#[verifier::spinoff_prover]
proof fn lemma_long_header_read_back(neg: bool, dscale: int, weight: int, digits: Seq<u8>)
    requires
        0 <= dscale < 64,
        -64 <= weight < 64,
    ensures
        ({
            let l = long_numeric_header(neg, dscale, weight) + digits;
            let h = le16(l, 0);
            &&& l.len() >= 4 && (l.len() - 4) / 2 == digits.len() / 2
            &&& h / 16384 == (if neg { 1int } else { 0int }) && h / 32768 == 0
            &&& h % 16384 == dscale
            &&& (le16(l, 2) as i16) as int == weight
        }),
{
    let l = long_numeric_header(neg, dscale, weight) + digits;
    let h0 = (if neg { 16384int } else { 0int }) + dscale;
    let h1 = if weight < 0 { weight + 65536 } else { weight };
    lemma_weight_word(weight);
    assert(le16(l, 0) == h0);
    assert(le16(l, 2) == h1);
    assert(h0 / 16384 == (if neg { 1int } else { 0int }));
    assert(h0 % 16384 == dscale);
    assert((l.len() - 4) / 2 == digits.len() / 2);
}

/// The short and the long form of a NUMERIC header say the same thing: a
/// number written with either header and the same base-10000 digits
/// decodes to the same value and scale, at 128 and at 256 bits.
pub proof fn lemma_numeric_header_forms_agree(neg: bool, dscale: int, weight: int, digits: Seq<u8>)
    requires
        0 <= dscale < 64,
        -64 <= weight < 64,
    ensures
        spec_decode_pg_numeric_i128(short_numeric_header(neg, dscale, weight) + digits) == spec_decode_pg_numeric_i128(
            long_numeric_header(neg, dscale, weight) + digits,
        ),
        spec_decode_pg_numeric_i256(short_numeric_header(neg, dscale, weight) + digits) == spec_decode_pg_numeric_i256(
            long_numeric_header(neg, dscale, weight) + digits,
        ),
        spec_decode_pg_numeric_i128(short_numeric_header(neg, dscale, weight) + digits) matches Some((_, s))
            && s == dscale as i8,
{
    lemma_short_header_read_back(neg, dscale, weight, digits);
    lemma_long_header_read_back(neg, dscale, weight, digits);
    let s = short_numeric_header(neg, dscale, weight) + digits;
    let l = long_numeric_header(neg, dscale, weight) + digits;
    assert(spec_numeric_header(s) == Some((2int, (digits.len() / 2) as int, weight, dscale, neg)));
    assert(spec_numeric_header(l) == Some((4int, (digits.len() / 2) as int, weight, dscale, neg)));
    let n: int = (digits.len() / 2) as int;
    assert forall|j: int| 0 <= j < 2 * n implies #[trigger] s[2 + j] == l[4 + j] by {
        assert(s[2 + j] == digits[j]);
        assert(l[4 + j] == digits[j]);
    }
    lemma_digits_shifted(s, 2, l, 4, n as nat);
    assert(numeric_magnitude_i128(s, 2, n, weight, dscale) == numeric_magnitude_i128(l, 4, n, weight, dscale));
    assert(numeric_magnitude_i256(s, 2, n, weight, dscale) == numeric_magnitude_i256(l, 4, n, weight, dscale));
}

} // verus!
