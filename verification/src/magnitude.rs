//! Big-endian byte encodings of magnitudes: the value a run of bytes
//! denotes, the bytes a value decomposes into, and the facts connecting the
//! two that the arithmetic and encoding proofs lean on.

use vstd::arithmetic::div_mod::lemma_div_denominator;
use vstd::prelude::*;

verus! {

/// `256^k`, the weight of the byte `k` positions from the least-significant
/// end of a big-endian run.
pub open spec fn pow256(k: nat) -> int
    decreases k,
{
    if k == 0 {
        1
    } else {
        256 * pow256((k - 1) as nat)
    }
}

/// The value of a byte sequence read as a big-endian unsigned integer.
pub open spec fn be_value(s: Seq<u8>) -> int
    decreases s.len(),
{
    if s.len() == 0 {
        0
    } else {
        256 * be_value(s.drop_last()) + s.last()
    }
}

/// Byte `k` of `v`, counted from the least-significant end. Since `%` is
/// Euclidean in specifications the result is a byte for every `v`, and for a
/// negative `v` it is the byte of `v` reduced modulo any `pow256(n)` with
/// `n > k`.
pub open spec fn nth_byte(v: int, k: nat) -> u8 {
    (((v / pow256(k)) % 256) as u8)
}

/// The five-byte big-endian decomposition of `v`: byte-array index `i` holds
/// the byte `4 - i` positions from the least-significant end.
pub open spec fn digits5(v: int) -> Seq<u8> {
    Seq::new(5, |i: int| nth_byte(v, (4 - i) as nat))
}

pub proof fn lemma_pow256_pos(k: nat)
    ensures
        pow256(k) >= 1,
    decreases k,
{
    if k > 0 {
        lemma_pow256_pos((k - 1) as nat);
    }
}

/// The concrete weights the word model uses: single bytes up to the
/// ten-byte double-word range.
pub proof fn lemma_pow256_values()
    ensures
        pow256(0) == 1,
        pow256(1) == 0x100,
        pow256(2) == 0x10000,
        pow256(3) == 0x1000000,
        pow256(4) == 0x100000000,
        pow256(5) == 0x10000000000,
        pow256(6) == 0x1000000000000,
        pow256(7) == 0x100000000000000,
        pow256(8) == 0x10000000000000000,
        pow256(9) == 0x1000000000000000000,
        pow256(10) == 0x100000000000000000000,
{
    reveal_with_fuel(pow256, 11);
}

/// The product of two five-byte magnitudes fits in ten bytes.
pub proof fn lemma_product_fits_ten_bytes(a: int, b: int)
    by (nonlinear_arith)
    requires
        -0x10000000000 < a < 0x10000000000,
        -0x10000000000 < b < 0x10000000000,
    ensures
        -0x100000000000000000000 < a * b < 0x100000000000000000000,
{
}

pub proof fn lemma_pow256_increases(a: nat, b: nat)
    requires
        a <= b,
    ensures
        pow256(a) <= pow256(b),
    decreases b,
{
    if a < b {
        lemma_pow256_increases(a, (b - 1) as nat);
        lemma_pow256_pos((b - 1) as nat);
    }
}

/// A single byte read big-endian is its own value.
pub proof fn lemma_be_value_single(s: Seq<u8>)
    requires
        s.len() == 1,
    ensures
        be_value(s) == s[0],
{
    assert(be_value(s.drop_last()) == 0);
}

pub proof fn lemma_pow256_adds(a: nat, b: nat)
    ensures
        pow256(a + b) == pow256(a) * pow256(b),
    decreases a,
{
    if a == 0 {
        assert(pow256(0 + b) == 1 * pow256(b));
    } else {
        lemma_pow256_adds((a - 1) as nat, b);
        assert(pow256(a + b) == 256 * pow256((a - 1 + b) as nat));
        assert(256 * (pow256((a - 1) as nat) * pow256(b)) == (256 * pow256((a - 1) as nat))
            * pow256(b)) by (nonlinear_arith);
    }
}

/// A big-endian run of `n` bytes denotes a value in `[0, 256^n)`.
pub proof fn lemma_be_value_bounds(s: Seq<u8>)
    ensures
        0 <= be_value(s) < pow256(s.len()),
    decreases s.len(),
{
    if s.len() == 0 {
    } else {
        lemma_be_value_bounds(s.drop_last());
        let rest = be_value(s.drop_last());
        assert(rest <= pow256((s.len() - 1) as nat) - 1);
        assert(256 * rest <= 256 * (pow256((s.len() - 1) as nat) - 1)) by (nonlinear_arith)
            requires
                rest <= pow256((s.len() - 1) as nat) - 1,
        ;
    }
}

/// Peeling one division by 256 off a byte decomposition: byte `k + 1` of `v`
/// is byte `k` of `v / 256`.
pub proof fn lemma_nth_byte_div(v: int, k: nat)
    requires
        v >= 0,
    ensures
        nth_byte(v, k + 1) == nth_byte(v / 256, k),
{
    lemma_pow256_pos(k);
    lemma_div_denominator(v, 256, pow256(k));
    assert(256 * pow256(k) == pow256(k + 1));
}

/// Dividing off the five low bytes: byte `k + 5` of `v` is byte `k` of
/// `v / 256^5`.
pub proof fn lemma_nth_byte_div5(v: int, k: nat)
    requires
        v >= 0,
    ensures
        nth_byte(v, k + 5) == nth_byte(v / pow256(5), k),
{
    lemma_pow256_pos(k);
    lemma_pow256_pos(5);
    lemma_div_denominator(v, pow256(5), pow256(k));
    lemma_pow256_adds(5, k);
}

/// Bytes of `v` below position `n` agree with the bytes of `v` reduced
/// modulo `256^n`.
pub proof fn lemma_nth_byte_mod(v: int, n: nat, k: nat)
    requires
        k < n,
    ensures
        nth_byte(v % pow256(n), k) == nth_byte(v, k),
    decreases k,
{
    lemma_pow256_pos(n);
    lemma_pow256_pos(k);
    if k == 0 {
        // v % 256^n agrees with v modulo 256.
        lemma_pow256_adds(1, (n - 1) as nat);
        lemma_pow256_pos((n - 1) as nat);
        vstd::arithmetic::div_mod::lemma_mod_mod(v, 256, pow256((n - 1) as nat));
        assert(256 * pow256((n - 1) as nat) == pow256(n));
        assert((v % pow256(n)) % 256 == v % 256);
        vstd::arithmetic::div_mod::lemma_div_basics(v % pow256(n));
        vstd::arithmetic::div_mod::lemma_div_basics(v);
    } else {
        lemma_nth_byte_mod_step(v, n, k);
    }
}

proof fn lemma_nth_byte_mod_step(v: int, n: nat, k: nat)
    requires
        0 < k < n,
    ensures
        nth_byte(v % pow256(n), k) == nth_byte(v, k),
{
    lemma_pow256_pos(n);
    lemma_pow256_pos(k);
    lemma_pow256_pos((n - k) as nat);
    // v = q * 256^n + r with r = v % 256^n.
    let q = v / pow256(n);
    let r = v % pow256(n);
    vstd::arithmetic::div_mod::lemma_fundamental_div_mod(v, pow256(n));
    assert(0 <= r < pow256(n));
    // v / 256^k = q * 256^(n-k) + r / 256^k.
    lemma_pow256_adds(k, (n - k) as nat);
    assert(pow256(n) == pow256(k) * pow256((n - k) as nat));
    vstd::arithmetic::div_mod::lemma_div_denominator(r, pow256(k), pow256((n - k) as nat));
    assert(r / pow256(k) < pow256((n - k) as nat)) by {
        let p = pow256(k);
        let m = pow256((n - k) as nat);
        if r / p >= m {
            vstd::arithmetic::div_mod::lemma_fundamental_div_mod(r, p);
            vstd::arithmetic::mul::lemma_mul_inequality(m, r / p, p);
            assert(m * p <= (r / p) * p);
            assert(false);
        }
    }
    assert(v == q * pow256(n) + r) by {
        assert(v == pow256(n) * q + r);
        vstd::arithmetic::mul::lemma_mul_is_commutative(pow256(n), q);
    }
    assert(v / pow256(k) == q * pow256((n - k) as nat) + r / pow256(k)) by {
        lemma_div_sum_multiple(v, q, r, k, n);
    }
    // Modulo 256 the q * 256^(n-k) part vanishes since n - k >= 1.
    lemma_mod_absorb(q, r / pow256(k), (n - k) as nat);
}

/// v = q * (256^k * 256^(n-k)) + r implies v / 256^k == q * 256^(n-k) + r / 256^k.
proof fn lemma_div_sum_multiple(v: int, q: int, r: int, k: nat, n: nat)
    requires
        0 < k < n,
        v == q * pow256(n) + r,
        0 <= r < pow256(n),
        pow256(n) == pow256(k) * pow256((n - k) as nat),
    ensures
        v / pow256(k) == q * pow256((n - k) as nat) + r / pow256(k),
{
    lemma_pow256_pos(k);
    lemma_pow256_pos((n - k) as nat);
    let m = pow256((n - k) as nat);
    let p = pow256(k);
    assert(q * (p * m) == (q * m) * p) by (nonlinear_arith);
    assert(v == (q * m) * p + r);
    vstd::arithmetic::div_mod::lemma_hoist_over_denominator(r, q * m, p as nat);
    assert(r / p + q * m == (r + (q * m) * p) / p);
}

/// (q * 256^j + s) % 256 == s % 256 when j >= 1.
proof fn lemma_mod_absorb(q: int, s: int, j: nat)
    requires
        j >= 1,
    ensures
        (q * pow256(j) + s) % 256 == s % 256,
{
    lemma_pow256_adds(1, (j - 1) as nat);
    lemma_pow256_pos((j - 1) as nat);
    assert(pow256(j) == 256 * pow256((j - 1) as nat));
    let t = pow256((j - 1) as nat);
    assert(q * (256 * t) == 256 * (q * t)) by (nonlinear_arith);
    vstd::arithmetic::div_mod::lemma_mod_multiples_vanish(q * t, s, 256);
}

} // verus!
