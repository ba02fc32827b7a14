//! Arithmetic in the Galois field GF(2^8) under the Rijndael reduction
//! polynomial, together with the algebraic identities behind column mixing.
use vstd::prelude::*;

verus! {

/// Doubling in GF(2^8): shift left one bit and, when the bit shifted out was
/// set, reduce by the polynomial x^8 + x^4 + x^3 + x + 1 (0x1b).
pub open spec fn xtime(a: u8) -> u8 {
    (a << 1) ^ (if a & 0x80 != 0 {
        0x1b
    } else {
        0
    })
}

/// The shift-and-xor product, unrolled for `n` steps: step `i` adds `a`
/// doubled `i` times into the sum exactly when bit `i` of `b` is set.
pub open spec fn gf_mul_rec(a: u8, b: u8, n: u8) -> u8
    decreases n,
{
    if n == 0 {
        0
    } else {
        (if b & 1 == 1 {
            a
        } else {
            0
        }) ^ gf_mul_rec(xtime(a), b >> 1, (n - 1) as u8)
    }
}

/// The product of `a` and `b` in GF(2^8): eight steps cover every bit of `b`.
pub open spec fn gf_mul(a: u8, b: u8) -> u8 {
    gf_mul_rec(a, b, 8)
}

/// One output byte of a column mix: the dot product, in GF(2^8), of the
/// coefficient row `(c0, c1, c2, c3)` with the column `(a0, a1, a2, a3)`.
pub open spec fn mix_entry(c0: u8, c1: u8, c2: u8, c3: u8, a0: u8, a1: u8, a2: u8, a3: u8) -> u8 {
    gf_mul(c0, a0) ^ gf_mul(c1, a1) ^ gf_mul(c2, a2) ^ gf_mul(c3, a3)
}

/// Zero is the neutral element of xor.
pub proof fn lemma_xor_zero(a: u8)
    ensures
        a ^ 0 == a,
        0 ^ a == a,
{
    assert(a ^ 0 == a && 0 ^ a == a) by (bit_vector);
}

/// Xor by the same value twice gives the original back.
pub proof fn lemma_xor_cancel(a: u8, b: u8)
    ensures
        (a ^ b) ^ b == a,
{
    assert((a ^ b) ^ b == a) by (bit_vector);
}

/// Xor is associative.
pub proof fn lemma_xor_assoc(a: u8, b: u8, c: u8)
    ensures
        (a ^ b) ^ c == a ^ (b ^ c),
{
    assert((a ^ b) ^ c == a ^ (b ^ c)) by (bit_vector);
}

/// Xor with one always changes the value.
pub proof fn lemma_xor_one_changes(a: u8)
    ensures
        a ^ 1 != a,
{
    assert(a ^ 1 != a) by (bit_vector);
}

/// One and zero act on a GF(2^8) product as they do on an ordinary one.
pub proof fn lemma_gf_mul_identity(a: u8)
    ensures
        gf_mul(a, 1) == a,
        gf_mul(a, 0) == 0,
{
    assert(gf_mul_rec(a, 1, 8) == a && gf_mul_rec(a, 0, 8) == 0) by (bit_vector);
}

/// Unrolling one step of the product: the low bit of `b` selects `a`, and the
/// rest of the product continues on the doubled `a`.
pub proof fn lemma_gf_mul_unfold(a: u8, b: u8)
    ensures
        gf_mul(a, b) == (if b & 1 == 1 {
            a
        } else {
            0u8
        }) ^ gf_mul(xtime(a), b >> 1),
        b & 1 == 0 || b & 1 == 1,
{
    assert(gf_mul_rec(a, b, 8) == (if b & 1 == 1 {
        a
    } else {
        0u8
    }) ^ gf_mul_rec(xtime(a), b >> 1, 8) && (b & 1 == 0 || b & 1 == 1)) by (bit_vector);
}

/// A right shift strictly shrinks a nonzero byte.
pub proof fn lemma_shr_decreases(b: u8)
    requires
        b != 0,
    ensures
        b >> 1 < b,
{
    assert(b != 0 ==> b >> 1 < b) by (bit_vector);
}

/// A GF(2^8) product distributes over xor in its second argument.
pub proof fn lemma_gf_mul_distrib(c: u8, x: u8, y: u8)
    ensures
        gf_mul(c, x ^ y) == gf_mul(c, x) ^ gf_mul(c, y),
{
    assert(gf_mul_rec(c, x ^ y, 8) == gf_mul_rec(c, x, 8) ^ gf_mul_rec(c, y, 8)) by (bit_vector);
}

/// A product by `c` of a whole mix entry splits into the four products of `c`
/// with the entry's terms.
proof fn lemma_gf_mul_expand(c: u8, m0: u8, m1: u8, m2: u8, m3: u8, a0: u8, a1: u8, a2: u8, a3: u8)
    ensures
        gf_mul(c, mix_entry(m0, m1, m2, m3, a0, a1, a2, a3)) == gf_mul(c, gf_mul(m0, a0)) ^ gf_mul(
            c,
            gf_mul(m1, a1),
        ) ^ gf_mul(c, gf_mul(m2, a2)) ^ gf_mul(c, gf_mul(m3, a3)),
{
    lemma_gf_mul_distrib(c, gf_mul(m0, a0) ^ gf_mul(m1, a1) ^ gf_mul(m2, a2), gf_mul(m3, a3));
    lemma_gf_mul_distrib(c, gf_mul(m0, a0) ^ gf_mul(m1, a1), gf_mul(m2, a2));
    lemma_gf_mul_distrib(c, gf_mul(m0, a0), gf_mul(m1, a1));
}

/// A fold of four xor terms may start at any of the four.
proof fn lemma_xor4_rotations(a: u8, b: u8, c: u8, d: u8)
    ensures
        ((a ^ b) ^ c) ^ d == ((b ^ c) ^ d) ^ a,
        ((a ^ b) ^ c) ^ d == ((c ^ d) ^ a) ^ b,
        ((a ^ b) ^ c) ^ d == ((d ^ a) ^ b) ^ c,
{
    assert(((a ^ b) ^ c) ^ d == ((b ^ c) ^ d) ^ a && ((a ^ b) ^ c) ^ d == ((c ^ d) ^ a) ^ b && ((a
        ^ b) ^ c) ^ d == ((d ^ a) ^ b) ^ c) by (bit_vector);
}

/// A xor of sixteen terms folded row by row equals the same terms folded
/// column by column.
proof fn lemma_xor16_transpose(
    x00: u8, x01: u8, x02: u8, x03: u8,
    x10: u8, x11: u8, x12: u8, x13: u8,
    x20: u8, x21: u8, x22: u8, x23: u8,
    x30: u8, x31: u8, x32: u8, x33: u8,
)
    ensures
        (((x00 ^ x01) ^ x02) ^ x03) ^ (((x10 ^ x11) ^ x12) ^ x13) ^ (((x20 ^ x21) ^ x22) ^ x23) ^ (
        ((x30 ^ x31) ^ x32) ^ x33) == (((x00 ^ x10) ^ x20) ^ x30) ^ (((x01 ^ x11) ^ x21) ^ x31) ^ (
        ((x02 ^ x12) ^ x22) ^ x32) ^ (((x03 ^ x13) ^ x23) ^ x33),
{
    assert((((x00 ^ x01) ^ x02) ^ x03) ^ (((x10 ^ x11) ^ x12) ^ x13) ^ (((x20 ^ x21) ^ x22) ^ x23)
        ^ (((x30 ^ x31) ^ x32) ^ x33) == (((x00 ^ x10) ^ x20) ^ x30) ^ (((x01 ^ x11) ^ x21) ^ x31)
        ^ (((x02 ^ x12) ^ x22) ^ x32) ^ (((x03 ^ x13) ^ x23) ^ x33)) by (bit_vector);
}

/// The dot products of the inverse-mix coefficient row `(14, 11, 13, 9)` with
/// the doubly-multiplied columns of the forward matrix: the aligned column
/// gives the byte back, the other three give zero.
proof fn lemma_gf_diag(x: u8)
    ensures
        gf_mul(14, gf_mul(2, x)) ^ gf_mul(11, gf_mul(1, x)) ^ gf_mul(13, gf_mul(1, x)) ^ gf_mul(
            9,
            gf_mul(3, x),
        ) == x,
        gf_mul(14, gf_mul(3, x)) ^ gf_mul(11, gf_mul(2, x)) ^ gf_mul(13, gf_mul(1, x)) ^ gf_mul(
            9,
            gf_mul(1, x),
        ) == 0,
        gf_mul(14, gf_mul(1, x)) ^ gf_mul(11, gf_mul(3, x)) ^ gf_mul(13, gf_mul(2, x)) ^ gf_mul(
            9,
            gf_mul(1, x),
        ) == 0,
        gf_mul(14, gf_mul(1, x)) ^ gf_mul(11, gf_mul(1, x)) ^ gf_mul(13, gf_mul(3, x)) ^ gf_mul(
            9,
            gf_mul(2, x),
        ) == 0,
{
    assert(gf_mul_rec(14, gf_mul_rec(2, x, 8), 8) ^ gf_mul_rec(11, gf_mul_rec(1, x, 8), 8)
        ^ gf_mul_rec(13, gf_mul_rec(1, x, 8), 8) ^ gf_mul_rec(9, gf_mul_rec(3, x, 8), 8) == x)
        by (bit_vector);
    assert(gf_mul_rec(14, gf_mul_rec(3, x, 8), 8) ^ gf_mul_rec(11, gf_mul_rec(2, x, 8), 8)
        ^ gf_mul_rec(13, gf_mul_rec(1, x, 8), 8) ^ gf_mul_rec(9, gf_mul_rec(1, x, 8), 8) == 0)
        by (bit_vector);
    assert(gf_mul_rec(14, gf_mul_rec(1, x, 8), 8) ^ gf_mul_rec(11, gf_mul_rec(3, x, 8), 8)
        ^ gf_mul_rec(13, gf_mul_rec(2, x, 8), 8) ^ gf_mul_rec(9, gf_mul_rec(1, x, 8), 8) == 0)
        by (bit_vector);
    assert(gf_mul_rec(14, gf_mul_rec(1, x, 8), 8) ^ gf_mul_rec(11, gf_mul_rec(1, x, 8), 8)
        ^ gf_mul_rec(13, gf_mul_rec(3, x, 8), 8) ^ gf_mul_rec(9, gf_mul_rec(2, x, 8), 8) == 0)
        by (bit_vector);
}

/// Applying the inverse coefficient rows `(14, 11, 13, 9)` to a column that
/// was mixed with the forward rows `(2, 3, 1, 1)` recovers the column: the
/// two circulant matrices are inverses over GF(2^8).
pub proof fn lemma_mix_column_inverse(a0: u8, a1: u8, a2: u8, a3: u8)
    ensures
        mix_entry(14, 11, 13, 9,
            mix_entry(2, 3, 1, 1, a0, a1, a2, a3),
            mix_entry(1, 2, 3, 1, a0, a1, a2, a3),
            mix_entry(1, 1, 2, 3, a0, a1, a2, a3),
            mix_entry(3, 1, 1, 2, a0, a1, a2, a3)) == a0,
        mix_entry(9, 14, 11, 13,
            mix_entry(2, 3, 1, 1, a0, a1, a2, a3),
            mix_entry(1, 2, 3, 1, a0, a1, a2, a3),
            mix_entry(1, 1, 2, 3, a0, a1, a2, a3),
            mix_entry(3, 1, 1, 2, a0, a1, a2, a3)) == a1,
        mix_entry(13, 9, 14, 11,
            mix_entry(2, 3, 1, 1, a0, a1, a2, a3),
            mix_entry(1, 2, 3, 1, a0, a1, a2, a3),
            mix_entry(1, 1, 2, 3, a0, a1, a2, a3),
            mix_entry(3, 1, 1, 2, a0, a1, a2, a3)) == a2,
        mix_entry(11, 13, 9, 14,
            mix_entry(2, 3, 1, 1, a0, a1, a2, a3),
            mix_entry(1, 2, 3, 1, a0, a1, a2, a3),
            mix_entry(1, 1, 2, 3, a0, a1, a2, a3),
            mix_entry(3, 1, 1, 2, a0, a1, a2, a3)) == a3,
{
    let y0 = mix_entry(2, 3, 1, 1, a0, a1, a2, a3);
    let y1 = mix_entry(1, 2, 3, 1, a0, a1, a2, a3);
    let y2 = mix_entry(1, 1, 2, 3, a0, a1, a2, a3);
    let y3 = mix_entry(3, 1, 1, 2, a0, a1, a2, a3);
    assert(mix_entry(14, 11, 13, 9, y0, y1, y2, y3) == a0) by {
        lemma_gf_mul_expand(14, 2, 3, 1, 1, a0, a1, a2, a3);
        lemma_gf_mul_expand(11, 1, 2, 3, 1, a0, a1, a2, a3);
        lemma_gf_mul_expand(13, 1, 1, 2, 3, a0, a1, a2, a3);
        lemma_gf_mul_expand(9, 3, 1, 1, 2, a0, a1, a2, a3);
        lemma_xor16_transpose(
            gf_mul(14, gf_mul(2, a0)), gf_mul(14, gf_mul(3, a1)),
            gf_mul(14, gf_mul(1, a2)), gf_mul(14, gf_mul(1, a3)),
            gf_mul(11, gf_mul(1, a0)), gf_mul(11, gf_mul(2, a1)),
            gf_mul(11, gf_mul(3, a2)), gf_mul(11, gf_mul(1, a3)),
            gf_mul(13, gf_mul(1, a0)), gf_mul(13, gf_mul(1, a1)),
            gf_mul(13, gf_mul(2, a2)), gf_mul(13, gf_mul(3, a3)),
            gf_mul(9, gf_mul(3, a0)), gf_mul(9, gf_mul(1, a1)),
            gf_mul(9, gf_mul(1, a2)), gf_mul(9, gf_mul(2, a3)),
        );
        lemma_gf_diag(a0);
        lemma_gf_diag(a1);
        lemma_gf_diag(a2);
        lemma_gf_diag(a3);
        lemma_xor_zero(0);
        lemma_xor_zero(a0);
    };
    assert(mix_entry(9, 14, 11, 13, y0, y1, y2, y3) == a1) by {
        lemma_xor4_rotations(gf_mul(9, y0), gf_mul(14, y1), gf_mul(11, y2), gf_mul(13, y3));
        lemma_gf_mul_expand(14, 1, 2, 3, 1, a0, a1, a2, a3);
        lemma_gf_mul_expand(11, 1, 1, 2, 3, a0, a1, a2, a3);
        lemma_gf_mul_expand(13, 3, 1, 1, 2, a0, a1, a2, a3);
        lemma_gf_mul_expand(9, 2, 3, 1, 1, a0, a1, a2, a3);
        lemma_xor16_transpose(
            gf_mul(14, gf_mul(1, a0)), gf_mul(14, gf_mul(2, a1)),
            gf_mul(14, gf_mul(3, a2)), gf_mul(14, gf_mul(1, a3)),
            gf_mul(11, gf_mul(1, a0)), gf_mul(11, gf_mul(1, a1)),
            gf_mul(11, gf_mul(2, a2)), gf_mul(11, gf_mul(3, a3)),
            gf_mul(13, gf_mul(3, a0)), gf_mul(13, gf_mul(1, a1)),
            gf_mul(13, gf_mul(1, a2)), gf_mul(13, gf_mul(2, a3)),
            gf_mul(9, gf_mul(2, a0)), gf_mul(9, gf_mul(3, a1)),
            gf_mul(9, gf_mul(1, a2)), gf_mul(9, gf_mul(1, a3)),
        );
        lemma_gf_diag(a0);
        lemma_gf_diag(a1);
        lemma_gf_diag(a2);
        lemma_gf_diag(a3);
        lemma_xor_zero(0);
        lemma_xor_zero(a1);
    };
    assert(mix_entry(13, 9, 14, 11, y0, y1, y2, y3) == a2) by {
        lemma_xor4_rotations(gf_mul(13, y0), gf_mul(9, y1), gf_mul(14, y2), gf_mul(11, y3));
        lemma_gf_mul_expand(14, 1, 1, 2, 3, a0, a1, a2, a3);
        lemma_gf_mul_expand(11, 3, 1, 1, 2, a0, a1, a2, a3);
        lemma_gf_mul_expand(13, 2, 3, 1, 1, a0, a1, a2, a3);
        lemma_gf_mul_expand(9, 1, 2, 3, 1, a0, a1, a2, a3);
        lemma_xor16_transpose(
            gf_mul(14, gf_mul(1, a0)), gf_mul(14, gf_mul(1, a1)),
            gf_mul(14, gf_mul(2, a2)), gf_mul(14, gf_mul(3, a3)),
            gf_mul(11, gf_mul(3, a0)), gf_mul(11, gf_mul(1, a1)),
            gf_mul(11, gf_mul(1, a2)), gf_mul(11, gf_mul(2, a3)),
            gf_mul(13, gf_mul(2, a0)), gf_mul(13, gf_mul(3, a1)),
            gf_mul(13, gf_mul(1, a2)), gf_mul(13, gf_mul(1, a3)),
            gf_mul(9, gf_mul(1, a0)), gf_mul(9, gf_mul(2, a1)),
            gf_mul(9, gf_mul(3, a2)), gf_mul(9, gf_mul(1, a3)),
        );
        lemma_gf_diag(a0);
        lemma_gf_diag(a1);
        lemma_gf_diag(a2);
        lemma_gf_diag(a3);
        lemma_xor_zero(0);
        lemma_xor_zero(a2);
    };
    assert(mix_entry(11, 13, 9, 14, y0, y1, y2, y3) == a3) by {
        lemma_xor4_rotations(gf_mul(11, y0), gf_mul(13, y1), gf_mul(9, y2), gf_mul(14, y3));
        lemma_gf_mul_expand(14, 3, 1, 1, 2, a0, a1, a2, a3);
        lemma_gf_mul_expand(11, 2, 3, 1, 1, a0, a1, a2, a3);
        lemma_gf_mul_expand(13, 1, 2, 3, 1, a0, a1, a2, a3);
        lemma_gf_mul_expand(9, 1, 1, 2, 3, a0, a1, a2, a3);
        lemma_xor16_transpose(
            gf_mul(14, gf_mul(3, a0)), gf_mul(14, gf_mul(1, a1)),
            gf_mul(14, gf_mul(1, a2)), gf_mul(14, gf_mul(2, a3)),
            gf_mul(11, gf_mul(2, a0)), gf_mul(11, gf_mul(3, a1)),
            gf_mul(11, gf_mul(1, a2)), gf_mul(11, gf_mul(1, a3)),
            gf_mul(13, gf_mul(1, a0)), gf_mul(13, gf_mul(2, a1)),
            gf_mul(13, gf_mul(3, a2)), gf_mul(13, gf_mul(1, a3)),
            gf_mul(9, gf_mul(1, a0)), gf_mul(9, gf_mul(1, a1)),
            gf_mul(9, gf_mul(2, a2)), gf_mul(9, gf_mul(3, a3)),
        );
        lemma_gf_diag(a0);
        lemma_gf_diag(a1);
        lemma_gf_diag(a2);
        lemma_gf_diag(a3);
        lemma_xor_zero(0);
        lemma_xor_zero(a3);
    };
}

} // verus!
