//! The mathematical model of a trace buffer: the whole byte sequence read as
//! one little-endian number, whose bits are the bits of the stream.
use vstd::arithmetic::div_mod::{
    lemma_div_denominator, lemma_fundamental_div_mod_converse, lemma_mod_breakdown,
    lemma_mod_mod,
};
use vstd::arithmetic::power2::{lemma2_to64, lemma_pow2_adds, lemma_pow2_pos, pow2};
use vstd::prelude::*;

verus! {

/// The bytes of `s` as one little-endian unsigned number.
pub open spec fn le_value(s: Seq<u8>) -> nat
    decreases s.len(),
{
    if s.len() == 0 {
        0
    } else {
        s[0] as nat + 256 * le_value(s.drop_first())
    }
}

/// The `width` bits of the stream `s` that start at bit `pos`; bit 0 is the
/// lowest bit of the first byte.
pub open spec fn stream_bits(s: Seq<u8>, pos: nat, width: nat) -> nat {
    (le_value(s) / pow2(pos)) % pow2(width)
}

/// Number of bits held by `s`.
pub open spec fn bit_len(s: Seq<u8>) -> nat {
    8 * s.len()
}

pub proof fn lemma_le_value_bound(s: Seq<u8>)
    ensures
        le_value(s) < pow2(8 * s.len()),
    decreases s.len(),
{
    if s.len() == 0 {
        lemma2_to64();
    } else {
        let r = s.drop_first();
        lemma_le_value_bound(r);
        lemma_pow2_adds(8, 8 * r.len());
        lemma2_to64();
        assert(8 * s.len() == 8 + 8 * r.len()) by (nonlinear_arith)
            requires
                r.len() + 1 == s.len(),
        ;
        let p = pow2(8 * r.len());
        assert(s[0] as nat + 256 * le_value(r) < 256 * p) by (nonlinear_arith)
            requires
                le_value(r) < p,
                s[0] < 256,
        ;
    }
}

/// Splitting the bytes at `k` splits the number.
pub proof fn lemma_le_value_split(s: Seq<u8>, k: nat)
    requires
        k <= s.len(),
    ensures
        le_value(s) == le_value(s.take(k as int)) + pow2(8 * k) * le_value(s.skip(k as int)),
    decreases k,
{
    if k == 0 {
        lemma2_to64();
        assert(s.take(k as int) =~= Seq::<u8>::empty());
        assert(s.skip(k as int) =~= s);
        assert(pow2(8 * k) == 1);
        assert(le_value(s.take(k as int)) == 0);
    } else {
        let r = s.drop_first();
        lemma_le_value_split(r, (k - 1) as nat);
        assert(r.skip(k - 1) =~= s.skip(k as int));
        assert(s.take(k as int).drop_first() =~= r.take(k - 1));
        lemma_pow2_adds(8, 8 * (k - 1) as nat);
        lemma2_to64();
        assert(8 * k == 8 + 8 * (k - 1) as nat);
        let a = le_value(r.take(k - 1));
        let b = le_value(s.skip(k as int));
        let p = pow2(8 * (k - 1) as nat);
        assert(256 * (a + p * b) == 256 * a + (256 * p) * b) by (nonlinear_arith);
        assert(pow2(8 * k) == 256 * p);
        assert(s.take(k as int)[0] == s[0]);
        assert(le_value(s.take(k as int)) == s[0] as nat + 256 * a);
        assert(le_value(s) == s[0] as nat + 256 * le_value(r));
        assert(le_value(r) == a + p * b);
        assert(pow2(8 * k) * b == (256 * p) * b);
    }
}

/// The bytes from `k` on are the number shifted right by `8 * k` bits.
pub proof fn lemma_le_value_skip(s: Seq<u8>, k: nat)
    requires
        k <= s.len(),
    ensures
        le_value(s.skip(k as int)) == le_value(s) / pow2(8 * k),
        le_value(s.take(k as int)) == le_value(s) % pow2(8 * k),
{
    lemma_le_value_split(s, k);
    lemma_le_value_bound(s.take(k as int));
    lemma_pow2_pos(8 * k);
    assert(s.take(k as int).len() == k);
    let kk = le_value(s.skip(k as int));
    let pp = pow2(8 * k);
    assert(pp * kk == kk * pp) by (nonlinear_arith);
    lemma_fundamental_div_mod_converse(
        le_value(s) as int,
        pow2(8 * k) as int,
        le_value(s.skip(k as int)) as int,
        le_value(s.take(k as int)) as int,
    );
}

/// `n` bytes from byte `k` on are a slice of the number.
pub proof fn lemma_le_value_window(s: Seq<u8>, k: nat, n: nat)
    requires
        k + n <= s.len(),
    ensures
        le_value(s.subrange(k as int, (k + n) as int)) == (le_value(s) / pow2(8 * k)) % pow2(
            8 * n,
        ),
{
    let t = s.skip(k as int);
    lemma_le_value_skip(s, k);
    lemma_le_value_skip(t, n);
    assert(t.take(n as int) =~= s.subrange(k as int, (k + n) as int));
}

/// Taking `w` bits at offset `b` of a number cut to `n` bits, with `b + w <= n`,
/// is taking them of the whole number.
pub proof fn lemma_bits_of_truncated(y: nat, n: nat, b: nat, w: nat)
    requires
        b + w <= n,
    ensures
        ((y % pow2(n)) / pow2(b)) % pow2(w) == (y / pow2(b)) % pow2(w),
{
    lemma_pow2_pos(b);
    lemma_pow2_pos(w);
    lemma_pow2_pos((n - b) as nat);
    lemma_pow2_pos((n - b - w) as nat);
    lemma_pow2_adds(b, (n - b) as nat);
    lemma_pow2_adds(w, (n - b - w) as nat);
    assert(b + (n - b) as nat == n);
    assert(w + (n - b - w) as nat == (n - b) as nat);
    lemma_mod_breakdown(y as int, pow2(b) as int, pow2((n - b) as nat) as int);
    let q = (y / pow2(b)) % pow2((n - b) as nat);
    let r = y % pow2(b);
    lemma_fundamental_div_mod_converse(
        (y % pow2(n)) as int,
        pow2(b) as int,
        q as int,
        r as int,
    );
    lemma_mod_mod((y / pow2(b)) as int, pow2(w) as int, pow2((n - b - w) as nat) as int);
}

/// Shifting right by `a` and then by `b` is shifting right by `a + b`.
pub proof fn lemma_shift_twice(x: nat, a: nat, b: nat)
    ensures
        (x / pow2(a)) / pow2(b) == x / pow2(a + b),
{
    lemma_pow2_pos(a);
    lemma_pow2_pos(b);
    lemma_pow2_adds(a, b);
    lemma_div_denominator(x as int, pow2(a) as int, pow2(b) as int);
}

/// A field read out of a window of `8 * n` bits that starts at byte `k` is the
/// field of the stream at the matching position.
pub proof fn lemma_window_field(s: Seq<u8>, k: nat, n: nat, sh: nat, w: nat)
    requires
        k + n <= s.len(),
        sh + w <= 8 * n,
    ensures
        (le_value(s.subrange(k as int, (k + n) as int)) / pow2(sh)) % pow2(w) == stream_bits(
            s,
            8 * k + sh,
            w,
        ),
{
    lemma_le_value_window(s, k, n);
    lemma_bits_of_truncated(le_value(s) / pow2(8 * k), 8 * n, sh, w);
    lemma_shift_twice(le_value(s), 8 * k, sh);
}


/// A value written into the stream at bit `pos`, `width` bits wide, reads
/// back as written, whatever lies below and above it.
pub proof fn lemma_field_round_trip(s: Seq<u8>, pos: nat, width: nat, low: nat, v: nat, high: nat)
    requires
        low < pow2(pos),
        v < pow2(width),
        le_value(s) == low + pow2(pos) * (v + pow2(width) * high),
    ensures
        stream_bits(s, pos, width) == v,
{
    lemma_pow2_pos(pos);
    lemma_pow2_pos(width);
    let q = v + pow2(width) * high;
    assert(pow2(pos) * q == q * pow2(pos)) by (nonlinear_arith);
    lemma_fundamental_div_mod_converse(le_value(s) as int, pow2(pos) as int, q as int, low as int);
    assert(pow2(width) * high == high * pow2(width)) by (nonlinear_arith);
    lemma_fundamental_div_mod_converse(q as int, pow2(width) as int, high as int, v as int);
}

} // verus!
