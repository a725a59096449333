//! Byte-level views of 80-byte Bitcoin headers.
//!
//! A header stores its difficulty target in truncated form: a 3-byte
//! little-endian mantissa and a 1-byte base-256 exponent. This module gives
//! the mathematical reading of those fields, together with verified helpers
//! to extract and compare them, and small verified big-number routines on
//! little-endian byte strings (used by the retarget check and fork weights).

use vstd::arithmetic::div_mod::lemma_div_multiples_vanish_fancy;
use vstd::arithmetic::div_mod::lemma_mod_multiples_vanish;
use vstd::arithmetic::div_mod::lemma_small_mod;
use vstd::arithmetic::power::lemma_pow_adds;
use vstd::arithmetic::power::lemma_pow_positive;
use vstd::arithmetic::power::pow;
use vstd::prelude::*;

verus! {

/// 256 raised to a power; the place value of byte `e` in a little-endian
/// byte string.
pub open spec fn pow256(e: nat) -> int {
    pow(256, e)
}

/// The natural number encoded by a little-endian byte string.
pub open spec fn le_nat(b: Seq<u8>) -> nat
    decreases b.len(),
{
    if b.len() == 0 {
        0
    } else {
        (b[0] + 256 * le_nat(b.skip(1))) as nat
    }
}

/// The byte at place `j` of the little-endian encoding of `v`.
pub open spec fn nat_byte(v: nat, j: nat) -> u8 {
    (((v as int / pow256(j)) % 256) as u8)
}

/// `pow256` is strictly positive.
pub proof fn lemma_pow256_pos(e: nat)
    ensures
        pow256(e) >= 1,
{
    lemma_pow_positive(256, e);
}

/// The first few powers of 256, by unfolding the definition.
pub proof fn lemma_pow256_unit()
    ensures
        pow256(0) == 1,
        pow256(1) == 256,
        pow256(2) == 0x10000,
        pow256(3) == 0x1000000,
{
    reveal_with_fuel(pow, 4);
}

/// Splitting a byte string splits its value at the matching place value.
pub proof fn lemma_le_nat_split(s: Seq<u8>, j: int)
    requires
        0 <= j <= s.len(),
    ensures
        le_nat(s) == le_nat(s.take(j)) + pow256(j as nat) * le_nat(s.skip(j)),
    decreases j,
{
    lemma_pow256_pos(j as nat);
    lemma_pow256_unit();
    if j == 0 {
        assert(s.take(0) =~= Seq::<u8>::empty());
        assert(s.skip(0) =~= s);
        assert(le_nat(Seq::<u8>::empty()) == 0);
    } else {
        lemma_le_nat_split(s.skip(1), j - 1);
        assert(s.skip(1).take(j - 1) =~= s.take(j).skip(1));
        assert(s.skip(1).skip(j - 1) =~= s.skip(j));
        assert(s.take(j)[0] == s[0]);
        assert(s.take(j).len() == j);
        let a = le_nat(s.skip(1).take(j - 1)) as int;
        let b = le_nat(s.skip(j)) as int;
        let p = pow256((j - 1) as nat);
        assert(le_nat(s.skip(1)) == a + p * b);
        assert(le_nat(s) == s[0] + 256 * (a + p * b));
        assert(le_nat(s.take(j)) == s[0] + 256 * a);
        lemma_pow_adds(256, 1, (j - 1) as nat);
        lemma_pow256_unit();
        assert(pow256(j as nat) == 256 * p);
        assert(256 * (a + p * b) == 256 * a + (256 * p) * b) by (nonlinear_arith);
    }
}

/// A byte string of length `n` encodes a value below `256^n`.
pub proof fn lemma_le_nat_bound(s: Seq<u8>)
    ensures
        le_nat(s) < pow256(s.len()),
    decreases s.len(),
{
    if s.len() == 0 {
        lemma_pow256_unit();
    } else {
        lemma_le_nat_bound(s.skip(1));
        let b = le_nat(s.skip(1)) as int;
        let p = pow256((s.len() - 1) as nat);
        lemma_pow_adds(256, 1, (s.len() - 1) as nat);
        lemma_pow256_unit();
        assert(pow256(s.len()) == 256 * p);
        assert(s[0] + 256 * b < 256 * p) by (nonlinear_arith)
            requires
                s[0] < 256,
                b < p,
        ;
    }
}

/// Appending a byte adds its value at the next place.
pub proof fn lemma_le_nat_push(s: Seq<u8>, x: u8)
    ensures
        le_nat(s.push(x)) == le_nat(s) + x * pow256(s.len()),
{
    let t = s.push(x);
    lemma_le_nat_split(t, s.len() as int);
    assert(t.take(s.len() as int) =~= s);
    assert(t.skip(s.len() as int) =~= seq![x]);
    assert(seq![x].skip(1) =~= Seq::<u8>::empty());
    assert(le_nat(Seq::<u8>::empty()) == 0);
    assert(le_nat(seq![x]) == x);
    assert(pow256(s.len()) * (x as int) == (x as int) * pow256(s.len())) by (nonlinear_arith);
}

/// Reading a digit back out of the encoded value.
pub proof fn lemma_le_nat_digit(s: Seq<u8>, j: int)
    requires
        0 <= j < s.len(),
    ensures
        s[j] == nat_byte(le_nat(s), j as nat),
{
    lemma_le_nat_split(s, j);
    let a = le_nat(s.take(j)) as int;
    let b = le_nat(s.skip(j)) as int;
    let p = pow256(j as nat);
    lemma_pow256_pos(j as nat);
    lemma_le_nat_bound(s.take(j));
    assert(s.take(j).len() == j);
    assert(a < p);
    assert(s.skip(j)[0] == s[j]);
    let c = le_nat(s.skip(j).skip(1)) as int;
    assert(b == s[j] + 256 * c);
    // (a + p * b) / p == b because a < p
    assert((p * b + a) / p == b) by {
        lemma_div_multiples_vanish_fancy(b, a, p);
    }
    assert(le_nat(s) as int == p * b + a) by (nonlinear_arith)
        requires
            le_nat(s) == a + p * b,
    ;
    // (s[j] + 256 * c) % 256 == s[j]
    lemma_mod_multiples_vanish(c, s[j] as int, 256);
    lemma_small_mod(s[j] as nat, 256);
}


/// The previous-block digest stored in a header.
pub open spec fn header_prev_hash(h: Seq<u8>) -> Seq<u8> {
    h.subrange(4, 36)
}

/// The timestamp stored in a header.
pub open spec fn header_timestamp(h: Seq<u8>) -> nat {
    le_nat(h.subrange(68, 72))
}

/// The 3-byte mantissa of the truncated difficulty target.
pub open spec fn target_mantissa(h: Seq<u8>) -> nat {
    le_nat(h.subrange(72, 75))
}

/// The saturating base-256 exponent of the truncated difficulty target.
pub open spec fn target_exponent(h: Seq<u8>) -> nat {
    if h[75] < 3 {
        0
    } else {
        (h[75] - 3) as nat
    }
}

/// The difficulty target encoded in a header, expanded to a number.
pub open spec fn header_target(h: Seq<u8>) -> nat {
    (target_mantissa(h) * pow256(target_exponent(h))) as nat
}

/// Whether the expanded target fits the 256-bit arithmetic that the
/// header-validation library performs on it.
pub open spec fn target_representable(h: Seq<u8>) -> bool {
    &&& target_exponent(h) <= 31
    &&& header_target(h) < pow256(32)
}

/// The difficulty-one target: mantissa `0xffff` at the top of 28 bytes.
pub open spec fn diff1_target() -> nat {
    (0xffff * pow256(26)) as nat
}

/// The difficulty encoded in a header: the difficulty-one target divided by
/// the header's target.
pub open spec fn header_difficulty(h: Seq<u8>) -> nat
    recommends
        header_target(h) >= 1,
{
    diff1_target() / header_target(h)
}

/// The `i`-th 80-byte header of a packed header array.
pub open spec fn chunk(b: Seq<u8>, i: int) -> Seq<u8> {
    b.subrange(80 * i, 80 * i + 80)
}

/// The number of 80-byte headers in a packed header array.
pub open spec fn num_chunks(b: Seq<u8>) -> int {
    b.len() as int / 80
}

/// Extract the timestamp from an 80-byte header.
pub fn extract_timestamp(h: &[u8]) -> (t: u32)
    requires
        h@.len() == 80,
    ensures
        t == header_timestamp(h@),
{
    let t: u32 = h[68] as u32 + 256 * (h[69] as u32 + 256 * (h[70] as u32 + 256 * (
    h[71] as u32)));
    proof {
        let s = h@.subrange(68, 72);
        let s1 = h@.subrange(69, 72);
        let s2 = h@.subrange(70, 72);
        let s3 = h@.subrange(71, 72);
        assert(s.skip(1) =~= s1);
        assert(s1.skip(1) =~= s2);
        assert(s2.skip(1) =~= s3);
        assert(s3.skip(1) =~= Seq::<u8>::empty());
        assert(le_nat(Seq::<u8>::empty()) == 0);
        assert(le_nat(s3) == s3[0]);
        assert(le_nat(s2) == s2[0] + 256 * le_nat(s3));
        assert(le_nat(s1) == s1[0] + 256 * le_nat(s2));
        assert(le_nat(s) == s[0] + 256 * le_nat(s1));
        assert(s[0] == h@[68] && s1[0] == h@[69] && s2[0] == h@[70] && s3[0] == h@[71]);
    }
    t
}

/// Extract the 3-byte target mantissa from an 80-byte header.
pub fn extract_mantissa(h: &[u8]) -> (m: u32)
    requires
        h@.len() == 80,
    ensures
        m == target_mantissa(h@),
        m < 0x1000000,
{
    let m: u32 = h[72] as u32 + 256 * (h[73] as u32 + 256 * (h[74] as u32));
    proof {
        let s = h@.subrange(72, 75);
        let s1 = h@.subrange(73, 75);
        let s2 = h@.subrange(74, 75);
        assert(s.skip(1) =~= s1);
        assert(s1.skip(1) =~= s2);
        assert(s2.skip(1) =~= Seq::<u8>::empty());
        assert(le_nat(Seq::<u8>::empty()) == 0);
        assert(le_nat(s2) == s2[0]);
        assert(le_nat(s1) == s1[0] + 256 * le_nat(s2));
        assert(le_nat(s) == s[0] + 256 * le_nat(s1));
        assert(s[0] == h@[72] && s1[0] == h@[73] && s2[0] == h@[74]);
    }
    m
}

/// Extract the saturating target exponent from an 80-byte header.
pub fn extract_exponent(h: &[u8]) -> (e: u8)
    requires
        h@.len() == 80,
    ensures
        e == target_exponent(h@),
{
    if h[75] < 3 {
        0
    } else {
        h[75] - 3
    }
}

/// A power of 256 that fits a `u64`.
fn pow256_small(d: u32) -> (p: u64)
    requires
        d <= 2,
    ensures
        p == pow256(d as nat),
        p <= 0x10000,
{
    proof {
        lemma_pow256_unit();
    }
    if d == 0 {
        1
    } else if d == 1 {
        256
    } else {
        65536
    }
}

/// Targets written with the higher exponent match exactly when shifting the
/// higher mantissa down to the lower exponent reproduces the lower mantissa.
proof fn lemma_target_shift_eq(m1: int, m2: int, e1: nat, e2: nat)
    requires
        m1 >= 0,
        m2 >= 0,
        e1 >= e2,
    ensures
        m1 * pow256(e1) == m2 * pow256(e2) <==> m1 * pow256((e1 - e2) as nat) == m2,
{
    let d = (e1 - e2) as nat;
    lemma_pow_adds(256, d, e2);
    lemma_pow256_pos(e2);
    lemma_pow256_pos(d);
    assert(m1 * pow256(e1) == (m1 * pow256(d)) * pow256(e2)) by (nonlinear_arith)
        requires
            pow256(e1) == pow256(d) * pow256(e2),
    ;
    assert((m1 * pow256(d)) * pow256(e2) == m2 * pow256(e2) <==> m1 * pow256(d) == m2)
        by (nonlinear_arith)
        requires
            pow256(e2) >= 1,
    ;
}

/// A nonzero mantissa shifted up three or more bytes exceeds any mantissa.
proof fn lemma_target_shift_large(m1: int, d: nat)
    requires
        m1 >= 1,
        d >= 3,
    ensures
        m1 * pow256(d) >= 0x1000000,
{
    lemma_pow256_pos(d);
    vstd::arithmetic::power::lemma_pow_increases(256, 3, d);
    lemma_pow256_unit();
    assert(m1 * pow256(d) >= pow256(d)) by (nonlinear_arith)
        requires
            m1 >= 1,
            pow256(d) >= 1,
    ;
}

/// Compare the expanded difficulty targets of two headers.
pub fn targets_equal(h1: &[u8], h2: &[u8]) -> (r: bool)
    requires
        h1@.len() == 80,
        h2@.len() == 80,
    ensures
        r == (header_target(h1@) == header_target(h2@)),
{
    let m1 = extract_mantissa(h1);
    let e1 = extract_exponent(h1);
    let m2 = extract_mantissa(h2);
    let e2 = extract_exponent(h2);
    proof {
        lemma_pow256_pos(target_exponent(h1@));
        lemma_pow256_pos(target_exponent(h2@));
        assert(m1 == 0 ==> header_target(h1@) == 0);
        assert(m2 == 0 ==> header_target(h2@) == 0);
        assert(m1 >= 1 ==> header_target(h1@) >= 1) by (nonlinear_arith)
            requires
                header_target(h1@) == target_mantissa(h1@) * pow256(target_exponent(h1@)),
                m1 == target_mantissa(h1@),
                pow256(target_exponent(h1@)) >= 1,
        ;
        assert(m2 >= 1 ==> header_target(h2@) >= 1) by (nonlinear_arith)
            requires
                header_target(h2@) == target_mantissa(h2@) * pow256(target_exponent(h2@)),
                m2 == target_mantissa(h2@),
                pow256(target_exponent(h2@)) >= 1,
        ;
    }
    if m1 == 0 || m2 == 0 {
        return m1 == 0 && m2 == 0;
    }
    if e1 >= e2 {
        let d = (e1 - e2) as u32;
        proof {
            lemma_target_shift_eq(m1 as int, m2 as int, e1 as nat, e2 as nat);
            if d >= 3 {
                lemma_target_shift_large(m1 as int, d as nat);
            }
        }
        if d >= 3 {
            false
        } else {
            let p = pow256_small(d);
            proof {
                vstd::arithmetic::mul::lemma_mul_upper_bound(
                    m1 as int,
                    0xffffff,
                    p as int,
                    0x10000,
                );
            }
            m1 as u64 * p == m2 as u64
        }
    } else {
        let d = (e2 - e1) as u32;
        proof {
            lemma_target_shift_eq(m2 as int, m1 as int, e2 as nat, e1 as nat);
            if d >= 3 {
                lemma_target_shift_large(m2 as int, d as nat);
            }
        }
        if d >= 3 {
            false
        } else {
            let p = pow256_small(d);
            proof {
                vstd::arithmetic::mul::lemma_mul_upper_bound(
                    m2 as int,
                    0xffffff,
                    p as int,
                    0x10000,
                );
            }
            m2 as u64 * p == m1 as u64
        }
    }
}


/// Replacing one byte shifts the value by the difference at that place.
pub proof fn lemma_le_nat_update(s: Seq<u8>, j: int, v: u8)
    requires
        0 <= j < s.len(),
    ensures
        le_nat(s.update(j, v)) == le_nat(s) + (v - s[j]) * pow256(j as nat),
{
    let t = s.update(j, v);
    lemma_le_nat_split(s, j);
    lemma_le_nat_split(t, j);
    assert(t.take(j) =~= s.take(j));
    let p = pow256(j as nat);
    lemma_pow256_pos(j as nat);
    assert(t.skip(j).skip(1) =~= s.skip(j).skip(1));
    let c = le_nat(s.skip(j).skip(1)) as int;
    assert(le_nat(s.skip(j)) == s[j] + 256 * c);
    assert(le_nat(t.skip(j)) == v + 256 * c);
    assert(p * (v + 256 * c) == p * (s[j] + 256 * c) + (v - s[j]) * p) by (nonlinear_arith);
}

/// A value below `256^n` keeps mantissa room: cancelling the common power.
proof fn lemma_mantissa_room(m: int, e: nat, k: nat)
    requires
        m >= 0,
        e <= 32,
        k == 32 - e,
        m * pow256(e) < pow256(32),
    ensures
        m < pow256(k),
{
    lemma_pow_adds(256, k, e);
    lemma_pow256_pos(e);
    lemma_pow256_pos(k);
    assert(m < pow256(k)) by (nonlinear_arith)
        requires
            m >= 0,
            pow256(32) == pow256(k) * pow256(e),
            m * pow256(e) < pow256(32),
            pow256(e) >= 1,
            pow256(k) >= 1,
    ;
}

/// Write a representable target out as 32 little-endian bytes.
pub fn target_bytes(h: &[u8]) -> (b: Vec<u8>)
    requires
        h@.len() == 80,
        target_representable(h@),
    ensures
        b@.len() == 32,
        le_nat(b@) == header_target(h@),
{
    let m = extract_mantissa(h);
    let e = extract_exponent(h);
    let mut b: Vec<u8> = Vec::new();
    while b.len() < 32
        invariant
            b@.len() <= 32,
            le_nat(b@) == 0,
            forall|k: int| 0 <= k < b@.len() ==> b@[k] == 0,
        decreases 32 - b@.len(),
    {
        proof {
            lemma_le_nat_push(b@, 0);
        }
        b.push(0);
    }
    let ghost p = pow256(e as nat);
    let m0 = (m % 256) as u8;
    let m1 = ((m / 256) % 256) as u8;
    let m2 = (m / 65536) as u8;
    proof {
        lemma_pow256_pos(e as nat);
        lemma_pow256_unit();
        lemma_pow_adds(256, 1, e as nat);
        lemma_pow_adds(256, 2, e as nat);
        assert(pow256((e + 1) as nat) == 256 * p);
        assert(pow256((e + 2) as nat) == 0x10000 * p);
        lemma_mantissa_room(m as int, e as nat, (32 - e) as nat);
        assert(m as int / 65536 < 256) by (nonlinear_arith)
            requires
                0 <= m < 0x1000000,
        ;
        assert(m0 == m as int % 256);
        assert(m1 == (m as int / 256) % 256);
        assert(m2 == m as int / 65536);
        lemma_le_nat_update(b@, e as int, m0);
    }
    b[e as usize] = m0;
    proof {
        assert(le_nat(b@) == m0 * p);
    }
    if (e as usize) + 1 < 32 {
        proof {
            lemma_le_nat_update(b@, e as int + 1, m1);
        }
        b[(e as usize) + 1] = m1;
        proof {
            assert(le_nat(b@) == m0 * p + m1 * (256 * p));
        }
    } else {
        proof {
            // at exponent 31 the target fits only if the mantissa is one byte
            assert(pow256(1) == 256);
            assert(m1 == 0 && m2 == 0) by (nonlinear_arith)
                requires
                    0 <= m < 256,
                    m1 == (m as int / 256) % 256,
                    m2 == m as int / 65536,
            ;
            assert(m1 * (256 * p) == 0 && m2 * (0x10000 * p) == 0) by (nonlinear_arith)
                requires
                    m1 == 0,
                    m2 == 0,
            ;
        }
    }
    if (e as usize) + 2 < 32 {
        proof {
            lemma_le_nat_update(b@, e as int + 2, m2);
        }
        b[(e as usize) + 2] = m2;
        proof {
            assert(le_nat(b@) == m0 * p + m1 * (256 * p) + m2 * (0x10000 * p));
        }
    } else if (e as usize) + 1 < 32 {
        proof {
            assert(pow256(2) == 0x10000);
            assert(m2 == 0) by (nonlinear_arith)
                requires
                    0 <= m < 0x10000,
                    m2 == m as int / 65536,
            ;
            assert(m2 * (0x10000 * p) == 0) by (nonlinear_arith)
                requires
                    m2 == 0,
            ;
        }
    }
    proof {
        assert(le_nat(b@) == m0 * p + m1 * (256 * p) + m2 * (0x10000 * p));
        vstd::arithmetic::div_mod::lemma_fundamental_div_mod(m as int, 256);
        vstd::arithmetic::div_mod::lemma_fundamental_div_mod(m as int / 256, 256);
        assert((m as int / 256) / 256 == m as int / 65536) by {
            vstd::arithmetic::div_mod::lemma_div_denominator(m as int, 256, 256);
        }
        assert(m == m0 + 256 * m1 + 0x10000 * m2) by (nonlinear_arith)
            requires
                m == 256 * (m as int / 256) + m0,
                m as int / 256 == 256 * ((m as int / 256) / 256) + m1,
                (m as int / 256) / 256 == m as int / 65536,
                m2 == m as int / 65536,
        ;
        assert((m0 + 256 * m1 + 0x10000 * m2) * p == m0 * p + m1 * (256 * p) + m2 * (0x10000
            * p)) by (nonlinear_arith);
    }
    b
}

/// Whether every byte of `v` survives masking by the matching byte of `w`.
///
/// This is the truncation test used for retargets: the truncated new target
/// must be reproducible by masking the full-precision expected target.
pub open spec fn masked_by(v: nat, w: nat) -> bool {
    forall|j: nat| #![trigger nat_byte(v, j)] j < 32 ==> (nat_byte(v, j) & nat_byte(w, j))
        == nat_byte(v, j)
}

/// Check the mask relation byte by byte on two 32-byte values.
pub fn bytes_masked(a: &Vec<u8>, b: &Vec<u8>) -> (r: bool)
    requires
        a@.len() == 32,
        b@.len() == 32,
    ensures
        r == masked_by(le_nat(a@), le_nat(b@)),
{
    let ghost va = le_nat(a@);
    let ghost vb = le_nat(b@);
    let mut j: usize = 0;
    while j < 32
        invariant
            j <= 32,
            a@.len() == 32,
            b@.len() == 32,
            va == le_nat(a@),
            vb == le_nat(b@),
            forall|k: nat| #![trigger nat_byte(va, k)] k < j ==> (nat_byte(va, k) & nat_byte(
                vb,
                k,
            )) == nat_byte(va, k),
        decreases 32 - j,
    {
        proof {
            lemma_le_nat_digit(a@, j as int);
            lemma_le_nat_digit(b@, j as int);
        }
        if a[j] & b[j] != a[j] {
            return false;
        }
        j = j + 1;
    }
    true
}

/// The retarget period in seconds: two weeks.
pub open spec fn spec_retarget_period() -> nat {
    1209600
}

/// The elapsed time of an epoch, clamped to a quarter and four times the
/// retarget period.
pub open spec fn spec_clamped_elapsed(t0: nat, t1: nat) -> nat
    recommends
        t0 <= t1,
{
    let e = t1 - t0;
    if e > 4838400 {
        4838400
    } else if e < 302400 {
        302400
    } else {
        e as nat
    }
}

/// The full-precision retarget output: the old target scaled by the clamped
/// elapsed time over the retarget period, rounded down.
pub open spec fn spec_retarget(t: nat, t0: nat, t1: nat) -> nat
    recommends
        t0 <= t1,
{
    t * spec_clamped_elapsed(t0, t1) / spec_retarget_period()
}

/// The carry step of long multiplication, as pure algebra.
proof fn lemma_mul_carry_step(lo: int, carry: int, a: int, bd: int, m: int, acc: int, p: int)
    requires
        p >= 1,
        acc == bd * m + carry,
        lo + carry * p == m * a,
        acc >= 0,
    ensures
        lo + (acc % 256) * p + (acc / 256) * (256 * p) == m * (a + bd * p),
{
    vstd::arithmetic::div_mod::lemma_fundamental_div_mod(acc, 256);
    assert(lo + (acc % 256) * p + (acc / 256) * (256 * p) == lo + acc * p) by (nonlinear_arith)
        requires
            acc == 256 * (acc / 256) + acc % 256,
            p >= 1,
    ;
    assert(lo + acc * p == m * (a + bd * p)) by (nonlinear_arith)
        requires
            acc == bd * m + carry,
            lo + carry * p == m * a,
    ;
}

/// Flushing the final carry preserves the running value.
proof fn lemma_carry_flush(lo: int, carry: int, p: int)
    requires
        p >= 1,
        carry >= 0,
    ensures
        lo + (carry % 256) * p + (carry / 256) * (256 * p) == lo + carry * p,
{
    vstd::arithmetic::div_mod::lemma_fundamental_div_mod(carry, 256);
    assert(lo + (carry % 256) * p + (carry / 256) * (256 * p) == lo + carry * p)
        by (nonlinear_arith)
        requires
            carry == 256 * (carry / 256) + carry % 256,
            p >= 1,
    ;
}

/// Multiply a 32-byte little-endian value by a small scalar, widening to
/// 34 bytes.
pub fn mul_le_bytes(b: &Vec<u8>, m: u32) -> (out: Vec<u8>)
    requires
        b@.len() == 32,
        m < 0x10000,
    ensures
        out@.len() == 34,
        le_nat(out@) == le_nat(b@) * m,
{
    let mut out: Vec<u8> = Vec::new();
    let mut carry: u32 = 0;
    let mut i: usize = 0;
    proof {
        assert(b@.take(0) =~= Seq::<u8>::empty());
        assert(le_nat(Seq::<u8>::empty()) == 0);
        lemma_pow256_unit();
        assert(m * le_nat(b@.take(0)) == 0) by (nonlinear_arith)
            requires
                le_nat(b@.take(0)) == 0,
        ;
    }
    while i < 32
        invariant
            i <= 32,
            out@.len() == i,
            b@.len() == 32,
            m < 0x10000,
            carry < 0x10000,
            le_nat(out@) + carry * pow256(i as nat) == m * le_nat(b@.take(i as int)),
        decreases 32 - i,
    {
        proof {
            vstd::arithmetic::mul::lemma_mul_upper_bound(b@[i as int] as int, 255, m as int, 0xffff);
        }
        let acc: u32 = (b[i] as u32) * m + carry;
        proof {
            let p = pow256(i as nat);
            lemma_pow256_pos(i as nat);
            lemma_mul_carry_step(
                le_nat(out@) as int,
                carry as int,
                le_nat(b@.take(i as int)) as int,
                b@[i as int] as int,
                m as int,
                acc as int,
                p,
            );
            lemma_le_nat_push(out@, (acc % 256) as u8);
            lemma_pow_adds(256, 1, i as nat);
            lemma_pow256_unit();
            assert(pow256((i + 1) as nat) == 256 * p);
            assert(b@.take(i as int).push(b@[i as int]) =~= b@.take(i as int + 1));
            lemma_le_nat_push(b@.take(i as int), b@[i as int]);
        }
        out.push((acc % 256) as u8);
        carry = acc / 256;
        i = i + 1;
    }
    proof {
        assert(b@.take(32) =~= b@);
        let p32 = pow256(32);
        lemma_pow256_pos(32);
        lemma_carry_flush(le_nat(out@) as int, carry as int, p32);
        lemma_le_nat_push(out@, (carry % 256) as u8);
        lemma_pow_adds(256, 1, 32);
    }
    out.push((carry % 256) as u8);
    proof {
        lemma_le_nat_push(out@, (carry / 256) as u8);
    }
    out.push((carry / 256) as u8);
    proof {
        assert(le_nat(out@) == le_nat(b@) * m) by (nonlinear_arith)
            requires
                le_nat(out@) == m * le_nat(b@),
        ;
    }
    out
}

/// A higher differing byte decides the order of two byte strings.
proof fn lemma_le_bytes_cmp_at(a: Seq<u8>, b: Seq<u8>, j: int)
    requires
        a.len() == b.len(),
        0 <= j < a.len(),
        a[j] < b[j],
        forall|k: int| j < k < a.len() ==> a[k] == b[k],
    ensures
        le_nat(a) < le_nat(b),
{
    lemma_le_nat_split(a, j);
    lemma_le_nat_split(b, j);
    let p = pow256(j as nat);
    lemma_pow256_pos(j as nat);
    lemma_le_nat_bound(a.take(j));
    lemma_le_nat_bound(b.take(j));
    assert(a.skip(j).skip(1) =~= b.skip(j).skip(1));
    let c = le_nat(a.skip(j).skip(1)) as int;
    assert(le_nat(a.skip(j)) == a[j] + 256 * c);
    assert(le_nat(b.skip(j)) == b[j] + 256 * c);
    assert(a.take(j).len() == j && b.take(j).len() == j);
    assert(le_nat(a) < le_nat(b)) by (nonlinear_arith)
        requires
            le_nat(a) == le_nat(a.take(j)) + p * (a[j] + 256 * c),
            le_nat(b) == le_nat(b.take(j)) + p * (b[j] + 256 * c),
            le_nat(a.take(j)) < p,
            le_nat(b.take(j)) >= 0,
            a[j] < b[j],
            c >= 0,
            p >= 1,
    ;
}

/// Compare two equal-length little-endian values, from the top byte down.
pub fn le_bytes_lt(a: &Vec<u8>, b: &Vec<u8>) -> (r: bool)
    requires
        a@.len() == b@.len(),
    ensures
        r == (le_nat(a@) < le_nat(b@)),
{
    let mut j: usize = a.len();
    while j > 0
        invariant
            j <= a@.len(),
            a@.len() == b@.len(),
            forall|k: int| j <= k < a@.len() ==> a@[k] == b@[k],
        decreases j,
    {
        j = j - 1;
        if a[j] < b[j] {
            proof {
                lemma_le_bytes_cmp_at(a@, b@, j as int);
            }
            return true;
        }
        if b[j] < a[j] {
            proof {
                lemma_le_bytes_cmp_at(b@, a@, j as int);
            }
            return false;
        }
    }
    proof {
        assert(a@ =~= b@);
    }
    false
}


/// Compare two 32-byte digests.
pub fn digests_equal(a: &[u8; 32], b: &[u8; 32]) -> (r: bool)
    ensures
        r == (a@ == b@),
{
    let mut j: usize = 0;
    while j < 32
        invariant
            j <= 32,
            forall|k: int| 0 <= k < j ==> a@[k] == b@[k],
        decreases 32 - j,
    {
        if a[j] != b[j] {
            return false;
        }
        j = j + 1;
    }
    proof {
        assert(a@ =~= b@);
    }
    true
}

} // verus!
