//! Integers as fixed-width byte strings, and the byte-wise order of keys.
//!
//! Every persisted record of the accumulators is a concatenation of
//! fixed-width fields. This module gives the fields their meaning: the
//! little-endian and big-endian readings of a byte string as a number, the
//! conversions in both directions, and the lexicographic order in which an
//! ordered key-value store walks its keys.

use vstd::prelude::*;

verus! {

/// The number that `s` spells when its first byte is the least significant.
pub open spec fn le_value(s: Seq<u8>) -> nat
    decreases s.len(),
{
    if s.len() == 0 {
        0
    } else {
        s[0] as nat + 256 * le_value(s.skip(1))
    }
}

/// The number that `s` spells when its last byte is the least significant.
pub open spec fn be_value(s: Seq<u8>) -> nat
    decreases s.len(),
{
    if s.len() == 0 {
        0
    } else {
        256 * be_value(s.drop_last()) + s.last() as nat
    }
}

/// The `n` low bytes of `x`, least significant first.
pub open spec fn le_bytes(x: nat, n: nat) -> Seq<u8>
    decreases n,
{
    if n == 0 {
        Seq::empty()
    } else {
        seq![(x % 256) as u8] + le_bytes(x / 256, (n - 1) as nat)
    }
}

/// The four bytes of `x`, least significant first.
pub open spec fn u32_le(x: u32) -> Seq<u8> {
    le_bytes(x as nat, 4)
}

/// The eight bytes of `x`, least significant first.
pub open spec fn u64_le(x: u64) -> Seq<u8> {
    le_bytes(x as nat, 8)
}

/// The eight bytes of `x`, most significant first.
pub open spec fn u64_be(x: u64) -> Seq<u8> {
    le_bytes(x as nat, 8).reverse()
}

/// `a` comes no later than `b` in the byte-wise (lexicographic) order: at the
/// first position where they differ `a` holds the smaller byte, or `a` is a
/// prefix of `b`.
pub open spec fn lex_le(a: Seq<u8>, b: Seq<u8>) -> bool
    decreases a.len(),
{
    if a.len() == 0 {
        true
    } else if b.len() == 0 {
        false
    } else if a[0] != b[0] {
        a[0] < b[0]
    } else {
        lex_le(a.skip(1), b.skip(1))
    }
}

/// `p` is a prefix of `s`.
pub open spec fn has_prefix(s: Seq<u8>, p: Seq<u8>) -> bool {
    p.len() <= s.len() && s.subrange(0, p.len() as int) == p
}

/// The little-endian bytes of a 32-bit number.
pub fn u32_to_le(x: u32) -> (r: [u8; 4])
    ensures
        r@ == u32_le(x),
{
    let r: [u8; 4] = [
        (x % 256) as u8,
        (x / 0x100 % 256) as u8,
        (x / 0x1_0000 % 256) as u8,
        (x / 0x100_0000 % 256) as u8,
    ];
    proof {
        let n = x as nat;
        reveal_with_fuel(le_bytes, 5);
        assert(n / 256 / 256 == n / 0x1_0000);
        assert(n / 256 / 256 / 256 == n / 0x100_0000);
        assert(r@ =~= u32_le(x));
    }
    r
}

/// The little-endian bytes of a 64-bit number.
pub fn u64_to_le(x: u64) -> (r: [u8; 8])
    ensures
        r@ == u64_le(x),
{
    let mut r = [0u8; 8];
    let mut rest = x;
    let mut i: usize = 0;
    while i < 8
        invariant
            i <= 8,
            r@.take(i as int) + le_bytes(rest as nat, (8 - i) as nat) == le_bytes(x as nat, 8),
        decreases 8 - i,
    {
        let ghost before = r@.take(i as int);
        r[i] = (rest % 256) as u8;
        proof {
            assert(r@.take(i + 1) =~= before.push((rest % 256) as u8));
            assert(before.push((rest % 256) as u8) + le_bytes(rest as nat / 256, (7 - i) as nat)
                =~= before + le_bytes(rest as nat, (8 - i) as nat));
        }
        rest = rest / 256;
        i += 1;
    }
    assert(r@.take(8) + le_bytes(rest as nat, 0) =~= r@);
    r
}

/// The big-endian bytes of a 64-bit number.
pub fn u64_to_be(x: u64) -> (r: [u8; 8])
    ensures
        r@ == u64_be(x),
{
    let le = u64_to_le(x);
    let r: [u8; 8] = [le[7], le[6], le[5], le[4], le[3], le[2], le[1], le[0]];
    assert(r@ =~= u64_be(x));
    r
}

/// Reads eight bytes as a little-endian number.
pub fn u64_from_le(s: &[u8]) -> (r: u64)
    requires
        s@.len() == 8,
    ensures
        r == le_value(s@),
        u64_le(r) == s@,
{
    let r7: u64 = s[7] as u64;
    let r6: u64 = r7 * 256 + s[6] as u64;
    let r5: u64 = r6 * 256 + s[5] as u64;
    let r4: u64 = r5 * 256 + s[4] as u64;
    let r3: u64 = r4 * 256 + s[3] as u64;
    let r2: u64 = r3 * 256 + s[2] as u64;
    let r1: u64 = r2 * 256 + s[1] as u64;
    let r0: u64 = r1 * 256 + s[0] as u64;
    proof {
        let t = s@;
        assert(t.skip(8).len() == 0);
        assert(t.skip(7).skip(1) =~= t.skip(8));
        assert(t.skip(6).skip(1) =~= t.skip(7));
        assert(t.skip(5).skip(1) =~= t.skip(6));
        assert(t.skip(4).skip(1) =~= t.skip(5));
        assert(t.skip(3).skip(1) =~= t.skip(4));
        assert(t.skip(2).skip(1) =~= t.skip(3));
        assert(t.skip(1).skip(1) =~= t.skip(2));
        assert(le_value(t.skip(8)) == 0);
        assert(le_value(t.skip(7)) == r7);
        assert(le_value(t.skip(6)) == r6);
        assert(le_value(t.skip(5)) == r5);
        assert(le_value(t.skip(4)) == r4);
        assert(le_value(t.skip(3)) == r3);
        assert(le_value(t.skip(2)) == r2);
        assert(le_value(t.skip(1)) == r1);
        lemma_le_bytes_of_value(t);
    }
    r0
}

/// Reads eight bytes as a big-endian number.
pub fn u64_from_be(s: &[u8]) -> (r: u64)
    requires
        s@.len() == 8,
    ensures
        r == be_value(s@),
        u64_be(r) == s@,
{
    let le: [u8; 8] = [s[7], s[6], s[5], s[4], s[3], s[2], s[1], s[0]];
    let r = u64_from_le(&le);
    proof {
        assert(le@ =~= s@.reverse());
        assert(le@.reverse() =~= s@);
        lemma_be_of_reverse(le@);
    }
    r
}

/// Whether two byte strings hold the same bytes.
pub fn bytes_eq(a: &[u8], b: &[u8]) -> (r: bool)
    ensures
        r == (a@ == b@),
{
    if a.len() != b.len() {
        return false;
    }
    let mut i: usize = 0;
    while i < a.len()
        invariant
            i <= a.len(),
            a.len() == b.len(),
            forall|j: int| 0 <= j < i ==> a@[j] == b@[j],
        decreases a.len() - i,
    {
        if a[i] != b[i] {
            return false;
        }
        i += 1;
    }
    assert(a@ =~= b@);
    true
}

/// Whether `s` begins with the bytes of `p`.
pub fn starts_with(s: &[u8], p: &[u8]) -> (r: bool)
    ensures
        r == has_prefix(s@, p@),
{
    if p.len() > s.len() {
        return false;
    }
    let mut i: usize = 0;
    while i < p.len()
        invariant
            i <= p.len(),
            p.len() <= s.len(),
            forall|j: int| 0 <= j < i ==> s@[j] == p@[j],
        decreases p.len() - i,
    {
        if s[i] != p[i] {
            assert(s@.subrange(0, p@.len() as int)[i as int] != p@[i as int]);
            return false;
        }
        i += 1;
    }
    assert(s@.subrange(0, p@.len() as int) =~= p@);
    true
}

/// Copies `s[at .. at + 32]` into an array.
pub fn read_32(s: &[u8], at: usize) -> (r: [u8; 32])
    requires
        at + 32 <= s.len(),
    ensures
        r@ == s@.subrange(at as int, at + 32),
{
    let mut r = [0u8; 32];
    let mut i: usize = 0;
    while i < 32
        invariant
            i <= 32,
            at + 32 <= s.len(),
            forall|j: int| 0 <= j < i ==> r[j] == s@[at + j],
        decreases 32 - i,
    {
        r[i] = s[at + i];
        i += 1;
    }
    assert(r@ =~= s@.subrange(at as int, at + 32));
    r
}

/// 256 to the power `n`.
pub open spec fn pow256(n: nat) -> nat
    decreases n,
{
    if n == 0 {
        1
    } else {
        256 * pow256((n - 1) as nat)
    }
}

/// A byte string of length `n` spells a number below `256^n`, read either way.
pub proof fn lemma_value_bound(s: Seq<u8>)
    ensures
        le_value(s) < pow256(s.len()),
        be_value(s) < pow256(s.len()),
    decreases s.len(),
{
    if s.len() > 0 {
        lemma_value_bound(s.skip(1));
        lemma_value_bound(s.drop_last());
    }
}

/// A byte string read as a little-endian number and written back with the
/// same width is the same byte string.
pub proof fn lemma_le_bytes_of_value(s: Seq<u8>)
    ensures
        le_bytes(le_value(s), s.len()) == s,
    decreases s.len(),
{
    if s.len() > 0 {
        let t = s.skip(1);
        lemma_le_bytes_of_value(t);
        let v = le_value(s);
        assert(v % 256 == s[0] as nat);
        assert(v / 256 == le_value(t));
        assert(le_bytes(v, s.len()) =~= s);
    } else {
        assert(le_bytes(le_value(s), 0) =~= s);
    }
}

/// A number below `256^n` written as `n` little-endian bytes and read back
/// is the same number.
pub proof fn lemma_le_value_of_bytes(x: nat, n: nat)
    requires
        x < pow256(n),
    ensures
        le_bytes(x, n).len() == n,
        le_value(le_bytes(x, n)) == x,
    decreases n,
{
    if n > 0 {
        lemma_le_value_of_bytes(x / 256, (n - 1) as nat);
        let s = le_bytes(x, n);
        assert(s.skip(1) =~= le_bytes(x / 256, (n - 1) as nat));
    }
}

/// A 64-bit number written as little-endian bytes and read back is the same
/// number.
pub proof fn lemma_le_round_trip_value(x: u64)
    ensures
        u64_le(x).len() == 8,
        le_value(u64_le(x)) == x,
{
    reveal_with_fuel(pow256, 9);
    lemma_le_value_of_bytes(x as nat, 8);
}

/// Reading a reversed string big-endian is reading the string little-endian.
pub proof fn lemma_be_of_reverse(s: Seq<u8>)
    ensures
        be_value(s.reverse()) == le_value(s),
    decreases s.len(),
{
    if s.len() > 0 {
        let r = s.reverse();
        assert(r.drop_last() =~= s.skip(1).reverse());
        assert(r.last() == s[0]);
        lemma_be_of_reverse(s.skip(1));
    }
}

/// Eight bytes read as a big-endian number and written back are the same
/// eight bytes.
pub proof fn lemma_be_round_trip_bytes(s: Seq<u8>)
    requires
        s.len() == 8,
    ensures
        be_value(s) <= u64::MAX,
        u64_be(be_value(s) as u64) == s,
{
    let r = s.reverse();
    assert(r.reverse() =~= s);
    lemma_be_of_reverse(r);
    lemma_le_bytes_of_value(r);
    lemma_value_bound(s);
    reveal_with_fuel(pow256, 9);
}

/// A 64-bit number written as big-endian bytes and read back is the same
/// number.
pub proof fn lemma_be_round_trip_value(x: u64)
    ensures
        u64_be(x).len() == 8,
        be_value(u64_be(x)) == x,
{
    lemma_le_round_trip_value(x);
    lemma_be_of_reverse(u64_le(x));
}

/// Every byte string is no later than itself.
pub proof fn lemma_lex_reflexive(a: Seq<u8>)
    ensures
        lex_le(a, a),
    decreases a.len(),
{
    if a.len() > 0 {
        lemma_lex_reflexive(a.skip(1));
    }
}

/// Two byte strings each no later than the other are the same string.
pub proof fn lemma_lex_antisymmetric(a: Seq<u8>, b: Seq<u8>)
    requires
        lex_le(a, b),
        lex_le(b, a),
    ensures
        a == b,
    decreases a.len(),
{
    if a.len() > 0 {
        lemma_lex_antisymmetric(a.skip(1), b.skip(1));
        assert(a =~= seq![a[0]] + a.skip(1));
        assert(b =~= seq![b[0]] + b.skip(1));
    } else {
        assert(a =~= b);
    }
}

/// A common prefix plays no part in the order of two strings.
pub proof fn lemma_lex_common_prefix(p: Seq<u8>, a: Seq<u8>, b: Seq<u8>)
    ensures
        lex_le(p + a, p + b) == lex_le(a, b),
    decreases p.len(),
{
    if p.len() > 0 {
        assert((p + a).skip(1) =~= p.skip(1) + a);
        assert((p + b).skip(1) =~= p.skip(1) + b);
        lemma_lex_common_prefix(p.skip(1), a, b);
    } else {
        assert(p + a =~= a);
        assert(p + b =~= b);
    }
}

/// A string that lies between two strings with a common prefix has that
/// prefix too.
pub proof fn lemma_lex_between(p: Seq<u8>, low: Seq<u8>, k: Seq<u8>, high: Seq<u8>)
    requires
        has_prefix(low, p),
        has_prefix(high, p),
        lex_le(low, k),
        lex_le(k, high),
    ensures
        has_prefix(k, p),
    decreases p.len(),
{
    if p.len() > 0 {
        assert(low[0] == low.subrange(0, p.len() as int)[0]);
        assert(high[0] == high.subrange(0, p.len() as int)[0]);
        let q = p.skip(1);
        assert(low.skip(1).subrange(0, q.len() as int) =~= low.subrange(0, p.len() as int).skip(
            1,
        ));
        assert(high.skip(1).subrange(0, q.len() as int) =~= high.subrange(0, p.len() as int).skip(
            1,
        ));
        lemma_lex_between(q, low.skip(1), k.skip(1), high.skip(1));
        assert(k.subrange(0, p.len() as int) =~= seq![k[0]] + k.skip(1).subrange(
            0,
            q.len() as int,
        ));
        assert(p =~= seq![p[0]] + q);
    } else {
        assert(k.subrange(0, 0) =~= p);
    }
}

/// The big-endian reading of a string, taken from its first byte.
pub proof fn lemma_be_value_front(s: Seq<u8>)
    requires
        s.len() > 0,
    ensures
        be_value(s) == s[0] as nat * pow256((s.len() - 1) as nat) + be_value(s.skip(1)),
    decreases s.len(),
{
    if s.len() == 1 {
        assert(s.drop_last().len() == 0);
        assert(s.skip(1).len() == 0);
        assert(be_value(s.drop_last()) == 0);
        assert(be_value(s.skip(1)) == 0);
        assert(s.last() == s[0]);
        assert(pow256(0) == 1);
        assert(s[0] as nat * pow256(0) == s[0] as nat) by (nonlinear_arith)
            requires
                pow256(0) == 1,
        ;
    } else {
        let front = s.drop_last();
        let tail = s.skip(1);
        lemma_be_value_front(front);
        assert(front.skip(1) =~= tail.drop_last());
        assert(tail.last() == s.last());
        assert(front[0] == s[0]);
        let p = pow256((s.len() - 2) as nat);
        let x = s[0] as nat;
        let r = be_value(front.skip(1));
        assert(be_value(front) == x * p + r);
        assert(be_value(tail) == 256 * r + s.last() as nat);
        assert(be_value(s) == 256 * (x * p + r) + s.last() as nat);
        assert(256 * (x * p + r) == x * (256 * p) + 256 * r) by (nonlinear_arith);
        assert(pow256((s.len() - 1) as nat) == 256 * p);
        assert(be_value(s) == x * pow256((s.len() - 1) as nat) + be_value(tail));
    }
}

/// Among strings of one length, the byte-wise order is the order of their
/// big-endian readings.
pub proof fn lemma_lex_is_be_order(a: Seq<u8>, b: Seq<u8>)
    requires
        a.len() == b.len(),
    ensures
        lex_le(a, b) <==> be_value(a) <= be_value(b),
    decreases a.len(),
{
    if a.len() > 0 {
        lemma_be_value_front(a);
        lemma_be_value_front(b);
        lemma_value_bound(a.skip(1));
        lemma_value_bound(b.skip(1));
        lemma_lex_is_be_order(a.skip(1), b.skip(1));
        let p = pow256((a.len() - 1) as nat);
        let x = a[0] as nat;
        let y = b[0] as nat;
        if x < y {
            assert((x + 1) * p <= y * p) by (nonlinear_arith)
                requires
                    x + 1 <= y,
            ;
            assert((x + 1) * p == x * p + p) by (nonlinear_arith);
        } else if y < x {
            assert((y + 1) * p <= x * p) by (nonlinear_arith)
                requires
                    y + 1 <= x,
            ;
            assert((y + 1) * p == y * p + p) by (nonlinear_arith);
        }
    }
}

/// Big-endian numbers sort as the numbers do.
pub proof fn lemma_lex_u64_be(a: u64, b: u64)
    ensures
        lex_le(u64_be(a), u64_be(b)) <==> a <= b,
{
    lemma_be_round_trip_value(a);
    lemma_be_round_trip_value(b);
    lemma_lex_is_be_order(u64_be(a), u64_be(b));
}

} // verus!
