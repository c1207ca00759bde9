//! Big-endian byte-sequence arithmetic: the value of a byte sequence read
//! as a big-endian unsigned integer, the fixed-width encoding of a value,
//! and lemmas relating values, lengths and byte order.

use vstd::arithmetic::div_mod::{
    lemma_fundamental_div_mod, lemma_fundamental_div_mod_converse, lemma_multiply_divide_lt,
};
use vstd::arithmetic::mul::lemma_mul_inequality;
use vstd::arithmetic::power::{lemma_pow_increases, pow};
use vstd::prelude::*;

verus! {

/// The value of a byte sequence read as a big-endian unsigned integer.
pub open spec fn be_val(s: Seq<u8>) -> nat
    decreases s.len(),
{
    if s.len() == 0 {
        0
    } else {
        (be_val(s.drop_last()) * 256 + s.last()) as nat
    }
}

/// A sequence of `n` zero bytes.
pub open spec fn zeros(n: nat) -> Seq<u8> {
    Seq::new(n, |i: int| 0u8)
}

/// The `n`-byte big-endian encoding of `v` (of `v % 256^n` when `v` is too
/// large for `n` bytes).
pub open spec fn be_bytes_of(v: nat, n: nat) -> Seq<u8>
    decreases n,
{
    if n == 0 {
        Seq::empty()
    } else {
        be_bytes_of(v / 256, (n - 1) as nat).push((v % 256) as u8)
    }
}

pub proof fn lemma_be_bytes_of_len(v: nat, n: nat)
    ensures
        be_bytes_of(v, n).len() == n,
    decreases n,
{
    if n > 0 {
        lemma_be_bytes_of_len(v / 256, (n - 1) as nat);
    }
}

/// A big-endian value fits in `256^len`.
pub proof fn lemma_be_val_bound(s: Seq<u8>)
    ensures
        be_val(s) < pow(256, s.len()),
    decreases s.len(),
{
    reveal(pow);
    if s.len() == 0 {
    } else {
        let t = s.drop_last();
        lemma_be_val_bound(t);
        let p1 = pow(256, t.len());
        assert(pow(256, s.len()) == 256 * p1);
        lemma_mul_inequality(be_val(t) as int, p1 - 1, 256);
        assert(be_val(t) * 256 <= (p1 - 1) * 256);
        assert((p1 - 1) * 256 + 255 < p1 * 256) by (nonlinear_arith)
            requires
                p1 >= 1,
        ;
        assert(p1 * 256 == 256 * p1) by (nonlinear_arith);
    }
}

/// Concatenation shifts the left part by the length of the right part.
pub proof fn lemma_be_val_append(a: Seq<u8>, b: Seq<u8>)
    ensures
        be_val(a + b) == be_val(a) * pow(256, b.len()) + be_val(b),
    decreases b.len(),
{
    reveal(pow);
    if b.len() == 0 {
        assert(a + b =~= a);
        assert(pow(256, 0) == 1);
    } else {
        let bd = b.drop_last();
        lemma_be_val_append(a, bd);
        assert((a + b).drop_last() =~= a + bd);
        assert((a + b).last() == b.last());
        let x = be_val(a);
        let y = be_val(bd);
        let p1 = pow(256, bd.len());
        assert(pow(256, b.len()) == 256 * p1);
        assert((x * p1 + y) * 256 + b.last() == x * (256 * p1) + (y * 256 + b.last()))
            by (nonlinear_arith);
    }
}

/// Equal-length byte sequences with equal values are equal.
pub proof fn lemma_be_val_injective(a: Seq<u8>, b: Seq<u8>)
    requires
        a.len() == b.len(),
        be_val(a) == be_val(b),
    ensures
        a == b,
    decreases a.len(),
{
    if a.len() > 0 {
        let va = be_val(a.drop_last());
        let vb = be_val(b.drop_last());
        lemma_fundamental_div_mod_converse(
            be_val(a) as int,
            256,
            va as int,
            a.last() as int,
        );
        lemma_fundamental_div_mod_converse(
            be_val(b) as int,
            256,
            vb as int,
            b.last() as int,
        );
        lemma_be_val_injective(a.drop_last(), b.drop_last());
        assert(a =~= a.drop_last().push(a.last()));
        assert(b =~= b.drop_last().push(b.last()));
    }
}

/// Round trip: encoding a value below `256^n` and reading it back is the identity.
pub proof fn lemma_be_bytes_of_val(v: nat, n: nat)
    requires
        v < pow(256, n),
    ensures
        be_val(be_bytes_of(v, n)) == v,
    decreases n,
{
    reveal(pow);
    if n > 0 {
        let p1 = pow(256, (n - 1) as nat);
        assert(pow(256, n) == 256 * p1);
        lemma_multiply_divide_lt(v as int, 256, p1 as int);
        lemma_be_bytes_of_val(v / 256, (n - 1) as nat);
        let s = be_bytes_of(v / 256, (n - 1) as nat);
        let w = s.push((v % 256) as u8);
        assert(w.drop_last() =~= s);
        assert(w.last() == (v % 256) as u8);
        lemma_fundamental_div_mod(v as int, 256);
    }
}

/// A sequence of zero bytes has value zero.
pub proof fn lemma_be_val_zeros(n: nat)
    ensures
        be_val(zeros(n)) == 0,
    decreases n,
{
    if n > 0 {
        assert(zeros(n).drop_last() =~= zeros((n - 1) as nat));
        lemma_be_val_zeros((n - 1) as nat);
    }
}

/// Any `u64` fits in a 32-byte big-endian word.
pub proof fn lemma_u64_fits_32_bytes(x: u64)
    ensures
        (x as nat) < pow(256, 32),
{
    assert(pow(256, 8) == 0x1_0000_0000_0000_0000) by {
        reveal_with_fuel(pow, 9);
    }
    lemma_pow_increases(256, 8, 32);
}

/// Big-endian order agrees with byte order: if two equal-length sequences
/// agree up to position `i` and differ there, the one with the smaller byte
/// has the smaller value.
pub proof fn lemma_be_val_order(a: Seq<u8>, b: Seq<u8>, i: int)
    requires
        a.len() == b.len(),
        0 <= i < a.len(),
        forall|j: int| 0 <= j < i ==> a[j] == b[j],
        a[i] < b[i],
    ensures
        be_val(a) < be_val(b),
{
    let n = a.len() as int;
    let p = pow(256, (n - i - 1) as nat);
    assert(a =~= a.take(i + 1) + a.skip(i + 1));
    assert(b =~= b.take(i + 1) + b.skip(i + 1));
    lemma_be_val_append(a.take(i + 1), a.skip(i + 1));
    lemma_be_val_append(b.take(i + 1), b.skip(i + 1));
    assert(a.take(i + 1).drop_last() =~= a.take(i));
    assert(a.take(i + 1).last() == a[i]);
    assert(b.take(i + 1).drop_last() =~= b.take(i));
    assert(b.take(i + 1).last() == b[i]);
    assert(a.take(i) =~= b.take(i));
    let base = be_val(a.take(i));
    assert(be_val(a.take(i + 1)) == base * 256 + a[i]);
    assert(be_val(b.take(i + 1)) == base * 256 + b[i]);
    let ha = be_val(a.take(i + 1));
    let hb = be_val(b.take(i + 1));
    let ta = be_val(a.skip(i + 1));
    let tb = be_val(b.skip(i + 1));
    lemma_be_val_bound(a.skip(i + 1));
    assert(ta < p);
    lemma_mul_inequality(ha as int + 1, hb as int, p as int);
    assert(ha * p + ta < (ha + 1) * p) by (nonlinear_arith)
        requires
            ta < p,
    ;
}

/// The `n`-byte big-endian encoding of a `u64` value.
pub fn be_bytes_u64(v: u64, n: usize) -> (r: Vec<u8>)
    ensures
        r@ == be_bytes_of(v as nat, n as nat),
    decreases n,
{
    if n == 0 {
        let r: Vec<u8> = Vec::new();
        assert(r@ =~= be_bytes_of(v as nat, 0));
        r
    } else {
        let mut r = be_bytes_u64(v / 256, n - 1);
        r.push((v % 256) as u8);
        r
    }
}

/// Whether two byte vectors hold the same bytes.
pub fn bytes_eq(a: &Vec<u8>, b: &Vec<u8>) -> (r: bool)
    ensures
        r == (a@ == b@),
{
    if a.len() != b.len() {
        assert(a@ != b@) by {
            assert(a@.len() != b@.len());
        }
        return false;
    }
    let n = a.len();
    let mut i: usize = 0;
    while i < n
        invariant
            i <= n,
            n == a@.len() == b@.len(),
            forall|j: int| 0 <= j < i ==> a@[j] == b@[j],
        decreases n - i,
    {
        if a[i] != b[i] {
            assert(a@ != b@) by {
                assert(a@[i as int] != b@[i as int]);
            }
            return false;
        }
        i += 1;
    }
    proof {
        assert(a@ =~= b@);
    }
    true
}

/// Whether the big-endian value of `a` is at most that of `b`, for
/// equal-length byte vectors.
pub fn be_le(a: &Vec<u8>, b: &Vec<u8>) -> (r: bool)
    requires
        a@.len() == b@.len(),
    ensures
        r == (be_val(a@) <= be_val(b@)),
{
    let n = a.len();
    let mut i: usize = 0;
    while i < n
        invariant
            i <= n,
            n == a@.len() == b@.len(),
            forall|j: int| 0 <= j < i ==> a@[j] == b@[j],
        decreases n - i,
    {
        if a[i] < b[i] {
            proof {
                lemma_be_val_order(a@, b@, i as int);
            }
            return true;
        }
        if a[i] > b[i] {
            proof {
                lemma_be_val_order(b@, a@, i as int);
            }
            return false;
        }
        i += 1;
    }
    proof {
        assert(a@ =~= b@);
    }
    true
}

/// A copy of `v[start..end]`.
pub fn subvec(v: &Vec<u8>, start: usize, end: usize) -> (r: Vec<u8>)
    requires
        start <= end <= v@.len(),
    ensures
        r@ == v@.subrange(start as int, end as int),
{
    let mut r: Vec<u8> = Vec::new();
    let mut i: usize = start;
    while i < end
        invariant
            start <= i <= end <= v@.len(),
            r@ == v@.subrange(start as int, i as int),
        decreases end - i,
    {
        r.push(v[i]);
        proof {
            assert(v@.subrange(start as int, i + 1 as int) =~= v@.subrange(
                start as int,
                i as int,
            ).push(v@[i as int]));
        }
        i += 1;
    }
    r
}

} // verus!
