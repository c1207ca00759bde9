//! 256-bit unsigned amounts, stored as 32 big-endian bytes: the unit in
//! which transfer amounts, fees and event nonces are carried across the
//! bridge.

use crate::bigendian::{
    be_bytes_of, be_val, bytes_eq, lemma_be_bytes_of_len, lemma_be_bytes_of_val,
    lemma_be_val_append, lemma_be_val_bound, lemma_be_val_injective, lemma_be_val_zeros,
    lemma_u64_fits_32_bytes, zeros,
};
use vstd::arithmetic::mul::lemma_mul_inequality;
use vstd::arithmetic::power::pow;
use vstd::prelude::*;


verus! {

/// An unsigned 256-bit integer held as exactly 32 big-endian bytes.
#[derive(Clone, Debug, PartialEq, Eq, Hash)]
pub struct Uint256 {
    pub bytes: Vec<u8>,
}

impl View for Uint256 {
    type V = nat;

    open spec fn view(&self) -> nat {
        be_val(self.bytes@)
    }
}

impl Uint256 {
    /// Well-formed: exactly 32 bytes.
    pub open spec fn wf(&self) -> bool {
        self.bytes@.len() == 32
    }

    /// The value zero.
    pub fn zero() -> (r: Uint256)
        ensures
            r.wf(),
            r@ == 0,
            r.bytes@ == zeros(32),
    {
        let bytes: Vec<u8> = vec![0u8; 32];
        proof {
            assert(bytes@ =~= zeros(32));
            lemma_be_val_zeros(32);
        }
        Uint256 { bytes }
    }

    /// The value of a `u64`, widened to 256 bits.
    pub fn from_u64(v: u64) -> (r: Uint256)
        ensures
            r.wf(),
            r@ == v as nat,
            r.bytes@ == be_bytes_of(v as nat, 32),
    {
        let bytes = crate::bigendian::be_bytes_u64(v, 32);
        proof {
            lemma_be_bytes_of_len(v as nat, 32);
            lemma_u64_fits_32_bytes(v);
            lemma_be_bytes_of_val(v as nat, 32);
        }
        Uint256 { bytes }
    }

    /// The value of up to 32 big-endian bytes, left-padded with zeros.
    pub fn from_bytes_be(s: &Vec<u8>) -> (r: Uint256)
        requires
            s@.len() <= 32,
        ensures
            r.wf(),
            r@ == be_val(s@),
            r.bytes@ == zeros((32 - s@.len()) as nat) + s@,
    {
        let pad = 32 - s.len();
        let mut bytes: Vec<u8> = Vec::new();
        let mut i: usize = 0;
        while i < pad
            invariant
                i <= pad,
                pad == 32 - s@.len(),
                bytes@ =~= zeros(i as nat),
            decreases pad - i,
        {
            bytes.push(0u8);
            proof {
                assert(bytes@ =~= zeros((i + 1) as nat));
            }
            i += 1;
        }
        let mut j: usize = 0;
        while j < s.len()
            invariant
                j <= s@.len(),
                pad == 32 - s@.len(),
                bytes@ =~= zeros(pad as nat) + s@.take(j as int),
            decreases s@.len() - j,
        {
            bytes.push(s[j]);
            proof {
                assert(bytes@ =~= zeros(pad as nat) + s@.take(j + 1 as int));
            }
            j += 1;
        }
        proof {
            assert(s@.take(s@.len() as int) =~= s@);
            lemma_be_val_zeros(pad as nat);
            lemma_be_val_append(zeros(pad as nat), s@);
        }
        Uint256 { bytes }
    }

    /// The 32 big-endian bytes of the value.
    pub fn to_bytes_be(&self) -> (r: Vec<u8>)
        ensures
            r@ == self.bytes@,
    {
        crate::bigendian::subvec(&self.bytes, 0, self.bytes.len())
    }

    /// A copy of this amount.
    pub fn duplicate(&self) -> (r: Uint256)
        ensures
            r.bytes@ == self.bytes@,
    {
        let bytes = crate::bigendian::subvec(&self.bytes, 0, self.bytes.len());
        proof {
            assert(bytes@ =~= self.bytes@);
        }
        Uint256 { bytes }
    }

    /// Whether two amounts hold the same value.
    pub fn equals(&self, other: &Uint256) -> (r: bool)
        requires
            self.wf(),
            other.wf(),
        ensures
            r == (self@ == other@),
    {
        let r = bytes_eq(&self.bytes, &other.bytes);
        proof {
            if self@ == other@ {
                lemma_be_val_injective(self.bytes@, other.bytes@);
            }
        }
        r
    }


    /// Ten times this amount plus a digit, or `None` when the result does
    /// not fit in 256 bits.
    fn mul10_add(&self, digit: u8) -> (r: Option<Uint256>)
        requires
            self.wf(),
            digit < 10,
        ensures
            match r {
                Some(u) => u.wf() && u@ == self@ * 10 + digit,
                None => self@ * 10 + digit >= pow(256, 32),
            },
    {
        let a = &self.bytes;
        let mut out: Vec<u8> = vec![0u8; 32];
        let mut carry: u16 = digit as u16;
        let mut i: usize = 32;
        proof {
            reveal(pow);
            assert(pow(256, 0) == 1);
            assert(a@.skip(32) =~= Seq::<u8>::empty());
            assert(out@.skip(32) =~= Seq::<u8>::empty());
        }
        while i > 0
            invariant
                i <= 32,
                carry <= 10,
                a@.len() == 32,
                out@.len() == 32,
                be_val(a@.skip(i as int)) * 10 + digit == carry * pow(256, (32 - i) as nat)
                    + be_val(out@.skip(i as int)),
            decreases i,
        {
            let ghost old_out = out@;
            let ghost co = carry as nat;
            i -= 1;
            let t: u16 = a[i] as u16 * 10 + carry;
            out.set(i, (t % 256) as u8);
            carry = t / 256;
            proof {
                let j = i as int;
                let p1 = pow(256, (31 - j) as nat);
                let p0 = pow(256, (32 - j) as nat);
                reveal(pow);
                assert(p0 == 256 * p1);
                let aj = a@[j] as nat;
                let rr = (t % 256) as nat;
                let cn = (t / 256) as nat;
                let ta = be_val(a@.skip(j + 1));
                let to = be_val(old_out.skip(j + 1));
                assert(be_val(Seq::<u8>::empty()) == 0);
                assert(a@.skip(j) =~= seq![a@[j]] + a@.skip(j + 1));
                assert(out@.skip(j) =~= seq![out@[j]] + old_out.skip(j + 1));
                assert(seq![a@[j]].drop_last() =~= Seq::<u8>::empty());
                assert(seq![out@[j]].drop_last() =~= Seq::<u8>::empty());
                lemma_be_val_append(seq![a@[j]], a@.skip(j + 1));
                lemma_be_val_append(seq![out@[j]], old_out.skip(j + 1));
                assert(aj * 10 + co == cn * 256 + rr);
                assert(ta * 10 + digit == co * p1 + to);
                assert((aj * p1 + ta) * 10 + digit == cn * (256 * p1) + (rr * p1 + to))
                    by (nonlinear_arith)
                    requires
                        aj * 10 + co == cn * 256 + rr,
                        ta * 10 + digit == co * p1 + to,
                ;
                assert(be_val(a@.skip(j)) * 10 + digit == carry * p0 + be_val(out@.skip(j)));
            }
        }
        proof {
            reveal(pow);
            assert(pow(256, 0) == 1);
            assert(a@.skip(0) =~= a@);
            assert(out@.skip(0) =~= out@);
        }
        if carry == 0 {
            proof {
                assert(be_val(a@.skip(0)) * 10 + digit == carry * pow(256, (32 - 0) as nat)
                    + be_val(out@.skip(0)));
                assert(carry * pow(256, 32) == 0);
                assert(be_val(out@) == self@ * 10 + digit);
            }
            Some(Uint256 { bytes: out })
        } else {
            proof {
                lemma_be_val_bound(out@);
                lemma_mul_inequality(1, carry as int, pow(256, 32));
            }
            None
        }
    }

    /// The sum of two amounts, or `None` when it does not fit in 256 bits.
    pub fn checked_add(&self, other: &Uint256) -> (r: Option<Uint256>)
        requires
            self.wf(),
            other.wf(),
        ensures
            match r {
                Some(u) => u.wf() && u@ == self@ + other@,
                None => self@ + other@ >= pow(256, 32),
            },
    {
        let a = &self.bytes;
        let b = &other.bytes;
        let mut out: Vec<u8> = vec![0u8; 32];
        let mut carry: u8 = 0;
        let mut i: usize = 32;
        proof {
            assert(a@.skip(32) =~= Seq::<u8>::empty());
            assert(b@.skip(32) =~= Seq::<u8>::empty());
            assert(out@.skip(32) =~= Seq::<u8>::empty());
        }
        while i > 0
            invariant
                i <= 32,
                carry <= 1,
                a@.len() == 32,
                b@.len() == 32,
                out@.len() == 32,
                be_val(a@.skip(i as int)) + be_val(b@.skip(i as int)) == carry * pow(
                    256,
                    (32 - i) as nat,
                ) + be_val(out@.skip(i as int)),
            decreases i,
        {
            let ghost old_out = out@;
            let ghost co = carry as nat;
            i -= 1;
            let s: u16 = a[i] as u16 + b[i] as u16 + carry as u16;
            out.set(i, (s % 256) as u8);
            carry = (s / 256) as u8;
            proof {
                let j = i as int;
                let p1 = pow(256, (31 - j) as nat);
                let p0 = pow(256, (32 - j) as nat);
                reveal(pow);
                assert(p0 == 256 * p1);
                let aj = a@[j] as nat;
                let bj = b@[j] as nat;
                let rr = (s % 256) as nat;
                let cn = (s / 256) as nat;
                let ta = be_val(a@.skip(j + 1));
                let tb = be_val(b@.skip(j + 1));
                let to = be_val(old_out.skip(j + 1));
                assert(be_val(Seq::<u8>::empty()) == 0);
                assert(a@.skip(j) =~= seq![a@[j]] + a@.skip(j + 1));
                assert(b@.skip(j) =~= seq![b@[j]] + b@.skip(j + 1));
                assert(out@.skip(j) =~= seq![out@[j]] + old_out.skip(j + 1));
                assert(seq![a@[j]].drop_last() =~= Seq::<u8>::empty());
                assert(seq![b@[j]].drop_last() =~= Seq::<u8>::empty());
                assert(seq![out@[j]].drop_last() =~= Seq::<u8>::empty());
                lemma_be_val_append(seq![a@[j]], a@.skip(j + 1));
                lemma_be_val_append(seq![b@[j]], b@.skip(j + 1));
                lemma_be_val_append(seq![out@[j]], old_out.skip(j + 1));
                assert(aj + bj + co == cn * 256 + rr);
                assert(ta + tb == co * p1 + to);
                assert(aj * p1 + ta + (bj * p1 + tb) == cn * (256 * p1) + (rr * p1 + to))
                    by (nonlinear_arith)
                    requires
                        aj + bj + co == cn * 256 + rr,
                        ta + tb == co * p1 + to,
                ;
                assert(be_val(a@.skip(j)) + be_val(b@.skip(j)) == carry * p0 + be_val(
                    out@.skip(j),
                ));
            }
        }
        proof {
            assert(a@.skip(0) =~= a@);
            assert(b@.skip(0) =~= b@);
            assert(out@.skip(0) =~= out@);
        }
        if carry == 0 {
            Some(Uint256 { bytes: out })
        } else {
            proof {
                lemma_be_val_bound(out@);
            }
            None
        }
    }
}

/// A well-formed amount is below `256^32`.
pub proof fn lemma_uint256_bound(a: Uint256)
    requires
        a.wf(),
    ensures
        a@ < pow(256, 32),
{
    lemma_be_val_bound(a.bytes@);
}

/// Whether a character is a decimal digit.
pub open spec fn is_dec_digit(c: char) -> bool {
    48 <= c as u32 && c as u32 <= 57
}

/// The value of a decimal digit character.
pub open spec fn dec_digit_value(c: char) -> nat {
    if is_dec_digit(c) {
        (c as u32 - 48) as nat
    } else {
        0
    }
}

/// Whether every character is a decimal digit.
pub open spec fn all_dec_digits(s: Seq<char>) -> bool {
    forall|i: int| 0 <= i < s.len() ==> is_dec_digit(#[trigger] s[i])
}

/// The value a string of decimal digits spells.
pub open spec fn dec_val(s: Seq<char>) -> nat
    decreases s.len(),
{
    if s.len() == 0 {
        0
    } else {
        dec_val(s.drop_last()) * 10 + dec_digit_value(s.last())
    }
}

/// What parsing a decimal amount yields: one or more decimal digits, read
/// as an unbounded natural number.
pub open spec fn spec_parse_decimal(s: Seq<char>) -> Option<nat> {
    if s.len() > 0 && all_dec_digits(s) {
        Some(dec_val(s))
    } else {
        None
    }
}

/// A longer digit prefix never spells a smaller value.
proof fn lemma_dec_val_take_le(s: Seq<char>, i: int)
    requires
        0 <= i <= s.len(),
    ensures
        dec_val(s.take(i)) <= dec_val(s),
    decreases s.len() - i,
{
    if i == s.len() {
        assert(s.take(i) =~= s);
    } else {
        assert(s.take(i + 1).drop_last() =~= s.take(i));
        assert(s.take(i + 1).last() == s[i]);
        lemma_dec_val_take_le(s, i + 1);
    }
}

/// Parses a decimal amount: one or more digits whose value fits in 256
/// bits.
pub fn parse_uint256_decimal(s: &str) -> (r: Option<Uint256>)
    ensures
        match r {
            Some(u) => u.wf() && spec_parse_decimal(s@) == Some(u@),
            None => spec_parse_decimal(s@) is None || (spec_parse_decimal(s@) matches Some(v)
                && v >= pow(256, 32)),
        },
{
    let n = s.unicode_len();
    if n == 0 {
        return None;
    }
    let mut acc = Uint256::zero();
    let mut i: usize = 0;
    proof {
        assert(s@.take(0) =~= Seq::<char>::empty());
        lemma_be_val_zeros(32);
    }
    while i < n
        invariant
            i <= n,
            n == s@.len(),
            acc.wf(),
            forall|j: int| 0 <= j < i ==> is_dec_digit(#[trigger] s@[j]),
            acc@ == dec_val(s@.take(i as int)),
        decreases n - i,
    {
        let c = s.get_char(i);
        let v = c as u32;
        if !(48 <= v && v <= 57) {
            proof {
                assert(!is_dec_digit(s@[i as int]));
                assert(!all_dec_digits(s@));
            }
            return None;
        }
        let digit = (v - 48) as u8;
        proof {
            assert(s@.take(i + 1).drop_last() =~= s@.take(i as int));
            assert(s@.take(i + 1).last() == s@[i as int]);
        }
        acc = match acc.mul10_add(digit) {
            Some(next) => next,
            None => {
                proof {
                    lemma_dec_val_take_le(s@, i + 1);
                }
                return None;
            },
        };
        i += 1;
    }
    proof {
        assert(s@.take(n as int) =~= s@);
        assert(all_dec_digits(s@));
    }
    Some(acc)
}

} // verus!
