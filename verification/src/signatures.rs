//! Signature aggregation: matching collected per-validator confirmations
//! against a validator set, the canonical submission order (power
//! descending, Ethereum address ascending as tie-break), and the parallel
//! arrays the bridge contract consumes.
//!
//! The order exists because the on-chain verifier accumulates power while
//! walking the array and stops at quorum: descending power reaches the
//! threshold with the fewest signatures, and the address tie-break makes
//! the order reproducible whatever order confirmations arrived in.

use crate::address::{bech32_account_of, parse_eth_address, parse_hex_bytes, spec_parse_eth_address, spec_parse_hex_bytes, CosmosAddress, EthAddress};
use crate::bigendian::{be_val, subvec};
use crate::error::PeggyError;
use crate::uint256::Uint256;
use crate::valset::{all_members_addressed, power_lookup, Valset, ValsetMember};
use vstd::prelude::*;
use vstd::seq_lib::{to_multiset_build, to_multiset_contains, to_multiset_insert, to_multiset_len};

verus! {

/// An ECDSA signature as the chains carry it: the recovery scalar `v` and
/// the two curve scalars `r` and `s`.
#[derive(Clone, Debug, PartialEq, Eq)]
pub struct EthSignature {
    pub v: Uint256,
    pub r: Uint256,
    pub s: Uint256,
}

impl EthSignature {
    /// Well-formed: each scalar holds exactly 32 bytes.
    pub open spec fn wf(&self) -> bool {
        self.v.wf() && self.r.wf() && self.s.wf()
    }

    /// A copy of this signature.
    pub fn duplicate(&self) -> (r: EthSignature)
        ensures
            r.v.bytes@ == self.v.bytes@,
            r.r.bytes@ == self.r.bytes@,
            r.s.bytes@ == self.s.bytes@,
    {
        EthSignature { v: self.v.duplicate(), r: self.r.duplicate(), s: self.s.duplicate() }
    }
}


/// Whether 65 signature bytes spell the given scalars: `r`, then `s`,
/// then the recovery byte `v`.
pub open spec fn signature_bytes_spell(b: Seq<u8>, sig: EthSignature) -> bool {
    &&& sig.r@ == be_val(b.subrange(0, 32))
    &&& sig.s@ == be_val(b.subrange(32, 64))
    &&& sig.v@ == b[64] as nat
}

/// Parses a textual ECDSA signature: the hexadecimal form of exactly 65
/// bytes — `r`, then `s`, then the recovery byte `v`.
pub fn parse_eth_signature(input: &str) -> (r: Option<EthSignature>)
    ensures
        match r {
            Some(sig) => sig.wf() && (spec_parse_hex_bytes(input@) matches Some(b) && b.len()
                == 65 && signature_bytes_spell(b, sig)),
            None => spec_parse_hex_bytes(input@) is None || (spec_parse_hex_bytes(input@)
                matches Some(b) && b.len() != 65),
        },
{
    match parse_hex_bytes(input) {
        Some(bytes) => {
            if bytes.len() == 65 {
                let r_scalar = Uint256::from_bytes_be(&subvec(&bytes, 0, 32));
                let s_scalar = Uint256::from_bytes_be(&subvec(&bytes, 32, 64));
                let v_tail = subvec(&bytes, 64, 65);
                let v_scalar = Uint256::from_bytes_be(&v_tail);
                proof {
                    assert(v_tail@ =~= seq![bytes@[64]]);
                    assert(v_tail@.drop_last() =~= Seq::<u8>::empty());
                    assert(be_val(Seq::<u8>::empty()) == 0);
                    assert(be_val(v_tail@) == bytes@[64] as nat);
                }
                Some(EthSignature { v: v_scalar, r: r_scalar, s: s_scalar })
            } else {
                None
            }
        },
        None => None,
    }
}

/// One validator's confirmation of a checkpoint, as retrieved from chain
/// storage: who attests, with which Ethereum key, for which nonce, and
/// the signature itself.
#[derive(Clone, Debug, PartialEq, Eq)]
pub struct ValsetConfirmResponse {
    pub validator: CosmosAddress,
    pub eth_address: EthAddress,
    pub nonce: Uint256,
    pub eth_signature: EthSignature,
}

impl ValsetConfirmResponse {
    /// Well-formed: every field holds its exact byte width.
    pub open spec fn wf(&self) -> bool {
        self.validator.wf() && self.eth_address.wf() && self.nonce.wf() && self.eth_signature.wf()
    }

    /// Builds a confirmation from the fields as the chain reports them:
    /// the attesting validator's bech32 address, the signer's hexadecimal
    /// Ethereum address, the confirmed nonce, and the hexadecimal
    /// signature. A record any of whose fields does not parse is an
    /// invalid bridge state.
    pub fn from_parts(validator: &str, eth_address: &str, nonce: u64, signature: &str) -> (r:
        Result<ValsetConfirmResponse, PeggyError>)
        ensures
            match r {
                Ok(c) => {
                    &&& c.wf()
                    &&& bech32_account_of(validator@) == Some(c.validator@)
                    &&& spec_parse_eth_address(eth_address@) == Some(c.eth_address@)
                    &&& c.nonce@ == nonce as nat
                    &&& (spec_parse_hex_bytes(signature@) matches Some(b) && b.len() == 65
                        && signature_bytes_spell(b, c.eth_signature))
                },
                Err(e) => {
                    &&& e == PeggyError::InvalidBridgeState
                    &&& {
                        ||| bech32_account_of(validator@) is None
                        ||| (bech32_account_of(validator@) matches Some(b) && b.len() != 20)
                        ||| spec_parse_eth_address(eth_address@) is None
                        ||| spec_parse_hex_bytes(signature@) is None
                        ||| (spec_parse_hex_bytes(signature@) matches Some(b) && b.len() != 65)
                    }
                },
            },
    {
        let validator = match CosmosAddress::from_bech32(validator) {
            Some(a) => a,
            None => {
                return Err(PeggyError::InvalidBridgeState);
            },
        };
        let eth_address = match parse_eth_address(eth_address) {
            Some(a) => a,
            None => {
                return Err(PeggyError::InvalidBridgeState);
            },
        };
        let eth_signature = match parse_eth_signature(signature) {
            Some(sig) => sig,
            None => {
                return Err(PeggyError::InvalidBridgeState);
            },
        };
        Ok(
            ValsetConfirmResponse {
                validator,
                eth_address,
                nonce: Uint256::from_u64(nonce),
                eth_signature,
            },
        )
    }
}

/// A signature paired with its signer's Ethereum address, as batch
/// confirmations carry it.
#[derive(Clone, Debug, PartialEq, Eq)]
pub struct SigWithAddress {
    pub eth_address: EthAddress,
    pub eth_signature: EthSignature,
}

impl SigWithAddress {
    /// Well-formed: the address is 20 bytes, each scalar 32.
    pub open spec fn wf(&self) -> bool {
        self.eth_address.wf() && self.eth_signature.wf()
    }
}

/// A matched signature, ready to sort: the signer's power and address
/// together with the signature scalars. Ordering reads only power and
/// address, never `v`, `r`, `s`.
#[derive(Clone, Debug, PartialEq, Eq)]
pub struct PeggySignature {
    pub power: u64,
    pub eth_address: EthAddress,
    pub v: Uint256,
    pub r: Uint256,
    pub s: Uint256,
}

/// The mathematical content of a `PeggySignature`: plain values only.
pub struct SigView {
    pub power: u64,
    pub eth_address: Seq<u8>,
    pub v: nat,
    pub r: nat,
    pub s: nat,
}

impl View for PeggySignature {
    type V = SigView;

    open spec fn view(&self) -> SigView {
        SigView {
            power: self.power,
            eth_address: self.eth_address@,
            v: self.v@,
            r: self.r@,
            s: self.s@,
        }
    }
}

impl PeggySignature {
    /// Well-formed: the address is 20 bytes, each scalar 32.
    pub open spec fn wf(&self) -> bool {
        self.eth_address.wf() && self.v.wf() && self.r.wf() && self.s.wf()
    }
}

/// The views of a sequence of signatures.
pub open spec fn sig_views(s: Seq<PeggySignature>) -> Seq<SigView> {
    s.map_values(|x: PeggySignature| x@)
}

/// The canonical submission order on signature views: `a` comes at or
/// before `b` when `a` has strictly more power, or equal power and an
/// address that is at or before `b`'s in byte-lexicographic order.
pub open spec fn sig_view_le(a: SigView, b: SigView) -> bool {
    a.power > b.power || (a.power == b.power && be_val(a.eth_address) <= be_val(b.eth_address))
}

/// The canonical submission order on signatures.
pub open spec fn sig_le(a: PeggySignature, b: PeggySignature) -> bool {
    sig_view_le(a@, b@)
}

/// A view inserted into an ordered sequence after every entry at or
/// before it, so entries tied with it keep their earlier places.
pub open spec fn sig_view_insert(s: Seq<SigView>, x: SigView) -> Seq<SigView>
    decreases s.len(),
{
    if s.len() == 0 {
        seq![x]
    } else if sig_view_le(s[0], x) {
        seq![s[0]] + sig_view_insert(s.drop_first(), x)
    } else {
        seq![x] + s
    }
}

/// The canonical submission order of a whole sequence of views: a stable
/// insertion sort, taking the input left to right. This pins the sorted
/// sequence completely, ties included.
pub open spec fn sort_views(s: Seq<SigView>) -> Seq<SigView>
    decreases s.len(),
{
    if s.len() == 0 {
        Seq::empty()
    } else {
        sig_view_insert(sort_views(s.drop_last()), s.last())
    }
}

/// Inserting lands exactly at the first position whose entry comes
/// strictly after `x`.
proof fn lemma_sig_view_insert_splits(s: Seq<SigView>, x: SigView, p: int)
    requires
        0 <= p <= s.len(),
        forall|i: int| 0 <= i < p ==> sig_view_le(#[trigger] s[i], x),
        p < s.len() ==> !sig_view_le(s[p], x),
    ensures
        sig_view_insert(s, x) == s.take(p) + seq![x] + s.skip(p),
    decreases p,
{
    if p == 0 {
        if s.len() == 0 {
            assert(sig_view_insert(s, x) =~= s.take(0) + seq![x] + s.skip(0));
        } else {
            assert(sig_view_insert(s, x) =~= s.take(0) + seq![x] + s.skip(0));
        }
    } else {
        let t = s.drop_first();
        assert(sig_view_le(s[0], x));
        assert forall|i: int| 0 <= i < p - 1 implies sig_view_le(#[trigger] t[i], x) by {
            assert(t[i] == s[i + 1]);
        }
        lemma_sig_view_insert_splits(t, x, p - 1);
        assert(sig_view_insert(s, x) =~= s.take(p) + seq![x] + s.skip(p));
    }
}

/// Whether a sequence is in canonical submission order.
pub open spec fn sorted_sigs(s: Seq<PeggySignature>) -> bool {
    forall|i: int, j: int| 0 <= i < j < s.len() ==> sig_le(#[trigger] s[i], #[trigger] s[j])
}

/// The submission order is total: any two signatures are comparable.
pub proof fn lemma_sig_order_total(a: PeggySignature, b: PeggySignature)
    ensures
        sig_le(a, b) || sig_le(b, a),
{
}

/// The submission order is transitive.
pub proof fn lemma_sig_order_transitive(a: PeggySignature, b: PeggySignature, c: PeggySignature)
    requires
        sig_le(a, b),
        sig_le(b, c),
    ensures
        sig_le(a, c),
{
}

/// The submission order is antisymmetric in what it compares: two
/// signatures each at or before the other have equal power and equal
/// address bytes.
pub proof fn lemma_sig_order_antisymmetric(a: PeggySignature, b: PeggySignature)
    requires
        a.wf(),
        b.wf(),
        sig_le(a, b),
        sig_le(b, a),
    ensures
        a.power == b.power,
        a.eth_address@ == b.eth_address@,
{
    crate::address::lemma_eth_address_value_injective(a.eth_address, b.eth_address);
}

/// Whether `a` comes at or before `b` in the canonical submission order.
pub fn sig_le_exec(a: &PeggySignature, b: &PeggySignature) -> (r: bool)
    requires
        a.wf(),
        b.wf(),
    ensures
        r == sig_le(*a, *b),
{
    if a.power > b.power {
        true
    } else if a.power == b.power {
        a.eth_address.le(&b.eth_address)
    } else {
        false
    }
}

/// Sorts signatures into the canonical submission order. The sort is
/// stable — entries tied on power and address keep their input order —
/// so the output views are exactly `sort_views` of the input views: two
/// calls on inputs with equal views agree, and sorting an already sorted
/// sequence returns it unchanged, making sorting idempotent.
pub fn sort_signatures(sigs: Vec<PeggySignature>) -> (r: Vec<PeggySignature>)
    requires
        forall|i: int| 0 <= i < sigs@.len() ==> (#[trigger] sigs@[i]).wf(),
    ensures
        r@.len() == sigs@.len(),
        forall|i: int| 0 <= i < r@.len() ==> (#[trigger] r@[i]).wf(),
        sig_views(r@) == sort_views(sig_views(sigs@)),
        sig_views(r@).to_multiset() == sig_views(sigs@).to_multiset(),
        sorted_sigs(r@),
        sorted_sigs(sigs@) ==> r@ == sigs@,
{
    broadcast use to_multiset_build, to_multiset_contains, to_multiset_insert, to_multiset_len;

    let ghost orig = sigs@;
    let ghost vorig = sig_views(sigs@);
    let mut work = sigs;
    let mut out: Vec<PeggySignature> = Vec::new();
    proof {
        assert(orig.skip(0) =~= orig);
        assert(sig_views(out@).to_multiset().add(sig_views(work@).to_multiset()) =~= sig_views(
            orig,
        ).to_multiset());
        assert(orig.take(0) =~= out@);
        assert(vorig.take(0) =~= Seq::<SigView>::empty());
        assert(sig_views(out@) =~= Seq::<SigView>::empty());
    }
    while work.len() > 0
        invariant
            out@.len() + work@.len() == orig.len(),
            work@ == orig.skip(out@.len() as int),
            forall|i: int| 0 <= i < orig.len() ==> (#[trigger] orig[i]).wf(),
            forall|i: int| 0 <= i < out@.len() ==> (#[trigger] out@[i]).wf(),
            sorted_sigs(out@),
            vorig == sig_views(orig),
            sig_views(out@) == sort_views(vorig.take(out@.len() as int)),
            sig_views(out@).to_multiset().add(sig_views(work@).to_multiset()) == sig_views(
                orig,
            ).to_multiset(),
            sorted_sigs(orig) ==> out@ == orig.take(out@.len() as int),
        decreases work@.len(),
    {
        let ghost k = out@.len() as int;
        let ghost old_work = work@;
        let ghost old_out = out@;
        let x = work.remove(0);
        proof {
            assert(x == orig[k]);
            assert(work@ =~= orig.skip(k + 1));
            assert(sig_views(old_work) =~= sig_views(work@).insert(0, x@));
        }
        let mut p: usize = 0;
        loop
            invariant_except_break
                p <= out@.len(),
                out@ == old_out,
                x.wf(),
                forall|i: int| 0 <= i < out@.len() ==> (#[trigger] out@[i]).wf(),
                forall|i: int| 0 <= i < p ==> sig_le(#[trigger] out@[i], x),
            ensures
                p <= out@.len(),
                out@ == old_out,
                forall|i: int| 0 <= i < p ==> sig_le(#[trigger] out@[i], x),
                p < out@.len() ==> !sig_le(out@[p as int], x),
            decreases out@.len() - p,
        {
            if p == out.len() {
                break ;
            }
            if !sig_le_exec(&out[p], &x) {
                break ;
            }
            p += 1;
        }
        proof {
            // Everything at or after the insertion point comes after `x`.
            if p < out@.len() {
                lemma_sig_order_total(out@[p as int], x);
                assert forall|i: int| p <= i < out@.len() implies sig_le(
                    x,
                    #[trigger] out@[i],
                ) by {
                    if i > p {
                        lemma_sig_order_transitive(x, out@[p as int], out@[i]);
                    }
                }
            }
        }
        out.insert(p, x);
        proof {
            assert(out@ == old_out.insert(p as int, x));
            old_out.insert_ensures(p as int, x);
            // the exec insertion point is the spec insertion point
            let vout = sig_views(old_out);
            assert forall|i: int| 0 <= i < p implies sig_view_le(#[trigger] vout[i], x@) by {
                assert(vout[i] == old_out[i]@);
            }
            assert(p < vout.len() ==> !sig_view_le(vout[p as int], x@)) by {
                if (p as int) < vout.len() {
                    assert(vout[p as int] == old_out[p as int]@);
                }
            }
            lemma_sig_view_insert_splits(vout, x@, p as int);
            assert(sig_views(out@) =~= vout.take(p as int) + seq![x@] + vout.skip(p as int));
            assert(vorig.take(k + 1).drop_last() =~= vorig.take(k));
            assert(vorig.take(k + 1).last() == vorig[k]);
            assert(vorig[k] == orig[k]@);
            assert(sig_views(out@) == sort_views(vorig.take(k + 1)));
            assert(sorted_sigs(out@)) by {
                assert forall|i: int, j: int| 0 <= i < j < out@.len() implies sig_le(
                    #[trigger] out@[i],
                    #[trigger] out@[j],
                ) by {
                    if j < p {
                    } else if i < p && j == p {
                        assert(out@[i] == old_out[i]);
                    } else if i < p {
                        assert(out@[i] == old_out[i] && out@[j] == old_out[j - 1]);
                    } else if i == p {
                        assert(out@[j] == old_out[j - 1]);
                    } else {
                        assert(out@[i] == old_out[i - 1] && out@[j] == old_out[j - 1]);
                    }
                }
            }
            // The permutation bookkeeping, at the level of views.
            assert(sig_views(out@) =~= sig_views(old_out).insert(p as int, x@));
            to_multiset_insert(sig_views(old_out), p as int, x@);
            assert(sig_views(out@).to_multiset() =~= sig_views(old_out).to_multiset().insert(x@));
            to_multiset_insert(sig_views(work@), 0, x@);
            assert(sig_views(old_work).to_multiset() =~= sig_views(work@).to_multiset().insert(
                x@,
            ));
            assert(sig_views(out@).to_multiset().add(sig_views(work@).to_multiset()) =~= sig_views(
                orig,
            ).to_multiset());
            // Stability: a sorted input is copied over unchanged.
            if sorted_sigs(orig) {
                assert forall|i: int| 0 <= i < old_out.len() implies sig_le(
                    #[trigger] old_out[i],
                    x,
                ) by {
                    assert(old_out[i] == orig[i]);
                }
                assert(p == old_out.len());
                assert(out@ =~= orig.take(out@.len() as int));
            }
        }
    }
    proof {
        assert(sig_views(work@) =~= Seq::<SigView>::empty());
        assert(sig_views(work@).to_multiset().len() == 0);
        assert(sig_views(out@).to_multiset().add(sig_views(work@).to_multiset()) =~= sig_views(
            out@,
        ).to_multiset());
        assert(vorig.take(out@.len() as int) =~= vorig);
        if sorted_sigs(orig) {
            assert(orig.take(out@.len() as int) =~= orig);
        }
    }
    out
}

/// The view of the signature a confirmation contributes: the signer's
/// member power paired with its address and signature scalars.
pub open spec fn confirm_sig_view(c: ValsetConfirmResponse, ms: Seq<ValsetMember>) -> SigView {
    SigView {
        power: power_lookup(ms, c.eth_address@)->Some_0,
        eth_address: c.eth_address@,
        v: c.eth_signature.v@,
        r: c.eth_signature.r@,
        s: c.eth_signature.s@,
    }
}

impl Valset {
    /// Matches each confirmation against this set and produces the
    /// signatures in canonical submission order. Fails with
    /// `IncompleteValidatorSet` when any member has no address, and with
    /// `UnmatchedSignature` naming the offending address when a
    /// confirmation's signer is not a member; no partial result is
    /// returned.
    pub fn order_valset_sigs(&self, signatures: &Vec<ValsetConfirmResponse>) -> (r: Result<
        Vec<PeggySignature>,
        PeggyError,
    >)
        requires
            self.wf(),
            forall|i: int| 0 <= i < signatures@.len() ==> (#[trigger] signatures@[i]).wf(),
        ensures
            match r {
                Ok(out) => {
                    &&& all_members_addressed(self.members@)
                    &&& forall|i: int|
                        0 <= i < signatures@.len() ==> power_lookup(
                            self.members@,
                            (#[trigger] signatures@[i]).eth_address@,
                        ) is Some
                    &&& out@.len() == signatures@.len()
                    &&& forall|i: int| 0 <= i < out@.len() ==> (#[trigger] out@[i]).wf()
                    &&& sig_views(out@) == sort_views(
                        signatures@.map_values(
                            |c: ValsetConfirmResponse| confirm_sig_view(c, self.members@),
                        ),
                    )
                    &&& sig_views(out@).to_multiset() == signatures@.map_values(
                        |c: ValsetConfirmResponse| confirm_sig_view(c, self.members@),
                    ).to_multiset()
                    &&& sorted_sigs(out@)
                },
                Err(e) => match e {
                    PeggyError::IncompleteValidatorSet => !all_members_addressed(self.members@),
                    PeggyError::UnmatchedSignature(a) => {
                        &&& all_members_addressed(self.members@)
                        &&& power_lookup(self.members@, a@) is None
                        &&& exists|i: int|
                            0 <= i < signatures@.len() && (#[trigger] signatures@[i]).eth_address@
                                == a@ && (forall|j: int|
                                0 <= j < i ==> power_lookup(
                                    self.members@,
                                    (#[trigger] signatures@[j]).eth_address@,
                                ) is Some)
                    },
                    _ => false,
                },
            },
    {
        let matched = self.match_confirmations(signatures)?;
        Ok(sort_signatures(matched))
    }

    /// Matches each confirmation against this set, in input order,
    /// carrying over each signer's power.
    fn match_confirmations(&self, signatures: &Vec<ValsetConfirmResponse>) -> (r: Result<
        Vec<PeggySignature>,
        PeggyError,
    >)
        requires
            self.wf(),
            forall|i: int| 0 <= i < signatures@.len() ==> (#[trigger] signatures@[i]).wf(),
        ensures
            match r {
                Ok(out) => {
                    &&& all_members_addressed(self.members@)
                    &&& forall|i: int|
                        0 <= i < signatures@.len() ==> power_lookup(
                            self.members@,
                            (#[trigger] signatures@[i]).eth_address@,
                        ) is Some
                    &&& out@.len() == signatures@.len()
                    &&& forall|i: int| 0 <= i < out@.len() ==> (#[trigger] out@[i]).wf()
                    &&& sig_views(out@) == signatures@.map_values(
                        |c: ValsetConfirmResponse| confirm_sig_view(c, self.members@),
                    )
                },
                Err(e) => match e {
                    PeggyError::IncompleteValidatorSet => !all_members_addressed(self.members@),
                    PeggyError::UnmatchedSignature(a) => {
                        &&& all_members_addressed(self.members@)
                        &&& power_lookup(self.members@, a@) is None
                        &&& exists|i: int|
                            0 <= i < signatures@.len() && (#[trigger] signatures@[i]).eth_address@
                                == a@ && (forall|j: int|
                                0 <= j < i ==> power_lookup(
                                    self.members@,
                                    (#[trigger] signatures@[j]).eth_address@,
                                ) is Some)
                    },
                    _ => false,
                },
            },
    {
        let n_members = self.members.len();
        let mut m: usize = 0;
        while m < n_members
            invariant
                m <= n_members,
                n_members == self.members@.len(),
                self.wf(),
                forall|j: int| 0 <= j < m ==> (#[trigger] self.members@[j].eth_address) is Some,
            decreases n_members - m,
        {
            if self.members[m].eth_address.is_none() {
                return Err(PeggyError::IncompleteValidatorSet);
            }
            m += 1;
        }
        let mut out: Vec<PeggySignature> = Vec::new();
        let n = signatures.len();
        let mut i: usize = 0;
        while i < n
            invariant
                i <= n,
                n == signatures@.len(),
                self.wf(),
                all_members_addressed(self.members@),
                forall|j: int| 0 <= j < n ==> (#[trigger] signatures@[j]).wf(),
                out@.len() == i,
                forall|j: int| 0 <= j < i ==> (#[trigger] out@[j]).wf(),
                forall|j: int|
                    0 <= j < i ==> power_lookup(
                        self.members@,
                        (#[trigger] signatures@[j]).eth_address@,
                    ) is Some,
                forall|j: int|
                    0 <= j < i ==> (#[trigger] out@[j])@ == confirm_sig_view(
                        signatures@[j],
                        self.members@,
                    ),
            decreases n - i,
        {
            let c = &signatures[i];
            match self.get_power(&c.eth_address) {
                Ok(power) => {
                    out.push(
                        PeggySignature {
                            power,
                            eth_address: c.eth_address.duplicate(),
                            v: c.eth_signature.v.duplicate(),
                            r: c.eth_signature.r.duplicate(),
                            s: c.eth_signature.s.duplicate(),
                        },
                    );
                },
                Err(_) => {
                    return Err(PeggyError::UnmatchedSignature(c.eth_address.duplicate()));
                },
            }
            i += 1;
        }
        proof {
            assert(sig_views(out@) =~= signatures@.map_values(
                |c: ValsetConfirmResponse| confirm_sig_view(c, self.members@),
            ));
        }
        Ok(out)
    }
}

/// The view of the signature a paired batch confirmation contributes.
pub open spec fn pair_sig_view(p: SigWithAddress, ms: Seq<ValsetMember>) -> SigView {
    SigView {
        power: power_lookup(ms, p.eth_address@)->Some_0,
        eth_address: p.eth_address@,
        v: p.eth_signature.v@,
        r: p.eth_signature.r@,
        s: p.eth_signature.s@,
    }
}

/// Matches each paired signature against the set, in input order,
/// carrying over each signer's power.
pub(crate) fn match_sig_pairs(valset: &Valset, signatures: &Vec<SigWithAddress>) -> (r: Result<
    Vec<PeggySignature>,
    PeggyError,
>)
    requires
        valset.wf(),
        forall|i: int| 0 <= i < signatures@.len() ==> (#[trigger] signatures@[i]).wf(),
    ensures
        match r {
            Ok(out) => {
                &&& all_members_addressed(valset.members@)
                &&& forall|i: int|
                    0 <= i < signatures@.len() ==> power_lookup(
                        valset.members@,
                        (#[trigger] signatures@[i]).eth_address@,
                    ) is Some
                &&& out@.len() == signatures@.len()
                &&& forall|i: int| 0 <= i < out@.len() ==> (#[trigger] out@[i]).wf()
                &&& sig_views(out@) == signatures@.map_values(
                    |c: SigWithAddress| pair_sig_view(c, valset.members@),
                )
            },
            Err(e) => match e {
                PeggyError::IncompleteValidatorSet => !all_members_addressed(valset.members@),
                PeggyError::UnmatchedSignature(a) => {
                    &&& all_members_addressed(valset.members@)
                    &&& power_lookup(valset.members@, a@) is None
                    &&& exists|i: int|
                        0 <= i < signatures@.len() && (#[trigger] signatures@[i]).eth_address@
                            == a@ && (forall|j: int|
                            0 <= j < i ==> power_lookup(
                                valset.members@,
                                (#[trigger] signatures@[j]).eth_address@,
                            ) is Some)
                },
                _ => false,
            },
        },
{
    let n_members = valset.members.len();
    let mut m: usize = 0;
    while m < n_members
        invariant
            m <= n_members,
            n_members == valset.members@.len(),
            valset.wf(),
            forall|j: int| 0 <= j < m ==> (#[trigger] valset.members@[j].eth_address) is Some,
        decreases n_members - m,
    {
        if valset.members[m].eth_address.is_none() {
            return Err(PeggyError::IncompleteValidatorSet);
        }
        m += 1;
    }
    let mut out: Vec<PeggySignature> = Vec::new();
    let n = signatures.len();
    let mut i: usize = 0;
    while i < n
        invariant
            i <= n,
            n == signatures@.len(),
            valset.wf(),
            all_members_addressed(valset.members@),
            forall|j: int| 0 <= j < n ==> (#[trigger] signatures@[j]).wf(),
            out@.len() == i,
            forall|j: int| 0 <= j < i ==> (#[trigger] out@[j]).wf(),
            forall|j: int|
                0 <= j < i ==> power_lookup(
                    valset.members@,
                    (#[trigger] signatures@[j]).eth_address@,
                ) is Some,
            forall|j: int|
                0 <= j < i ==> (#[trigger] out@[j])@ == pair_sig_view(
                    signatures@[j],
                    valset.members@,
                ),
        decreases n - i,
    {
        let c = &signatures[i];
        match valset.get_power(&c.eth_address) {
            Ok(power) => {
                out.push(
                    PeggySignature {
                        power,
                        eth_address: c.eth_address.duplicate(),
                        v: c.eth_signature.v.duplicate(),
                        r: c.eth_signature.r.duplicate(),
                        s: c.eth_signature.s.duplicate(),
                    },
                );
            },
            Err(_) => {
                return Err(PeggyError::UnmatchedSignature(c.eth_address.duplicate()));
            },
        }
        i += 1;
    }
    proof {
        assert(sig_views(out@) =~= signatures@.map_values(
            |c: SigWithAddress| pair_sig_view(c, valset.members@),
        ));
    }
    Ok(out)
}

/// Signatures in the parallel array formats the bridge contract takes:
/// addresses, powers, and the `v`, `r`, `s` components positionally
/// aligned, `r` and `s` as fixed-width 32-byte big-endian strings.
pub struct PeggySignatureArrays {
    pub addresses: Vec<EthAddress>,
    pub powers: Vec<u64>,
    pub v: Vec<Uint256>,
    pub r: Vec<Vec<u8>>,
    pub s: Vec<Vec<u8>>,
}

/// Converts ordered signatures into the parallel arrays submitted to the
/// bridge contract, preserving their order; `r` and `s` become fixed
/// 32-byte big-endian strings so the verifier can index them positionally
/// against the address and power arrays.
pub fn to_arrays(input: Vec<PeggySignature>) -> (r: PeggySignatureArrays)
    requires
        forall|i: int| 0 <= i < input@.len() ==> (#[trigger] input@[i]).wf(),
    ensures
        r.addresses@.len() == input@.len(),
        r.powers@.len() == input@.len(),
        r.v@.len() == input@.len(),
        r.r@.len() == input@.len(),
        r.s@.len() == input@.len(),
        forall|i: int|
            0 <= i < input@.len() ==> (#[trigger] r.addresses@[i])@ == input@[i].eth_address@,
        forall|i: int| 0 <= i < input@.len() ==> #[trigger] r.powers@[i] == input@[i].power,
        forall|i: int| 0 <= i < input@.len() ==> (#[trigger] r.v@[i])@ == input@[i].v@,
        forall|i: int|
            0 <= i < input@.len() ==> (#[trigger] r.r@[i])@ == input@[i].r.bytes@ && r.r@[i]@.len()
                == 32,
        forall|i: int|
            0 <= i < input@.len() ==> (#[trigger] r.s@[i])@ == input@[i].s.bytes@ && r.s@[i]@.len()
                == 32,
{
    let ghost orig = input@;
    let mut work = input;
    let mut addresses: Vec<EthAddress> = Vec::new();
    let mut powers: Vec<u64> = Vec::new();
    let mut v: Vec<Uint256> = Vec::new();
    let mut rs: Vec<Vec<u8>> = Vec::new();
    let mut ss: Vec<Vec<u8>> = Vec::new();
    proof {
        assert(orig.skip(0) =~= orig);
    }
    while work.len() > 0
        invariant
            addresses@.len() + work@.len() == orig.len(),
            work@ == orig.skip(addresses@.len() as int),
            forall|i: int| 0 <= i < orig.len() ==> (#[trigger] orig[i]).wf(),
            powers@.len() == addresses@.len(),
            v@.len() == addresses@.len(),
            rs@.len() == addresses@.len(),
            ss@.len() == addresses@.len(),
            forall|i: int|
                0 <= i < addresses@.len() ==> (#[trigger] addresses@[i])@ == orig[i].eth_address@,
            forall|i: int| 0 <= i < powers@.len() ==> #[trigger] powers@[i] == orig[i].power,
            forall|i: int| 0 <= i < v@.len() ==> (#[trigger] v@[i])@ == orig[i].v@,
            forall|i: int|
                0 <= i < rs@.len() ==> (#[trigger] rs@[i])@ == orig[i].r.bytes@ && rs@[i]@.len()
                    == 32,
            forall|i: int|
                0 <= i < ss@.len() ==> (#[trigger] ss@[i])@ == orig[i].s.bytes@ && ss@[i]@.len()
                    == 32,
        decreases work@.len(),
    {
        let ghost k = addresses@.len() as int;
        let x = work.remove(0);
        proof {
            assert(x == orig[k]);
            assert(work@ =~= orig.skip(k + 1));
        }
        let PeggySignature { power, eth_address, v: xv, r: xr, s: xs } = x;
        addresses.push(eth_address);
        powers.push(power);
        v.push(xv);
        rs.push(xr.bytes);
        ss.push(xs.bytes);
    }
    PeggySignatureArrays { addresses, powers, v, r: rs, s: ss }
}

} // verus!
