//! Checkpoint encoding: the exact ABI tuple byte sequences that
//! validators sign and the bridge contract re-derives for verification.
//! Fixed 32-byte string slots, 32-byte big-endian integer words, dynamic
//! arrays as an offset word in the head and a length-prefixed tail. Two
//! logically equal inputs always encode to identical bytes, and the
//! injectivity lemmas below show that any change to a field changes the
//! bytes.

use crate::address::EthAddress;
use crate::batch::{BatchTransaction, TransactionBatch};
use crate::bigendian::{
    be_bytes_of, be_bytes_u64, be_val, lemma_be_bytes_of_len, lemma_be_bytes_of_val,
    lemma_be_val_bound, lemma_be_val_injective, lemma_u64_fits_32_bytes, zeros,
};
use crate::uint256::Uint256;
use crate::valset::{member_slot_address, Valset, ValsetMember};
use vstd::arithmetic::power::pow;
use vstd::prelude::*;

verus! {

/// The Keccak-256 digest of a byte sequence, as the outside hasher
/// computes it.
pub uninterp spec fn keccak256_of(s: Seq<u8>) -> Seq<u8>;

/// Relies on clarity::abi::get_hash: the Keccak-256 digest of the input
/// bytes, exactly 32 bytes, a function of those bytes alone.
#[verifier::external_body]
fn keccak256(b: &Vec<u8>) -> (r: Vec<u8>)
    ensures
        r@ == keccak256_of(b@),
        r@.len() == 32,
{
    clarity::abi::get_hash(b.as_slice()).to_vec()
}

/// A 32-byte word holding `v` big-endian.
pub open spec fn abi_word(v: nat) -> Seq<u8> {
    be_bytes_of(v, 32)
}

/// A 32-byte word holding a 20-byte address, left-padded with zeros.
pub open spec fn abi_address_word(a: Seq<u8>) -> Seq<u8> {
    zeros(12) + a
}

/// A fixed 32-byte string slot: the bytes, right-padded with zeros.
pub open spec fn abi_fixed_string(s: Seq<u8>) -> Seq<u8> {
    s + zeros((32 - s.len()) as nat)
}

/// The concatenation of a sequence of words.
pub open spec fn words_concat(ws: Seq<Seq<u8>>) -> Seq<u8>
    decreases ws.len(),
{
    if ws.len() == 0 {
        Seq::empty()
    } else {
        words_concat(ws.drop_last()) + ws.last()
    }
}

/// The encoded tail of an array of 32-byte integer words.
pub open spec fn value_words(vs: Seq<nat>) -> Seq<u8> {
    words_concat(vs.map_values(|v: nat| abi_word(v)))
}

/// The encoded tail of an array of address words.
pub open spec fn address_words(addrs: Seq<Seq<u8>>) -> Seq<u8> {
    words_concat(addrs.map_values(|a: Seq<u8>| abi_address_word(a)))
}

/// The encoded tail of an array of power words.
pub open spec fn u64_words(ps: Seq<u64>) -> Seq<u8> {
    words_concat(ps.map_values(|p: u64| abi_word(p as nat)))
}

/// The tag naming a validator-set checkpoint: the ASCII bytes of
/// `checkpoint`.
pub open spec fn valset_tag() -> Seq<u8> {
    seq![99u8, 104u8, 101u8, 99u8, 107u8, 112u8, 111u8, 105u8, 110u8, 116u8]
}

/// The tag naming a batch checkpoint: the ASCII bytes of
/// `valsetAndTransactionBatch`.
pub open spec fn batch_tag() -> Seq<u8> {
    seq![
        118u8, 97u8, 108u8, 115u8, 101u8, 116u8, 65u8, 110u8, 100u8, 84u8, 114u8, 97u8, 110u8, 115u8, 97u8,
        99u8, 116u8, 105u8, 111u8, 110u8, 66u8, 97u8, 116u8, 99u8, 104u8,
    ]
}

/// The addresses a validator set contributes to its checkpoint, member
/// by member, the all-zero address standing for an unregistered one.
pub open spec fn member_slot_addresses(ms: Seq<ValsetMember>) -> Seq<Seq<u8>> {
    ms.map_values(|m: ValsetMember| member_slot_address(m))
}

/// The powers of a validator set, member by member.
pub open spec fn member_powers(ms: Seq<ValsetMember>) -> Seq<u64> {
    ms.map_values(|m: ValsetMember| m.power)
}

/// The ABI tuple encoding of a validator-set checkpoint: the domain
/// string, the tag `checkpoint`, the set nonce, then the address and
/// power arrays (their offset words in the head, their length-prefixed
/// tails behind).
pub open spec fn valset_checkpoint_bytes(
    peggy_id: Seq<u8>,
    valset_nonce: u64,
    addrs: Seq<Seq<u8>>,
    powers: Seq<u64>,
) -> Seq<u8> {
    abi_fixed_string(peggy_id) + abi_fixed_string(valset_tag()) + abi_word(valset_nonce as nat)
        + abi_word(160) + abi_word(192 + 32 * addrs.len()) + abi_word(addrs.len())
        + address_words(addrs) + abi_word(powers.len()) + u64_words(powers)
}

/// The ABI tuple encoding of a batch checkpoint: the domain string, the
/// tag `valsetAndTransactionBatch`, the digest of the associated
/// validator-set checkpoint, the amount, destination and fee arrays, the
/// batch nonce and the shared token contract. Binding the digest rather
/// than the raw valset bytes ties the batch to exactly one validator
/// set.
pub open spec fn batch_checkpoint_bytes(
    peggy_id: Seq<u8>,
    valset_digest: Seq<u8>,
    amounts: Seq<nat>,
    destinations: Seq<Seq<u8>>,
    fees: Seq<nat>,
    batch_nonce: u64,
    token_contract: Seq<u8>,
) -> Seq<u8> {
    abi_fixed_string(peggy_id) + abi_fixed_string(batch_tag()) + valset_digest + abi_word(256)
        + abi_word(288 + 32 * amounts.len()) + abi_word(320 + 64 * amounts.len()) + abi_word(
        batch_nonce as nat,
    ) + abi_address_word(token_contract) + abi_word(amounts.len()) + value_words(amounts)
        + abi_word(destinations.len()) + address_words(destinations) + abi_word(fees.len())
        + value_words(fees)
}

/// The amounts of a batch's transfers, in order.
pub open spec fn tx_amounts(txs: Seq<BatchTransaction>) -> Seq<nat> {
    txs.map_values(|t: BatchTransaction| t.erc20_token.amount@)
}

/// The destinations of a batch's transfers, in order.
pub open spec fn tx_destinations(txs: Seq<BatchTransaction>) -> Seq<Seq<u8>> {
    txs.map_values(|t: BatchTransaction| t.destination@)
}

/// The fees of a batch's transfers, in order.
pub open spec fn tx_fees(txs: Seq<BatchTransaction>) -> Seq<nat> {
    txs.map_values(|t: BatchTransaction| t.erc20_fee.amount@)
}

/// Encoding a 32-byte string back from its value is the identity.
proof fn lemma_be_bytes_of_be_val(s: Seq<u8>)
    ensures
        be_bytes_of(be_val(s), s.len()) == s,
{
    lemma_be_val_bound(s);
    lemma_be_bytes_of_val(be_val(s), s.len());
    lemma_be_bytes_of_len(be_val(s), s.len());
    lemma_be_val_injective(be_bytes_of(be_val(s), s.len()), s);
}

/// Appends the bytes of `b`.
fn push_bytes(out: &mut Vec<u8>, b: &Vec<u8>)
    ensures
        final(out)@ == old(out)@ + b@,
{
    let n = b.len();
    let mut i: usize = 0;
    proof {
        assert(out@ =~= out@ + b@.take(0));
    }
    while i < n
        invariant
            i <= n,
            n == b@.len(),
            out@ == old(out)@ + b@.take(i as int),
        decreases n - i,
    {
        out.push(b[i]);
        proof {
            assert(old(out)@ + b@.take(i + 1) =~= (old(out)@ + b@.take(i as int)).push(
                b@[i as int],
            ));
        }
        i += 1;
    }
    proof {
        assert(b@.take(n as int) =~= b@);
    }
}

/// Appends `count` zero bytes.
fn push_zeros(out: &mut Vec<u8>, count: usize)
    ensures
        final(out)@ == old(out)@ + zeros(count as nat),
{
    let mut i: usize = 0;
    proof {
        assert(out@ =~= out@ + zeros(0));
    }
    while i < count
        invariant
            i <= count,
            out@ == old(out)@ + zeros(i as nat),
        decreases count - i,
    {
        out.push(0u8);
        proof {
            assert(old(out)@ + zeros((i + 1) as nat) =~= (old(out)@ + zeros(i as nat)).push(0u8));
        }
        i += 1;
    }
}

/// Appends the 32-byte big-endian word of a `u64`.
fn push_word_u64(out: &mut Vec<u8>, x: u64)
    ensures
        final(out)@ == old(out)@ + abi_word(x as nat),
{
    let mut w = be_bytes_u64(x, 32);
    out.append(&mut w);
}

/// Appends the 32-byte word of a 256-bit amount.
fn push_word_value(out: &mut Vec<u8>, u: &Uint256)
    requires
        u.wf(),
    ensures
        final(out)@ == old(out)@ + abi_word(u@),
{
    proof {
        lemma_be_bytes_of_be_val(u.bytes@);
    }
    push_bytes(out, &u.bytes);
}

/// Appends the 32-byte word of an address.
fn push_address_word(out: &mut Vec<u8>, a: &EthAddress)
    requires
        a.wf(),
    ensures
        final(out)@ == old(out)@ + abi_address_word(a@),
{
    let ghost entry = out@;
    push_zeros(out, 12);
    push_bytes(out, &a.bytes);
    proof {
        assert(out@ =~= entry + abi_address_word(a@));
    }
}

/// Appends a fixed 32-byte string slot.
fn push_fixed_string(out: &mut Vec<u8>, s: &Vec<u8>)
    requires
        s@.len() <= 32,
    ensures
        final(out)@ == old(out)@ + abi_fixed_string(s@),
{
    let ghost entry = out@;
    push_bytes(out, s);
    push_zeros(out, 32 - s.len());
    proof {
        assert(out@ =~= entry + abi_fixed_string(s@));
    }
}

/// The ASCII bytes of the validator-set checkpoint tag.
fn valset_tag_vec() -> (r: Vec<u8>)
    ensures
        r@ == valset_tag(),
{
    let mut v: Vec<u8> = Vec::new();
    v.push(99u8);
    v.push(104u8);
    v.push(101u8);
    v.push(99u8);
    v.push(107u8);
    v.push(112u8);
    v.push(111u8);
    v.push(105u8);
    v.push(110u8);
    v.push(116u8);
    proof {
        assert(v@ =~= valset_tag());
    }
    v
}

/// The ASCII bytes of the batch checkpoint tag.
fn batch_tag_vec() -> (r: Vec<u8>)
    ensures
        r@ == batch_tag(),
{
    let mut v: Vec<u8> = Vec::new();
    v.push(118u8);
    v.push(97u8);
    v.push(108u8);
    v.push(115u8);
    v.push(101u8);
    v.push(116u8);
    v.push(65u8);
    v.push(110u8);
    v.push(100u8);
    v.push(84u8);
    v.push(114u8);
    v.push(97u8);
    v.push(110u8);
    v.push(115u8);
    v.push(97u8);
    v.push(99u8);
    v.push(116u8);
    v.push(105u8);
    v.push(111u8);
    v.push(110u8);
    v.push(66u8);
    v.push(97u8);
    v.push(116u8);
    v.push(99u8);
    v.push(104u8);
    proof {
        assert(v@ =~= batch_tag());
    }
    v
}

/// Encodes the checkpoint of a validator set: the byte sequence each
/// validator signs to confirm the set. Pure and deterministic — the same
/// domain string and set always produce the same bytes.
pub fn encode_valset_confirm(peggy_id: &Vec<u8>, valset: &Valset) -> (r: Vec<u8>)
    requires
        peggy_id@.len() <= 32,
        valset.wf(),
        valset.members@.len() <= 0x1000_0000,
    ensures
        r@ == valset_checkpoint_bytes(
            peggy_id@,
            valset.nonce,
            member_slot_addresses(valset.members@),
            member_powers(valset.members@),
        ),
{
    let (addresses, powers) = valset.filter_empty_addresses();
    let ghost addr_views = member_slot_addresses(valset.members@);
    let ghost power_views = member_powers(valset.members@);
    let n = addresses.len();
    let mut out: Vec<u8> = Vec::new();
    push_fixed_string(&mut out, peggy_id);
    let tag = valset_tag_vec();
    push_fixed_string(&mut out, &tag);
    push_word_u64(&mut out, valset.nonce);
    push_word_u64(&mut out, 160);
    push_word_u64(&mut out, 192 + 32 * (n as u64));
    push_word_u64(&mut out, n as u64);
    proof {
        assert(32 * (addr_views.len() as u64) == 32 * addr_views.len());
    }
    let ghost base = out@;
    let ghost addr_ws = addr_views.map_values(|a: Seq<u8>| abi_address_word(a));
    let mut i: usize = 0;
    proof {
        assert(out@ =~= base + words_concat(addr_ws.take(0)));
    }
    while i < n
        invariant
            i <= n,
            n == addresses@.len(),
            n == addr_views.len(),
            addr_ws == addr_views.map_values(|a: Seq<u8>| abi_address_word(a)),
            forall|j: int|
                0 <= j < n ==> (#[trigger] addresses@[j]).wf() && addresses@[j]@ == addr_views[j],
            out@ == base + words_concat(addr_ws.take(i as int)),
        decreases n - i,
    {
        push_address_word(&mut out, &addresses[i]);
        proof {
            assert(addr_ws.take(i + 1).drop_last() =~= addr_ws.take(i as int));
            assert(addr_ws.take(i + 1).last() == addr_ws[i as int]);
            assert(abi_address_word(addresses@[i as int]@) == addr_ws[i as int]);
            assert(out@ =~= base + words_concat(addr_ws.take(i + 1)));
        }
        i += 1;
    }
    proof {
        assert(addr_ws.take(n as int) =~= addr_ws);
        assert(out@ == base + address_words(addr_views));
    }
    push_word_u64(&mut out, n as u64);
    let ghost base2 = out@;
    let ghost power_ws = power_views.map_values(|p: u64| abi_word(p as nat));
    let mut k: usize = 0;
    proof {
        assert(out@ =~= base2 + words_concat(power_ws.take(0)));
    }
    while k < n
        invariant
            k <= n,
            n == powers@.len(),
            n == power_views.len(),
            power_ws == power_views.map_values(|p: u64| abi_word(p as nat)),
            forall|j: int| 0 <= j < n ==> #[trigger] powers@[j] == power_views[j],
            out@ == base2 + words_concat(power_ws.take(k as int)),
        decreases n - k,
    {
        push_word_u64(&mut out, powers[k]);
        proof {
            assert(power_ws.take(k + 1).drop_last() =~= power_ws.take(k as int));
            assert(power_ws.take(k + 1).last() == power_ws[k as int]);
            assert(abi_word(powers@[k as int] as nat) == power_ws[k as int]);
            assert(out@ =~= base2 + words_concat(power_ws.take(k + 1)));
        }
        k += 1;
    }
    proof {
        assert(power_ws.take(n as int) =~= power_ws);
        assert(out@ == base2 + u64_words(power_views));
        assert(powers@.len() == power_views.len());
    }
    out
}

/// The Keccak-256 digest of a validator set's checkpoint: what the batch
/// checkpoint embeds to bind itself to that set.
pub fn valset_checkpoint_digest(peggy_id: &Vec<u8>, valset: &Valset) -> (r: Vec<u8>)
    requires
        peggy_id@.len() <= 32,
        valset.wf(),
        valset.members@.len() <= 0x1000_0000,
    ensures
        r@ == keccak256_of(
            valset_checkpoint_bytes(
                peggy_id@,
                valset.nonce,
                member_slot_addresses(valset.members@),
                member_powers(valset.members@),
            ),
        ),
        r@.len() == 32,
{
    let encoded = encode_valset_confirm(peggy_id, valset);
    keccak256(&encoded)
}

/// Encodes the checkpoint of a transaction batch: the byte sequence each
/// validator signs to confirm the batch. Any change to any array
/// element, the nonce, or the domain string produces different bytes and
/// invalidates prior signatures.
pub fn encode_tx_batch_confirm(peggy_id: &Vec<u8>, batch: &TransactionBatch) -> (r: Vec<u8>)
    requires
        peggy_id@.len() <= 32,
        batch.wf(),
        batch.valset.members@.len() <= 0x1000_0000,
        batch.transactions@.len() <= 0x1000_0000,
    ensures
        r@ == batch_checkpoint_bytes(
            peggy_id@,
            keccak256_of(
                valset_checkpoint_bytes(
                    peggy_id@,
                    batch.valset.nonce,
                    member_slot_addresses(batch.valset.members@),
                    member_powers(batch.valset.members@),
                ),
            ),
            tx_amounts(batch.transactions@),
            tx_destinations(batch.transactions@),
            tx_fees(batch.transactions@),
            batch.nonce,
            batch.token_contract@,
        ),
{
    let digest = valset_checkpoint_digest(peggy_id, &batch.valset);
    let (amounts, destinations, fees) = batch.get_checkpoint_values();
    let ghost amount_views = tx_amounts(batch.transactions@);
    let ghost dest_views = tx_destinations(batch.transactions@);
    let ghost fee_views = tx_fees(batch.transactions@);
    let n = amounts.len();
    let mut out: Vec<u8> = Vec::new();
    push_fixed_string(&mut out, peggy_id);
    let tag = batch_tag_vec();
    push_fixed_string(&mut out, &tag);
    push_bytes(&mut out, &digest);
    push_word_u64(&mut out, 256);
    push_word_u64(&mut out, 288 + 32 * (n as u64));
    push_word_u64(&mut out, 320 + 64 * (n as u64));
    push_word_u64(&mut out, batch.nonce);
    push_address_word(&mut out, &batch.token_contract);
    proof {
        assert(32 * (amount_views.len() as u64) == 32 * amount_views.len());
        assert(64 * (amount_views.len() as u64) == 64 * amount_views.len());
    }
    // amounts
    push_word_u64(&mut out, n as u64);
    let ghost base_a = out@;
    let ghost amount_ws = amount_views.map_values(|v: nat| abi_word(v));
    let mut i: usize = 0;
    proof {
        assert(out@ =~= base_a + words_concat(amount_ws.take(0)));
    }
    while i < n
        invariant
            i <= n,
            n == amounts@.len(),
            n == amount_views.len(),
            amount_ws == amount_views.map_values(|v: nat| abi_word(v)),
            forall|j: int|
                0 <= j < n ==> (#[trigger] amounts@[j]).wf() && abi_word(amounts@[j]@)
                    == amount_ws[j],
            out@ == base_a + words_concat(amount_ws.take(i as int)),
        decreases n - i,
    {
        push_word_value(&mut out, &amounts[i]);
        proof {
            assert(amount_ws.take(i + 1).drop_last() =~= amount_ws.take(i as int));
            assert(amount_ws.take(i + 1).last() == amount_ws[i as int]);
            assert(out@ =~= base_a + words_concat(amount_ws.take(i + 1)));
        }
        i += 1;
    }
    proof {
        assert(amount_ws.take(n as int) =~= amount_ws);
        assert(out@ == base_a + value_words(amount_views));
    }
    // destinations
    push_word_u64(&mut out, n as u64);
    let ghost base_d = out@;
    let ghost dest_ws = dest_views.map_values(|a: Seq<u8>| abi_address_word(a));
    let mut k: usize = 0;
    proof {
        assert(out@ =~= base_d + words_concat(dest_ws.take(0)));
        assert(dest_views.len() == n);
    }
    while k < n
        invariant
            k <= n,
            n == destinations@.len(),
            n == dest_views.len(),
            dest_ws == dest_views.map_values(|a: Seq<u8>| abi_address_word(a)),
            forall|j: int|
                0 <= j < n ==> (#[trigger] destinations@[j]).wf() && destinations@[j]@
                    == dest_views[j],
            out@ == base_d + words_concat(dest_ws.take(k as int)),
        decreases n - k,
    {
        push_address_word(&mut out, &destinations[k]);
        proof {
            assert(dest_ws.take(k + 1).drop_last() =~= dest_ws.take(k as int));
            assert(dest_ws.take(k + 1).last() == dest_ws[k as int]);
            assert(abi_address_word(destinations@[k as int]@) == dest_ws[k as int]);
            assert(out@ =~= base_d + words_concat(dest_ws.take(k + 1)));
        }
        k += 1;
    }
    proof {
        assert(dest_ws.take(n as int) =~= dest_ws);
        assert(out@ == base_d + address_words(dest_views));
        assert(dest_views.len() == n);
    }
    // fees
    push_word_u64(&mut out, n as u64);
    let ghost base_f = out@;
    let ghost fee_ws = fee_views.map_values(|v: nat| abi_word(v));
    let mut m: usize = 0;
    proof {
        assert(out@ =~= base_f + words_concat(fee_ws.take(0)));
        assert(fee_views.len() == n);
    }
    while m < n
        invariant
            m <= n,
            n == fees@.len(),
            n == fee_views.len(),
            fee_ws == fee_views.map_values(|v: nat| abi_word(v)),
            forall|j: int|
                0 <= j < n ==> (#[trigger] fees@[j]).wf() && abi_word(fees@[j]@) == fee_ws[j],
            out@ == base_f + words_concat(fee_ws.take(m as int)),
        decreases n - m,
    {
        push_word_value(&mut out, &fees[m]);
        proof {
            assert(fee_ws.take(m + 1).drop_last() =~= fee_ws.take(m as int));
            assert(fee_ws.take(m + 1).last() == fee_ws[m as int]);
            assert(out@ =~= base_f + words_concat(fee_ws.take(m + 1)));
        }
        m += 1;
    }
    proof {
        assert(fee_ws.take(n as int) =~= fee_ws);
        assert(out@ == base_f + value_words(fee_views));
        assert(fee_views.len() == n);
    }
    out
}

/// Splitting equal concatenations at one known length is unambiguous.
proof fn lemma_concat_parts(x1: Seq<u8>, y1: Seq<u8>, x2: Seq<u8>, y2: Seq<u8>)
    requires
        x1.len() == x2.len(),
        x1 + y1 == x2 + y2,
    ensures
        x1 == x2,
        y1 == y2,
{
    assert forall|i: int| 0 <= i < x1.len() implies x1[i] == x2[i] by {
        assert((x1 + y1)[i] == x1[i]);
        assert((x2 + y2)[i] == x2[i]);
    }
    assert(x1 =~= x2);
    assert((x1 + y1).len() == x1.len() + y1.len());
    assert((x2 + y2).len() == x2.len() + y2.len());
    assert(y1.len() == y2.len());
    assert forall|i: int| 0 <= i < y1.len() implies y1[i] == y2[i] by {
        assert((x1 + y1)[x1.len() + i] == y1[i]);
        assert((x2 + y2)[x2.len() + i] == y2[i]);
    }
    assert(y1 =~= y2);
}

/// A concatenation of 32-byte words is 32 bytes per word.
proof fn lemma_words_concat_len(ws: Seq<Seq<u8>>)
    requires
        forall|i: int| 0 <= i < ws.len() ==> (#[trigger] ws[i]).len() == 32,
    ensures
        words_concat(ws).len() == 32 * ws.len(),
    decreases ws.len(),
{
    if ws.len() > 0 {
        lemma_words_concat_len(ws.drop_last());
    }
}

/// Concatenating 32-byte words is injective.
proof fn lemma_words_concat_injective(ws1: Seq<Seq<u8>>, ws2: Seq<Seq<u8>>)
    requires
        ws1.len() == ws2.len(),
        forall|i: int| 0 <= i < ws1.len() ==> (#[trigger] ws1[i]).len() == 32,
        forall|i: int| 0 <= i < ws2.len() ==> (#[trigger] ws2[i]).len() == 32,
        words_concat(ws1) == words_concat(ws2),
    ensures
        ws1 == ws2,
    decreases ws1.len(),
{
    if ws1.len() == 0 {
        assert(ws1 =~= ws2);
    } else {
        lemma_words_concat_len(ws1.drop_last());
        lemma_words_concat_len(ws2.drop_last());
        lemma_concat_parts(
            words_concat(ws1.drop_last()),
            ws1.last(),
            words_concat(ws2.drop_last()),
            ws2.last(),
        );
        lemma_words_concat_injective(ws1.drop_last(), ws2.drop_last());
        assert forall|i: int| 0 <= i < ws1.len() implies ws1[i] == ws2[i] by {
            if i < ws1.len() - 1 {
                assert(ws1.drop_last()[i] == ws2.drop_last()[i]);
            } else {
                assert(ws1.last() == ws2.last());
            }
        }
        assert(ws1 =~= ws2);
    }
}

/// A 32-byte integer word determines its value.
proof fn lemma_abi_word_injective(v1: nat, v2: nat)
    requires
        v1 < pow(256, 32),
        v2 < pow(256, 32),
        abi_word(v1) == abi_word(v2),
    ensures
        v1 == v2,
{
    lemma_be_bytes_of_val(v1, 32);
    lemma_be_bytes_of_val(v2, 32);
}

/// Where each field of a validator-set checkpoint sits in its encoding.
proof fn lemma_valset_checkpoint_parts(
    id: Seq<u8>,
    nonce: u64,
    a: Seq<Seq<u8>>,
    p: Seq<u64>,
)
    requires
        id.len() == 32,
        a.len() == p.len(),
        forall|i: int| 0 <= i < a.len() ==> (#[trigger] a[i]).len() == 20,
    ensures
        ({
            let e = valset_checkpoint_bytes(id, nonce, a, p);
            let n = a.len() as int;
            &&& e.len() == 224 + 64 * n
            &&& e.subrange(0, 32) == id
            &&& e.subrange(64, 96) == abi_word(nonce as nat)
            &&& e.subrange(160, 192) == abi_word(a.len())
            &&& e.subrange(192, 192 + 32 * n) == address_words(a)
            &&& e.subrange(224 + 32 * n, 224 + 64 * n) == u64_words(p)
        }),
{
    let e = valset_checkpoint_bytes(id, nonce, a, p);
    let n = a.len() as int;
    let aws = a.map_values(|x: Seq<u8>| abi_address_word(x));
    let pws = p.map_values(|q: u64| abi_word(q as nat));
    assert forall|i: int| 0 <= i < aws.len() implies (#[trigger] aws[i]).len() == 32 by {
        assert(aws[i] == abi_address_word(a[i]));
    }
    assert forall|i: int| 0 <= i < pws.len() implies (#[trigger] pws[i]).len() == 32 by {
        lemma_be_bytes_of_len(p[i] as nat, 32);
        assert(pws[i] == abi_word(p[i] as nat));
    }
    lemma_words_concat_len(aws);
    lemma_words_concat_len(pws);
    lemma_be_bytes_of_len(nonce as nat, 32);
    lemma_be_bytes_of_len(160, 32);
    lemma_be_bytes_of_len(192 + 32 * a.len(), 32);
    lemma_be_bytes_of_len(a.len(), 32);
    lemma_be_bytes_of_len(p.len(), 32);
    assert(abi_fixed_string(id).len() == 32);
    assert(e.len() == 224 + 64 * n);
    assert(abi_fixed_string(id) =~= id);
    assert(e.subrange(0, 32) =~= abi_fixed_string(id));
    assert(e.subrange(64, 96) =~= abi_word(nonce as nat));
    assert(e.subrange(160, 192) =~= abi_word(a.len()));
    assert(e.subrange(192, 192 + 32 * n) =~= address_words(a));
    assert(e.subrange(224 + 32 * n, 224 + 64 * n) =~= u64_words(p));
}

/// Checkpoint encoding is injective: two validator-set checkpoints with
/// the same bytes have the same domain string, nonce, addresses and
/// powers — changing any one field changes the encoded bytes.
pub proof fn lemma_valset_checkpoint_injective(
    id1: Seq<u8>,
    nonce1: u64,
    a1: Seq<Seq<u8>>,
    p1: Seq<u64>,
    id2: Seq<u8>,
    nonce2: u64,
    a2: Seq<Seq<u8>>,
    p2: Seq<u64>,
)
    requires
        id1.len() == 32,
        id2.len() == 32,
        a1.len() == p1.len(),
        a2.len() == p2.len(),
        a1.len() < pow(256, 32),
        a2.len() < pow(256, 32),
        forall|i: int| 0 <= i < a1.len() ==> (#[trigger] a1[i]).len() == 20,
        forall|i: int| 0 <= i < a2.len() ==> (#[trigger] a2[i]).len() == 20,
        valset_checkpoint_bytes(id1, nonce1, a1, p1) == valset_checkpoint_bytes(
            id2,
            nonce2,
            a2,
            p2,
        ),
    ensures
        id1 == id2,
        nonce1 == nonce2,
        a1 == a2,
        p1 == p2,
{
    lemma_valset_checkpoint_parts(id1, nonce1, a1, p1);
    lemma_valset_checkpoint_parts(id2, nonce2, a2, p2);
    let e = valset_checkpoint_bytes(id1, nonce1, a1, p1);
    assert(a1.len() == a2.len());
    let n = a1.len() as int;
    assert(abi_word(nonce1 as nat) == e.subrange(64, 96));
    lemma_u64_fits_32_bytes(nonce1);
    lemma_u64_fits_32_bytes(nonce2);
    lemma_abi_word_injective(nonce1 as nat, nonce2 as nat);
    let aws1 = a1.map_values(|x: Seq<u8>| abi_address_word(x));
    let aws2 = a2.map_values(|x: Seq<u8>| abi_address_word(x));
    assert forall|i: int| 0 <= i < aws1.len() implies (#[trigger] aws1[i]).len() == 32 by {
        assert(aws1[i] == abi_address_word(a1[i]));
    }
    assert forall|i: int| 0 <= i < aws2.len() implies (#[trigger] aws2[i]).len() == 32 by {
        assert(aws2[i] == abi_address_word(a2[i]));
    }
    assert(words_concat(aws1) == e.subrange(192, 192 + 32 * n));
    lemma_words_concat_injective(aws1, aws2);
    assert forall|i: int| 0 <= i < a1.len() implies a1[i] == a2[i] by {
        assert(aws1[i] == abi_address_word(a1[i]));
        assert(aws2[i] == abi_address_word(a2[i]));
        lemma_concat_parts(zeros(12), a1[i], zeros(12), a2[i]);
    }
    assert(a1 =~= a2);
    let pws1 = p1.map_values(|q: u64| abi_word(q as nat));
    let pws2 = p2.map_values(|q: u64| abi_word(q as nat));
    assert forall|i: int| 0 <= i < pws1.len() implies (#[trigger] pws1[i]).len() == 32 by {
        lemma_be_bytes_of_len(p1[i] as nat, 32);
        assert(pws1[i] == abi_word(p1[i] as nat));
    }
    assert forall|i: int| 0 <= i < pws2.len() implies (#[trigger] pws2[i]).len() == 32 by {
        lemma_be_bytes_of_len(p2[i] as nat, 32);
        assert(pws2[i] == abi_word(p2[i] as nat));
    }
    assert(words_concat(pws1) == e.subrange(224 + 32 * n, 224 + 64 * n));
    lemma_words_concat_injective(pws1, pws2);
    assert forall|i: int| 0 <= i < p1.len() implies p1[i] == p2[i] by {
        assert(pws1[i] == abi_word(p1[i] as nat));
        assert(pws2[i] == abi_word(p2[i] as nat));
        lemma_u64_fits_32_bytes(p1[i]);
        lemma_u64_fits_32_bytes(p2[i]);
        lemma_abi_word_injective(p1[i] as nat, p2[i] as nat);
    }
    assert(p1 =~= p2);
}

/// Where each field of a batch checkpoint sits in its encoding.
proof fn lemma_batch_checkpoint_parts(
    id: Seq<u8>,
    digest: Seq<u8>,
    amounts: Seq<nat>,
    dests: Seq<Seq<u8>>,
    fees: Seq<nat>,
    nonce: u64,
    token: Seq<u8>,
)
    requires
        id.len() == 32,
        digest.len() == 32,
        token.len() == 20,
        dests.len() == amounts.len(),
        fees.len() == amounts.len(),
        forall|i: int| 0 <= i < dests.len() ==> (#[trigger] dests[i]).len() == 20,
    ensures
        ({
            let e = batch_checkpoint_bytes(id, digest, amounts, dests, fees, nonce, token);
            let n = amounts.len() as int;
            &&& e.len() == 352 + 96 * n
            &&& e.subrange(0, 32) == id
            &&& e.subrange(64, 96) == digest
            &&& e.subrange(192, 224) == abi_word(nonce as nat)
            &&& e.subrange(224, 256) == abi_address_word(token)
            &&& e.subrange(256, 288) == abi_word(amounts.len())
            &&& e.subrange(288, 288 + 32 * n) == value_words(amounts)
            &&& e.subrange(320 + 32 * n, 320 + 64 * n) == address_words(dests)
            &&& e.subrange(352 + 64 * n, 352 + 96 * n) == value_words(fees)
        }),
{
    let e = batch_checkpoint_bytes(id, digest, amounts, dests, fees, nonce, token);
    let n = amounts.len() as int;
    let vws = amounts.map_values(|v: nat| abi_word(v));
    let dws = dests.map_values(|x: Seq<u8>| abi_address_word(x));
    let fws = fees.map_values(|v: nat| abi_word(v));
    assert forall|i: int| 0 <= i < vws.len() implies (#[trigger] vws[i]).len() == 32 by {
        lemma_be_bytes_of_len(amounts[i], 32);
        assert(vws[i] == abi_word(amounts[i]));
    }
    assert forall|i: int| 0 <= i < dws.len() implies (#[trigger] dws[i]).len() == 32 by {
        assert(dws[i] == abi_address_word(dests[i]));
    }
    assert forall|i: int| 0 <= i < fws.len() implies (#[trigger] fws[i]).len() == 32 by {
        lemma_be_bytes_of_len(fees[i], 32);
        assert(fws[i] == abi_word(fees[i]));
    }
    lemma_words_concat_len(vws);
    lemma_words_concat_len(dws);
    lemma_words_concat_len(fws);
    lemma_be_bytes_of_len(nonce as nat, 32);
    lemma_be_bytes_of_len(256, 32);
    lemma_be_bytes_of_len(288 + 32 * amounts.len(), 32);
    lemma_be_bytes_of_len(320 + 64 * amounts.len(), 32);
    lemma_be_bytes_of_len(amounts.len(), 32);
    lemma_be_bytes_of_len(dests.len(), 32);
    lemma_be_bytes_of_len(fees.len(), 32);
    assert(abi_fixed_string(id).len() == 32);
    assert(abi_fixed_string(batch_tag()).len() == 32);
    assert(e.len() == 352 + 96 * n);
    assert(abi_fixed_string(id) =~= id);
    assert(e.subrange(0, 32) =~= abi_fixed_string(id));
    assert(e.subrange(64, 96) =~= digest);
    assert(e.subrange(192, 224) =~= abi_word(nonce as nat));
    assert(e.subrange(224, 256) =~= abi_address_word(token));
    assert(e.subrange(256, 288) =~= abi_word(amounts.len()));
    assert(e.subrange(288, 288 + 32 * n) =~= value_words(amounts));
    assert(e.subrange(320 + 32 * n, 320 + 64 * n) =~= address_words(dests));
    assert(e.subrange(352 + 64 * n, 352 + 96 * n) =~= value_words(fees));
}

/// Batch checkpoint encoding is injective in its directly embedded
/// fields: equal bytes mean the same domain string, the same embedded
/// valset digest, the same amounts, destinations and fees, the same
/// nonce and the same token contract — changing any of them changes the
/// encoded bytes.
pub proof fn lemma_batch_checkpoint_injective(
    id1: Seq<u8>,
    digest1: Seq<u8>,
    amounts1: Seq<nat>,
    dests1: Seq<Seq<u8>>,
    fees1: Seq<nat>,
    nonce1: u64,
    token1: Seq<u8>,
    id2: Seq<u8>,
    digest2: Seq<u8>,
    amounts2: Seq<nat>,
    dests2: Seq<Seq<u8>>,
    fees2: Seq<nat>,
    nonce2: u64,
    token2: Seq<u8>,
)
    requires
        id1.len() == 32,
        id2.len() == 32,
        digest1.len() == 32,
        digest2.len() == 32,
        token1.len() == 20,
        token2.len() == 20,
        dests1.len() == amounts1.len(),
        fees1.len() == amounts1.len(),
        dests2.len() == amounts2.len(),
        fees2.len() == amounts2.len(),
        amounts1.len() < pow(256, 32),
        amounts2.len() < pow(256, 32),
        forall|i: int| 0 <= i < amounts1.len() ==> #[trigger] amounts1[i] < pow(256, 32),
        forall|i: int| 0 <= i < amounts2.len() ==> #[trigger] amounts2[i] < pow(256, 32),
        forall|i: int| 0 <= i < fees1.len() ==> #[trigger] fees1[i] < pow(256, 32),
        forall|i: int| 0 <= i < fees2.len() ==> #[trigger] fees2[i] < pow(256, 32),
        forall|i: int| 0 <= i < dests1.len() ==> (#[trigger] dests1[i]).len() == 20,
        forall|i: int| 0 <= i < dests2.len() ==> (#[trigger] dests2[i]).len() == 20,
        batch_checkpoint_bytes(id1, digest1, amounts1, dests1, fees1, nonce1, token1)
            == batch_checkpoint_bytes(id2, digest2, amounts2, dests2, fees2, nonce2, token2),
    ensures
        id1 == id2,
        digest1 == digest2,
        amounts1 == amounts2,
        dests1 == dests2,
        fees1 == fees2,
        nonce1 == nonce2,
        token1 == token2,
{
    lemma_batch_checkpoint_parts(id1, digest1, amounts1, dests1, fees1, nonce1, token1);
    lemma_batch_checkpoint_parts(id2, digest2, amounts2, dests2, fees2, nonce2, token2);
    let e = batch_checkpoint_bytes(id1, digest1, amounts1, dests1, fees1, nonce1, token1);
    assert(amounts1.len() == amounts2.len());
    let n = amounts1.len() as int;
    lemma_u64_fits_32_bytes(nonce1);
    lemma_u64_fits_32_bytes(nonce2);
    assert(abi_word(nonce1 as nat) == e.subrange(192, 224));
    lemma_abi_word_injective(nonce1 as nat, nonce2 as nat);
    assert(abi_address_word(token1) == e.subrange(224, 256));
    lemma_concat_parts(zeros(12), token1, zeros(12), token2);
    let vws1 = amounts1.map_values(|v: nat| abi_word(v));
    let vws2 = amounts2.map_values(|v: nat| abi_word(v));
    assert forall|i: int| 0 <= i < vws1.len() implies (#[trigger] vws1[i]).len() == 32 by {
        lemma_be_bytes_of_len(amounts1[i], 32);
        assert(vws1[i] == abi_word(amounts1[i]));
    }
    assert forall|i: int| 0 <= i < vws2.len() implies (#[trigger] vws2[i]).len() == 32 by {
        lemma_be_bytes_of_len(amounts2[i], 32);
        assert(vws2[i] == abi_word(amounts2[i]));
    }
    assert(words_concat(vws1) == e.subrange(288, 288 + 32 * n));
    lemma_words_concat_injective(vws1, vws2);
    assert forall|i: int| 0 <= i < amounts1.len() implies amounts1[i] == amounts2[i] by {
        assert(vws1[i] == abi_word(amounts1[i]));
        assert(vws2[i] == abi_word(amounts2[i]));
        lemma_abi_word_injective(amounts1[i], amounts2[i]);
    }
    assert(amounts1 =~= amounts2);
    let dws1 = dests1.map_values(|x: Seq<u8>| abi_address_word(x));
    let dws2 = dests2.map_values(|x: Seq<u8>| abi_address_word(x));
    assert forall|i: int| 0 <= i < dws1.len() implies (#[trigger] dws1[i]).len() == 32 by {
        assert(dws1[i] == abi_address_word(dests1[i]));
    }
    assert forall|i: int| 0 <= i < dws2.len() implies (#[trigger] dws2[i]).len() == 32 by {
        assert(dws2[i] == abi_address_word(dests2[i]));
    }
    assert(words_concat(dws1) == e.subrange(320 + 32 * n, 320 + 64 * n));
    lemma_words_concat_injective(dws1, dws2);
    assert forall|i: int| 0 <= i < dests1.len() implies dests1[i] == dests2[i] by {
        assert(dws1[i] == abi_address_word(dests1[i]));
        assert(dws2[i] == abi_address_word(dests2[i]));
        lemma_concat_parts(zeros(12), dests1[i], zeros(12), dests2[i]);
    }
    assert(dests1 =~= dests2);
    let fws1 = fees1.map_values(|v: nat| abi_word(v));
    let fws2 = fees2.map_values(|v: nat| abi_word(v));
    assert forall|i: int| 0 <= i < fws1.len() implies (#[trigger] fws1[i]).len() == 32 by {
        lemma_be_bytes_of_len(fees1[i], 32);
        assert(fws1[i] == abi_word(fees1[i]));
    }
    assert forall|i: int| 0 <= i < fws2.len() implies (#[trigger] fws2[i]).len() == 32 by {
        lemma_be_bytes_of_len(fees2[i], 32);
        assert(fws2[i] == abi_word(fees2[i]));
    }
    assert(words_concat(fws1) == e.subrange(352 + 64 * n, 352 + 96 * n));
    lemma_words_concat_injective(fws1, fws2);
    assert forall|i: int| 0 <= i < fees1.len() implies fees1[i] == fees2[i] by {
        assert(fws1[i] == abi_word(fees1[i]));
        assert(fws2[i] == abi_word(fees2[i]));
        lemma_abi_word_injective(fees1[i], fees2[i]);
    }
    assert(fees1 =~= fees2);
}

} // verus!
