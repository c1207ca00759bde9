//! Decoding raw Ethereum event logs into typed, nonce-carrying claims.
//! Each log is decoded on its own; a sequence of logs decodes in input
//! order and fails on the first malformed record. The decoder never
//! aggregates across logs — keeping claims in strictly increasing
//! event-nonce order is the caller's duty, checkable through
//! `claims_in_submission_order`.

use crate::address::{CosmosAddress, EthAddress};
use crate::bigendian::{be_val, subvec};
use crate::error::PeggyError;
use crate::uint256::Uint256;
use vstd::prelude::*;

verus! {

/// A raw Ethereum log record as the log source supplies it: the indexed
/// 32-byte topic words and the unindexed data payload.
#[derive(Clone, Debug, PartialEq, Eq)]
pub struct LogRecord {
    pub topics: Vec<Vec<u8>>,
    pub data: Vec<u8>,
}

impl LogRecord {
    /// Well-formed: every indexed topic is one 32-byte word.
    pub open spec fn wf(&self) -> bool {
        forall|j: int| 0 <= j < self.topics@.len() ==> (#[trigger] self.topics@[j])@.len() == 32
    }
}

/// The event fired when the bridge contract's validator set is updated:
/// topic 1 carries the new set's nonce.
#[derive(Clone, Debug, PartialEq, Eq)]
pub struct ValsetUpdatedEvent {
    pub nonce: Uint256,
}

impl ValsetUpdatedEvent {
    /// Decodes one `ValsetUpdated` log: beyond the event discriminator
    /// there must be at least one indexed topic, whose big-endian value
    /// is the nonce.
    pub fn from_log(input: &LogRecord) -> (r: Result<ValsetUpdatedEvent, PeggyError>)
        requires
            input.wf(),
        ensures
            match r {
                Ok(e) => {
                    &&& input.topics@.len() >= 2
                    &&& e.nonce.wf()
                    &&& e.nonce@ == be_val(input.topics@[1]@)
                },
                Err(err) => err == PeggyError::TooFewTopics && input.topics@.len() < 2,
            },
    {
        if input.topics.len() >= 2 {
            let nonce = Uint256::from_bytes_be(&input.topics[1]);
            Ok(ValsetUpdatedEvent { nonce })
        } else {
            Err(PeggyError::TooFewTopics)
        }
    }

    /// Decodes a sequence of `ValsetUpdated` logs, one claim per log in
    /// input order, failing on the first malformed record.
    pub fn from_logs(input: &Vec<LogRecord>) -> (r: Result<Vec<ValsetUpdatedEvent>, PeggyError>)
        requires
            forall|i: int| 0 <= i < input@.len() ==> (#[trigger] input@[i]).wf(),
        ensures
            match r {
                Ok(es) => {
                    &&& es@.len() == input@.len()
                    &&& forall|i: int|
                        0 <= i < input@.len() ==> (#[trigger] input@[i]).topics@.len() >= 2
                    &&& forall|i: int|
                        0 <= i < es@.len() ==> (#[trigger] es@[i]).nonce.wf() && es@[i].nonce@
                            == be_val(input@[i].topics@[1]@)
                },
                Err(err) => err == PeggyError::TooFewTopics && exists|i: int|
                    0 <= i < input@.len() && (#[trigger] input@[i]).topics@.len() < 2,
            },
    {
        let mut res: Vec<ValsetUpdatedEvent> = Vec::new();
        let n = input.len();
        let mut i: usize = 0;
        while i < n
            invariant
                i <= n,
                n == input@.len(),
                forall|j: int| 0 <= j < n ==> (#[trigger] input@[j]).wf(),
                res@.len() == i,
                forall|j: int| 0 <= j < i ==> (#[trigger] input@[j]).topics@.len() >= 2,
                forall|j: int|
                    0 <= j < i ==> (#[trigger] res@[j]).nonce.wf() && res@[j].nonce@ == be_val(
                        input@[j].topics@[1]@,
                    ),
            decreases n - i,
        {
            match ValsetUpdatedEvent::from_log(&input[i]) {
                Ok(e) => {
                    res.push(e);
                },
                Err(err) => {
                    return Err(err);
                },
            }
            i += 1;
        }
        Ok(res)
    }
}

/// The event fired when a transaction batch is executed: topic 1 carries
/// the batch nonce, the last 20 bytes of topic 2 the batch's ERC20
/// contract, and the first 32 data bytes the event nonce.
#[derive(Clone, Debug, PartialEq, Eq)]
pub struct TransactionBatchExecutedEvent {
    pub batch_nonce: Uint256,
    pub erc20: EthAddress,
    pub event_nonce: Uint256,
}

impl TransactionBatchExecutedEvent {
    /// Decodes one `TransactionBatchExecuted` log.
    pub fn from_log(input: &LogRecord) -> (r: Result<
        TransactionBatchExecutedEvent,
        PeggyError,
    >)
        requires
            input.wf(),
            input.topics@.len() >= 3 ==> input.data@.len() >= 32,
        ensures
            match r {
                Ok(e) => {
                    &&& input.topics@.len() >= 3
                    &&& e.batch_nonce.wf()
                    &&& e.batch_nonce@ == be_val(input.topics@[1]@)
                    &&& e.erc20.wf()
                    &&& e.erc20@ == input.topics@[2]@.subrange(12, 32)
                    &&& e.event_nonce.wf()
                    &&& e.event_nonce@ == be_val(input.data@.subrange(0, 32))
                },
                Err(err) => err == PeggyError::TooFewTopics && input.topics@.len() < 3,
            },
    {
        if input.topics.len() >= 3 {
            let batch_nonce = Uint256::from_bytes_be(&input.topics[1]);
            let erc20 = EthAddress::from_bytes(subvec(&input.topics[2], 12, 32));
            let event_nonce = Uint256::from_bytes_be(&subvec(&input.data, 0, 32));
            Ok(TransactionBatchExecutedEvent { batch_nonce, erc20, event_nonce })
        } else {
            Err(PeggyError::TooFewTopics)
        }
    }

    /// Decodes a sequence of `TransactionBatchExecuted` logs, one claim
    /// per log in input order, failing on the first malformed record.
    pub fn from_logs(input: &Vec<LogRecord>) -> (r: Result<
        Vec<TransactionBatchExecutedEvent>,
        PeggyError,
    >)
        requires
            forall|i: int| 0 <= i < input@.len() ==> (#[trigger] input@[i]).wf(),
            forall|i: int|
                0 <= i < input@.len() ==> ((#[trigger] input@[i]).topics@.len() >= 3
                    ==> input@[i].data@.len() >= 32),
        ensures
            match r {
                Ok(es) => {
                    &&& es@.len() == input@.len()
                    &&& forall|i: int|
                        0 <= i < input@.len() ==> (#[trigger] input@[i]).topics@.len() >= 3
                    &&& forall|i: int|
                        0 <= i < es@.len() ==> {
                            let e = #[trigger] es@[i];
                            &&& e.batch_nonce.wf()
                            &&& e.batch_nonce@ == be_val(input@[i].topics@[1]@)
                            &&& e.erc20.wf()
                            &&& e.erc20@ == input@[i].topics@[2]@.subrange(12, 32)
                            &&& e.event_nonce.wf()
                            &&& e.event_nonce@ == be_val(input@[i].data@.subrange(0, 32))
                        }
                },
                Err(err) => err == PeggyError::TooFewTopics && exists|i: int|
                    0 <= i < input@.len() && (#[trigger] input@[i]).topics@.len() < 3,
            },
    {
        let mut res: Vec<TransactionBatchExecutedEvent> = Vec::new();
        let n = input.len();
        let mut i: usize = 0;
        while i < n
            invariant
                i <= n,
                n == input@.len(),
                forall|j: int| 0 <= j < n ==> (#[trigger] input@[j]).wf(),
                forall|j: int|
                    0 <= j < n ==> ((#[trigger] input@[j]).topics@.len() >= 3 ==> input@[j].data@.len()
                        >= 32),
                res@.len() == i,
                forall|j: int| 0 <= j < i ==> (#[trigger] input@[j]).topics@.len() >= 3,
                forall|j: int|
                    0 <= j < i ==> {
                        let e = #[trigger] res@[j];
                        &&& e.batch_nonce.wf()
                        &&& e.batch_nonce@ == be_val(input@[j].topics@[1]@)
                        &&& e.erc20.wf()
                        &&& e.erc20@ == input@[j].topics@[2]@.subrange(12, 32)
                        &&& e.event_nonce.wf()
                        &&& e.event_nonce@ == be_val(input@[j].data@.subrange(0, 32))
                    },
            decreases n - i,
        {
            match TransactionBatchExecutedEvent::from_log(&input[i]) {
                Ok(e) => {
                    res.push(e);
                },
                Err(err) => {
                    return Err(err);
                },
            }
            i += 1;
        }
        Ok(res)
    }
}

/// The event fired by a deposit on the bridge contract. The Ethereum-side
/// fields sit in the low 20 bytes of their topics behind 12 bytes of EVM
/// address padding; the Cosmos destination sits in the low 20 bytes of
/// topic 3 in little-endian byte order — an intentional cross-chain
/// address-encoding difference, preserved as observed.
#[derive(Clone, Debug, PartialEq, Eq)]
pub struct SendToCosmosEvent {
    pub erc20: EthAddress,
    pub sender: EthAddress,
    pub destination: CosmosAddress,
    pub amount: Uint256,
    pub event_nonce: Uint256,
}

impl SendToCosmosEvent {
    /// Decodes one `SendToCosmos` log: the token contract and sender from
    /// topics 1 and 2, the Cosmos destination from topic 3, the amount
    /// and the event nonce from the first two 32-byte data words.
    pub fn from_log(input: &LogRecord) -> (r: Result<SendToCosmosEvent, PeggyError>)
        requires
            input.wf(),
            input.topics@.len() >= 4 ==> input.data@.len() >= 64,
        ensures
            match r {
                Ok(e) => {
                    &&& input.topics@.len() >= 4
                    &&& e.erc20.wf()
                    &&& e.erc20@ == input.topics@[1]@.subrange(12, 32)
                    &&& e.sender.wf()
                    &&& e.sender@ == input.topics@[2]@.subrange(12, 32)
                    &&& e.destination.wf()
                    &&& e.destination@ == input.topics@[3]@.subrange(0, 20)
                    &&& e.amount.wf()
                    &&& e.amount@ == be_val(input.data@.subrange(0, 32))
                    &&& e.event_nonce.wf()
                    &&& e.event_nonce@ == be_val(input.data@.subrange(32, 64))
                },
                Err(err) => err == PeggyError::TooFewTopics && input.topics@.len() < 4,
            },
    {
        if input.topics.len() >= 4 {
            let erc20 = EthAddress::from_bytes(subvec(&input.topics[1], 12, 32));
            let sender = EthAddress::from_bytes(subvec(&input.topics[2], 12, 32));
            let destination = CosmosAddress::from_bytes(subvec(&input.topics[3], 0, 20));
            let amount = Uint256::from_bytes_be(&subvec(&input.data, 0, 32));
            let event_nonce = Uint256::from_bytes_be(&subvec(&input.data, 32, 64));
            Ok(SendToCosmosEvent { erc20, sender, destination, amount, event_nonce })
        } else {
            Err(PeggyError::TooFewTopics)
        }
    }

    /// Decodes a sequence of `SendToCosmos` logs, one claim per log in
    /// input order, failing on the first malformed record.
    pub fn from_logs(input: &Vec<LogRecord>) -> (r: Result<Vec<SendToCosmosEvent>, PeggyError>)
        requires
            forall|i: int| 0 <= i < input@.len() ==> (#[trigger] input@[i]).wf(),
            forall|i: int|
                0 <= i < input@.len() ==> ((#[trigger] input@[i]).topics@.len() >= 4
                    ==> input@[i].data@.len() >= 64),
        ensures
            match r {
                Ok(es) => {
                    &&& es@.len() == input@.len()
                    &&& forall|i: int|
                        0 <= i < input@.len() ==> (#[trigger] input@[i]).topics@.len() >= 4
                    &&& forall|i: int|
                        0 <= i < es@.len() ==> {
                            let e = #[trigger] es@[i];
                            &&& e.erc20.wf()
                            &&& e.erc20@ == input@[i].topics@[1]@.subrange(12, 32)
                            &&& e.sender.wf()
                            &&& e.sender@ == input@[i].topics@[2]@.subrange(12, 32)
                            &&& e.destination.wf()
                            &&& e.destination@ == input@[i].topics@[3]@.subrange(0, 20)
                            &&& e.amount.wf()
                            &&& e.amount@ == be_val(input@[i].data@.subrange(0, 32))
                            &&& e.event_nonce.wf()
                            &&& e.event_nonce@ == be_val(input@[i].data@.subrange(32, 64))
                        }
                },
                Err(err) => err == PeggyError::TooFewTopics && exists|i: int|
                    0 <= i < input@.len() && (#[trigger] input@[i]).topics@.len() < 4,
            },
    {
        let mut res: Vec<SendToCosmosEvent> = Vec::new();
        let n = input.len();
        let mut i: usize = 0;
        while i < n
            invariant
                i <= n,
                n == input@.len(),
                forall|j: int| 0 <= j < n ==> (#[trigger] input@[j]).wf(),
                forall|j: int|
                    0 <= j < n ==> ((#[trigger] input@[j]).topics@.len() >= 4 ==> input@[j].data@.len()
                        >= 64),
                res@.len() == i,
                forall|j: int| 0 <= j < i ==> (#[trigger] input@[j]).topics@.len() >= 4,
                forall|j: int|
                    0 <= j < i ==> {
                        let e = #[trigger] res@[j];
                        &&& e.erc20.wf()
                        &&& e.erc20@ == input@[j].topics@[1]@.subrange(12, 32)
                        &&& e.sender.wf()
                        &&& e.sender@ == input@[j].topics@[2]@.subrange(12, 32)
                        &&& e.destination.wf()
                        &&& e.destination@ == input@[j].topics@[3]@.subrange(0, 20)
                        &&& e.amount.wf()
                        &&& e.amount@ == be_val(input@[j].data@.subrange(0, 32))
                        &&& e.event_nonce.wf()
                        &&& e.event_nonce@ == be_val(input@[j].data@.subrange(32, 64))
                    },
            decreases n - i,
        {
            match SendToCosmosEvent::from_log(&input[i]) {
                Ok(e) => {
                    res.push(e);
                },
                Err(err) => {
                    return Err(err);
                },
            }
            i += 1;
        }
        Ok(res)
    }
}

/// One orchestrator's typed assertion of an event it observed on the
/// Ethereum chain, matched exhaustively wherever claims are consumed.
/// Every variant but `ValsetUpdated` carries the event nonce under which
/// the destination chain accepts it.
#[derive(Clone, Debug, PartialEq, Eq)]
pub enum BridgeClaim {
    ValsetUpdated { nonce: Uint256 },
    BatchExecuted { batch_nonce: Uint256, token_contract: EthAddress, event_nonce: Uint256 },
    SendToCosmos {
        token_contract: EthAddress,
        sender: EthAddress,
        destination: CosmosAddress,
        amount: Uint256,
        event_nonce: Uint256,
    },
    Erc20Deployed { token_contract: EthAddress, event_nonce: Uint256 },
}

/// The event nonce a claim carries, if its kind carries one.
pub open spec fn claim_event_nonce(c: BridgeClaim) -> Option<nat> {
    match c {
        BridgeClaim::ValsetUpdated { .. } => None,
        BridgeClaim::BatchExecuted { event_nonce, .. } => Some(event_nonce@),
        BridgeClaim::SendToCosmos { event_nonce, .. } => Some(event_nonce@),
        BridgeClaim::Erc20Deployed { event_nonce, .. } => Some(event_nonce@),
    }
}

/// Well-formed: every field of the claim holds its exact byte width.
pub open spec fn claim_wf(c: BridgeClaim) -> bool {
    match c {
        BridgeClaim::ValsetUpdated { nonce } => nonce.wf(),
        BridgeClaim::BatchExecuted { batch_nonce, token_contract, event_nonce } => batch_nonce.wf()
            && token_contract.wf() && event_nonce.wf(),
        BridgeClaim::SendToCosmos {
            token_contract,
            sender,
            destination,
            amount,
            event_nonce,
        } => token_contract.wf() && sender.wf() && destination.wf() && amount.wf()
            && event_nonce.wf(),
        BridgeClaim::Erc20Deployed { token_contract, event_nonce } => token_contract.wf()
            && event_nonce.wf(),
    }
}

/// Whether the nonce-carrying claims of a sequence are in strictly
/// increasing event-nonce order, as the destination chain requires for
/// submission.
pub open spec fn claims_nonce_ordered(cs: Seq<BridgeClaim>) -> bool {
    forall|i: int, j: int|
        0 <= i < j < cs.len() && claim_event_nonce(#[trigger] cs[i]) is Some && claim_event_nonce(
            #[trigger] cs[j],
        ) is Some ==> claim_event_nonce(cs[i])->Some_0 < claim_event_nonce(cs[j])->Some_0
}

impl ValsetUpdatedEvent {
    /// This event as a claim.
    pub fn into_claim(self) -> (r: BridgeClaim)
        ensures
            r == (BridgeClaim::ValsetUpdated { nonce: self.nonce }),
    {
        BridgeClaim::ValsetUpdated { nonce: self.nonce }
    }
}

impl TransactionBatchExecutedEvent {
    /// This event as a claim.
    pub fn into_claim(self) -> (r: BridgeClaim)
        ensures
            r == (BridgeClaim::BatchExecuted {
                batch_nonce: self.batch_nonce,
                token_contract: self.erc20,
                event_nonce: self.event_nonce,
            }),
    {
        BridgeClaim::BatchExecuted {
            batch_nonce: self.batch_nonce,
            token_contract: self.erc20,
            event_nonce: self.event_nonce,
        }
    }
}

impl SendToCosmosEvent {
    /// This event as a claim.
    pub fn into_claim(self) -> (r: BridgeClaim)
        ensures
            r == (BridgeClaim::SendToCosmos {
                token_contract: self.erc20,
                sender: self.sender,
                destination: self.destination,
                amount: self.amount,
                event_nonce: self.event_nonce,
            }),
    {
        BridgeClaim::SendToCosmos {
            token_contract: self.erc20,
            sender: self.sender,
            destination: self.destination,
            amount: self.amount,
            event_nonce: self.event_nonce,
        }
    }
}

/// The event nonce a claim carries, if its kind carries one.
pub fn get_claim_event_nonce(c: &BridgeClaim) -> (r: Option<&Uint256>)
    ensures
        match r {
            Some(u) => claim_event_nonce(*c) == Some(u@) && (claim_wf(*c) ==> u.wf()),
            None => claim_event_nonce(*c) is None,
        },
{
    match c {
        BridgeClaim::ValsetUpdated { .. } => None,
        BridgeClaim::BatchExecuted { event_nonce, .. } => Some(event_nonce),
        BridgeClaim::SendToCosmos { event_nonce, .. } => Some(event_nonce),
        BridgeClaim::Erc20Deployed { event_nonce, .. } => Some(event_nonce),
    }
}

/// Whether the nonce-carrying claims of a sequence are in strictly
/// increasing event-nonce order. The decoder only guarantees per-record
/// correctness and input order; the caller checks this before
/// submission.
pub fn claims_in_submission_order(claims: &Vec<BridgeClaim>) -> (r: bool)
    requires
        forall|i: int| 0 <= i < claims@.len() ==> claim_wf(#[trigger] claims@[i]),
    ensures
        r == claims_nonce_ordered(claims@),
{
    let n = claims.len();
    let mut i: usize = 0;
    while i < n
        invariant
            i <= n,
            n == claims@.len(),
            forall|k: int| 0 <= k < n ==> claim_wf(#[trigger] claims@[k]),
            forall|a: int, b: int|
                0 <= a < b < n && a < i && claim_event_nonce(#[trigger] claims@[a]) is Some
                    && claim_event_nonce(#[trigger] claims@[b]) is Some ==> claim_event_nonce(
                    claims@[a],
                )->Some_0 < claim_event_nonce(claims@[b])->Some_0,
        decreases n - i,
    {
        let first = get_claim_event_nonce(&claims[i]);
        match first {
            Some(u) => {
                let mut j: usize = i + 1;
                while j < n
                    invariant
                        i < j <= n,
                        n == claims@.len(),
                        forall|k: int| 0 <= k < n ==> claim_wf(#[trigger] claims@[k]),
                        claim_event_nonce(claims@[i as int]) == Some(u@),
                        u.wf(),
                        forall|b: int|
                            i < b < j && claim_event_nonce(#[trigger] claims@[b]) is Some
                                ==> u@ < claim_event_nonce(claims@[b])->Some_0,
                    decreases n - j,
                {
                    match get_claim_event_nonce(&claims[j]) {
                        Some(w) => {
                            proof {
                                crate::uint256::lemma_uint256_bound(*u);
                                crate::uint256::lemma_uint256_bound(*w);
                            }
                            if !less_than(u, w) {
                                return false;
                            }
                        },
                        None => {},
                    }
                    j += 1;
                }
            },
            None => {},
        }
        i += 1;
    }
    true
}

/// Whether one amount is strictly below another.
fn less_than(a: &Uint256, b: &Uint256) -> (r: bool)
    requires
        a.wf(),
        b.wf(),
    ensures
        r == (a@ < b@),
{
    let le = crate::bigendian::be_le(&a.bytes, &b.bytes);
    let eq = crate::bigendian::bytes_eq(&a.bytes, &b.bytes);
    proof {
        if a@ == b@ {
            crate::bigendian::lemma_be_val_injective(a.bytes@, b.bytes@);
        }
    }
    le && !eq
}

} // verus!
