//! Outgoing-transfer batches: the transfers themselves, their assembly
//! into a batch with aggregate fee accounting, and the per-transaction
//! arrays the checkpoint encoder signs.

use crate::address::{spec_parse_eth_address, spec_parse_hex_bytes, parse_eth_address, CosmosAddress, EthAddress};
use crate::error::PeggyError;
use crate::address::bech32_account_of;
use crate::signatures::{
    match_sig_pairs, parse_eth_signature, sig_views, signature_bytes_spell, sort_signatures,
    sort_views, sorted_sigs, EthSignature, PeggySignature, SigWithAddress,
};
use crate::uint256::{parse_uint256_decimal, spec_parse_decimal, Uint256};
use crate::valset::{all_members_addressed, power_lookup, Valset};
use vstd::arithmetic::power::pow;
use vstd::prelude::*;

verus! {

/// An amount of one ERC20 token: the amount and the contract that
/// identifies the token.
#[derive(Clone, Debug, PartialEq, Eq)]
pub struct Erc20Token {
    pub amount: Uint256,
    pub token_contract_address: EthAddress,
}

impl Erc20Token {
    /// Well-formed: the amount holds 32 bytes, the contract address 20.
    pub open spec fn wf(&self) -> bool {
        self.amount.wf() && self.token_contract_address.wf()
    }

    /// Builds a token amount from the decimal amount string and the
    /// hexadecimal contract address the chain reports; a record either of
    /// whose fields does not parse is an invalid bridge state.
    pub fn from_parts(amount: &str, contract: &str) -> (r: Result<Erc20Token, PeggyError>)
        ensures
            match r {
                Ok(t) => {
                    &&& t.wf()
                    &&& spec_parse_decimal(amount@) == Some(t.amount@)
                    &&& spec_parse_eth_address(contract@) == Some(t.token_contract_address@)
                },
                Err(e) => e == PeggyError::InvalidBridgeState && (spec_parse_decimal(amount@)
                    is None || (spec_parse_decimal(amount@) matches Some(v) && v >= pow(256, 32))
                    || spec_parse_eth_address(contract@) is None),
            },
    {
        let parsed_amount = match parse_uint256_decimal(amount) {
            Some(a) => a,
            None => {
                return Err(PeggyError::InvalidBridgeState);
            },
        };
        let parsed_contract = match parse_eth_address(contract) {
            Some(c) => c,
            None => {
                return Err(PeggyError::InvalidBridgeState);
            },
        };
        Ok(Erc20Token { amount: parsed_amount, token_contract_address: parsed_contract })
    }

    /// A copy of this token amount.
    pub fn duplicate(&self) -> (r: Erc20Token)
        ensures
            r.amount.bytes@ == self.amount.bytes@,
            r.token_contract_address@ == self.token_contract_address@,
    {
        Erc20Token {
            amount: self.amount.duplicate(),
            token_contract_address: self.token_contract_address.duplicate(),
        }
    }
}

/// One transfer bridged out: its pool id, Cosmos sender, Ethereum
/// destination, the token moved and the fee paid, both of the same ERC20
/// contract.
#[derive(Clone, Debug, PartialEq, Eq)]
pub struct BatchTransaction {
    pub id: u64,
    pub sender: CosmosAddress,
    pub destination: EthAddress,
    pub erc20_token: Erc20Token,
    pub erc20_fee: Erc20Token,
}

impl BatchTransaction {
    /// Well-formed: every field holds its exact byte width.
    pub open spec fn wf(&self) -> bool {
        self.sender.wf() && self.destination.wf() && self.erc20_token.wf() && self.erc20_fee.wf()
    }

    /// Builds one transfer from its decoded parts. A record with a null
    /// token or fee field is an invalid bridge state and is rejected.
    pub fn from_parts(
        id: u64,
        sender: CosmosAddress,
        destination: EthAddress,
        erc20_token: Option<Erc20Token>,
        erc20_fee: Option<Erc20Token>,
    ) -> (r: Result<BatchTransaction, PeggyError>)
        ensures
            match r {
                Ok(t) => {
                    &&& erc20_token is Some
                    &&& erc20_fee is Some
                    &&& t.id == id
                    &&& t.sender == sender
                    &&& t.destination == destination
                    &&& t.erc20_token == erc20_token->Some_0
                    &&& t.erc20_fee == erc20_fee->Some_0
                },
                Err(e) => e == PeggyError::InvalidBridgeState && (erc20_token is None || erc20_fee
                    is None),
            },
    {
        match (erc20_token, erc20_fee) {
            (Some(token), Some(fee)) => Ok(
                BatchTransaction { id, sender, destination, erc20_token: token, erc20_fee: fee },
            ),
            _ => Err(PeggyError::InvalidBridgeState),
        }
    }
}

/// The sum of the fee amounts of a sequence of transfers.
pub open spec fn sum_fees(txs: Seq<BatchTransaction>) -> nat
    decreases txs.len(),
{
    if txs.len() == 0 {
        0
    } else {
        sum_fees(txs.drop_last()) + txs.last().erc20_fee.amount@
    }
}

/// A prefix sum of fees never exceeds the whole sum.
pub proof fn lemma_sum_fees_take_le(txs: Seq<BatchTransaction>, i: int)
    requires
        0 <= i <= txs.len(),
    ensures
        sum_fees(txs.take(i)) <= sum_fees(txs),
    decreases txs.len() - i,
{
    if i == txs.len() {
        assert(txs.take(i) =~= txs);
    } else {
        assert(txs.take(i + 1).drop_last() =~= txs.take(i));
        assert(txs.take(i + 1).last() == txs[i]);
        lemma_sum_fees_take_le(txs, i + 1);
    }
}

/// Whether every transfer's token and fee are of the one given contract.
pub open spec fn shares_contract(txs: Seq<BatchTransaction>, contract: Seq<u8>) -> bool {
    forall|i: int|
        0 <= i < txs.len() ==> (#[trigger] txs[i]).erc20_token.token_contract_address@ == contract
            && txs[i].erc20_fee.token_contract_address@ == contract
}

/// A batch of outgoing transfers, bound to the validator set whose
/// signatures will authorize it: its nonce, its Ethereum-block timeout,
/// the transfers, the sum of their fees, and their shared ERC20 contract.
#[derive(Clone, Debug, PartialEq, Eq)]
pub struct TransactionBatch {
    pub nonce: u64,
    pub batch_timeout: u64,
    pub transactions: Vec<BatchTransaction>,
    pub total_fee: Erc20Token,
    pub token_contract: EthAddress,
    pub valset: Valset,
}

impl TransactionBatch {
    /// Well-formed: every part holds its exact byte widths.
    pub open spec fn wf(&self) -> bool {
        &&& forall|i: int| 0 <= i < self.transactions@.len() ==> (#[trigger] self.transactions@[i]).wf()
        &&& self.total_fee.wf()
        &&& self.token_contract.wf()
        &&& self.valset.wf()
    }

    /// Folds pending transfers, all of one ERC20 contract, into a batch
    /// whose `total_fee` is the exact sum of the per-transfer fees. A
    /// batch with no transfers is not a valid protocol state and is
    /// rejected rather than silently producing a zero-fee batch.
    pub fn assemble(
        nonce: u64,
        batch_timeout: u64,
        transactions: Vec<BatchTransaction>,
        valset: Valset,
    ) -> (r: Result<TransactionBatch, PeggyError>)
        requires
            forall|i: int| 0 <= i < transactions@.len() ==> (#[trigger] transactions@[i]).wf(),
            valset.wf(),
            transactions@.len() > 0 ==> shares_contract(
                transactions@,
                transactions@[0].erc20_fee.token_contract_address@,
            ),
            sum_fees(transactions@) < pow(256, 32),
        ensures
            match r {
                Ok(b) => {
                    &&& transactions@.len() > 0
                    &&& b.wf()
                    &&& b.nonce == nonce
                    &&& b.batch_timeout == batch_timeout
                    &&& b.transactions == transactions
                    &&& b.total_fee.amount@ == sum_fees(transactions@)
                    &&& b.total_fee.token_contract_address@
                        == transactions@[0].erc20_fee.token_contract_address@
                    &&& b.token_contract@ == transactions@[0].erc20_fee.token_contract_address@
                    &&& b.valset == valset
                },
                Err(e) => e == PeggyError::EmptyBatch && transactions@.len() == 0,
            },
    {
        let n = transactions.len();
        if n == 0 {
            return Err(PeggyError::EmptyBatch);
        }
        let mut total = transactions[0].erc20_fee.amount.duplicate();
        proof {
            assert(transactions@.take(1).drop_last() =~= Seq::<BatchTransaction>::empty());
            assert(transactions@.take(1).last() == transactions@[0]);
            assert(sum_fees(Seq::<BatchTransaction>::empty()) == 0);
            assert(total@ == sum_fees(transactions@.take(1)));
        }
        let mut i: usize = 1;
        while i < n
            invariant
                1 <= i <= n,
                n == transactions@.len(),
                forall|j: int| 0 <= j < n ==> (#[trigger] transactions@[j]).wf(),
                sum_fees(transactions@) < pow(256, 32),
                total.wf(),
                total@ == sum_fees(transactions@.take(i as int)),
            decreases n - i,
        {
            proof {
                assert(transactions@.take(i + 1).drop_last() =~= transactions@.take(i as int));
                assert(transactions@.take(i + 1).last() == transactions@[i as int]);
                lemma_sum_fees_take_le(transactions@, i + 1);
            }
            total = match total.checked_add(&transactions[i].erc20_fee.amount) {
                Some(t) => t,
                None => {
                    proof {
                        assert(false);
                    }
                    total
                },
            };
            i += 1;
        }
        proof {
            assert(transactions@.take(n as int) =~= transactions@);
        }
        let token_contract = transactions[0].erc20_fee.token_contract_address.duplicate();
        let total_fee = Erc20Token {
            amount: total,
            token_contract_address: transactions[0].erc20_fee.token_contract_address.duplicate(),
        };
        Ok(
            TransactionBatch {
                nonce,
                batch_timeout,
                transactions,
                total_fee,
                token_contract,
                valset,
            },
        )
    }

    /// The per-transaction amount, destination and fee arrays submitted
    /// to the bridge contract and bound into the batch checkpoint, in
    /// transfer order.
    pub fn get_checkpoint_values(&self) -> (r: (Vec<Uint256>, Vec<EthAddress>, Vec<Uint256>))
        requires
            self.wf(),
        ensures
            r.0@.len() == self.transactions@.len(),
            r.1@.len() == self.transactions@.len(),
            r.2@.len() == self.transactions@.len(),
            forall|i: int|
                0 <= i < self.transactions@.len() ==> (#[trigger] r.0@[i]).bytes@
                    == self.transactions@[i].erc20_token.amount.bytes@,
            forall|i: int|
                0 <= i < self.transactions@.len() ==> (#[trigger] r.1@[i])@
                    == self.transactions@[i].destination@,
            forall|i: int|
                0 <= i < self.transactions@.len() ==> (#[trigger] r.2@[i]).bytes@
                    == self.transactions@[i].erc20_fee.amount.bytes@,
    {
        let mut amounts: Vec<Uint256> = Vec::new();
        let mut destinations: Vec<EthAddress> = Vec::new();
        let mut fees: Vec<Uint256> = Vec::new();
        let n = self.transactions.len();
        let mut i: usize = 0;
        while i < n
            invariant
                i <= n,
                n == self.transactions@.len(),
                self.wf(),
                amounts@.len() == i,
                destinations@.len() == i,
                fees@.len() == i,
                forall|j: int|
                    0 <= j < i ==> (#[trigger] amounts@[j]).bytes@
                        == self.transactions@[j].erc20_token.amount.bytes@,
                forall|j: int|
                    0 <= j < i ==> (#[trigger] destinations@[j])@
                        == self.transactions@[j].destination@,
                forall|j: int|
                    0 <= j < i ==> (#[trigger] fees@[j]).bytes@
                        == self.transactions@[j].erc20_fee.amount.bytes@,
            decreases n - i,
        {
            let tx = &self.transactions[i];
            amounts.push(tx.erc20_token.amount.duplicate());
            destinations.push(tx.destination.duplicate());
            fees.push(tx.erc20_fee.amount.duplicate());
            i += 1;
        }
        (amounts, destinations, fees)
    }
}

/// One validator's confirmation of a transaction batch, as retrieved
/// from chain storage.
#[derive(Clone, Debug, PartialEq, Eq)]
pub struct BatchConfirmResponse {
    pub nonce: u64,
    pub orchestrator: CosmosAddress,
    pub token_contract: EthAddress,
    pub ethereum_signer: EthAddress,
    pub eth_signature: EthSignature,
}

impl BatchConfirmResponse {
    /// Well-formed: every field holds its exact byte width.
    pub open spec fn wf(&self) -> bool {
        self.orchestrator.wf() && self.token_contract.wf() && self.ethereum_signer.wf()
            && self.eth_signature.wf()
    }

    /// Builds a batch confirmation from the fields as the chain reports
    /// them: the orchestrator's bech32 address, the batch's token
    /// contract and the signer's address in hexadecimal, and the
    /// hexadecimal signature. A record any of whose fields does not
    /// parse is an invalid bridge state.
    pub fn from_parts(
        nonce: u64,
        orchestrator: &str,
        token_contract: &str,
        eth_signer: &str,
        signature: &str,
    ) -> (r: Result<BatchConfirmResponse, PeggyError>)
        ensures
            match r {
                Ok(c) => {
                    &&& c.wf()
                    &&& c.nonce == nonce
                    &&& bech32_account_of(orchestrator@) == Some(c.orchestrator@)
                    &&& spec_parse_eth_address(token_contract@) == Some(c.token_contract@)
                    &&& spec_parse_eth_address(eth_signer@) == Some(c.ethereum_signer@)
                    &&& (spec_parse_hex_bytes(signature@) matches Some(b) && b.len() == 65
                        && signature_bytes_spell(b, c.eth_signature))
                },
                Err(e) => {
                    &&& e == PeggyError::InvalidBridgeState
                    &&& {
                        ||| bech32_account_of(orchestrator@) is None
                        ||| (bech32_account_of(orchestrator@) matches Some(b) && b.len() != 20)
                        ||| spec_parse_eth_address(token_contract@) is None
                        ||| spec_parse_eth_address(eth_signer@) is None
                        ||| spec_parse_hex_bytes(signature@) is None
                        ||| (spec_parse_hex_bytes(signature@) matches Some(b) && b.len() != 65)
                    }
                },
            },
    {
        let orchestrator = match CosmosAddress::from_bech32(orchestrator) {
            Some(a) => a,
            None => {
                return Err(PeggyError::InvalidBridgeState);
            },
        };
        let token_contract = match parse_eth_address(token_contract) {
            Some(a) => a,
            None => {
                return Err(PeggyError::InvalidBridgeState);
            },
        };
        let ethereum_signer = match parse_eth_address(eth_signer) {
            Some(a) => a,
            None => {
                return Err(PeggyError::InvalidBridgeState);
            },
        };
        let eth_signature = match parse_eth_signature(signature) {
            Some(sig) => sig,
            None => {
                return Err(PeggyError::InvalidBridgeState);
            },
        };
        Ok(
            BatchConfirmResponse {
                nonce,
                orchestrator,
                token_contract,
                ethereum_signer,
                eth_signature,
            },
        )
    }

    /// The Ethereum address that signed this confirmation.
    pub fn get_eth_address(&self) -> (r: EthAddress)
        ensures
            r@ == self.ethereum_signer@,
    {
        self.ethereum_signer.duplicate()
    }

    /// The signature of this confirmation.
    pub fn get_signature(&self) -> (r: EthSignature)
        ensures
            r.v.bytes@ == self.eth_signature.v.bytes@,
            r.r.bytes@ == self.eth_signature.r.bytes@,
            r.s.bytes@ == self.eth_signature.s.bytes@,
    {
        self.eth_signature.duplicate()
    }
}

/// A batch paired with the signatures collected for it.
#[derive(Clone, Debug, PartialEq, Eq)]
pub struct SignedTransactionBatch {
    pub batch: TransactionBatch,
    pub signatures: Vec<SigWithAddress>,
}

impl SignedTransactionBatch {
    /// Well-formed: the batch and every signature are.
    pub open spec fn wf(&self) -> bool {
        self.batch.wf() && (forall|i: int|
            0 <= i < self.signatures@.len() ==> (#[trigger] self.signatures@[i]).wf())
    }
}

impl Valset {
    /// Matches each of a signed batch's signatures against this set and
    /// produces them in canonical submission order. Fails with
    /// `IncompleteValidatorSet` when any member has no address, and with
    /// `UnmatchedSignature` naming the offending address when a signer is
    /// not a member; no partial result is returned.
    pub fn order_batch_sigs(&self, signed_batch: SignedTransactionBatch) -> (r: Result<
        Vec<PeggySignature>,
        PeggyError,
    >)
        requires
            self.wf(),
            signed_batch.wf(),
        ensures
            match r {
                Ok(out) => {
                    &&& all_members_addressed(self.members@)
                    &&& forall|i: int|
                        0 <= i < signed_batch.signatures@.len() ==> power_lookup(
                            self.members@,
                            (#[trigger] signed_batch.signatures@[i]).eth_address@,
                        ) is Some
                    &&& out@.len() == signed_batch.signatures@.len()
                    &&& forall|i: int| 0 <= i < out@.len() ==> (#[trigger] out@[i]).wf()
                    &&& sig_views(out@) == sort_views(
                        signed_batch.signatures@.map_values(
                            |c: SigWithAddress| crate::signatures::pair_sig_view(c, self.members@),
                        ),
                    )
                    &&& sig_views(out@).to_multiset() == signed_batch.signatures@.map_values(
                        |c: SigWithAddress| crate::signatures::pair_sig_view(c, self.members@),
                    ).to_multiset()
                    &&& sorted_sigs(out@)
                },
                Err(e) => match e {
                    PeggyError::IncompleteValidatorSet => !all_members_addressed(self.members@),
                    PeggyError::UnmatchedSignature(a) => {
                        &&& all_members_addressed(self.members@)
                        &&& power_lookup(self.members@, a@) is None
                        &&& exists|i: int|
                            0 <= i < signed_batch.signatures@.len() && (
                            #[trigger] signed_batch.signatures@[i]).eth_address@ == a@ && (
                            forall|j: int|
                                0 <= j < i ==> power_lookup(
                                    self.members@,
                                    (#[trigger] signed_batch.signatures@[j]).eth_address@,
                                ) is Some)
                    },
                    _ => false,
                },
            },
    {
        let matched = match_sig_pairs(self, &signed_batch.signatures)?;
        Ok(sort_signatures(matched))
    }
}

} // verus!
