//! The validator-set model: members with a voting power and an optionally
//! registered Ethereum address, the canonical address/power arrays fed to
//! the checkpoint encoder, and power lookup by address.

use crate::address::{spec_parse_eth_address, parse_eth_address, EthAddress};
use crate::bigendian::zeros;
use crate::error::PeggyError;
use vstd::prelude::*;

verus! {

/// One validator: its normalized voting power and, once registered, its
/// Ethereum signing address. The address is `None` only transiently,
/// before the validator registers a key; such a member cannot contribute
/// a signature.
#[derive(Clone, Debug, PartialEq, Eq)]
pub struct ValsetMember {
    pub power: u64,
    pub eth_address: Option<EthAddress>,
}

impl ValsetMember {
    /// Well-formed: the address, when present, is 20 bytes.
    pub open spec fn wf(&self) -> bool {
        match self.eth_address {
            Some(a) => a.wf(),
            None => true,
        }
    }
}

/// The address bytes a member contributes to a checkpoint: its own
/// address, or the all-zero address when none is registered. The on-chain
/// verifier reads a zero address as "no signature provided for this slot".
pub open spec fn member_slot_address(m: ValsetMember) -> Seq<u8> {
    match m.eth_address {
        Some(a) => a@,
        None => zeros(20),
    }
}

/// Whether every member has a registered Ethereum address.
pub open spec fn all_members_addressed(ms: Seq<ValsetMember>) -> bool {
    forall|i: int| 0 <= i < ms.len() ==> (#[trigger] ms[i].eth_address) is Some
}

/// The power of the first member holding the given address, if any.
pub open spec fn power_lookup(ms: Seq<ValsetMember>, addr: Seq<u8>) -> Option<u64>
    decreases ms.len(),
{
    if ms.len() == 0 {
        None
    } else if ms[0].eth_address is Some && ms[0].eth_address->Some_0@ == addr {
        Some(ms[0].power)
    } else {
        power_lookup(ms.drop_first(), addr)
    }
}

/// A validator set at a given nonce: an ordered sequence of members.
/// Immutable once constructed; a new nonce means a new set.
#[derive(Clone, Debug, PartialEq, Eq)]
pub struct Valset {
    pub nonce: u64,
    pub members: Vec<ValsetMember>,
}

impl Valset {
    /// Well-formed: every member is.
    pub open spec fn wf(&self) -> bool {
        forall|i: int| 0 <= i < self.members@.len() ==> (#[trigger] self.members@[i]).wf()
    }

    /// The parallel address and power arrays of this set, in member
    /// order; a member with no registered address contributes the
    /// all-zero address with its power preserved.
    pub fn filter_empty_addresses(&self) -> (r: (Vec<EthAddress>, Vec<u64>))
        requires
            self.wf(),
        ensures
            r.0@.len() == self.members@.len(),
            r.1@.len() == self.members@.len(),
            forall|i: int|
                0 <= i < self.members@.len() ==> (#[trigger] r.0@[i]).wf() && r.0@[i]@
                    == member_slot_address(self.members@[i]),
            forall|i: int|
                0 <= i < self.members@.len() ==> #[trigger] r.1@[i] == self.members@[i].power,
    {
        let mut addresses: Vec<EthAddress> = Vec::new();
        let mut powers: Vec<u64> = Vec::new();
        let n = self.members.len();
        let mut i: usize = 0;
        while i < n
            invariant
                i <= n,
                n == self.members@.len(),
                self.wf(),
                addresses@.len() == i,
                powers@.len() == i,
                forall|j: int|
                    0 <= j < i ==> (#[trigger] addresses@[j]).wf() && addresses@[j]@
                        == member_slot_address(self.members@[j]),
                forall|j: int| 0 <= j < i ==> #[trigger] powers@[j] == self.members@[j].power,
            decreases n - i,
        {
            let member = &self.members[i];
            match &member.eth_address {
                Some(a) => {
                    addresses.push(a.duplicate());
                },
                None => {
                    addresses.push(EthAddress::zero());
                },
            }
            powers.push(member.power);
            i += 1;
        }
        (addresses, powers)
    }

    /// The power of the first member holding exactly the given address.
    pub fn get_power(&self, address: &EthAddress) -> (r: Result<u64, PeggyError>)
        requires
            self.wf(),
        ensures
            match r {
                Ok(p) => power_lookup(self.members@, address@) == Some(p),
                Err(e) => e == PeggyError::NotFound && power_lookup(self.members@, address@)
                    is None,
            },
    {
        let n = self.members.len();
        let mut i: usize = 0;
        proof {
            assert(self.members@.skip(0) =~= self.members@);
        }
        while i < n
            invariant
                i <= n,
                n == self.members@.len(),
                self.wf(),
                power_lookup(self.members@, address@) == power_lookup(
                    self.members@.skip(i as int),
                    address@,
                ),
            decreases n - i,
        {
            let ghost rest = self.members@.skip(i as int);
            proof {
                assert(rest[0] == self.members@[i as int]);
                assert(rest.drop_first() =~= self.members@.skip(i + 1));
            }
            let member = &self.members[i];
            match &member.eth_address {
                Some(a) => {
                    if a.equals(address) {
                        return Ok(member.power);
                    }
                },
                None => {},
            }
            i += 1;
        }
        proof {
            assert(self.members@.skip(n as int) =~= Seq::<ValsetMember>::empty());
        }
        Err(PeggyError::NotFound)
    }
}

/// A member as the chain reports it, its address still a hexadecimal
/// string (possibly empty, for a validator that has not registered one).
#[derive(Clone, Debug, PartialEq, Eq)]
pub struct ValsetMemberUnparsed {
    pub ethereum_address: String,
    pub power: u64,
}

/// A validator set as the chain reports it, before its addresses are
/// parsed.
#[derive(Clone, Debug, PartialEq, Eq)]
pub struct ValsetUnparsed {
    pub nonce: u64,
    pub members: Vec<ValsetMemberUnparsed>,
}

impl ValsetUnparsed {
    /// Parses each member's address; a member whose address is absent or
    /// malformed keeps its power and gets no address.
    pub fn convert(self) -> (r: Valset)
        ensures
            r.wf(),
            r.nonce == self.nonce,
            r.members@.len() == self.members@.len(),
            forall|i: int|
                0 <= i < self.members@.len() ==> (#[trigger] r.members@[i]).power
                    == self.members@[i].power,
            forall|i: int|
                0 <= i < self.members@.len() ==> ((#[trigger] r.members@[i]).eth_address
                    matches Some(a) ==> spec_parse_eth_address(
                    self.members@[i].ethereum_address@,
                ) == Some(a@)),
            forall|i: int|
                0 <= i < self.members@.len() ==> ((#[trigger] r.members@[i]).eth_address is None
                    <==> spec_parse_eth_address(self.members@[i].ethereum_address@) is None),
    {
        let mut out: Vec<ValsetMember> = Vec::new();
        let n = self.members.len();
        let mut i: usize = 0;
        while i < n
            invariant
                i <= n,
                n == self.members@.len(),
                out@.len() == i,
                forall|j: int| 0 <= j < i ==> (#[trigger] out@[j]).wf(),
                forall|j: int|
                    0 <= j < i ==> (#[trigger] out@[j]).power == self.members@[j].power,
                forall|j: int|
                    0 <= j < i ==> ((#[trigger] out@[j]).eth_address matches Some(a)
                        ==> spec_parse_eth_address(self.members@[j].ethereum_address@) == Some(
                        a@,
                    )),
                forall|j: int|
                    0 <= j < i ==> ((#[trigger] out@[j]).eth_address is None
                        <==> spec_parse_eth_address(self.members@[j].ethereum_address@) is None),
            decreases n - i,
        {
            let member = &self.members[i];
            let parsed = parse_eth_address(member.ethereum_address.as_str());
            out.push(
                ValsetMember {
                    power: member.power,
                    eth_address: parsed,
                },
            );
            i += 1;
        }
        Valset { nonce: self.nonce, members: out }
    }
}

/// The query body used to fetch one validator's confirmation of a given
/// validator set.
#[derive(Clone, Debug, PartialEq, Eq)]
pub struct QueryValsetConfirm {
    pub nonce: String,
    pub address: String,
}

} // verus!
