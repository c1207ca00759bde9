//! Addresses on the two chains, held as their raw 20 bytes, with the
//! byte-lexicographic order used to make signature submissions
//! deterministic, and a parser for the hexadecimal form in which the
//! chain reports Ethereum addresses.

use crate::bigendian::{be_val, bytes_eq, lemma_be_val_injective, zeros};
use vstd::prelude::*;

verus! {

/// An Ethereum-side address: exactly 20 bytes.
#[derive(Clone, Debug, PartialEq, Eq, Hash)]
pub struct EthAddress {
    pub bytes: Vec<u8>,
}

impl View for EthAddress {
    type V = Seq<u8>;

    open spec fn view(&self) -> Seq<u8> {
        self.bytes@
    }
}

impl EthAddress {
    /// Well-formed: exactly 20 bytes.
    pub open spec fn wf(&self) -> bool {
        self.bytes@.len() == 20
    }

    /// The all-zero address: the slot the on-chain verifier reads as
    /// "no signature provided".
    pub fn zero() -> (r: EthAddress)
        ensures
            r.wf(),
            r@ == zeros(20),
    {
        let bytes: Vec<u8> = vec![0u8; 20];
        proof {
            assert(bytes@ =~= zeros(20));
        }
        EthAddress { bytes }
    }

    /// An address from its 20 raw bytes.
    pub fn from_bytes(b: Vec<u8>) -> (r: EthAddress)
        requires
            b@.len() == 20,
        ensures
            r.wf(),
            r@ == b@,
    {
        EthAddress { bytes: b }
    }

    /// A copy of this address.
    pub fn duplicate(&self) -> (r: EthAddress)
        ensures
            r@ == self@,
    {
        let bytes = crate::bigendian::subvec(&self.bytes, 0, self.bytes.len());
        proof {
            assert(bytes@ =~= self.bytes@);
        }
        EthAddress { bytes }
    }

    /// Whether two addresses are the same.
    pub fn equals(&self, other: &EthAddress) -> (r: bool)
        ensures
            r == (self@ == other@),
    {
        bytes_eq(&self.bytes, &other.bytes)
    }

    /// Whether `self` comes at or before `other` in byte-lexicographic
    /// (equivalently big-endian numeric) order.
    pub fn le(&self, other: &EthAddress) -> (r: bool)
        requires
            self.wf(),
            other.wf(),
        ensures
            r == (be_val(self@) <= be_val(other@)),
    {
        crate::bigendian::be_le(&self.bytes, &other.bytes)
    }
}

/// A Cosmos-side account address: exactly 20 bytes.
#[derive(Clone, Debug, PartialEq, Eq, Hash)]
pub struct CosmosAddress {
    pub bytes: Vec<u8>,
}

impl View for CosmosAddress {
    type V = Seq<u8>;

    open spec fn view(&self) -> Seq<u8> {
        self.bytes@
    }
}

impl CosmosAddress {
    /// Well-formed: exactly 20 bytes.
    pub open spec fn wf(&self) -> bool {
        self.bytes@.len() == 20
    }

    /// An address from its 20 raw bytes.
    pub fn from_bytes(b: Vec<u8>) -> (r: CosmosAddress)
        requires
            b@.len() == 20,
        ensures
            r.wf(),
            r@ == b@,
    {
        CosmosAddress { bytes: b }
    }

    /// A copy of this address.
    pub fn duplicate(&self) -> (r: CosmosAddress)
        ensures
            r@ == self@,
    {
        let bytes = crate::bigendian::subvec(&self.bytes, 0, self.bytes.len());
        proof {
            assert(bytes@ =~= self.bytes@);
        }
        CosmosAddress { bytes }
    }

    /// Whether two addresses are the same.
    pub fn equals(&self, other: &CosmosAddress) -> (r: bool)
        ensures
            r == (self@ == other@),
    {
        bytes_eq(&self.bytes, &other.bytes)
    }
}

/// Equal addresses (as byte sequences) have equal big-endian values and
/// conversely, since both are 20 bytes long.
pub proof fn lemma_eth_address_value_injective(a: EthAddress, b: EthAddress)
    requires
        a.wf(),
        b.wf(),
        be_val(a@) == be_val(b@),
    ensures
        a@ == b@,
{
    lemma_be_val_injective(a@, b@);
}

/// Whether a character is a hexadecimal digit.
pub open spec fn is_hex_digit(c: char) -> bool {
    (48 <= c as u32 && c as u32 <= 57) || (97 <= c as u32 && c as u32 <= 102) || (65 <= c as u32
        && c as u32 <= 70)
}

/// The value of a hexadecimal digit character.
pub open spec fn hex_digit_value(c: char) -> nat {
    if 48 <= c as u32 && c as u32 <= 57 {
        (c as u32 - 48) as nat
    } else if 97 <= c as u32 && c as u32 <= 102 {
        (c as u32 - 87) as nat
    } else if 65 <= c as u32 && c as u32 <= 70 {
        (c as u32 - 55) as nat
    } else {
        0
    }
}

/// A textual address with any leading `0x` removed.
pub open spec fn strip_hex_prefix(s: Seq<char>) -> Seq<char> {
    if s.len() >= 2 && s[0] == '0' && s[1] == 'x' {
        s.skip(2)
    } else {
        s
    }
}

/// Whether every character is a hexadecimal digit.
pub open spec fn all_hex_digits(h: Seq<char>) -> bool {
    forall|i: int| 0 <= i < h.len() ==> is_hex_digit(#[trigger] h[i])
}

/// The bytes spelled by a sequence of hexadecimal digit pairs.
pub open spec fn hex_bytes(h: Seq<char>) -> Seq<u8> {
    Seq::new(
        h.len() / 2,
        |i: int| (hex_digit_value(h[2 * i]) * 16 + hex_digit_value(h[2 * i + 1])) as u8,
    )
}

/// What parsing a textual Ethereum address yields: an optional `0x` prefix
/// followed by exactly 40 hexadecimal digits, read as 20 bytes.
pub open spec fn spec_parse_eth_address(s: Seq<char>) -> Option<Seq<u8>> {
    let h = strip_hex_prefix(s);
    if h.len() == 40 && all_hex_digits(h) {
        Some(hex_bytes(h))
    } else {
        None
    }
}

/// The value of one hexadecimal digit character, or `None` if it is not one.
fn hex_digit(c: char) -> (r: Option<u8>)
    ensures
        r is Some <==> is_hex_digit(c),
        r is Some ==> r->Some_0 == hex_digit_value(c),
{
    let v = c as u32;
    if 48 <= v && v <= 57 {
        Some((v - 48) as u8)
    } else if 97 <= v && v <= 102 {
        Some((v - 87) as u8)
    } else if 65 <= v && v <= 70 {
        Some((v - 55) as u8)
    } else {
        None
    }
}

/// What parsing a hexadecimal byte string yields: an optional `0x`
/// prefix followed by an even number of hexadecimal digits, read as
/// bytes.
pub open spec fn spec_parse_hex_bytes(s: Seq<char>) -> Option<Seq<u8>> {
    let h = strip_hex_prefix(s);
    if h.len() % 2 == 0 && all_hex_digits(h) {
        Some(hex_bytes(h))
    } else {
        None
    }
}

/// Parses a hexadecimal byte string: an optional `0x` prefix followed by
/// an even number of hexadecimal digits.
pub fn parse_hex_bytes(s: &str) -> (r: Option<Vec<u8>>)
    ensures
        match r {
            Some(b) => spec_parse_hex_bytes(s@) == Some(b@),
            None => spec_parse_hex_bytes(s@) is None,
        },
{
    let n = s.unicode_len();
    let has_prefix = n >= 2 && s.get_char(0) == '0' && s.get_char(1) == 'x';
    proof {
        assert(has_prefix == (s@.len() >= 2 && s@[0] == '0' && s@[1] == 'x'));
    }
    let offset: usize = if has_prefix {
        2
    } else {
        0
    };
    let ghost h = strip_hex_prefix(s@);
    let digits = n - offset;
    if digits % 2 != 0 {
        return None;
    }
    let count = digits / 2;
    let mut bytes: Vec<u8> = Vec::new();
    let mut i: usize = 0;
    while i < count
        invariant
            i <= count,
            n == s@.len(),
            offset <= n,
            2 * count + offset == n,
            h == strip_hex_prefix(s@),
            (offset == 2) == (s@.len() >= 2 && s@[0] == '0' && s@[1] == 'x'),
            offset == 2 ==> h =~= s@.skip(2),
            offset == 0 ==> h =~= s@,
            offset == 0 || offset == 2,
            s@.len() - offset == 2 * count,
            h.len() == 2 * count,
            bytes@.len() == i,
            forall|j: int|
                0 <= j < i ==> is_hex_digit(#[trigger] h[2 * j]) && is_hex_digit(h[2 * j + 1])
                    && bytes@[j] == (hex_digit_value(h[2 * j]) * 16 + hex_digit_value(
                    h[2 * j + 1],
                )) as u8,
        decreases count - i,
    {
        let c_hi = s.get_char(offset + 2 * i);
        let c_lo = s.get_char(offset + 2 * i + 1);
        proof {
            assert(h[2 * i as int] == s@[offset + 2 * i]);
            assert(h[2 * i as int + 1] == s@[offset + 2 * i + 1]);
        }
        let hi = match hex_digit(c_hi) {
            Some(v) => v,
            None => {
                proof {
                    assert(!all_hex_digits(h)) by {
                        assert(!is_hex_digit(h[2 * i as int]));
                    }
                }
                return None;
            },
        };
        let lo = match hex_digit(c_lo) {
            Some(v) => v,
            None => {
                proof {
                    assert(!all_hex_digits(h)) by {
                        assert(!is_hex_digit(h[2 * i as int + 1]));
                    }
                }
                return None;
            },
        };
        bytes.push(hi * 16 + lo);
        proof {
            assert forall|j: int|
                0 <= j < i + 1 implies is_hex_digit(#[trigger] h[2 * j]) && is_hex_digit(
                h[2 * j + 1],
            ) && bytes@[j] == (hex_digit_value(h[2 * j]) * 16 + hex_digit_value(
                h[2 * j + 1],
            )) as u8 by {
                if j == i as int {
                    assert(is_hex_digit(h[2 * i as int]));
                    assert(is_hex_digit(h[2 * i as int + 1]));
                }
            }
        }
        i += 1;
    }
    proof {
        assert(bytes@ =~= hex_bytes(h));
        assert(i == count);
        assert forall|k: int| 0 <= k < h.len() implies is_hex_digit(#[trigger] h[k]) by {
            let half = k / 2;
            assert(0 <= half < count);
            assert(is_hex_digit(h[2 * half]) && is_hex_digit(h[2 * half + 1]));
            if k % 2 == 0 {
                assert(2 * half == k);
            } else {
                assert(2 * half + 1 == k);
            }
        }
        assert(all_hex_digits(h));
    }
    Some(bytes)
}

/// Parses a textual Ethereum address: an optional `0x` prefix followed by
/// 40 hexadecimal digits.
pub fn parse_eth_address(s: &str) -> (r: Option<EthAddress>)
    ensures
        match r {
            Some(a) => a.wf() && spec_parse_eth_address(s@) == Some(a@),
            None => spec_parse_eth_address(s@) is None,
        },
{
    let ghost h = strip_hex_prefix(s@);
    match parse_hex_bytes(s) {
        Some(bytes) => {
            if bytes.len() == 20 {
                Some(EthAddress { bytes })
            } else {
                proof {
                    assert(h.len() != 40);
                }
                None
            }
        },
        None => {
            proof {
                if h.len() == 40 {
                    assert(h.len() % 2 == 0);
                }
            }
            None
        },
    }
}

/// The raw account bytes a bech32 address string names, as the outside
/// decoder reads them.
pub uninterp spec fn bech32_account_of(s: Seq<char>) -> Option<Seq<u8>>;

/// Relies on deep_space::Address::from_bech32: the decoded account bytes
/// a bech32 string names — 20 bytes for a base account, 32 for a derived
/// one — a function of the string alone.
#[verifier::external_body]
fn bech32_decode(s: &str) -> (r: Option<Vec<u8>>)
    ensures
        match r {
            Some(b) => bech32_account_of(s@) == Some(b@) && (b@.len() == 20 || b@.len() == 32),
            None => bech32_account_of(s@) is None,
        },
{
    match deep_space::Address::from_bech32(s.to_string()) {
        Ok(a) => Some(a.get_bytes().to_vec()),
        Err(_) => None,
    }
}

impl CosmosAddress {
    /// Parses a bech32 account address; only a 20-byte base account can
    /// take part in the bridge.
    pub fn from_bech32(s: &str) -> (r: Option<CosmosAddress>)
        ensures
            match r {
                Some(a) => a.wf() && bech32_account_of(s@) == Some(a@),
                None => bech32_account_of(s@) is None || (bech32_account_of(s@) matches Some(b)
                    && b.len() != 20),
            },
    {
        match bech32_decode(s) {
            Some(bytes) => {
                if bytes.len() == 20 {
                    Some(CosmosAddress { bytes })
                } else {
                    None
                }
            },
            None => None,
        }
    }
}

} // verus!
