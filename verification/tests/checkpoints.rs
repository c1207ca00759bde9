//! Checkpoint encoding against the byte sequences the bridge contract
//! verifies, including a vector cross-checked with clarity's own ABI
//! encoder and an independently computed Keccak-256 digest.

use clarity::abi::{encode_tokens, AbiToken};
use clarity::utils::bytes_to_hex_str;
use peggy_core::address::parse_eth_address;
use peggy_core::checkpoint::{encode_valset_confirm, valset_checkpoint_digest};
use peggy_core::valset::{Valset, ValsetMember};
use sha3::{Digest, Keccak256};

fn member(power: u64, address: &str) -> ValsetMember {
    ValsetMember { power, eth_address: Some(parse_eth_address(address).unwrap()) }
}

fn three_member_set() -> Valset {
    Valset {
        nonce: 0,
        members: vec![
            member(3333, "0xc783df8a850f42e7F7e57013759C285caa701eB6"),
            member(3333, "0xeAD9C93b79Ae7C1591b1FB5323BD777E86e150d4"),
            member(3333, "0xE5904695748fe4A84b40b3fc79De2277660BD1D3"),
        ],
    }
}

#[test]
fn valset_checkpoint_matches_reference_encoder() {
    // The same tuple encoded through clarity's ABI encoder gives the
    // same bytes.
    let valset = three_member_set();
    let peggy_id = b"foo".to_vec();
    let encoded = encode_valset_confirm(&peggy_id, &valset);

    let validators: AbiToken = vec![
        "0xc783df8a850f42e7F7e57013759C285caa701eB6"
            .parse::<clarity::Address>()
            .unwrap(),
        "0xeAD9C93b79Ae7C1591b1FB5323BD777E86e150d4".parse().unwrap(),
        "0xE5904695748fe4A84b40b3fc79De2277660BD1D3".parse().unwrap(),
    ]
    .into();
    let powers: AbiToken = vec![3333u32, 3333, 3333].into();
    let reference = encode_tokens(&[
        AbiToken::FixedString("foo".to_string()),
        AbiToken::FixedString("checkpoint".to_string()),
        AbiToken::Uint(0u32.into()),
        validators,
        powers,
    ]);
    assert_eq!(encoded, reference);
}

#[test]
fn valset_digest_matches_independent_keccak() {
    // The digest must equal a Keccak-256 computed by an independent
    // implementation; an encoder or hasher handing bytes through
    // unchanged would fail here.
    let valset = three_member_set();
    let peggy_id = b"foo".to_vec();
    let encoded = encode_valset_confirm(&peggy_id, &valset);
    let digest = valset_checkpoint_digest(&peggy_id, &valset);
    let independent = Keccak256::digest(&encoded).to_vec();
    assert_eq!(digest, independent);
    assert_eq!(
        bytes_to_hex_str(&digest),
        "88165860d955aee7dc3e83d9d1156a5864b708841965585d206dbef6e9e1a499"
    );
}

#[test]
fn valset_checkpoint_is_deterministic() {
    let valset = three_member_set();
    let peggy_id = b"a-32-byte-domain-separator".to_vec();
    let first = encode_valset_confirm(&peggy_id, &valset);
    let second = encode_valset_confirm(&peggy_id, &valset);
    assert_eq!(first, second);
}

#[test]
fn valset_checkpoint_changes_with_each_field() {
    let base = three_member_set();
    let peggy_id = b"foo".to_vec();
    let encoded = encode_valset_confirm(&peggy_id, &base);

    let mut other_nonce = three_member_set();
    other_nonce.nonce = 1;
    assert_ne!(encoded, encode_valset_confirm(&peggy_id, &other_nonce));

    let mut other_power = three_member_set();
    other_power.members[1].power = 3334;
    assert_ne!(encoded, encode_valset_confirm(&peggy_id, &other_power));

    let mut other_address = three_member_set();
    other_address.members[2] = member(3333, "0x479FFc856Cdfa0f5D1AE6Fa61915b01351A7773D");
    assert_ne!(encoded, encode_valset_confirm(&peggy_id, &other_address));

    let other_id = b"bar".to_vec();
    assert_ne!(encoded, encode_valset_confirm(&other_id, &base));
}

#[test]
fn unregistered_member_encodes_as_zero_address() {
    let with_hole = Valset {
        nonce: 7,
        members: vec![
            member(10, "0xc783df8a850f42e7F7e57013759C285caa701eB6"),
            ValsetMember { power: 20, eth_address: None },
        ],
    };
    let all_zero = Valset {
        nonce: 7,
        members: vec![
            member(10, "0xc783df8a850f42e7F7e57013759C285caa701eB6"),
            member(20, "0x0000000000000000000000000000000000000000"),
        ],
    };
    let peggy_id = b"foo".to_vec();
    assert_eq!(
        encode_valset_confirm(&peggy_id, &with_hole),
        encode_valset_confirm(&peggy_id, &all_zero)
    );
}
