//! The validator-set model: address/power arrays, power lookup,
//! aggregation errors, address parsing and amounts.

use peggy_core::address::{parse_eth_address, CosmosAddress, EthAddress};
use peggy_core::error::PeggyError;
use peggy_core::signatures::{EthSignature, ValsetConfirmResponse};
use peggy_core::uint256::Uint256;
use peggy_core::valset::{Valset, ValsetMember, ValsetMemberUnparsed, ValsetUnparsed};
use peggy_core::wallet::hd_path_for_prefix;

fn addr(hex: &str) -> EthAddress {
    parse_eth_address(hex).unwrap()
}

fn confirmation(eth: &str) -> ValsetConfirmResponse {
    ValsetConfirmResponse {
        validator: CosmosAddress::from_bytes(vec![9u8; 20]),
        eth_address: addr(eth),
        nonce: Uint256::from_u64(1),
        eth_signature: EthSignature {
            v: Uint256::from_u64(27),
            r: Uint256::from_u64(101),
            s: Uint256::from_u64(202),
        },
    }
}

#[test]
fn filter_empty_addresses_keeps_order_and_zeroes_holes() {
    let set = Valset {
        nonce: 1,
        members: vec![
            ValsetMember {
                power: 11,
                eth_address: Some(addr("0x479FFc856Cdfa0f5D1AE6Fa61915b01351A7773D")),
            },
            ValsetMember { power: 22, eth_address: None },
            ValsetMember {
                power: 33,
                eth_address: Some(addr("0x6db48cBBCeD754bDc760720e38E456144e83269b")),
            },
        ],
    };
    let (addresses, powers) = set.filter_empty_addresses();
    assert_eq!(powers, vec![11, 22, 33]);
    assert_eq!(addresses.len(), 3);
    assert_eq!(addresses[0], addr("0x479FFc856Cdfa0f5D1AE6Fa61915b01351A7773D"));
    assert_eq!(addresses[1].bytes, vec![0u8; 20]);
    assert_eq!(addresses[2], addr("0x6db48cBBCeD754bDc760720e38E456144e83269b"));
}

#[test]
fn get_power_finds_member_or_not_found() {
    let set = Valset {
        nonce: 1,
        members: vec![
            ValsetMember {
                power: 11,
                eth_address: Some(addr("0x479FFc856Cdfa0f5D1AE6Fa61915b01351A7773D")),
            },
        ],
    };
    assert_eq!(
        set.get_power(&addr("0x479FFc856Cdfa0f5D1AE6Fa61915b01351A7773D")),
        Ok(11)
    );
    assert_eq!(
        set.get_power(&addr("0x6db48cBBCeD754bDc760720e38E456144e83269b")),
        Err(PeggyError::NotFound)
    );
}

#[test]
fn aggregation_fails_on_unmatched_signature() {
    let set = Valset {
        nonce: 1,
        members: vec![
            ValsetMember {
                power: 11,
                eth_address: Some(addr("0x479FFc856Cdfa0f5D1AE6Fa61915b01351A7773D")),
            },
        ],
    };
    let stranger = "0x6db48cBBCeD754bDc760720e38E456144e83269b";
    let r = set.order_valset_sigs(&vec![confirmation(stranger)]);
    assert_eq!(r, Err(PeggyError::UnmatchedSignature(addr(stranger))));
}

#[test]
fn aggregation_fails_on_incomplete_valset() {
    let set = Valset {
        nonce: 1,
        members: vec![
            ValsetMember {
                power: 11,
                eth_address: Some(addr("0x479FFc856Cdfa0f5D1AE6Fa61915b01351A7773D")),
            },
            ValsetMember { power: 22, eth_address: None },
        ],
    };
    // whatever the signature contents, the hole in the set decides
    let r = set.order_valset_sigs(&vec![
        confirmation("0x479FFc856Cdfa0f5D1AE6Fa61915b01351A7773D"),
    ]);
    assert_eq!(r, Err(PeggyError::IncompleteValidatorSet));
    let r = set.order_valset_sigs(&Vec::new());
    assert_eq!(r, Err(PeggyError::IncompleteValidatorSet));
}

#[test]
fn aggregation_orders_matched_signatures() {
    let low = "0x0A7254b318dd742A3086882321C27779B4B642a6";
    let high = "0x479FFc856Cdfa0f5D1AE6Fa61915b01351A7773D";
    let set = Valset {
        nonce: 1,
        members: vec![
            ValsetMember { power: 10, eth_address: Some(addr(low)) },
            ValsetMember { power: 900, eth_address: Some(addr(high)) },
        ],
    };
    let out = set
        .order_valset_sigs(&vec![confirmation(low), confirmation(high)])
        .unwrap();
    assert_eq!(out.len(), 2);
    assert_eq!(out[0].power, 900);
    assert_eq!(out[0].eth_address, addr(high));
    assert_eq!(out[1].power, 10);
    assert_eq!(out[1].eth_address, addr(low));
    // the signature scalars ride along
    assert_eq!(out[0].v, Uint256::from_u64(27));
    assert_eq!(out[0].r, Uint256::from_u64(101));
    assert_eq!(out[0].s, Uint256::from_u64(202));
}

#[test]
fn parse_eth_address_accepts_both_forms_and_rejects_garbage() {
    let with_prefix = parse_eth_address("0x479FFc856Cdfa0f5D1AE6Fa61915b01351A7773D").unwrap();
    let bare = parse_eth_address("479FFc856Cdfa0f5D1AE6Fa61915b01351A7773D").unwrap();
    assert_eq!(with_prefix, bare);
    assert_eq!(
        with_prefix.bytes,
        vec![
            0x47, 0x9F, 0xFc, 0x85, 0x6C, 0xdf, 0xa0, 0xf5, 0xD1, 0xAE, 0x6F, 0xa6, 0x19, 0x15,
            0xb0, 0x13, 0x51, 0xA7, 0x77, 0x3D
        ]
    );
    assert!(parse_eth_address("").is_none());
    assert!(parse_eth_address("0x1234").is_none());
    assert!(parse_eth_address("0xZ79FFc856Cdfa0f5D1AE6Fa61915b01351A7773D").is_none());
}

#[test]
fn convert_parses_members_and_keeps_powers() {
    let unparsed = ValsetUnparsed {
        nonce: 12,
        members: vec![
            ValsetMemberUnparsed {
                ethereum_address: "0x479FFc856Cdfa0f5D1AE6Fa61915b01351A7773D".to_string(),
                power: 100,
            },
            ValsetMemberUnparsed { ethereum_address: String::new(), power: 200 },
            ValsetMemberUnparsed { ethereum_address: "not-an-address".to_string(), power: 300 },
        ],
    };
    let valset = unparsed.convert();
    assert_eq!(valset.nonce, 12);
    assert_eq!(valset.members.len(), 3);
    assert_eq!(
        valset.members[0].eth_address,
        Some(addr("0x479FFc856Cdfa0f5D1AE6Fa61915b01351A7773D"))
    );
    assert_eq!(valset.members[0].power, 100);
    assert_eq!(valset.members[1].eth_address, None);
    assert_eq!(valset.members[1].power, 200);
    assert_eq!(valset.members[2].eth_address, None);
    assert_eq!(valset.members[2].power, 300);
}

#[test]
fn uint256_bytes_round_trip_and_overflow() {
    let x = Uint256::from_u64(0x0102_0304_0506_0708);
    let bytes = x.to_bytes_be();
    assert_eq!(bytes.len(), 32);
    assert_eq!(&bytes[24..], &[1, 2, 3, 4, 5, 6, 7, 8]);
    let back = Uint256::from_bytes_be(&bytes);
    assert_eq!(back, x);

    let max = Uint256::from_bytes_be(&vec![0xffu8; 32]);
    assert!(max.checked_add(&Uint256::from_u64(1)).is_none());
    let sum = Uint256::from_u64(2).checked_add(&Uint256::from_u64(3)).unwrap();
    assert_eq!(sum, Uint256::from_u64(5));
}

#[test]
fn hd_path_follows_prefix() {
    assert_eq!(hd_path_for_prefix("cosmos"), Some("m/44'/118'/0'/0/0"));
    assert_eq!(hd_path_for_prefix("und"), Some("m/44'/5555'/0'/0/0"));
    assert_eq!(hd_path_for_prefix("osmo"), None);
}

#[test]
fn bech32_addresses_decode_to_their_account_bytes() {
    // the all-zero account
    let zero = CosmosAddress::from_bech32("cosmos1qqqqqqqqqqqqqqqqqqqqqqqqqqqqqqqqnrql8a").unwrap();
    assert_eq!(zero.bytes, vec![0u8; 20]);
    // agrees with an independent decoder
    let ours = CosmosAddress::from_bech32("cosmos1vlms2r8f6x7yxjh3ynyzc7ckarqd8a96ckjvrp").unwrap();
    let reference =
        deep_space::Address::from_bech32("cosmos1vlms2r8f6x7yxjh3ynyzc7ckarqd8a96ckjvrp".to_string())
            .unwrap();
    assert_eq!(ours.bytes, reference.get_bytes().to_vec());
    assert!(CosmosAddress::from_bech32("not-bech32").is_none());
}

#[test]
fn signature_text_parses_into_scalars() {
    // 65 bytes: r, then s, then the recovery byte v
    let mut sig_hex = String::from("0x");
    sig_hex.push_str(&"11".repeat(32));
    sig_hex.push_str(&"22".repeat(32));
    sig_hex.push_str("1b");
    let sig = peggy_core::signatures::parse_eth_signature(&sig_hex).unwrap();
    assert_eq!(sig.r, Uint256::from_bytes_be(&vec![0x11u8; 32]));
    assert_eq!(sig.s, Uint256::from_bytes_be(&vec![0x22u8; 32]));
    assert_eq!(sig.v, Uint256::from_u64(27));
    // agrees with the reference parser
    let reference: clarity::Signature = sig_hex.parse().unwrap();
    assert_eq!(sig.r.bytes, reference.get_r().to_be_bytes().to_vec());
    assert_eq!(sig.s.bytes, reference.get_s().to_be_bytes().to_vec());
    // too short, and not hexadecimal at all
    assert!(peggy_core::signatures::parse_eth_signature("0x1122").is_none());
    assert!(peggy_core::signatures::parse_eth_signature("zz").is_none());
}

#[test]
fn valset_confirm_parses_from_reported_fields() {
    let mut sig_hex = String::from("0x");
    sig_hex.push_str(&"11".repeat(32));
    sig_hex.push_str(&"22".repeat(32));
    sig_hex.push_str("1c");
    let c = peggy_core::signatures::ValsetConfirmResponse::from_parts(
        "cosmos1qqqqqqqqqqqqqqqqqqqqqqqqqqqqqqqqnrql8a",
        "0x479FFc856Cdfa0f5D1AE6Fa61915b01351A7773D",
        42,
        &sig_hex,
    )
    .unwrap();
    assert_eq!(c.validator.bytes, vec![0u8; 20]);
    assert_eq!(c.eth_address, addr("0x479FFc856Cdfa0f5D1AE6Fa61915b01351A7773D"));
    assert_eq!(c.nonce, Uint256::from_u64(42));
    assert_eq!(c.eth_signature.v, Uint256::from_u64(28));

    let r = peggy_core::signatures::ValsetConfirmResponse::from_parts(
        "cosmos1qqqqqqqqqqqqqqqqqqqqqqqqqqqqqqqqnrql8a",
        "not-an-address",
        42,
        &sig_hex,
    );
    assert_eq!(r, Err(PeggyError::InvalidBridgeState));
}
