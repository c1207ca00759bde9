//! Batch-signature aggregation and the submission arrays.

use peggy_core::address::{parse_eth_address, CosmosAddress, EthAddress};
use peggy_core::batch::{
    BatchTransaction, Erc20Token, SignedTransactionBatch, TransactionBatch,
};
use peggy_core::error::PeggyError;
use peggy_core::signatures::{to_arrays, EthSignature, SigWithAddress};
use peggy_core::uint256::Uint256;
use peggy_core::valset::{Valset, ValsetMember};

fn addr(hex: &str) -> EthAddress {
    parse_eth_address(hex).unwrap()
}

fn signature(eth: &str, r: u64) -> SigWithAddress {
    SigWithAddress {
        eth_address: addr(eth),
        eth_signature: EthSignature {
            v: Uint256::from_u64(28),
            r: Uint256::from_u64(r),
            s: Uint256::from_u64(r + 1),
        },
    }
}

fn one_tx_batch(valset: Valset) -> TransactionBatch {
    let contract = addr("0x6B175474E89094C44Da98b954EedeAC495271d0F");
    let tx = BatchTransaction {
        id: 1,
        sender: CosmosAddress::from_bytes(vec![3u8; 20]),
        destination: addr("0x479FFc856Cdfa0f5D1AE6Fa61915b01351A7773D"),
        erc20_token: Erc20Token { amount: Uint256::from_u64(10), token_contract_address: contract.clone() },
        erc20_fee: Erc20Token { amount: Uint256::from_u64(1), token_contract_address: contract },
    };
    TransactionBatch::assemble(1, 100, vec![tx], valset).unwrap()
}

#[test]
fn order_batch_sigs_sorts_by_power_then_address() {
    let a = "0x0A7254b318dd742A3086882321C27779B4B642a6";
    let b = "0x454330deAaB759468065d08F2b3B0562caBe1dD1";
    let c = "0x8E91960d704Df3fF24ECAb78AB9df1B5D9144140";
    let valset = Valset {
        nonce: 1,
        members: vec![
            ValsetMember { power: 50, eth_address: Some(addr(c)) },
            ValsetMember { power: 50, eth_address: Some(addr(a)) },
            ValsetMember { power: 70, eth_address: Some(addr(b)) },
        ],
    };
    let signed = SignedTransactionBatch {
        batch: one_tx_batch(valset.clone()),
        signatures: vec![signature(c, 1), signature(a, 2), signature(b, 3)],
    };
    let out = valset.order_batch_sigs(signed).unwrap();
    assert_eq!(out.len(), 3);
    assert_eq!(out[0].eth_address, addr(b));
    assert_eq!(out[0].power, 70);
    // equal powers tie-break by ascending address
    assert_eq!(out[1].eth_address, addr(a));
    assert_eq!(out[2].eth_address, addr(c));
}

#[test]
fn order_batch_sigs_rejects_stranger() {
    let member = "0x0A7254b318dd742A3086882321C27779B4B642a6";
    let stranger = "0xF14879a175A2F1cEFC7c616f35b6d9c2b0Fd8326";
    let valset = Valset {
        nonce: 1,
        members: vec![ValsetMember { power: 50, eth_address: Some(addr(member)) }],
    };
    let signed = SignedTransactionBatch {
        batch: one_tx_batch(valset.clone()),
        signatures: vec![signature(stranger, 1)],
    };
    assert_eq!(
        valset.order_batch_sigs(signed),
        Err(PeggyError::UnmatchedSignature(addr(stranger)))
    );
}

#[test]
fn to_arrays_keeps_order_and_fixed_width_scalars() {
    let a = "0x0A7254b318dd742A3086882321C27779B4B642a6";
    let b = "0x454330deAaB759468065d08F2b3B0562caBe1dD1";
    let valset = Valset {
        nonce: 1,
        members: vec![
            ValsetMember { power: 90, eth_address: Some(addr(a)) },
            ValsetMember { power: 10, eth_address: Some(addr(b)) },
        ],
    };
    let signed = SignedTransactionBatch {
        batch: one_tx_batch(valset.clone()),
        signatures: vec![signature(b, 7), signature(a, 5)],
    };
    let ordered = valset.order_batch_sigs(signed).unwrap();
    let arrays = to_arrays(ordered);
    assert_eq!(arrays.powers, vec![90, 10]);
    assert_eq!(arrays.addresses, vec![addr(a), addr(b)]);
    assert_eq!(arrays.v, vec![Uint256::from_u64(28), Uint256::from_u64(28)]);
    // r and s are fixed-width 32-byte big-endian strings, positionally
    // aligned with the address array
    assert_eq!(arrays.r.len(), 2);
    assert_eq!(arrays.r[0].len(), 32);
    assert_eq!(arrays.r[0][31], 5);
    assert_eq!(arrays.r[1][31], 7);
    assert_eq!(arrays.s[0][31], 6);
    assert_eq!(arrays.s[1][31], 8);
}

#[test]
fn batch_confirm_parses_from_reported_fields() {
    let mut sig_hex = String::from("0x");
    sig_hex.push_str(&"0a".repeat(32));
    sig_hex.push_str(&"0b".repeat(32));
    sig_hex.push_str("1b");
    let c = peggy_core::batch::BatchConfirmResponse::from_parts(
        7,
        "cosmos1qqqqqqqqqqqqqqqqqqqqqqqqqqqqqqqqnrql8a",
        "0x6B175474E89094C44Da98b954EedeAC495271d0F",
        "0x479FFc856Cdfa0f5D1AE6Fa61915b01351A7773D",
        &sig_hex,
    )
    .unwrap();
    assert_eq!(c.nonce, 7);
    assert_eq!(c.orchestrator.bytes, vec![0u8; 20]);
    assert_eq!(c.token_contract, addr("0x6B175474E89094C44Da98b954EedeAC495271d0F"));
    assert_eq!(c.get_eth_address(), addr("0x479FFc856Cdfa0f5D1AE6Fa61915b01351A7773D"));
    assert_eq!(c.get_signature().v, Uint256::from_u64(27));

    let r = peggy_core::batch::BatchConfirmResponse::from_parts(
        7,
        "not-bech32",
        "0x6B175474E89094C44Da98b954EedeAC495271d0F",
        "0x479FFc856Cdfa0f5D1AE6Fa61915b01351A7773D",
        &sig_hex,
    );
    assert_eq!(r, Err(PeggyError::InvalidBridgeState));
}
