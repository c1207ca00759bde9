//! Batch assembly and the batch checkpoint.

use peggy_core::address::{parse_eth_address, CosmosAddress};
use peggy_core::batch::{BatchTransaction, Erc20Token, TransactionBatch};
use peggy_core::checkpoint::{encode_tx_batch_confirm, encode_valset_confirm};
use peggy_core::error::PeggyError;
use peggy_core::uint256::Uint256;
use peggy_core::valset::{Valset, ValsetMember};
use sha3::{Digest, Keccak256};

fn token(amount: u64) -> Erc20Token {
    Erc20Token {
        amount: Uint256::from_u64(amount),
        token_contract_address: parse_eth_address("0x6B175474E89094C44Da98b954EedeAC495271d0F")
            .unwrap(),
    }
}

fn transfer(id: u64, amount: u64, fee: u64) -> BatchTransaction {
    BatchTransaction {
        id,
        sender: CosmosAddress::from_bytes(vec![id as u8; 20]),
        destination: parse_eth_address("0x479FFc856Cdfa0f5D1AE6Fa61915b01351A7773D").unwrap(),
        erc20_token: token(amount),
        erc20_fee: token(fee),
    }
}

fn small_valset() -> Valset {
    Valset {
        nonce: 3,
        members: vec![
            ValsetMember {
                power: 1000,
                eth_address: Some(
                    parse_eth_address("0xc783df8a850f42e7F7e57013759C285caa701eB6").unwrap(),
                ),
            },
        ],
    }
}

#[test]
fn assemble_sums_fees() {
    let txs = vec![transfer(1, 500, 100), transfer(2, 700, 250), transfer(3, 900, 3)];
    let batch = TransactionBatch::assemble(5, 10_000, txs, small_valset()).unwrap();
    assert_eq!(batch.total_fee.amount, Uint256::from_u64(353));
    assert_eq!(
        batch.total_fee.token_contract_address,
        parse_eth_address("0x6B175474E89094C44Da98b954EedeAC495271d0F").unwrap()
    );
    assert_eq!(batch.token_contract, batch.total_fee.token_contract_address);
    assert_eq!(batch.nonce, 5);
    assert_eq!(batch.batch_timeout, 10_000);
    assert_eq!(batch.transactions.len(), 3);
}

#[test]
fn assemble_rejects_empty_batch() {
    let r = TransactionBatch::assemble(5, 10_000, Vec::new(), small_valset());
    assert_eq!(r, Err(PeggyError::EmptyBatch));
}

#[test]
fn from_parts_rejects_null_token_fields() {
    let sender = CosmosAddress::from_bytes(vec![1u8; 20]);
    let dest = parse_eth_address("0x479FFc856Cdfa0f5D1AE6Fa61915b01351A7773D").unwrap();
    let r = BatchTransaction::from_parts(1, sender.clone(), dest.clone(), None, Some(token(5)));
    assert_eq!(r, Err(PeggyError::InvalidBridgeState));
    let r = BatchTransaction::from_parts(1, sender.clone(), dest.clone(), Some(token(5)), None);
    assert_eq!(r, Err(PeggyError::InvalidBridgeState));
    let r = BatchTransaction::from_parts(1, sender, dest, Some(token(5)), Some(token(6)));
    assert!(r.is_ok());
}

#[test]
fn checkpoint_values_follow_transfer_order() {
    let txs = vec![transfer(1, 500, 100), transfer(2, 700, 250)];
    let batch = TransactionBatch::assemble(5, 10_000, txs, small_valset()).unwrap();
    let (amounts, destinations, fees) = batch.get_checkpoint_values();
    assert_eq!(amounts, vec![Uint256::from_u64(500), Uint256::from_u64(700)]);
    assert_eq!(fees, vec![Uint256::from_u64(100), Uint256::from_u64(250)]);
    assert_eq!(destinations.len(), 2);
}

#[test]
fn batch_checkpoint_embeds_valset_digest() {
    let txs = vec![transfer(1, 500, 100), transfer(2, 700, 250)];
    let batch = TransactionBatch::assemble(5, 10_000, txs, small_valset()).unwrap();
    let peggy_id = b"foo".to_vec();
    let encoded = encode_tx_batch_confirm(&peggy_id, &batch);
    // the third head word is the Keccak-256 digest of the associated
    // valset checkpoint
    let valset_bytes = encode_valset_confirm(&peggy_id, &batch.valset);
    let digest = Keccak256::digest(&valset_bytes).to_vec();
    assert_eq!(&encoded[64..96], digest.as_slice());
    // eight head words, then three length-prefixed arrays of two words
    assert_eq!(encoded.len(), 352 + 96 * 2);
}

#[test]
fn batch_checkpoint_changes_with_fee_and_nonce() {
    let peggy_id = b"foo".to_vec();
    let base = TransactionBatch::assemble(
        5,
        10_000,
        vec![transfer(1, 500, 100)],
        small_valset(),
    )
    .unwrap();
    let encoded = encode_tx_batch_confirm(&peggy_id, &base);

    let other_fee = TransactionBatch::assemble(
        5,
        10_000,
        vec![transfer(1, 500, 101)],
        small_valset(),
    )
    .unwrap();
    assert_ne!(encoded, encode_tx_batch_confirm(&peggy_id, &other_fee));

    let other_nonce = TransactionBatch::assemble(
        6,
        10_000,
        vec![transfer(1, 500, 100)],
        small_valset(),
    )
    .unwrap();
    assert_ne!(encoded, encode_tx_batch_confirm(&peggy_id, &other_nonce));
}

#[test]
fn erc20_token_parses_decimal_amount_and_contract() {
    let t = Erc20Token::from_parts(
        "1000000000000000000",
        "0x6B175474E89094C44Da98b954EedeAC495271d0F",
    )
    .unwrap();
    assert_eq!(t.amount, Uint256::from_u64(1_000_000_000_000_000_000));
    assert_eq!(
        t.token_contract_address,
        parse_eth_address("0x6B175474E89094C44Da98b954EedeAC495271d0F").unwrap()
    );
    // agrees with an independent decimal parser on a value past 64 bits
    let big = "123456789012345678901234567890";
    let ours = Erc20Token::from_parts(big, "0x6B175474E89094C44Da98b954EedeAC495271d0F")
        .unwrap()
        .amount;
    let reference: num256::Uint256 = big.parse().unwrap();
    assert_eq!(ours.bytes, reference.to_be_bytes().to_vec());
}

#[test]
fn erc20_token_rejects_malformed_or_oversized_fields() {
    let contract = "0x6B175474E89094C44Da98b954EedeAC495271d0F";
    assert_eq!(
        Erc20Token::from_parts("", contract),
        Err(PeggyError::InvalidBridgeState)
    );
    assert_eq!(
        Erc20Token::from_parts("12a", contract),
        Err(PeggyError::InvalidBridgeState)
    );
    assert_eq!(
        Erc20Token::from_parts("5", "not-hex"),
        Err(PeggyError::InvalidBridgeState)
    );
    // the largest 256-bit value parses; one more does not
    let max = "115792089237316195423570985008687907853269984665640564039457584007913129639935";
    let over = "115792089237316195423570985008687907853269984665640564039457584007913129639936";
    let t = Erc20Token::from_parts(max, contract).unwrap();
    assert_eq!(t.amount.bytes, vec![0xffu8; 32]);
    assert_eq!(
        Erc20Token::from_parts(over, contract),
        Err(PeggyError::InvalidBridgeState)
    );
}
