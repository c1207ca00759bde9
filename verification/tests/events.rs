//! Decoding raw Ethereum logs into claims.

use peggy_core::error::PeggyError;
use peggy_core::events::{
    claims_in_submission_order, BridgeClaim, LogRecord, SendToCosmosEvent,
    TransactionBatchExecutedEvent, ValsetUpdatedEvent,
};
use peggy_core::uint256::Uint256;

fn word_of(value: u64) -> Vec<u8> {
    let mut w = vec![0u8; 24];
    w.extend_from_slice(&value.to_be_bytes());
    w
}

fn address_topic(addr: &[u8; 20]) -> Vec<u8> {
    let mut t = vec![0u8; 12];
    t.extend_from_slice(addr);
    t
}

#[test]
fn valset_updated_decodes_nonce() {
    let log = LogRecord { topics: vec![word_of(0), word_of(42)], data: Vec::new() };
    let e = ValsetUpdatedEvent::from_log(&log).unwrap();
    assert_eq!(e.nonce, Uint256::from_u64(42));
}

#[test]
fn valset_updated_too_few_topics() {
    let log = LogRecord { topics: vec![word_of(0)], data: Vec::new() };
    assert_eq!(ValsetUpdatedEvent::from_log(&log), Err(PeggyError::TooFewTopics));
}

#[test]
fn batch_executed_decodes_all_fields() {
    let erc20 = [0xabu8; 20];
    let log = LogRecord {
        topics: vec![word_of(0), word_of(9), address_topic(&erc20)],
        data: word_of(77),
    };
    let e = TransactionBatchExecutedEvent::from_log(&log).unwrap();
    assert_eq!(e.batch_nonce, Uint256::from_u64(9));
    assert_eq!(e.erc20.bytes, erc20.to_vec());
    assert_eq!(e.event_nonce, Uint256::from_u64(77));
}

#[test]
fn batch_executed_too_few_topics() {
    let log = LogRecord { topics: vec![word_of(0), word_of(9)], data: word_of(77) };
    assert_eq!(
        TransactionBatchExecutedEvent::from_log(&log),
        Err(PeggyError::TooFewTopics)
    );
    // the topic count decides even when the data payload is short too
    let truncated = LogRecord { topics: vec![word_of(0)], data: Vec::new() };
    assert_eq!(
        TransactionBatchExecutedEvent::from_log(&truncated),
        Err(PeggyError::TooFewTopics)
    );
}

#[test]
fn send_to_cosmos_recovers_little_endian_destination() {
    // the Cosmos destination sits in the low 20 bytes of topic 3,
    // little-endian, and must come back exactly
    let destination: [u8; 20] = [
        1, 2, 3, 4, 5, 6, 7, 8, 9, 10, 11, 12, 13, 14, 15, 16, 17, 18, 19, 20,
    ];
    let mut topic3 = destination.to_vec();
    topic3.extend_from_slice(&[0u8; 12]);
    let erc20 = [0x11u8; 20];
    let sender = [0x22u8; 20];
    let mut data = word_of(123_456);
    data.extend_from_slice(&word_of(321));
    let log = LogRecord {
        topics: vec![word_of(0), address_topic(&erc20), address_topic(&sender), topic3],
        data,
    };
    let e = SendToCosmosEvent::from_log(&log).unwrap();
    assert_eq!(e.destination.bytes, destination.to_vec());
    assert_eq!(e.erc20.bytes, erc20.to_vec());
    assert_eq!(e.sender.bytes, sender.to_vec());
    assert_eq!(e.amount, Uint256::from_u64(123_456));
    assert_eq!(e.event_nonce, Uint256::from_u64(321));
}

#[test]
fn send_to_cosmos_too_few_topics() {
    let mut data = word_of(1);
    data.extend_from_slice(&word_of(2));
    let log = LogRecord {
        topics: vec![word_of(0), word_of(1), word_of(2)],
        data,
    };
    assert_eq!(SendToCosmosEvent::from_log(&log), Err(PeggyError::TooFewTopics));
    // the topic count decides even when the data payload is short too
    let truncated = LogRecord { topics: vec![word_of(0)], data: Vec::new() };
    assert_eq!(SendToCosmosEvent::from_log(&truncated), Err(PeggyError::TooFewTopics));
}

#[test]
fn from_logs_preserves_input_order() {
    let logs = vec![
        LogRecord { topics: vec![word_of(0), word_of(5)], data: Vec::new() },
        LogRecord { topics: vec![word_of(0), word_of(2)], data: Vec::new() },
        LogRecord { topics: vec![word_of(0), word_of(9)], data: Vec::new() },
    ];
    let events = ValsetUpdatedEvent::from_logs(&logs).unwrap();
    let nonces: Vec<Uint256> = events.into_iter().map(|e| e.nonce).collect();
    assert_eq!(
        nonces,
        vec![Uint256::from_u64(5), Uint256::from_u64(2), Uint256::from_u64(9)]
    );
}

#[test]
fn from_logs_fails_on_first_malformed_record() {
    let logs = vec![
        LogRecord { topics: vec![word_of(0), word_of(5)], data: Vec::new() },
        LogRecord { topics: vec![word_of(0)], data: Vec::new() },
    ];
    assert_eq!(ValsetUpdatedEvent::from_logs(&logs), Err(PeggyError::TooFewTopics));
}

#[test]
fn claim_order_check_accepts_increasing_nonces() {
    let claims = vec![
        BridgeClaim::ValsetUpdated { nonce: Uint256::from_u64(5) },
        BridgeClaim::BatchExecuted {
            batch_nonce: Uint256::from_u64(1),
            token_contract: peggy_core::address::EthAddress::from_bytes(vec![7u8; 20]),
            event_nonce: Uint256::from_u64(10),
        },
        BridgeClaim::Erc20Deployed {
            token_contract: peggy_core::address::EthAddress::from_bytes(vec![8u8; 20]),
            event_nonce: Uint256::from_u64(11),
        },
    ];
    assert!(claims_in_submission_order(&claims));
}

#[test]
fn claim_order_check_rejects_equal_or_decreasing_nonces() {
    let claim = |n: u64| BridgeClaim::Erc20Deployed {
        token_contract: peggy_core::address::EthAddress::from_bytes(vec![8u8; 20]),
        event_nonce: Uint256::from_u64(n),
    };
    assert!(!claims_in_submission_order(&vec![claim(10), claim(10)]));
    assert!(!claims_in_submission_order(&vec![claim(10), claim(9)]));
}

#[test]
fn events_become_their_claims() {
    let log = LogRecord { topics: vec![word_of(0), word_of(42)], data: Vec::new() };
    let claim = ValsetUpdatedEvent::from_log(&log).unwrap().into_claim();
    assert_eq!(claim, BridgeClaim::ValsetUpdated { nonce: Uint256::from_u64(42) });

    let erc20 = [0xabu8; 20];
    let log = LogRecord {
        topics: vec![word_of(0), word_of(9), address_topic(&erc20)],
        data: word_of(77),
    };
    let claim = TransactionBatchExecutedEvent::from_log(&log).unwrap().into_claim();
    match claim {
        BridgeClaim::BatchExecuted { batch_nonce, token_contract, event_nonce } => {
            assert_eq!(batch_nonce, Uint256::from_u64(9));
            assert_eq!(token_contract.bytes, erc20.to_vec());
            assert_eq!(event_nonce, Uint256::from_u64(77));
        }
        other => panic!("decoded the wrong claim kind: {other:?}"),
    }
}
