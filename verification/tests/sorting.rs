//! The canonical submission order: power descending, address ascending.

use peggy_core::address::parse_eth_address;
use peggy_core::signatures::{sort_signatures, PeggySignature};
use peggy_core::uint256::Uint256;
use rand::seq::SliceRandom;

fn sig(power: u64, address: &str) -> PeggySignature {
    PeggySignature {
        power,
        eth_address: parse_eth_address(address).unwrap(),
        v: Uint256::from_u64(0),
        r: Uint256::from_u64(0),
        s: Uint256::from_u64(0),
    }
}

fn correct_order() -> Vec<PeggySignature> {
    vec![
        sig(685294939, "0x479FFc856Cdfa0f5D1AE6Fa61915b01351A7773D"),
        sig(678509841, "0x6db48cBBCeD754bDc760720e38E456144e83269b"),
        sig(671724742, "0x0A7254b318dd742A3086882321C27779B4B642a6"),
        sig(671724742, "0x454330deAaB759468065d08F2b3B0562caBe1dD1"),
        sig(671724742, "0x8E91960d704Df3fF24ECAb78AB9df1B5D9144140"),
        sig(617443955, "0x3511A211A6759d48d107898302042d1301187BA9"),
        sig(291759231, "0xF14879a175A2F1cEFC7c616f35b6d9c2b0Fd8326"),
        sig(6785098, "0x37A0603dA2ff6377E5C7f75698dabA8EE4Ba97B8"),
    ]
}

#[test]
fn test_valset_sort() {
    let correct = correct_order();
    let mut rng = rand::rng();
    let mut incorrect = correct.clone();

    incorrect.shuffle(&mut rng);
    assert_ne!(incorrect, correct);

    let sorted = sort_signatures(incorrect);
    assert_eq!(sorted, correct);
}

#[test]
fn sort_is_idempotent() {
    let correct = correct_order();
    let once = sort_signatures(correct.clone());
    let twice = sort_signatures(once.clone());
    assert_eq!(once, twice);
    assert_eq!(once, correct);
}

#[test]
fn sort_ties_break_by_address_ascending() {
    // Three entries of equal power must come out ordered by address bytes.
    let a = sig(50, "0x8E91960d704Df3fF24ECAb78AB9df1B5D9144140");
    let b = sig(50, "0x0A7254b318dd742A3086882321C27779B4B642a6");
    let c = sig(50, "0x454330deAaB759468065d08F2b3B0562caBe1dD1");
    let sorted = sort_signatures(vec![a.clone(), b.clone(), c.clone()]);
    assert_eq!(sorted, vec![b, c, a]);
}

#[test]
fn sort_orders_power_descending() {
    let lo = sig(1, "0x0A7254b318dd742A3086882321C27779B4B642a6");
    let hi = sig(1000, "0xF14879a175A2F1cEFC7c616f35b6d9c2b0Fd8326");
    let sorted = sort_signatures(vec![lo.clone(), hi.clone()]);
    assert_eq!(sorted, vec![hi, lo]);
}
