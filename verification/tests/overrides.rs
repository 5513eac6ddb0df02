use std::sync::Arc;

use flashblocks_rpc::overrides::{Account, AccountInfo, AccountOverride, EvmState, StateOverride};
use flashblocks_rpc::primitives::{word_from_u256, U256};

fn account(balance: u64, nonce: u64, code: Option<Vec<u8>>, slots: &[(u64, u64)]) -> Account {
    Account {
        info: AccountInfo {
            balance: U256::from_u64(balance),
            nonce,
            code: code.map(Arc::new),
        },
        storage: slots
            .iter()
            .map(|(key, value)| (U256::from_u64(*key), U256::from_u64(*value)))
            .collect(),
    }
}

#[test]
fn default_overrides_nothing() {
    let overrides = StateOverride::default();
    assert!(overrides.get(&[1; 20]).is_none());
}

#[test]
fn a_touched_account_is_overridden() {
    let mut overrides = StateOverride::default();
    let state = EvmState {
        accounts: vec![([1; 20], account(10, 2, Some(vec![0x60, 0x00]), &[(5, 6), (7, 8)]))],
    };
    overrides.apply_state(&state);
    let account = overrides.get(&[1; 20]).unwrap();
    assert_eq!(account.balance, Some(U256::from_u64(10)));
    assert_eq!(account.nonce, Some(2));
    assert_eq!(*account.code.clone().unwrap(), vec![0x60, 0x00]);
    assert!(account.state.is_none());
    assert!(account.move_precompile_to.is_none());
    let diff = account.state_diff.as_ref().unwrap();
    assert_eq!(diff.len(), 2);
    assert_eq!(
        diff.get(&word_from_u256(U256::from_u64(5))),
        Some(&word_from_u256(U256::from_u64(6)))
    );
    assert_eq!(
        diff.get(&word_from_u256(U256::from_u64(7))),
        Some(&word_from_u256(U256::from_u64(8)))
    );
    assert!(overrides.get(&[2; 20]).is_none());
}

#[test]
fn later_transactions_replace_and_merge() {
    let mut overrides = StateOverride::default();
    overrides.apply_state(&EvmState {
        accounts: vec![
            ([1; 20], account(10, 2, Some(vec![1]), &[(5, 6), (7, 8)])),
            ([2; 20], account(1, 1, None, &[])),
        ],
    });
    overrides.apply_state(&EvmState {
        accounts: vec![([1; 20], account(9, 3, None, &[(5, 50), (9, 90)]))],
    });
    let first = overrides.get(&[1; 20]).unwrap();
    assert_eq!(first.balance, Some(U256::from_u64(9)));
    assert_eq!(first.nonce, Some(3));
    assert!(first.code.is_none());
    let diff = first.state_diff.as_ref().unwrap();
    assert_eq!(diff.len(), 3);
    assert_eq!(
        diff.get(&word_from_u256(U256::from_u64(5))),
        Some(&word_from_u256(U256::from_u64(50)))
    );
    assert_eq!(
        diff.get(&word_from_u256(U256::from_u64(7))),
        Some(&word_from_u256(U256::from_u64(8)))
    );
    let second = overrides.get(&[2; 20]).unwrap();
    assert_eq!(second.balance, Some(U256::from_u64(1)));
    assert_eq!(second.state_diff.as_ref().unwrap().len(), 0);
}

#[test]
fn what_was_set_by_hand_stays() {
    let mut overrides = StateOverride::default();
    let mut by_hand = AccountOverride::default();
    by_hand.move_precompile_to = Some([9; 20]);
    overrides.insert([1; 20], by_hand);
    overrides.apply_state(&EvmState { accounts: vec![([1; 20], account(4, 0, None, &[]))] });
    let account = overrides.get(&[1; 20]).unwrap();
    assert_eq!(account.move_precompile_to, Some([9; 20]));
    assert_eq!(account.balance, Some(U256::from_u64(4)));
}

#[test]
fn a_clone_is_independent() {
    let mut overrides = StateOverride::default();
    overrides.apply_state(&EvmState { accounts: vec![([1; 20], account(4, 0, None, &[(1, 2)]))] });
    let copy = overrides.clone();
    overrides.apply_state(&EvmState { accounts: vec![([1; 20], account(5, 1, None, &[(1, 3)]))] });
    let kept = copy.get(&[1; 20]).unwrap();
    assert_eq!(kept.balance, Some(U256::from_u64(4)));
    assert_eq!(
        kept.state_diff.as_ref().unwrap().get(&word_from_u256(U256::from_u64(1))),
        Some(&word_from_u256(U256::from_u64(2)))
    );
}

#[test]
fn overridden_accounts_are_listed() {
    let mut overrides = StateOverride::default();
    assert!(overrides.addresses().is_empty());
    overrides.apply_state(&EvmState {
        accounts: vec![([2; 20], account(1, 0, None, &[])), ([1; 20], account(1, 0, None, &[]))],
    });
    let mut addresses = overrides.addresses();
    addresses.sort();
    assert_eq!(addresses, vec![[1; 20], [2; 20]]);
}

#[test]
fn the_order_of_accounts_and_slots_makes_no_difference() {
    let one = || ([1; 20], account(1, 2, None, &[(1, 10), (2, 20)]));
    let one_reversed = || ([1; 20], account(1, 2, None, &[(2, 20), (1, 10)]));
    let two = || ([2; 20], account(3, 4, None, &[]));
    let mut a = StateOverride::default();
    a.apply_state(&EvmState { accounts: vec![one(), two()] });
    let mut b = StateOverride::default();
    b.apply_state(&EvmState { accounts: vec![two(), one_reversed()] });
    for address in [[1; 20], [2; 20]] {
        let (a, b) = (a.get(&address).unwrap(), b.get(&address).unwrap());
        assert_eq!(a.balance, b.balance);
        assert_eq!(a.nonce, b.nonce);
        assert_eq!(a.state_diff, b.state_diff);
    }
}

#[test]
fn a_slot_has_the_value_it_was_set_to_last() {
    let mut overrides = StateOverride::default();
    overrides.apply_state(&EvmState {
        accounts: vec![([1; 20], account(1, 0, None, &[(1, 10), (2, 20), (1, 11)]))],
    });
    let diff = overrides.get(&[1; 20]).unwrap().state_diff.as_ref().unwrap();
    assert_eq!(diff.len(), 2);
    assert_eq!(
        diff.get(&word_from_u256(U256::from_u64(1))),
        Some(&word_from_u256(U256::from_u64(11)))
    );
}
