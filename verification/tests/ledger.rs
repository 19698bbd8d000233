use erc20::AccountId;
use erc20::Erc20;
use erc20::Error;
use erc20::Transfer;
use erc20::same_account;

#[test]
fn new_works() {
    let contract = Erc20::new(777, AccountId::from([0x1; 32]));
    assert_eq!(contract.total_supply(), 777);
}

#[test]
fn balance_works() {
    let contract = Erc20::new(100, AccountId::from([0x1; 32]));
    assert_eq!(contract.total_supply(), 100);
    assert_eq!(contract.balance_of(AccountId::from([0x1; 32])), 100);
    assert_eq!(contract.balance_of(AccountId::from([0x0; 32])), 0);
}

#[test]
fn transfer_works() {
    let alice = AccountId::from([0x1; 32]);
    let bob = AccountId::from([0x0; 32]);
    let mut contract = Erc20::new(100, alice);

    // transfer 25 from alice to bob
    let _result = contract.transfer(alice, bob, 25);

    assert_eq!(contract.balance_of(alice), 75);
    assert_eq!(contract.balance_of(bob), 25);
}

#[test]
fn transfer_works_2() {
    let alice = AccountId::from([0x1; 32]);
    let mut erc20 = Erc20::new(100, alice);
    assert_eq!(erc20.balance_of(AccountId::from([0x0; 32])), 0);
    assert_eq!(erc20.transfer(alice, AccountId::from([0x0; 32]), 10), Ok(()));
    assert_eq!(erc20.balance_of(AccountId::from([0x0; 32])), 10);
}

#[test]
fn unknown_account_reads_zero() {
    let alice = AccountId::from([0x1; 32]);
    let contract = Erc20::new(100, alice);
    let unknown_account = AccountId::from([0x7; 32]);
    assert_eq!(contract.balance_of(unknown_account), 0);
}

#[test]
fn insufficient_balance_is_rejected_without_effect() {
    let alice = AccountId::from([0x1; 32]);
    let bob = AccountId::from([0x2; 32]);
    let mut contract = Erc20::new(100, alice);
    assert_eq!(
        contract.transfer(alice, bob, 150),
        Err(Error::InsufficientBalance)
    );
    assert_eq!(contract.balance_of(alice), 100);
    assert_eq!(contract.balance_of(bob), 0);
    // the failed transfer emitted nothing: only the issuance is logged
    assert_eq!(contract.events().len(), 1);
}

#[test]
fn self_transfer_is_identity_but_still_logged() {
    let alice = AccountId::from([0x1; 32]);
    let mut contract = Erc20::new(100, alice);
    assert_eq!(contract.transfer(alice, alice, 40), Ok(()));
    assert_eq!(contract.balance_of(alice), 100);
    assert_eq!(contract.events().len(), 2);
    assert_eq!(
        contract.events()[1],
        Transfer {
            from: Some(alice),
            to: Some(alice),
            value: 40,
        }
    );
}

#[test]
fn zero_value_transfer_always_succeeds() {
    let alice = AccountId::from([0x1; 32]);
    let bob = AccountId::from([0x2; 32]);
    let mut contract = Erc20::new(100, alice);
    // bob holds nothing, yet may send a zero-value transfer
    assert_eq!(contract.transfer(bob, alice, 0), Ok(()));
    assert_eq!(contract.balance_of(alice), 100);
    assert_eq!(contract.balance_of(bob), 0);
    assert_eq!(contract.events().len(), 2);
    assert_eq!(
        contract.events()[1],
        Transfer {
            from: Some(bob),
            to: Some(alice),
            value: 0,
        }
    );
}

#[test]
fn notification_stream_matches_operation_order() {
    let alice = AccountId::from([0x1; 32]);
    let bob = AccountId::from([0x2; 32]);
    let mut contract = Erc20::new(100, alice);
    assert_eq!(contract.transfer(alice, bob, 10), Ok(()));
    let events = contract.events();
    assert_eq!(events.len(), 2);
    assert_eq!(
        events[0],
        Transfer {
            from: None,
            to: Some(alice),
            value: 100,
        }
    );
    assert_eq!(
        events[1],
        Transfer {
            from: Some(alice),
            to: Some(bob),
            value: 10,
        }
    );
}

#[test]
fn balances_sum_to_initial_supply_after_transfers() {
    let a = AccountId::from([0xa; 32]);
    let b = AccountId::from([0xb; 32]);
    let c = AccountId::from([0xc; 32]);
    let mut contract = Erc20::new(1000, a);
    assert_eq!(contract.transfer(a, b, 300), Ok(()));
    assert_eq!(contract.transfer(b, c, 120), Ok(()));
    assert_eq!(contract.transfer(c, a, 20), Ok(()));
    assert_eq!(contract.balance_of(a), 720);
    assert_eq!(contract.balance_of(b), 180);
    assert_eq!(contract.balance_of(c), 100);
    let sum: u128 = contract.balance_of(a) + contract.balance_of(b) + contract.balance_of(c);
    assert_eq!(sum, 1000);
    assert_eq!(contract.total_supply(), 1000);
}

#[test]
fn whole_balance_can_move_at_the_largest_supply() {
    let a = AccountId::from([0x1; 32]);
    let b = AccountId::from([0x2; 32]);
    let mut contract = Erc20::new(u128::MAX, a);
    assert_eq!(contract.transfer(a, b, u128::MAX), Ok(()));
    assert_eq!(contract.balance_of(a), 0);
    assert_eq!(contract.balance_of(b), u128::MAX);
    assert_eq!(contract.total_supply(), u128::MAX);
}

#[test]
fn zero_supply_ledger_works() {
    let a = AccountId::from([0x1; 32]);
    let b = AccountId::from([0x2; 32]);
    let mut contract = Erc20::new(0, a);
    assert_eq!(contract.total_supply(), 0);
    assert_eq!(contract.balance_of(a), 0);
    assert_eq!(contract.transfer(a, b, 0), Ok(()));
    assert_eq!(contract.transfer(a, b, 1), Err(Error::InsufficientBalance));
}

#[test]
fn same_account_compares_bytes() {
    let a = AccountId::from([0x5; 32]);
    let b = AccountId::from([0x5; 32]);
    let mut other_bytes: [u8; 32] = [0x5; 32];
    other_bytes[31] = 0x6;
    let c = AccountId::from(other_bytes);
    assert!(same_account(&a, &b));
    assert!(!same_account(&a, &c));
    assert_eq!(a, b);
    assert_ne!(a, c);
}
