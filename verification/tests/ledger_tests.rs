use ledger_contract::account::AccountId;
use ledger_contract::actions::PublicKey;
use ledger_contract::contract::{Context, Contract};
use ledger_contract::ledger::{Ledger, MIN_VIABLE_BALANCE};
use ledger_contract::actions::{ActionBatch, LedgerAction};
use ledger_contract::lifecycle::create_subaccount;
use ledger_contract::{ContractError, MIN_STORAGE};

const ONE_NEAR: u128 = 1_000_000_000_000_000_000_000_000;
const FIFTH_NEAR: u128 = 200_000_000_000_000_000_000_000;

fn id(text: &str) -> AccountId {
    AccountId::new(text.to_string()).unwrap()
}

fn ctx_for(account: &str, balance: u128) -> Context {
    Context {
        current_account: id(account),
        predecessor: id(account),
        attached_deposit: 0,
        account_balance: balance,
    }
}

#[test]
fn funded_subaccount_exists_with_exact_balance() {
    let mut ledger = Ledger::new();
    assert!(ledger.bootstrap_account(id("alice.testnet"), ONE_NEAR));
    let parent = id("alice.testnet");
    let batch = create_subaccount(&parent, ONE_NEAR, "vault", FIFTH_NEAR).unwrap();
    assert!(ledger.apply_batch(&parent, &batch));
    assert_eq!(ledger.balance_of(&id("vault.alice.testnet")), Some(FIFTH_NEAR));
    assert_eq!(ledger.balance_of(&parent), Some(ONE_NEAR - FIFTH_NEAR));
}

#[test]
fn underfunded_subaccount_batch_fails_whole() {
    let mut ledger = Ledger::new();
    assert!(ledger.bootstrap_account(id("alice.testnet"), ONE_NEAR));
    let parent = id("alice.testnet");
    let low = MIN_VIABLE_BALANCE - 1;
    let batch = create_subaccount(&parent, ONE_NEAR, "vault", low).unwrap();
    assert!(!ledger.apply_batch(&parent, &batch));
    assert!(!ledger.holds_account(&id("vault.alice.testnet")));
    assert_eq!(ledger.balance_of(&parent), Some(ONE_NEAR));
}

#[test]
fn entry_point_rejects_malformed_prefix() {
    let contract = Contract::default();
    let ctx = ctx_for("alice.testnet", ONE_NEAR);
    let r = contract.create_sub_account(&ctx, "Upper".to_string());
    assert_eq!(r.err(), Some(ContractError::InvalidAccountId));
    let r = contract.create_sub_account(&ctx, "".to_string());
    assert_eq!(r.err(), Some(ContractError::InvalidAccountId));
}

#[test]
fn entry_point_rejects_funding_beyond_balance() {
    let contract = Contract::default();
    let ctx = ctx_for("alice.testnet", MIN_STORAGE - 1);
    let r = contract.create_sub_account(&ctx, "vault".to_string());
    assert_eq!(r.err(), Some(ContractError::Budget));
}

#[test]
fn create_sub_account_applies_on_ledger() {
    let mut ledger = Ledger::new();
    assert!(ledger.bootstrap_account(id("alice.testnet"), ONE_NEAR));
    let contract = Contract::default();
    let ctx = ctx_for("alice.testnet", ONE_NEAR);
    let batch = contract.create_sub_account(&ctx, "sub".to_string()).unwrap();
    assert!(ledger.apply_batch(&ctx.current_account, &batch));
    assert_eq!(ledger.balance_of(&id("sub.alice.testnet")), Some(MIN_STORAGE));
}

#[test]
fn create_hello_attaches_key_actions() {
    let contract = Contract::default();
    let ctx = ctx_for("alice.testnet", ONE_NEAR);
    let key = PublicKey { data: vec![1, 2, 3] };
    let batch = contract.create_hello(&ctx, "hello".to_string(), key).unwrap();
    assert_eq!(batch.target.as_str(), "hello.alice.testnet");
    assert_eq!(batch.actions.len(), 3);
}

#[test]
fn create_delete_pays_existing_beneficiary() {
    let mut ledger = Ledger::new();
    assert!(ledger.bootstrap_account(id("alice.testnet"), ONE_NEAR));
    assert!(ledger.bootstrap_account(id("bob.testnet"), ONE_NEAR));
    let contract = Contract::default();
    let ctx = ctx_for("alice.testnet", ONE_NEAR);
    let batch = contract.create_delete(&ctx, "gone".to_string(), id("bob.testnet")).unwrap();
    assert!(ledger.apply_batch(&ctx.current_account, &batch));
    assert!(!ledger.holds_account(&id("gone.alice.testnet")));
    assert_eq!(ledger.balance_of(&id("bob.testnet")), Some(ONE_NEAR + MIN_STORAGE));
    assert_eq!(ledger.balance_of(&id("alice.testnet")), Some(ONE_NEAR - MIN_STORAGE));
}

#[test]
fn self_delete_with_missing_beneficiary_loses_funds_silently() {
    let mut ledger = Ledger::new();
    assert!(ledger.bootstrap_account(id("prog.testnet"), ONE_NEAR));
    let ctx = ctx_for("prog.testnet", ONE_NEAR);
    let submitted = Contract::self_delete(&ctx, id("ghost.testnet"));
    assert!(submitted.is_ok());
    let batch = submitted.unwrap();
    assert!(ledger.apply_batch(&ctx.current_account, &batch));
    assert!(!ledger.holds_account(&id("prog.testnet")));
    assert!(!ledger.holds_account(&id("ghost.testnet")));
}

#[test]
fn transfer_requires_covering_balance() {
    let contract = Contract::default();
    let ctx = ctx_for("alice.testnet", 10);
    let r = contract.transfer(&ctx, id("bob.testnet"), 11);
    assert_eq!(r.err(), Some(ContractError::Budget));
    let batch = contract.transfer(&ctx, id("bob.testnet"), 10).unwrap();
    assert_eq!(batch.target.as_str(), "bob.testnet");
    assert_eq!(batch.actions.len(), 1);
}

#[test]
fn transfer_moves_value_between_accounts() {
    let mut ledger = Ledger::new();
    assert!(ledger.bootstrap_account(id("alice.testnet"), ONE_NEAR));
    assert!(ledger.bootstrap_account(id("bob.testnet"), ONE_NEAR));
    let contract = Contract::default();
    let ctx = ctx_for("alice.testnet", ONE_NEAR);
    let batch = contract.transfer(&ctx, id("bob.testnet"), 500).unwrap();
    assert!(ledger.apply_batch(&ctx.current_account, &batch));
    assert_eq!(ledger.balance_of(&id("bob.testnet")), Some(ONE_NEAR + 500));
    assert_eq!(ledger.balance_of(&id("alice.testnet")), Some(ONE_NEAR - 500));
}

#[test]
fn batch_failing_midway_applies_nothing() {
    let mut ledger = Ledger::new();
    assert!(ledger.bootstrap_account(id("alice.testnet"), ONE_NEAR));
    let parent = id("alice.testnet");
    // The third action overdraws the submitter, after two actions that
    // would have succeeded on their own.
    let batch = ActionBatch {
        target: id("sub.alice.testnet"),
        actions: vec![
            LedgerAction::CreateAccount,
            LedgerAction::Transfer { amount: MIN_STORAGE },
            LedgerAction::Transfer { amount: ONE_NEAR },
        ],
    };
    assert!(!ledger.apply_batch(&parent, &batch));
    assert!(!ledger.holds_account(&id("sub.alice.testnet")));
    assert_eq!(ledger.balance_of(&parent), Some(ONE_NEAR));
}

#[test]
fn creating_an_existing_account_fails_whole_batch() {
    let mut ledger = Ledger::new();
    assert!(ledger.bootstrap_account(id("alice.testnet"), ONE_NEAR));
    assert!(ledger.bootstrap_account(id("taken.alice.testnet"), ONE_NEAR));
    let parent = id("alice.testnet");
    let batch = create_subaccount(&parent, ONE_NEAR, "taken", FIFTH_NEAR).unwrap();
    assert!(!ledger.apply_batch(&parent, &batch));
    assert_eq!(ledger.balance_of(&parent), Some(ONE_NEAR));
    assert_eq!(ledger.balance_of(&id("taken.alice.testnet")), Some(ONE_NEAR));
}

#[test]
fn transfer_to_missing_account_fails_atomically() {
    let mut ledger = Ledger::new();
    assert!(ledger.bootstrap_account(id("alice.testnet"), ONE_NEAR));
    let contract = Contract::default();
    let ctx = ctx_for("alice.testnet", ONE_NEAR);
    let batch = contract.transfer(&ctx, id("nobody.testnet"), 500).unwrap();
    assert!(!ledger.apply_batch(&ctx.current_account, &batch));
    assert_eq!(ledger.balance_of(&id("alice.testnet")), Some(ONE_NEAR));
}
