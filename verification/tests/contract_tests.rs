use ledger_contract::account::AccountId;
use ledger_contract::contract::{Context, Contract};
use ledger_contract::{CallOutcome, ContractError, Diagnostic, CALL_GAS, NO_DEPOSIT};

fn id(text: &str) -> AccountId {
    AccountId::new(text.to_string()).unwrap()
}

fn self_ctx(account: &str, balance: u128) -> Context {
    Context {
        current_account: id(account),
        predecessor: id(account),
        attached_deposit: 0,
        account_balance: balance,
    }
}

fn foreign_ctx(account: &str, caller: &str, balance: u128) -> Context {
    Context {
        current_account: id(account),
        predecessor: id(caller),
        attached_deposit: 0,
        account_balance: balance,
    }
}

#[test]
fn get_default_greeting() {
    let contract = Contract::default();
    assert_eq!(contract.get_greeting(), "Hello".to_string());
}

#[test]
fn set_then_get_greeting() {
    let mut contract = Contract::default();
    contract.set_greeting("howdy".to_string());
    assert_eq!(contract.get_greeting(), "howdy".to_string());
}

#[test]
fn init_builds_fresh_state() {
    let ctx = self_ctx("prog.testnet", 0);
    let c = Contract::init(&ctx, false, id("bene.testnet")).unwrap();
    assert_eq!(c.get_greeting(), "hala".to_string());
    assert_eq!(c.beneficiary_id().as_str(), "bene.testnet");
    assert_eq!(c.recorded_diagnostic(), None);
    assert!(!c.has_pending());
}

#[test]
fn init_twice_fails_and_resets_nothing() {
    let ctx = self_ctx("prog.testnet", 0);
    let mut c = Contract::init(&ctx, false, id("bene.testnet")).unwrap();
    c.set_greeting("kept".to_string());
    let again = Contract::init(&ctx, true, id("other.testnet"));
    assert_eq!(again.err(), Some(ContractError::AlreadyInitialized));
    assert_eq!(c.get_greeting(), "kept".to_string());
    assert_eq!(c.beneficiary_id().as_str(), "bene.testnet");
}

#[test]
fn init_rejects_foreign_caller() {
    let ctx = foreign_ctx("prog.testnet", "mallory.testnet", 0);
    let r = Contract::init(&ctx, false, id("bene.testnet"));
    assert_eq!(r.err(), Some(ContractError::Authorization));
}

#[test]
fn callback_rejects_foreign_caller_and_keeps_state() {
    let mut c = Contract::default();
    let own = self_ctx("prog.testnet", 0);
    c.call_method(&own).unwrap();
    let foreign = foreign_ctx("prog.testnet", "mallory.testnet", 0);
    let r = c.callback(&foreign, CallOutcome::Failed);
    assert_eq!(r.err(), Some(ContractError::Authorization));
    assert_eq!(c.get_greeting(), "howdy".to_string());
    assert!(c.has_pending());
    assert_eq!(c.recorded_diagnostic(), None);
}

#[test]
fn set_owner_rejects_foreign_caller() {
    let mut c = Contract::default();
    let foreign = foreign_ctx("prog.testnet", "mallory.testnet", 0);
    assert_eq!(c.set_owner(&foreign).err(), Some(ContractError::Authorization));
    let own = self_ctx("prog.testnet", 0);
    assert!(c.set_owner(&own).is_ok());
}

#[test]
fn self_delete_rejects_foreign_caller() {
    let foreign = foreign_ctx("prog.testnet", "mallory.testnet", 0);
    let r = Contract::self_delete(&foreign, id("bene.testnet"));
    assert_eq!(r.err(), Some(ContractError::Authorization));
}

#[test]
fn call_method_builds_chain_and_writes_optimistic_state() {
    let mut c = Contract::default();
    let ctx = self_ctx("prog.testnet", 0);
    let h = c.call_method(&ctx).unwrap();
    assert_eq!(h.target.as_str(), "hello-nearverse.testnet");
    assert_eq!(h.method, "set_greeting".to_string());
    assert_eq!(h.args, b"{\"message\":\"howdy\"}".to_vec());
    assert_eq!(h.deposit, NO_DEPOSIT);
    assert_eq!(h.gas, CALL_GAS);
    let follow = h.followup.expect("a follow-up must be chained");
    assert_eq!(follow.target.as_str(), "prog.testnet");
    assert_eq!(follow.method, "callback".to_string());
    assert!(follow.args.is_empty());
    assert!(follow.followup.is_none());
    assert_eq!(c.get_greeting(), "howdy".to_string());
    assert!(c.has_pending());
}

#[test]
fn remote_failure_is_compensated_and_diagnosed() {
    let mut c = Contract::default();
    let ctx = self_ctx("prog.testnet", 0);
    c.call_method(&ctx).unwrap();
    assert_eq!(c.get_greeting(), "howdy".to_string());
    let d = c.callback(&ctx, CallOutcome::Failed).unwrap();
    assert_eq!(d, Diagnostic::RemoteFailed);
    assert_eq!(c.get_greeting(), "Hello".to_string());
    assert!(!c.has_pending());
    assert_eq!(c.recorded_diagnostic(), Some(Diagnostic::RemoteFailed));
}

#[test]
fn remote_success_keeps_optimistic_state() {
    let mut c = Contract::default();
    let ctx = self_ctx("prog.testnet", 0);
    c.call_method(&ctx).unwrap();
    let d = c.callback(&ctx, CallOutcome::Completed).unwrap();
    assert_eq!(d, Diagnostic::RemoteSucceeded);
    assert_eq!(c.get_greeting(), "howdy".to_string());
    assert!(!c.has_pending());
    assert_eq!(c.recorded_diagnostic(), Some(Diagnostic::RemoteSucceeded));
}

#[test]
fn deposit_and_stake_accumulates_per_donor() {
    let mut c = Contract::default();
    let mut ctx = foreign_ctx("prog.testnet", "donor.testnet", 0);
    ctx.attached_deposit = 70;
    c.deposit_and_stake(&ctx).unwrap();
    ctx.attached_deposit = 30;
    c.deposit_and_stake(&ctx).unwrap();
    assert_eq!(c.donation_of(&id("donor.testnet")), Some(100));
    assert_eq!(c.donation_of(&id("nobody.testnet")), None);
    let mut other = foreign_ctx("prog.testnet", "second.testnet", 0);
    other.attached_deposit = 5;
    c.deposit_and_stake(&other).unwrap();
    assert_eq!(c.donation_of(&id("second.testnet")), Some(5));
    assert_eq!(c.donation_of(&id("donor.testnet")), Some(100));
}

#[test]
fn deposit_overflow_is_a_budget_error() {
    let mut c = Contract::default();
    let mut ctx = foreign_ctx("prog.testnet", "donor.testnet", 0);
    ctx.attached_deposit = u128::MAX;
    c.deposit_and_stake(&ctx).unwrap();
    ctx.attached_deposit = 1;
    let r = c.deposit_and_stake(&ctx);
    assert_eq!(r.err(), Some(ContractError::Budget));
    assert_eq!(c.donation_of(&id("donor.testnet")), Some(u128::MAX));
}
