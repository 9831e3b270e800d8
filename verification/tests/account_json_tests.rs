use ledger_contract::account::AccountId;
use ledger_contract::contract::{Context, Contract};
use ledger_contract::json::{encode_object1, encode_object2};
use ledger_contract::{ContractError, CALL_GAS, MIN_STORAGE};

fn id(text: &str) -> AccountId {
    AccountId::new(text.to_string()).unwrap()
}

#[test]
fn account_grammar_accepts_and_rejects() {
    assert!(AccountId::new("alice.testnet".to_string()).is_some());
    assert!(AccountId::new("a1-b_c.d2".to_string()).is_some());
    assert!(AccountId::new("ok".to_string()).is_some());
    assert!(AccountId::new("a".to_string()).is_none());
    assert!(AccountId::new("Alice.testnet".to_string()).is_none());
    assert!(AccountId::new("-alice".to_string()).is_none());
    assert!(AccountId::new("alice-".to_string()).is_none());
    assert!(AccountId::new("a..b".to_string()).is_none());
    assert!(AccountId::new("a.-b".to_string()).is_none());
    assert!(AccountId::new("has space".to_string()).is_none());
    let long = "x".repeat(64);
    assert!(AccountId::new(long.clone()).is_some());
    assert!(AccountId::new(format!("{}y", long)).is_none());
}

#[test]
fn child_identifier_is_derived_and_validated() {
    let parent = id("alice.testnet");
    assert_eq!(
        ledger_contract::account::make_child_id("vault", &parent).unwrap().as_str(),
        "vault.alice.testnet"
    );
    assert!(ledger_contract::account::make_child_id("BAD", &parent).is_none());
    let parent_long = AccountId::new("x".repeat(60)).unwrap();
    assert!(ledger_contract::account::make_child_id("abcd", &parent_long).is_none());
    assert!(ledger_contract::account::make_child_id("abc", &parent_long).is_some());
}

#[test]
fn json_single_field_is_exact() {
    let got = encode_object1("message", "howdy");
    assert_eq!(got, b"{\"message\":\"howdy\"}".to_vec());
}

#[test]
fn json_escapes_quotes_and_backslashes() {
    let got = encode_object1("message", "say \"hi\" \\ bye");
    assert_eq!(got, b"{\"message\":\"say \\\"hi\\\" \\\\ bye\"}".to_vec());
}

#[test]
fn json_two_fields_are_exact() {
    let got = encode_object2("new_account_id", "bob.testnet", "new_public_key", "ed25519:abc");
    assert_eq!(
        got,
        b"{\"new_account_id\":\"bob.testnet\",\"new_public_key\":\"ed25519:abc\"}".to_vec()
    );
}

#[test]
fn create_other_account_encodes_payload() {
    let contract = Contract::default();
    let ctx = Context {
        current_account: id("alice.testnet"),
        predecessor: id("alice.testnet"),
        attached_deposit: 0,
        account_balance: MIN_STORAGE,
    };
    let h = contract
        .create_other_account(&ctx, "bob.testnet".to_string(), "ed25519:abc".to_string())
        .unwrap();
    assert_eq!(h.target.as_str(), "testnet");
    assert_eq!(h.method, "create_account".to_string());
    assert_eq!(
        h.args,
        b"{\"new_account_id\":\"bob.testnet\",\"new_public_key\":\"ed25519:abc\"}".to_vec()
    );
    assert_eq!(h.deposit, MIN_STORAGE);
    assert_eq!(h.gas, CALL_GAS);
    assert!(h.followup.is_none());
}

#[test]
fn create_other_account_rejects_non_ascii_text() {
    let contract = Contract::default();
    let ctx = Context {
        current_account: id("alice.testnet"),
        predecessor: id("alice.testnet"),
        attached_deposit: 0,
        account_balance: MIN_STORAGE,
    };
    let r = contract.create_other_account(&ctx, "caf\u{e9}.testnet".to_string(), "k".to_string());
    assert_eq!(r.err(), Some(ContractError::InvalidArgument));
}
