use vstd::prelude::*;

use crate::account::{account_id_valid, child_id_seq, make_child_id, AccountId};
use crate::actions::{ActionBatch, LedgerAction, PublicKey};
use crate::ledger::{apply_batch_spec, spec_transfer, viable_created, MIN_VIABLE_BALANCE};
use crate::{Balance, ContractError};

verus! {

/// Derives `<label>.<parent>` and emits the atomic batch
/// {create-account, transfer(funding)}. The entry point itself refuses only
/// a malformed child identifier or funding beyond the held balance; a
/// funding below the ledger's viability floor fails later, at the batch.
pub fn create_subaccount(parent: &AccountId, balance: Balance, label: &str, funding: Balance) -> (r:
    Result<ActionBatch, ContractError>)
    ensures
        !account_id_valid(child_id_seq(label@, parent@)) ==> r == Result::<
            ActionBatch,
            ContractError,
        >::Err(ContractError::InvalidAccountId),
        account_id_valid(child_id_seq(label@, parent@)) && funding > balance ==> r == Result::<
            ActionBatch,
            ContractError,
        >::Err(ContractError::Budget),
        r is Ok <==> account_id_valid(child_id_seq(label@, parent@)) && funding <= balance,
        r matches Ok(b) ==> {
            &&& b.target@ == child_id_seq(label@, parent@)
            &&& b.actions@ =~= seq![
                LedgerAction::CreateAccount,
                LedgerAction::Transfer { amount: funding },
            ]
            &&& b.attached_value() == funding
        },
{
    let child = match make_child_id(label, parent) {
        Option::Some(c) => c,
        Option::None => {
            return Err(ContractError::InvalidAccountId);
        },
    };
    if funding > balance {
        return Err(ContractError::Budget);
    }
    let mut actions: Vec<LedgerAction> = Vec::new();
    actions.push(LedgerAction::CreateAccount);
    actions.push(LedgerAction::Transfer { amount: funding });
    let batch = ActionBatch { target: child, actions };
    proof {
        assert(batch.actions@.drop_last() =~= seq![LedgerAction::CreateAccount]);
        assert(batch.actions@.drop_last().drop_last() =~= Seq::<LedgerAction>::empty());
        assert(crate::actions::actions_value(Seq::<LedgerAction>::empty()) == 0);
        assert(crate::actions::actions_value(batch.actions@.drop_last()) == 0);
        assert(batch.attached_value() == funding);
    }
    Ok(batch)
}

/// As `create_subaccount`, with a third action attaching a full-access key,
/// so the new account gains independent signing capability.
pub fn create_subaccount_with_key(
    parent: &AccountId,
    balance: Balance,
    label: &str,
    funding: Balance,
    public_key: PublicKey,
) -> (r: Result<ActionBatch, ContractError>)
    ensures
        !account_id_valid(child_id_seq(label@, parent@)) ==> r == Result::<
            ActionBatch,
            ContractError,
        >::Err(ContractError::InvalidAccountId),
        account_id_valid(child_id_seq(label@, parent@)) && funding > balance ==> r == Result::<
            ActionBatch,
            ContractError,
        >::Err(ContractError::Budget),
        r is Ok <==> account_id_valid(child_id_seq(label@, parent@)) && funding <= balance,
        r matches Ok(b) ==> {
            &&& b.target@ == child_id_seq(label@, parent@)
            &&& b.actions@.len() == 3
            &&& b.actions@[0] == LedgerAction::CreateAccount
            &&& b.actions@[1] == LedgerAction::Transfer { amount: funding }
            &&& b.actions@[2] matches LedgerAction::AddFullAccessKey { key } && key.data@
                == public_key.data@
            &&& b.attached_value() == funding
        },
{
    let child = match make_child_id(label, parent) {
        Option::Some(c) => c,
        Option::None => {
            return Err(ContractError::InvalidAccountId);
        },
    };
    if funding > balance {
        return Err(ContractError::Budget);
    }
    let mut actions: Vec<LedgerAction> = Vec::new();
    actions.push(LedgerAction::CreateAccount);
    actions.push(LedgerAction::Transfer { amount: funding });
    actions.push(LedgerAction::AddFullAccessKey { key: public_key });
    let batch = ActionBatch { target: child, actions };
    proof {
        assert(batch.actions@.drop_last() =~= seq![
            LedgerAction::CreateAccount,
            LedgerAction::Transfer { amount: funding },
        ]);
        assert(batch.actions@.drop_last().drop_last() =~= seq![LedgerAction::CreateAccount]);
        assert(batch.actions@.drop_last().drop_last().drop_last() =~= Seq::<
            LedgerAction,
        >::empty());
        assert(crate::actions::actions_value(Seq::<LedgerAction>::empty()) == 0);
        assert(crate::actions::actions_value(batch.actions@.drop_last().drop_last()) == 0);
        assert(crate::actions::actions_value(batch.actions@.drop_last()) == funding);
        assert(batch.attached_value() == funding);
    }
    Ok(batch)
}

/// Creates `<label>.<parent>`, funds it, and deletes it again in the same
/// batch, directing the remainder to `beneficiary`. If `beneficiary` does
/// not exist on the ledger, that remainder is permanently lost — a
/// documented hazard, not a failure the batch reports; validate the
/// beneficiary through an external query first when loss matters.
pub fn delete_subaccount(
    parent: &AccountId,
    balance: Balance,
    label: &str,
    funding: Balance,
    beneficiary: AccountId,
) -> (r: Result<ActionBatch, ContractError>)
    ensures
        !account_id_valid(child_id_seq(label@, parent@)) ==> r == Result::<
            ActionBatch,
            ContractError,
        >::Err(ContractError::InvalidAccountId),
        account_id_valid(child_id_seq(label@, parent@)) && funding > balance ==> r == Result::<
            ActionBatch,
            ContractError,
        >::Err(ContractError::Budget),
        r is Ok <==> account_id_valid(child_id_seq(label@, parent@)) && funding <= balance,
        r matches Ok(b) ==> {
            &&& b.target@ == child_id_seq(label@, parent@)
            &&& b.actions@.len() == 3
            &&& b.actions@[0] == LedgerAction::CreateAccount
            &&& b.actions@[1] == LedgerAction::Transfer { amount: funding }
            &&& b.actions@[2] matches LedgerAction::DeleteAccount { beneficiary: ben } && ben@
                == beneficiary@
            &&& b.attached_value() == funding
        },
{
    let child = match make_child_id(label, parent) {
        Option::Some(c) => c,
        Option::None => {
            return Err(ContractError::InvalidAccountId);
        },
    };
    if funding > balance {
        return Err(ContractError::Budget);
    }
    let mut actions: Vec<LedgerAction> = Vec::new();
    actions.push(LedgerAction::CreateAccount);
    actions.push(LedgerAction::Transfer { amount: funding });
    actions.push(LedgerAction::DeleteAccount { beneficiary });
    let batch = ActionBatch { target: child, actions };
    proof {
        assert(batch.actions@.drop_last() =~= seq![
            LedgerAction::CreateAccount,
            LedgerAction::Transfer { amount: funding },
        ]);
        assert(batch.actions@.drop_last().drop_last() =~= seq![LedgerAction::CreateAccount]);
        assert(batch.actions@.drop_last().drop_last().drop_last() =~= Seq::<
            LedgerAction,
        >::empty());
        assert(crate::actions::actions_value(Seq::<LedgerAction>::empty()) == 0);
        assert(crate::actions::actions_value(batch.actions@.drop_last().drop_last()) == 0);
        assert(crate::actions::actions_value(batch.actions@.drop_last()) == funding);
        assert(batch.attached_value() == funding);
    }
    Ok(batch)
}

/// The terminal act: one batch deleting the program's own account, its
/// remaining balance directed to `beneficiary`. Irreversible; no entry point
/// of this account is reachable afterwards. A nonexistent beneficiary loses
/// the balance, and the program cannot detect that synchronously.
pub fn self_delete_batch(self_id: &AccountId, beneficiary: AccountId) -> (r: ActionBatch)
    ensures
        r.target@ == self_id@,
        r.actions@.len() == 1,
        r.actions@[0] matches LedgerAction::DeleteAccount { beneficiary: ben } && ben@
            == beneficiary@,
        r.attached_value() == 0,
{
    let mut actions: Vec<LedgerAction> = Vec::new();
    actions.push(LedgerAction::DeleteAccount { beneficiary });
    let batch = ActionBatch { target: self_id.duplicate(), actions };
    proof {
        assert(batch.actions@.drop_last() =~= Seq::<LedgerAction>::empty());
        assert(crate::actions::actions_value(Seq::<LedgerAction>::empty()) == 0);
        assert(batch.attached_value() == 0);
    }
    batch
}

/// Atomicity of underfunded creation: for every ledger state and every
/// funding below the viability floor, the {create-account, transfer} batch
/// is refused whole — in particular no partially funded child account comes
/// into existence.
pub proof fn lemma_underfunded_creation_rejected(
    m: Map<Seq<char>, Balance>,
    submitter: Seq<char>,
    child: Seq<char>,
    funding: Balance,
)
    requires
        funding < MIN_VIABLE_BALANCE,
    ensures
        apply_batch_spec(
            m,
            submitter,
            child,
            seq![LedgerAction::CreateAccount, LedgerAction::Transfer { amount: funding }],
        ) is None,
{
    let acts = seq![LedgerAction::CreateAccount, LedgerAction::Transfer { amount: funding }];
    assert(acts[0] == LedgerAction::CreateAccount);
    assert(acts.drop_first() =~= seq![LedgerAction::Transfer { amount: funding }]);
    assert(acts.drop_first()[0] == LedgerAction::Transfer { amount: funding });
    assert(acts.drop_first().drop_first() =~= Seq::<LedgerAction>::empty());
    if m.dom().contains(child) {
        assert(crate::ledger::apply_action_spec(m, submitter, child, acts[0]) is None);
        assert(crate::ledger::apply_actions_spec(m, submitter, child, acts) is None);
    } else {
        let m1 = m.insert(child, 0);
        assert(crate::ledger::apply_action_spec(m, submitter, child, acts[0])
            == Option::Some(m1));
        match spec_transfer(m1, submitter, child, funding as int) {
            Option::Some(m2) => {
                assert(crate::ledger::apply_actions_spec(
                    m2,
                    submitter,
                    child,
                    acts.drop_first().drop_first(),
                ) == Option::Some(m2));
                assert(crate::ledger::apply_actions_spec(m1, submitter, child, acts.drop_first())
                    == Option::Some(m2));
                assert(crate::ledger::apply_actions_spec(m, submitter, child, acts)
                    == Option::Some(m2));
                if submitter == child {
                    assert(m2 == m1);
                    assert(m2.dom().contains(child) && !m.dom().contains(child));
                    assert(m2[child] == 0);
                    assert(!viable_created(m, m2));
                } else {
                    assert(m2.dom().contains(child) && !m.dom().contains(child));
                    assert(m2[child] == funding);
                    assert(!viable_created(m, m2));
                }
            },
            Option::None => {
                assert(crate::ledger::apply_actions_spec(m1, submitter, child, acts.drop_first())
                    is None);
                assert(crate::ledger::apply_actions_spec(m, submitter, child, acts) is None);
            },
        }
    }
}

} // verus!
