use vstd::prelude::*;

use crate::account::AccountId;
use crate::{Balance, ContractError, GasAmount, CALL_GAS};

verus! {

/// Key material for a full-access key, carried through to the ledger
/// unread (the program never inspects it).
pub struct PublicKey {
    pub data: Vec<u8>,
}

impl PublicKey {
    pub fn duplicate(&self) -> (r: PublicKey)
        ensures
            r.data@ == self.data@,
    {
        let mut copy: Vec<u8> = Vec::new();
        let mut i: usize = 0;
        while i < self.data.len()
            invariant
                0 <= i <= self.data.len(),
                copy@ == self.data@.take(i as int),
            decreases self.data.len() - i,
        {
            copy.push(self.data[i]);
            proof {
                assert(copy@ =~= self.data@.take(i + 1));
            }
            i = i + 1;
        }
        proof {
            assert(self.data@.take(self.data@.len() as int) =~= self.data@);
        }
        PublicKey { data: copy }
    }
}

/// One ledger operation inside an action batch.
pub enum LedgerAction {
    /// Bring the batch's target account into existence (it must not exist).
    CreateAccount,
    /// Move `amount` from the submitting account to the target account.
    Transfer { amount: Balance },
    /// Grant the target account independent signing capability.
    AddFullAccessKey { key: PublicKey },
    /// Remove the target account; its remaining balance goes to
    /// `beneficiary`, or is permanently lost if `beneficiary` does not exist.
    DeleteAccount { beneficiary: AccountId },
    /// Invoke a method on the target account, attaching `deposit` from the
    /// submitting account and an execution allowance of `gas`.
    FunctionCall { method: String, args: Vec<u8>, deposit: Balance, gas: GasAmount },
}

/// The value one action draws from the submitting account's balance.
pub open spec fn action_value(a: LedgerAction) -> int {
    match a {
        LedgerAction::Transfer { amount } => amount as int,
        LedgerAction::FunctionCall { deposit, .. } => deposit as int,
        _ => 0,
    }
}

/// The total value a sequence of actions draws from the submitting account.
pub open spec fn actions_value(s: Seq<LedgerAction>) -> int
    decreases s.len(),
{
    if s.len() == 0 {
        0
    } else {
        actions_value(s.drop_last()) + action_value(s.last())
    }
}

/// An ordered sequence of ledger actions targeting one account, submitted as
/// a single atomic unit: either every action applies, or none does. A batch
/// never rolls back a different batch or a state write made before
/// submission.
pub struct ActionBatch {
    pub target: AccountId,
    pub actions: Vec<LedgerAction>,
}

impl ActionBatch {
    /// The value this batch draws from the submitting account.
    pub open spec fn attached_value(&self) -> int {
        actions_value(self.actions@)
    }
}

/// A scheduler-issued token for a not-yet-executed remote invocation,
/// optionally chained to a follow-up that runs only after this call settles.
pub struct CallHandle {
    pub target: AccountId,
    pub method: String,
    pub args: Vec<u8>,
    pub deposit: Balance,
    pub gas: GasAmount,
    pub followup: Option<Box<CallHandle>>,
}

impl CallHandle {
    /// The follow-up as a plain option, for stating contracts.
    pub open spec fn followup_spec(&self) -> Option<CallHandle> {
        match self.followup {
            Option::Some(b) => Option::Some(*b),
            Option::None => Option::None,
        }
    }
}

/// Builds the directed chain of one remote invocation and its optional
/// follow-up callback. Purely a scheduling request: it touches no program
/// state, and nothing is returned synchronously by the remote side.
///
/// Rejected at build time, before anything is scheduled: a follow-up that
/// targets any account but the program's own (the runtime would execute it
/// with this program's privileges), and an attached value that exceeds the
/// program's currently held balance.
pub fn build_chain(
    target: AccountId,
    method: String,
    args: Vec<u8>,
    attached_value: Balance,
    budget: Option<GasAmount>,
    followup: Option<CallHandle>,
    self_id: &AccountId,
    balance: Balance,
) -> (r: Result<CallHandle, ContractError>)
    requires
        method@.len() > 0,
        budget is Some ==> budget.unwrap() > 0,
    ensures
        (match followup {
            Option::Some(f) => f.target@ != self_id@,
            Option::None => false,
        }) ==> r == Result::<CallHandle, ContractError>::Err(ContractError::Authorization),
        (match followup {
            Option::Some(f) => f.target@ == self_id@,
            Option::None => true,
        }) && attached_value > balance ==> r == Result::<CallHandle, ContractError>::Err(
            ContractError::Budget,
        ),
        r is Ok <==> (match followup {
            Option::Some(f) => f.target@ == self_id@,
            Option::None => true,
        }) && attached_value <= balance,
        r matches Ok(h) ==> {
            &&& h.target == target
            &&& h.method == method
            &&& h.args == args
            &&& h.deposit == attached_value
            &&& h.gas == if budget is Some {
                budget.unwrap()
            } else {
                CALL_GAS
            }
            &&& h.followup_spec() == followup
        },
{
    match &followup {
        Option::Some(f) => {
            if !f.target.same_as(self_id) {
                return Err(ContractError::Authorization);
            }
        },
        Option::None => {},
    }
    if attached_value > balance {
        return Err(ContractError::Budget);
    }
    let gas = match budget {
        Option::Some(g) => g,
        Option::None => CALL_GAS,
    };
    let boxed = match followup {
        Option::Some(f) => Option::Some(Box::new(f)),
        Option::None => Option::None,
    };
    Ok(CallHandle { target, method, args, deposit: attached_value, gas, followup: boxed })
}

} // verus!
