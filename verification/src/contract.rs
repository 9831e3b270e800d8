use vstd::prelude::*;

use crate::account::{account_id_valid, child_id_seq, literal_id, AccountId};
use crate::actions::{build_chain, ActionBatch, CallHandle, LedgerAction, PublicKey};
use crate::json::{encode_object1, encode_object2, json_object1, json_object2};
use crate::lifecycle::{
    create_subaccount, create_subaccount_with_key, delete_subaccount, self_delete_batch,
};
use crate::{
    Balance, CallOutcome, ContractError, Diagnostic, CALL_GAS, MIN_STORAGE, NO_DEPOSIT,
};
use vstd::pervasive::unreached;
use vstd::utf8::is_ascii_chars;

verus! {

/// What the ledger runtime tells an entry point about its invocation: who
/// the program is, who signed for the call, what value came attached, and
/// what the program's account currently holds.
pub struct Context {
    pub current_account: AccountId,
    pub predecessor: AccountId,
    pub attached_deposit: Balance,
    pub account_balance: Balance,
}

/// The remote program whose greeting `call_method` asks to change.
pub open spec fn hello_near_id() -> Seq<char> {
    "hello-nearverse.testnet"@
}

/// The beneficiary a program not yet initialized falls back to.
pub open spec fn default_beneficiary_id() -> Seq<char> {
    "v1.faucet.nonofficial.testnet"@
}

/// One recorded contribution.
pub struct Donation {
    pub donor: AccountId,
    pub amount: Balance,
}

/// No two records name the same donor.
pub open spec fn donations_wf(s: Seq<Donation>) -> bool {
    forall|i: int, j: int|
        0 <= i < j < s.len() ==> (#[trigger] s[i]).donor@ != (#[trigger] s[j]).donor@
}

/// The reusable authorization guard of every privileged entry point: only
/// the program's own account identity may proceed.
pub fn require_self(ctx: &Context) -> (r: Result<(), ContractError>)
    ensures
        r is Ok <==> ctx.predecessor@ == ctx.current_account@,
        r is Err ==> r == Result::<(), ContractError>::Err(ContractError::Authorization),
{
    if ctx.predecessor.same_as(&ctx.current_account) {
        Ok(())
    } else {
        Err(ContractError::Authorization)
    }
}

/// The durable record of this program: a greeting, a beneficiary, the
/// accumulated contributions, and the tagged optimistic state of an
/// in-flight remote call.
pub struct Contract {
    greeting: String,
    beneficiary: AccountId,
    donations: Vec<Donation>,
    pending: Option<String>,
    last_diagnostic: Option<Diagnostic>,
}

impl Contract {
    pub closed spec fn greeting_view(&self) -> Seq<char> {
        self.greeting@
    }

    pub closed spec fn beneficiary_view(&self) -> Seq<char> {
        self.beneficiary@
    }

    pub closed spec fn donations_view(&self) -> Seq<(Seq<char>, Balance)> {
        self.donations@.map_values(|d: Donation| (d.donor@, d.amount))
    }

    /// The greeting to restore if the in-flight remote call fails, if any.
    pub closed spec fn pending_view(&self) -> Option<Seq<char>> {
        match self.pending {
            Option::Some(s) => Option::Some(s@),
            Option::None => Option::None,
        }
    }

    pub closed spec fn diagnostic_view(&self) -> Option<Diagnostic> {
        self.last_diagnostic
    }

    /// The beneficiary identifier is grammatical and donors are unique.
    pub closed spec fn wf(&self) -> bool {
        account_id_valid(self.beneficiary@) && donations_wf(self.donations@)
    }

    /// One-time constructor, privileged: only the program's own account may
    /// run it, and only while no durable state exists yet. A second run
    /// fails and resets nothing.
    pub fn init(ctx: &Context, already_initialized: bool, beneficiary: AccountId) -> (r: Result<
        Contract,
        ContractError,
    >)
        requires
            account_id_valid(beneficiary@),
        ensures
            ctx.predecessor@ != ctx.current_account@ ==> r == Result::<
                Contract,
                ContractError,
            >::Err(ContractError::Authorization),
            ctx.predecessor@ == ctx.current_account@ && already_initialized ==> r == Result::<
                Contract,
                ContractError,
            >::Err(ContractError::AlreadyInitialized),
            r is Ok <==> ctx.predecessor@ == ctx.current_account@ && !already_initialized,
            r matches Ok(c) ==> {
                &&& c.wf()
                &&& c.greeting_view() == "hala"@
                &&& c.beneficiary_view() == beneficiary@
                &&& c.donations_view() =~= Seq::<(Seq<char>, Balance)>::empty()
                &&& c.pending_view() is None
                &&& c.diagnostic_view() is None
            },
    {
        if let Err(e) = require_self(ctx) {
            return Err(e);
        }
        if already_initialized {
            return Err(ContractError::AlreadyInitialized);
        }
        let c = Contract {
            greeting: String::from_str("hala"),
            beneficiary,
            donations: Vec::new(),
            pending: None,
            last_diagnostic: None,
        };
        proof {
            assert(c.donations_view() =~= Seq::<(Seq<char>, Balance)>::empty());
        }
        Ok(c)
    }

    /// The stored greeting, as anyone may read it. Between a submitted
    /// remote call and its callback this read exposes the optimistic,
    /// not-yet-confirmed value — eventual consistency accepted by design,
    /// with the pending tag marking that window.
    pub fn get_greeting(&self) -> (r: String)
        ensures
            r@ == self.greeting_view(),
    {
        self.greeting.clone()
    }

    /// Records a new greeting; callable by any signed transaction.
    pub fn set_greeting(&mut self, greeting: String)
        ensures
            final(self).greeting_view() == greeting@,
            final(self).beneficiary_view() == old(self).beneficiary_view(),
            final(self).donations_view() == old(self).donations_view(),
            final(self).pending_view() == old(self).pending_view(),
            final(self).diagnostic_view() == old(self).diagnostic_view(),
            old(self).wf() ==> final(self).wf(),
    {
        self.greeting = greeting;
    }

    /// Schedules the remote greeting change on the hello program, chained to
    /// this program's own callback, and returns at once — nothing comes back
    /// synchronously. The new greeting is mirrored locally as optimistic
    /// state, with the previous one remembered for compensation: nothing
    /// will undo the local write automatically if the remote call fails.
    pub fn call_method(&mut self, ctx: &Context) -> (r: Result<CallHandle, ContractError>)
        ensures
            r is Ok,
            r matches Ok(h) ==> {
                &&& h.target@ == hello_near_id()
                &&& h.method@ == "set_greeting"@
                &&& h.args@ == json_object1("message"@, "howdy"@)
                &&& h.deposit == NO_DEPOSIT
                &&& h.gas == CALL_GAS
                &&& (h.followup_spec() matches Option::Some(f) && f.target@
                    == ctx.current_account@ && f.method@ == "callback"@ && f.args@ == Seq::<
                    u8,
                >::empty() && f.deposit == NO_DEPOSIT && f.gas == CALL_GAS && f.followup_spec()
                    is None)
            },
            final(self).greeting_view() == "howdy"@,
            final(self).pending_view() == Option::Some(old(self).greeting_view()),
            final(self).beneficiary_view() == old(self).beneficiary_view(),
            final(self).donations_view() == old(self).donations_view(),
            final(self).diagnostic_view() == old(self).diagnostic_view(),
            old(self).wf() ==> final(self).wf(),
    {
        proof {
            reveal_strlit("hello-nearverse.testnet");
            reveal_strlit("set_greeting");
            reveal_strlit("callback");
            reveal_strlit("message");
            reveal_strlit("howdy");
        }
        let target = literal_id("hello-nearverse.testnet");
        let args = encode_object1("message", "howdy");
        let follow = match build_chain(
            ctx.current_account.duplicate(),
            String::from_str("callback"),
            Vec::new(),
            NO_DEPOSIT,
            None,
            None,
            &ctx.current_account,
            ctx.account_balance,
        ) {
            Ok(h) => h,
            Err(_) => unreached(),
        };
        let handle = match build_chain(
            target,
            String::from_str("set_greeting"),
            args,
            NO_DEPOSIT,
            None,
            Some(follow),
            &ctx.current_account,
            ctx.account_balance,
        ) {
            Ok(h) => h,
            Err(_) => unreached(),
        };
        let prev = self.greeting.clone();
        self.pending = Some(prev);
        self.greeting = String::from_str("howdy");
        Ok(handle)
    }

    /// Privileged callback, the one point where the remote outcome is known
    /// and so the sole legitimate compensation site. On failure it restores
    /// the remembered greeting — nothing else would, since no rollback
    /// crosses the asynchronous boundary. On success the optimistic state
    /// stands and is committed as final. Either way a diagnostic is
    /// recorded. A foreign caller is rejected before any state is touched.
    pub fn callback(&mut self, ctx: &Context, outcome: CallOutcome) -> (r: Result<
        Diagnostic,
        ContractError,
    >)
        ensures
            ctx.predecessor@ != ctx.current_account@ ==> r == Result::<
                Diagnostic,
                ContractError,
            >::Err(ContractError::Authorization) && *final(self) == *old(self),
            r is Ok <==> ctx.predecessor@ == ctx.current_account@,
            ctx.predecessor@ == ctx.current_account@ && outcome == CallOutcome::Failed ==> {
                &&& r == Result::<Diagnostic, ContractError>::Ok(Diagnostic::RemoteFailed)
                &&& final(self).greeting_view() == (match old(self).pending_view() {
                    Option::Some(p) => p,
                    Option::None => old(self).greeting_view(),
                })
                &&& final(self).pending_view() is None
                &&& final(self).diagnostic_view() == Option::Some(Diagnostic::RemoteFailed)
            },
            ctx.predecessor@ == ctx.current_account@ && outcome == CallOutcome::Completed ==> {
                &&& r == Result::<Diagnostic, ContractError>::Ok(Diagnostic::RemoteSucceeded)
                &&& final(self).greeting_view() == old(self).greeting_view()
                &&& final(self).pending_view() is None
                &&& final(self).diagnostic_view() == Option::Some(Diagnostic::RemoteSucceeded)
            },
            ctx.predecessor@ == ctx.current_account@ ==> {
                &&& final(self).beneficiary_view() == old(self).beneficiary_view()
                &&& final(self).donations_view() == old(self).donations_view()
            },
            old(self).wf() ==> final(self).wf(),
    {
        if let Err(e) = require_self(ctx) {
            return Err(e);
        }
        match outcome {
            CallOutcome::Failed => {
                let restored = match &self.pending {
                    Option::Some(p) => Option::Some(p.clone()),
                    Option::None => Option::None,
                };
                if let Some(s) = restored {
                    self.greeting = s;
                }
                self.pending = None;
                self.last_diagnostic = Some(Diagnostic::RemoteFailed);
                Ok(Diagnostic::RemoteFailed)
            },
            CallOutcome::Completed => {
                self.pending = None;
                self.last_diagnostic = Some(Diagnostic::RemoteSucceeded);
                Ok(Diagnostic::RemoteSucceeded)
            },
        }
    }

    /// Privileged owner maintenance hook; rejects every foreign caller and
    /// changes nothing.
    pub fn set_owner(&mut self, ctx: &Context) -> (r: Result<(), ContractError>)
        ensures
            *final(self) == *old(self),
            r is Ok <==> ctx.predecessor@ == ctx.current_account@,
            r is Err ==> r == Result::<(), ContractError>::Err(ContractError::Authorization),
    {
        if let Err(e) = require_self(ctx) {
            return Err(e);
        }
        Ok(())
    }

    /// Accepts the attached value and accounts for it as the predecessor's
    /// accumulated contribution: a value-accepting entry point never ignores
    /// what came attached.
    pub fn deposit_and_stake(&mut self, ctx: &Context) -> (r: Result<(), ContractError>)
        requires
            old(self).wf(),
        ensures
            final(self).wf(),
            final(self).greeting_view() == old(self).greeting_view(),
            final(self).beneficiary_view() == old(self).beneficiary_view(),
            final(self).pending_view() == old(self).pending_view(),
            final(self).diagnostic_view() == old(self).diagnostic_view(),
            ({
                let ds = old(self).donations_view();
                let donor = ctx.predecessor@;
                let dep = ctx.attached_deposit;
                if exists|i: int| 0 <= i < ds.len() && (#[trigger] ds[i]).0 == donor {
                    let i = choose|i: int| 0 <= i < ds.len() && (#[trigger] ds[i]).0 == donor;
                    if ds[i].1 + dep > u128::MAX {
                        r == Result::<(), ContractError>::Err(ContractError::Budget)
                            && final(self).donations_view() == ds
                    } else {
                        r is Ok && final(self).donations_view() == ds.update(
                            i,
                            (donor, (ds[i].1 + dep) as Balance),
                        )
                    }
                } else {
                    r is Ok && final(self).donations_view() == ds.push((donor, dep))
                }
            }),
    {
        let ghost ds = self.donations_view();
        let ghost donor = ctx.predecessor@;
        match find_donor(&self.donations, &ctx.predecessor) {
            Option::Some(i) => {
                proof {
                    assert(ds[i as int].0 == donor);
                    let ic = choose|k: int| 0 <= k < ds.len() && (#[trigger] ds[k]).0 == donor;
                    if ic != i as int {
                        if ic < i as int {
                            assert(self.donations@[ic].donor@ != self.donations@[i as int].donor@);
                        } else {
                            assert(self.donations@[i as int].donor@ != self.donations@[ic].donor@);
                        }
                    }
                }
                if self.donations[i].amount > u128::MAX - ctx.attached_deposit {
                    return Err(ContractError::Budget);
                }
                let updated = Donation {
                    donor: self.donations[i].donor.duplicate(),
                    amount: self.donations[i].amount + ctx.attached_deposit,
                };
                let ghost before = self.donations@;
                self.donations[i] = updated;
                proof {
                    assert forall|a: int, b: int|
                        0 <= a < b < self.donations@.len() implies (#[trigger] self.donations@[a]).donor@
                        != (#[trigger] self.donations@[b]).donor@ by {
                        assert(self.donations@[a].donor@ == before[a].donor@);
                        assert(self.donations@[b].donor@ == before[b].donor@);
                    }
                    assert(final(self).donations_view() =~= ds.update(
                        i as int,
                        (donor, self.donations@[i as int].amount),
                    ));
                }
                Ok(())
            },
            Option::None => {
                let fresh = Donation {
                    donor: ctx.predecessor.duplicate(),
                    amount: ctx.attached_deposit,
                };
                let ghost before = self.donations@;
                self.donations.push(fresh);
                proof {
                    assert(forall|k: int| 0 <= k < ds.len() ==> (#[trigger] ds[k]).0 != donor);
                    assert forall|a: int, b: int|
                        0 <= a < b < self.donations@.len() implies (#[trigger] self.donations@[a]).donor@
                        != (#[trigger] self.donations@[b]).donor@ by {
                        if b < before.len() as int {
                            assert(self.donations@[a].donor@ == before[a].donor@);
                            assert(self.donations@[b].donor@ == before[b].donor@);
                        } else {
                            assert(self.donations@[a].donor@ == before[a].donor@);
                            assert(before[a].donor@ == ds[a].0);
                        }
                    }
                    assert(final(self).donations_view() =~= ds.push(
                        (donor, ctx.attached_deposit),
                    ));
                }
                Ok(())
            },
        }
    }

    /// Emits the single-transfer batch moving `amount` to `to`, provided the
    /// program's held balance covers it at submission time.
    pub fn transfer(&self, ctx: &Context, to: AccountId, amount: Balance) -> (r: Result<
        ActionBatch,
        ContractError,
    >)
        ensures
            amount > ctx.account_balance ==> r == Result::<ActionBatch, ContractError>::Err(
                ContractError::Budget,
            ),
            r is Ok <==> amount <= ctx.account_balance,
            r matches Ok(b) ==> {
                &&& b.target@ == to@
                &&& b.actions@ =~= seq![LedgerAction::Transfer { amount }]
                &&& b.attached_value() == amount
            },
    {
        if amount > ctx.account_balance {
            return Err(ContractError::Budget);
        }
        let mut actions: Vec<LedgerAction> = Vec::new();
        actions.push(LedgerAction::Transfer { amount });
        let batch = ActionBatch { target: to, actions };
        proof {
            assert(batch.actions@.drop_last() =~= Seq::<LedgerAction>::empty());
            assert(crate::actions::actions_value(Seq::<LedgerAction>::empty()) == 0);
            assert(batch.attached_value() == amount);
        }
        Ok(batch)
    }

    /// Creates the direct child `<prefix>.<current>` with the default
    /// funding; the new account starts keyless and locked.
    pub fn create_sub_account(&self, ctx: &Context, prefix: String) -> (r: Result<
        ActionBatch,
        ContractError,
    >)
        ensures
            !account_id_valid(child_id_seq(prefix@, ctx.current_account@)) ==> r == Result::<
                ActionBatch,
                ContractError,
            >::Err(ContractError::InvalidAccountId),
            account_id_valid(child_id_seq(prefix@, ctx.current_account@)) && MIN_STORAGE
                > ctx.account_balance ==> r == Result::<ActionBatch, ContractError>::Err(
                ContractError::Budget,
            ),
            r is Ok <==> account_id_valid(child_id_seq(prefix@, ctx.current_account@))
                && MIN_STORAGE <= ctx.account_balance,
            r matches Ok(b) ==> {
                &&& b.target@ == child_id_seq(prefix@, ctx.current_account@)
                &&& b.actions@ =~= seq![
                    LedgerAction::CreateAccount,
                    LedgerAction::Transfer { amount: MIN_STORAGE },
                ]
                &&& b.attached_value() == MIN_STORAGE
            },
    {
        create_subaccount(&ctx.current_account, ctx.account_balance, prefix.as_str(), MIN_STORAGE)
    }

    /// As `create_sub_account`, and attaches `public_key` as a full-access
    /// key, so the child can sign for itself.
    pub fn create_hello(&self, ctx: &Context, prefix: String, public_key: PublicKey) -> (r: Result<
        ActionBatch,
        ContractError,
    >)
        ensures
            !account_id_valid(child_id_seq(prefix@, ctx.current_account@)) ==> r == Result::<
                ActionBatch,
                ContractError,
            >::Err(ContractError::InvalidAccountId),
            account_id_valid(child_id_seq(prefix@, ctx.current_account@)) && MIN_STORAGE
                > ctx.account_balance ==> r == Result::<ActionBatch, ContractError>::Err(
                ContractError::Budget,
            ),
            r is Ok <==> account_id_valid(child_id_seq(prefix@, ctx.current_account@))
                && MIN_STORAGE <= ctx.account_balance,
            r matches Ok(b) ==> {
                &&& b.target@ == child_id_seq(prefix@, ctx.current_account@)
                &&& b.actions@.len() == 3
                &&& b.actions@[0] == LedgerAction::CreateAccount
                &&& b.actions@[1] == LedgerAction::Transfer { amount: MIN_STORAGE }
                &&& b.actions@[2] matches LedgerAction::AddFullAccessKey { key } && key.data@
                    == public_key.data@
                &&& b.attached_value() == MIN_STORAGE
            },
    {
        create_subaccount_with_key(
            &ctx.current_account,
            ctx.account_balance,
            prefix.as_str(),
            MIN_STORAGE,
            public_key,
        )
    }

    /// Asks the network's registrar to create a top-level account, passing
    /// the new identifier and key as a serialized payload with the default
    /// funding attached. Only ASCII argument text is carried.
    pub fn create_other_account(&self, ctx: &Context, account_id: String, public_key: String) -> (r:
        Result<CallHandle, ContractError>)
        ensures
            !(is_ascii_chars(account_id@) && is_ascii_chars(public_key@)) ==> r == Result::<
                CallHandle,
                ContractError,
            >::Err(ContractError::InvalidArgument),
            is_ascii_chars(account_id@) && is_ascii_chars(public_key@) && MIN_STORAGE
                > ctx.account_balance ==> r == Result::<CallHandle, ContractError>::Err(
                ContractError::Budget,
            ),
            r is Ok <==> is_ascii_chars(account_id@) && is_ascii_chars(public_key@) && MIN_STORAGE
                <= ctx.account_balance,
            r matches Ok(h) ==> {
                &&& h.target@ == "testnet"@
                &&& h.method@ == "create_account"@
                &&& h.args@ == json_object2(
                    "new_account_id"@,
                    account_id@,
                    "new_public_key"@,
                    public_key@,
                )
                &&& h.deposit == MIN_STORAGE
                &&& h.gas == CALL_GAS
                &&& h.followup_spec() is None
            },
    {
        proof {
            reveal_strlit("testnet");
            reveal_strlit("create_account");
            reveal_strlit("new_account_id");
            reveal_strlit("new_public_key");
        }
        if !account_id.as_str().is_ascii() || !public_key.as_str().is_ascii() {
            return Err(ContractError::InvalidArgument);
        }
        if MIN_STORAGE > ctx.account_balance {
            return Err(ContractError::Budget);
        }
        let target = literal_id("testnet");
        let args = encode_object2(
            "new_account_id",
            account_id.as_str(),
            "new_public_key",
            public_key.as_str(),
        );
        let handle = match build_chain(
            target,
            String::from_str("create_account"),
            args,
            MIN_STORAGE,
            None,
            None,
            &ctx.current_account,
            ctx.account_balance,
        ) {
            Ok(h) => h,
            Err(_) => unreached(),
        };
        Ok(handle)
    }

    /// Creates, funds and deletes `<prefix>.<current>` in one batch, the
    /// remainder directed to `beneficiary`. A nonexistent beneficiary makes
    /// that remainder permanently lost; validate it externally first when
    /// loss matters.
    pub fn create_delete(&self, ctx: &Context, prefix: String, beneficiary: AccountId) -> (r: Result<
        ActionBatch,
        ContractError,
    >)
        ensures
            !account_id_valid(child_id_seq(prefix@, ctx.current_account@)) ==> r == Result::<
                ActionBatch,
                ContractError,
            >::Err(ContractError::InvalidAccountId),
            account_id_valid(child_id_seq(prefix@, ctx.current_account@)) && MIN_STORAGE
                > ctx.account_balance ==> r == Result::<ActionBatch, ContractError>::Err(
                ContractError::Budget,
            ),
            r is Ok <==> account_id_valid(child_id_seq(prefix@, ctx.current_account@))
                && MIN_STORAGE <= ctx.account_balance,
            r matches Ok(b) ==> {
                &&& b.target@ == child_id_seq(prefix@, ctx.current_account@)
                &&& b.actions@.len() == 3
                &&& b.actions@[0] == LedgerAction::CreateAccount
                &&& b.actions@[1] == LedgerAction::Transfer { amount: MIN_STORAGE }
                &&& b.actions@[2] matches LedgerAction::DeleteAccount { beneficiary: ben } && ben@
                    == beneficiary@
                &&& b.attached_value() == MIN_STORAGE
            },
    {
        delete_subaccount(
            &ctx.current_account,
            ctx.account_balance,
            prefix.as_str(),
            MIN_STORAGE,
            beneficiary,
        )
    }

    /// Privileged and terminal: one batch deleting the program's own
    /// account, its remaining balance directed to `beneficiary`. No entry
    /// point of this account is reachable afterwards, and a nonexistent
    /// beneficiary loses the balance without any synchronous signal — the
    /// batch still reads as submitted.
    pub fn self_delete(ctx: &Context, beneficiary: AccountId) -> (r: Result<
        ActionBatch,
        ContractError,
    >)
        ensures
            ctx.predecessor@ != ctx.current_account@ ==> r == Result::<
                ActionBatch,
                ContractError,
            >::Err(ContractError::Authorization),
            r is Ok <==> ctx.predecessor@ == ctx.current_account@,
            r matches Ok(b) ==> {
                &&& b.target@ == ctx.current_account@
                &&& b.actions@.len() == 1
                &&& (b.actions@[0] matches LedgerAction::DeleteAccount { beneficiary: ben }
                    && ben@ == beneficiary@)
                &&& b.attached_value() == 0
            },
    {
        if let Err(e) = require_self(ctx) {
            return Err(e);
        }
        Ok(self_delete_batch(&ctx.current_account, beneficiary))
    }

    /// The beneficiary on record.
    pub fn beneficiary_id(&self) -> (r: &AccountId)
        ensures
            r@ == self.beneficiary_view(),
    {
        &self.beneficiary
    }

    /// The accumulated contribution of `donor`, if any was recorded.
    pub fn donation_of(&self, donor: &AccountId) -> (r: Option<Balance>)
        ensures
            match r {
                Option::Some(b) => exists|i: int|
                    0 <= i < self.donations_view().len() && #[trigger] self.donations_view()[i]
                        == (donor@, b),
                Option::None => forall|i: int|
                    0 <= i < self.donations_view().len()
                        ==> (#[trigger] self.donations_view()[i]).0 != donor@,
            },
    {
        match find_donor(&self.donations, donor) {
            Option::Some(i) => {
                proof {
                    assert(self.donations_view()[i as int] == (donor@, self.donations@[i as int].amount));
                }
                Some(self.donations[i].amount)
            },
            Option::None => {
                proof {
                    assert forall|i: int|
                        0 <= i < self.donations_view().len() implies (#[trigger] self.donations_view()[i]).0
                        != donor@ by {
                        assert(self.donations_view()[i].0 == self.donations@[i].donor@);
                    }
                }
                None
            },
        }
    }

    /// Reassembles the durable record from its persisted parts,
    /// re-establishing the state invariant: a malformed beneficiary or a
    /// repeated donor is refused.
    pub fn from_parts(
        greeting: String,
        beneficiary: AccountId,
        donations: Vec<Donation>,
        pending: Option<String>,
        last_diagnostic: Option<Diagnostic>,
    ) -> (r: Option<Contract>)
        ensures
            r is Some <==> account_id_valid(beneficiary@) && donations_wf(donations@),
            r matches Some(c) ==> {
                &&& c.wf()
                &&& c.greeting_view() == greeting@
                &&& c.beneficiary_view() == beneficiary@
                &&& c.donations_view() == donations@.map_values(|d: Donation| (d.donor@, d.amount))
                &&& c.pending_view() == (match pending {
                    Option::Some(p) => Option::Some(p@),
                    Option::None => Option::None,
                })
                &&& c.diagnostic_view() == last_diagnostic
            },
    {
        if AccountId::new(String::from_str(beneficiary.as_str())).is_none() {
            return None;
        }
        let n = donations.len();
        let mut i: usize = 0;
        while i < n
            invariant
                n == donations@.len(),
                0 <= i <= n,
                forall|a: int, b: int|
                    0 <= a < b < n && a < i ==> (#[trigger] donations@[a]).donor@
                        != (#[trigger] donations@[b]).donor@,
            decreases n - i,
        {
            let mut j: usize = i + 1;
            while j < n
                invariant
                    n == donations@.len(),
                    0 <= i < j <= n,
                    forall|b: int| i < b < j ==> (#[trigger] donations@[b]).donor@
                        != donations@[i as int].donor@,
                decreases n - j,
            {
                if donations[i].donor.same_as(&donations[j].donor) {
                    return None;
                }
                j = j + 1;
            }
            i = i + 1;
        }
        Some(
            Contract { greeting, beneficiary, donations, pending, last_diagnostic },
        )
    }

    /// The recorded contributions, for persisting the durable record.
    pub fn donation_records(&self) -> (r: &Vec<Donation>)
        ensures
            r@.map_values(|d: Donation| (d.donor@, d.amount)) == self.donations_view(),
    {
        &self.donations
    }

    /// The remembered greeting of the in-flight remote call, if any, for
    /// persisting the durable record.
    pub fn pending_greeting(&self) -> (r: Option<String>)
        ensures
            (match r {
                Option::Some(s) => self.pending_view() == Option::Some(s@),
                Option::None => self.pending_view() is None,
            }),
    {
        match &self.pending {
            Option::Some(p) => Option::Some(p.clone()),
            Option::None => Option::None,
        }
    }

    /// The diagnostic the callback recorded last, if any.
    pub fn recorded_diagnostic(&self) -> (r: Option<Diagnostic>)
        ensures
            r == self.diagnostic_view(),
    {
        self.last_diagnostic
    }

    /// Whether a remote call is in flight with optimistic state uncommitted.
    pub fn has_pending(&self) -> (r: bool)
        ensures
            r == (self.pending_view() is Some),
    {
        match &self.pending {
            Option::Some(_) => true,
            Option::None => false,
        }
    }
}

impl Default for Contract {
    /// The state a program answers with before `init` ever ran: the stock
    /// greeting, the faucet beneficiary, no contributions, nothing pending.
    fn default() -> (r: Contract)
        ensures
            r.wf(),
            r.greeting_view() == "Hello"@,
            r.beneficiary_view() == default_beneficiary_id(),
            r.donations_view() =~= Seq::<(Seq<char>, Balance)>::empty(),
            r.pending_view() is None,
            r.diagnostic_view() is None,
    {
        proof {
            reveal_strlit("v1.faucet.nonofficial.testnet");
            reveal_strlit("Hello");
        }
        let beneficiary = literal_id("v1.faucet.nonofficial.testnet");
        let c = Contract {
            greeting: String::from_str("Hello"),
            beneficiary,
            donations: Vec::new(),
            pending: None,
            last_diagnostic: None,
        };
        proof {
            assert(c.donations_view() =~= Seq::<(Seq<char>, Balance)>::empty());
        }
        c
    }
}

/// The index of the record carrying `donor`, if any.
fn find_donor(v: &Vec<Donation>, donor: &AccountId) -> (r: Option<usize>)
    ensures
        match r {
            Option::Some(i) => 0 <= i < v@.len() && v@[i as int].donor@ == donor@,
            Option::None => forall|i: int| 0 <= i < v@.len() ==> (#[trigger] v@[i]).donor@ != donor@,
        },
{
    let mut i: usize = 0;
    while i < v.len()
        invariant
            0 <= i <= v@.len(),
            forall|j: int| 0 <= j < i ==> (#[trigger] v@[j]).donor@ != donor@,
        decreases v@.len() - i,
    {
        if v[i].donor.same_as(donor) {
            return Some(i);
        }
        i = i + 1;
    }
    None
}

} // verus!
