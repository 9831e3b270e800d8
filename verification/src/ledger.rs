use vstd::prelude::*;

use crate::account::AccountId;
use crate::actions::{ActionBatch, LedgerAction};
use crate::Balance;

verus! {

/// The ledger's floor on a fresh account's closing balance: a batch that
/// creates an account and leaves it below this floor is rejected whole.
pub const MIN_VIABLE_BALANCE: Balance = 100_000_000_000_000_000_000_000;

/// One balance-holding entity of the external ledger.
pub struct LedgerAccount {
    pub id: AccountId,
    pub balance: Balance,
}

/// No two entries name the same account.
pub open spec fn accounts_wf(s: Seq<LedgerAccount>) -> bool {
    forall|i: int, j: int|
        0 <= i < j < s.len() ==> (#[trigger] s[i]).id@ != (#[trigger] s[j]).id@
}

/// The balance map an account sequence denotes.
pub open spec fn balances_of(s: Seq<LedgerAccount>) -> Map<Seq<char>, Balance>
    decreases s.len(),
{
    if s.len() == 0 {
        Map::empty()
    } else {
        balances_of(s.drop_last()).insert(s.last().id@, s.last().balance)
    }
}

pub proof fn lemma_wf_drop_last(s: Seq<LedgerAccount>)
    requires
        accounts_wf(s),
        s.len() > 0,
    ensures
        accounts_wf(s.drop_last()),
{
    assert forall|i: int, j: int| 0 <= i < j < s.drop_last().len() implies (#[trigger] s.drop_last()[i]).id@
        != (#[trigger] s.drop_last()[j]).id@ by {
        assert(s.drop_last()[i] == s[i]);
        assert(s.drop_last()[j] == s[j]);
    }
}

/// An account name is in the map exactly when some entry carries it.
pub proof fn lemma_balances_dom(s: Seq<LedgerAccount>, k: Seq<char>)
    ensures
        balances_of(s).dom().contains(k) <==> exists|i: int|
            0 <= i < s.len() && (#[trigger] s[i]).id@ == k,
    decreases s.len(),
{
    if s.len() > 0 {
        lemma_balances_dom(s.drop_last(), k);
        if s.last().id@ == k {
            assert(s[s.len() - 1].id@ == k);
        } else {
            if balances_of(s).dom().contains(k) {
                let i = choose|i: int| 0 <= i < s.drop_last().len() && (#[trigger] s.drop_last()[i]).id@ == k;
                assert(s[i].id@ == k);
            }
            if exists|i: int| 0 <= i < s.len() && (#[trigger] s[i]).id@ == k {
                let i = choose|i: int| 0 <= i < s.len() && (#[trigger] s[i]).id@ == k;
                assert(s.drop_last()[i].id@ == k);
            }
        }
    }
}

/// With unique names, the map's value at an entry's name is that entry's
/// balance.
pub proof fn lemma_balances_at(s: Seq<LedgerAccount>, i: int)
    requires
        accounts_wf(s),
        0 <= i < s.len(),
    ensures
        balances_of(s).dom().contains(s[i].id@),
        balances_of(s)[s[i].id@] == s[i].balance,
    decreases s.len(),
{
    if i == s.len() - 1 {
    } else {
        lemma_wf_drop_last(s);
        lemma_balances_at(s.drop_last(), i);
        assert(s.drop_last()[i] == s[i]);
        assert(s[i].id@ != s[s.len() - 1].id@);
    }
}

/// Replacing an entry's balance updates exactly that name in the map.
pub proof fn lemma_balances_update(s: Seq<LedgerAccount>, i: int, x: LedgerAccount)
    requires
        accounts_wf(s),
        0 <= i < s.len(),
        x.id@ == s[i].id@,
    ensures
        balances_of(s.update(i, x)) == balances_of(s).insert(x.id@, x.balance),
        accounts_wf(s.update(i, x)),
    decreases s.len(),
{
    let t = s.update(i, x);
    assert forall|a: int, b: int| 0 <= a < b < t.len() implies (#[trigger] t[a]).id@
        != (#[trigger] t[b]).id@ by {
        assert(t[a].id@ == s[a].id@);
        assert(t[b].id@ == s[b].id@);
    }
    if i == s.len() - 1 {
        assert(t.drop_last() =~= s.drop_last());
        assert(t.last() == x);
        assert(balances_of(s.drop_last()).insert(s[i].id@, s[i].balance).insert(x.id@, x.balance)
            =~= balances_of(s.drop_last()).insert(x.id@, x.balance));
    } else {
        lemma_wf_drop_last(s);
        lemma_balances_update(s.drop_last(), i, x);
        assert(t.drop_last() =~= s.drop_last().update(i, x));
        assert(t.last() == s.last());
        assert(s.last().id@ != x.id@);
        assert(balances_of(s.drop_last()).insert(x.id@, x.balance).insert(
            s.last().id@,
            s.last().balance,
        ) =~= balances_of(s.drop_last()).insert(s.last().id@, s.last().balance).insert(
            x.id@,
            x.balance,
        ));
    }
}

/// Appending a fresh entry inserts exactly its name into the map.
pub proof fn lemma_balances_push(s: Seq<LedgerAccount>, x: LedgerAccount)
    ensures
        balances_of(s.push(x)) == balances_of(s).insert(x.id@, x.balance),
{
    assert(s.push(x).drop_last() =~= s);
    assert(s.push(x).last() == x);
}

/// Removing an entry removes exactly its name from the map.
pub proof fn lemma_balances_remove(s: Seq<LedgerAccount>, i: int)
    requires
        accounts_wf(s),
        0 <= i < s.len(),
    ensures
        balances_of(s.remove(i)) == balances_of(s).remove(s[i].id@),
        accounts_wf(s.remove(i)),
    decreases s.len(),
{
    let t = s.remove(i);
    assert forall|a: int, b: int| 0 <= a < b < t.len() implies (#[trigger] t[a]).id@
        != (#[trigger] t[b]).id@ by {
        let a0 = if a < i {
            a
        } else {
            a + 1
        };
        let b0 = if b < i {
            b
        } else {
            b + 1
        };
        assert(t[a].id@ == s[a0].id@);
        assert(t[b].id@ == s[b0].id@);
    }
    if i == s.len() - 1 {
        assert(t =~= s.drop_last());
        lemma_wf_drop_last(s);
        lemma_balances_dom(s.drop_last(), s[i].id@);
        assert(forall|a: int|
            0 <= a < s.drop_last().len() ==> (#[trigger] s.drop_last()[a]).id@ != s[i].id@);
        assert(balances_of(s.drop_last()).insert(s[i].id@, s[i].balance).remove(s[i].id@)
            =~= balances_of(s.drop_last()));
    } else {
        lemma_wf_drop_last(s);
        lemma_balances_remove(s.drop_last(), i);
        assert(t.drop_last() =~= s.drop_last().remove(i));
        assert(t.last() == s.last());
        assert(s.last().id@ != s[i].id@);
        assert(balances_of(s.drop_last()).remove(s[i].id@).insert(s.last().id@, s.last().balance)
            =~= balances_of(s.drop_last()).insert(s.last().id@, s.last().balance).remove(
            s[i].id@,
        ));
    }
}

/// Entry-for-entry equal names and balances denote the same map.
pub proof fn lemma_balances_congruent(s1: Seq<LedgerAccount>, s2: Seq<LedgerAccount>)
    requires
        s1.len() == s2.len(),
        forall|i: int|
            0 <= i < s1.len() ==> (#[trigger] s1[i]).id@ == (#[trigger] s2[i]).id@ && s1[i].balance
                == s2[i].balance,
    ensures
        balances_of(s1) == balances_of(s2),
    decreases s1.len(),
{
    if s1.len() > 0 {
        lemma_balances_congruent(s1.drop_last(), s2.drop_last());
        assert(s1.last().id@ == s2.last().id@ && s1.last().balance == s2.last().balance);
    }
}

/// Value movement between two held accounts, all-or-nothing. The remote
/// execution a function call triggers is outside this model; only the value
/// it carries is accounted.
pub open spec fn spec_transfer(
    m: Map<Seq<char>, Balance>,
    from: Seq<char>,
    to: Seq<char>,
    amount: int,
) -> Option<Map<Seq<char>, Balance>> {
    if !m.dom().contains(from) || !m.dom().contains(to) {
        Option::None
    } else if m[from] < amount {
        Option::None
    } else if from == to {
        Option::Some(m)
    } else if m[to] + amount > u128::MAX {
        Option::None
    } else {
        Option::Some(
            m.insert(from, (m[from] - amount) as Balance).insert(to, (m[to] + amount) as Balance),
        )
    }
}

/// Account deletion: the target's remaining balance goes to the beneficiary,
/// or is permanently lost — dispersed, unrecoverable — if no such account
/// exists. The ledger reports no failure for that loss.
pub open spec fn spec_delete(
    m: Map<Seq<char>, Balance>,
    target: Seq<char>,
    beneficiary: Seq<char>,
) -> Option<Map<Seq<char>, Balance>> {
    if !m.dom().contains(target) {
        Option::None
    } else {
        let bal = m[target];
        let m2 = m.remove(target);
        if m2.dom().contains(beneficiary) {
            if m2[beneficiary] + bal > u128::MAX {
                Option::None
            } else {
                Option::Some(m2.insert(beneficiary, (m2[beneficiary] + bal) as Balance))
            }
        } else {
            Option::Some(m2)
        }
    }
}

/// Deletion toward an absent beneficiary is not refused: the target's entry
/// disappears and its balance reappears under no account — the loss is
/// silent, so no submitter can detect it synchronously.
pub proof fn lemma_deletion_loss(
    m: Map<Seq<char>, Balance>,
    target: Seq<char>,
    beneficiary: Seq<char>,
)
    requires
        m.dom().contains(target),
        !m.remove(target).dom().contains(beneficiary),
    ensures
        spec_delete(m, target, beneficiary) == Option::Some(m.remove(target)),
{
}

/// The effect of one action of a batch submitted by `submitter` against
/// `target`, or `None` when the ledger refuses it. Key attachment is
/// recorded nowhere in this balance-only model.
pub open spec fn apply_action_spec(
    m: Map<Seq<char>, Balance>,
    submitter: Seq<char>,
    target: Seq<char>,
    a: LedgerAction,
) -> Option<Map<Seq<char>, Balance>> {
    match a {
        LedgerAction::CreateAccount => if m.dom().contains(target) {
            Option::None
        } else {
            Option::Some(m.insert(target, 0))
        },
        LedgerAction::Transfer { amount } => spec_transfer(m, submitter, target, amount as int),
        LedgerAction::AddFullAccessKey { .. } => if m.dom().contains(target) {
            Option::Some(m)
        } else {
            Option::None
        },
        LedgerAction::DeleteAccount { beneficiary } => spec_delete(m, target, beneficiary@),
        LedgerAction::FunctionCall { deposit, .. } => spec_transfer(
            m,
            submitter,
            target,
            deposit as int,
        ),
    }
}

/// Actions applied in order; the first refusal refuses the rest.
pub open spec fn apply_actions_spec(
    m: Map<Seq<char>, Balance>,
    submitter: Seq<char>,
    target: Seq<char>,
    actions: Seq<LedgerAction>,
) -> Option<Map<Seq<char>, Balance>>
    decreases actions.len(),
{
    if actions.len() == 0 {
        Option::Some(m)
    } else {
        match apply_action_spec(m, submitter, target, actions[0]) {
            Option::Some(m2) => apply_actions_spec(m2, submitter, target, actions.drop_first()),
            Option::None => Option::None,
        }
    }
}

/// Every account the batch brought into existence closes at or above the
/// viability floor.
pub open spec fn viable_created(m0: Map<Seq<char>, Balance>, m1: Map<Seq<char>, Balance>) -> bool {
    forall|k: Seq<char>|
        #[trigger] m1.dom().contains(k) && !m0.dom().contains(k) ==> m1[k] >= MIN_VIABLE_BALANCE
}

/// One batch, one receipt: all of it applies, or none of it does. A batch
/// whose actions go through but which leaves a freshly created account under
/// the viability floor is refused whole.
pub open spec fn apply_batch_spec(
    m: Map<Seq<char>, Balance>,
    submitter: Seq<char>,
    target: Seq<char>,
    actions: Seq<LedgerAction>,
) -> Option<Map<Seq<char>, Balance>> {
    match apply_actions_spec(m, submitter, target, actions) {
        Option::Some(m1) => if viable_created(m, m1) {
            Option::Some(m1)
        } else {
            Option::None
        },
        Option::None => Option::None,
    }
}

/// The index of the entry carrying `id`, if any.
fn find_idx(v: &Vec<LedgerAccount>, id: &AccountId) -> (r: Option<usize>)
    ensures
        match r {
            Option::Some(i) => 0 <= i < v@.len() && v@[i as int].id@ == id@,
            Option::None => forall|i: int| 0 <= i < v@.len() ==> (#[trigger] v@[i]).id@ != id@,
        },
{
    let mut i: usize = 0;
    while i < v.len()
        invariant
            0 <= i <= v@.len(),
            forall|j: int| 0 <= j < i ==> (#[trigger] v@[j]).id@ != id@,
        decreases v@.len() - i,
    {
        if v[i].id.same_as(id) {
            return Some(i);
        }
        i = i + 1;
    }
    None
}

/// Moves `amount` from `from` to `to` in `v`, refusing exactly when
/// `spec_transfer` does; on refusal `v` is untouched.
fn exec_transfer(v: &mut Vec<LedgerAccount>, from: &AccountId, to: &AccountId, amount: Balance) -> (r:
    bool)
    requires
        accounts_wf(old(v)@),
    ensures
        accounts_wf(final(v)@),
        r ==> spec_transfer(balances_of(old(v)@), from@, to@, amount as int) == Option::Some(
            balances_of(final(v)@),
        ),
        !r ==> spec_transfer(balances_of(old(v)@), from@, to@, amount as int) is None
            && final(v)@ == old(v)@,
{
    let fi = match find_idx(v, from) {
        Option::Some(i) => i,
        Option::None => {
            proof {
                lemma_balances_dom(v@, from@);
            }
            return false;
        },
    };
    let ti = match find_idx(v, to) {
        Option::Some(i) => i,
        Option::None => {
            proof {
                lemma_balances_dom(v@, to@);
            }
            return false;
        },
    };
    proof {
        lemma_balances_at(v@, fi as int);
        lemma_balances_at(v@, ti as int);
    }
    if v[fi].balance < amount {
        return false;
    }
    if from.same_as(to) {
        return true;
    }
    assert(fi != ti);
    if v[ti].balance > u128::MAX - amount {
        return false;
    }
    let from_balance = v[fi].balance;
    let from_id = v[fi].id.duplicate();
    let debited = LedgerAccount { id: from_id, balance: from_balance - amount };
    proof {
        lemma_balances_update(v@, fi as int, debited);
    }
    v[fi] = debited;
    let to_balance = v[ti].balance;
    let to_id = v[ti].id.duplicate();
    let credited = LedgerAccount { id: to_id, balance: to_balance + amount };
    proof {
        lemma_balances_update(v@, ti as int, credited);
    }
    v[ti] = credited;
    true
}

/// Deletes `target` from `v`, paying its balance to `beneficiary` when that
/// account exists and silently losing it otherwise; refuses exactly when
/// `spec_delete` does, leaving `v` untouched then.
fn exec_delete(v: &mut Vec<LedgerAccount>, target: &AccountId, beneficiary: &AccountId) -> (r:
    bool)
    requires
        accounts_wf(old(v)@),
    ensures
        accounts_wf(final(v)@),
        r ==> spec_delete(balances_of(old(v)@), target@, beneficiary@) == Option::Some(
            balances_of(final(v)@),
        ),
        !r ==> spec_delete(balances_of(old(v)@), target@, beneficiary@) is None
            && final(v)@ == old(v)@,
{
    let ti = match find_idx(v, target) {
        Option::Some(i) => i,
        Option::None => {
            proof {
                lemma_balances_dom(v@, target@);
            }
            return false;
        },
    };
    proof {
        lemma_balances_at(v@, ti as int);
        lemma_balances_remove(v@, ti as int);
    }
    let ghost before = v@;
    let removed = v.remove(ti);
    let bal = removed.balance;
    match find_idx(v, beneficiary) {
        Option::None => {
            proof {
                lemma_balances_dom(v@, beneficiary@);
            }
            true
        },
        Option::Some(bi) => {
            proof {
                lemma_balances_at(v@, bi as int);
            }
            if v[bi].balance > u128::MAX - bal {
                proof {
                    assert(before.remove(ti as int).insert(ti as int, removed) =~= before);
                }
                v.insert(ti, removed);
                return false;
            }
            let ben_balance = v[bi].balance;
            let ben_id = v[bi].id.duplicate();
            let credited = LedgerAccount { id: ben_id, balance: ben_balance + bal };
            proof {
                lemma_balances_update(v@, bi as int, credited);
            }
            v[bi] = credited;
            true
        },
    }
}

/// The external ledger, modeled as existence and balances of named accounts;
/// its key and permission machinery is outside this model.
pub struct Ledger {
    accounts: Vec<LedgerAccount>,
}

impl Ledger {
    pub closed spec fn wf(&self) -> bool {
        accounts_wf(self.accounts@)
    }

    pub closed spec fn balances(&self) -> Map<Seq<char>, Balance> {
        balances_of(self.accounts@)
    }

    /// An empty ledger.
    pub fn new() -> (r: Ledger)
        ensures
            r.wf(),
            r.balances() == Map::<Seq<char>, Balance>::empty(),
    {
        Ledger { accounts: Vec::new() }
    }

    /// Endows a not-yet-existing account, for setting up a starting state.
    pub fn bootstrap_account(&mut self, id: AccountId, balance: Balance) -> (r: bool)
        requires
            old(self).wf(),
        ensures
            final(self).wf(),
            r <==> !old(self).balances().dom().contains(id@),
            r ==> final(self).balances() == old(self).balances().insert(id@, balance),
            !r ==> *final(self) == *old(self),
    {
        match find_idx(&self.accounts, &id) {
            Option::Some(i) => {
                proof {
                    lemma_balances_at(self.accounts@, i as int);
                }
                false
            },
            Option::None => {
                proof {
                    lemma_balances_dom(self.accounts@, id@);
                    lemma_balances_push(self.accounts@, LedgerAccount { id, balance });
                }
                let ghost before = self.accounts@;
                self.accounts.push(LedgerAccount { id, balance });
                proof {
                    assert forall|a: int, b: int|
                        0 <= a < b < self.accounts@.len() implies (#[trigger] self.accounts@[a]).id@
                        != (#[trigger] self.accounts@[b]).id@ by {
                        if b < before.len() as int {
                            assert(self.accounts@[a] == before[a]);
                            assert(self.accounts@[b] == before[b]);
                        } else {
                            assert(self.accounts@[a] == before[a]);
                        }
                    }
                }
                true
            },
        }
    }

    /// The balance the ledger holds for `id`, if the account exists.
    pub fn balance_of(&self, id: &AccountId) -> (r: Option<Balance>)
        requires
            self.wf(),
        ensures
            match r {
                Option::Some(b) => self.balances().dom().contains(id@) && self.balances()[id@]
                    == b,
                Option::None => !self.balances().dom().contains(id@),
            },
    {
        match find_idx(&self.accounts, id) {
            Option::Some(i) => {
                proof {
                    lemma_balances_at(self.accounts@, i as int);
                }
                Some(self.accounts[i].balance)
            },
            Option::None => {
                proof {
                    lemma_balances_dom(self.accounts@, id@);
                }
                None
            },
        }
    }

    /// Whether the ledger holds an account named `id`.
    pub fn holds_account(&self, id: &AccountId) -> (r: bool)
        requires
            self.wf(),
        ensures
            r == self.balances().dom().contains(id@),
    {
        match self.balance_of(id) {
            Option::Some(_) => true,
            Option::None => false,
        }
    }

    /// Executes one action batch as one receipt: on `true` the whole batch
    /// applied, on `false` the ledger refused it and stands exactly as
    /// before — a batch never applies in part.
    pub fn apply_batch(&mut self, submitter: &AccountId, batch: &ActionBatch) -> (r: bool)
        requires
            old(self).wf(),
        ensures
            final(self).wf(),
            r ==> apply_batch_spec(
                old(self).balances(),
                submitter@,
                batch.target@,
                batch.actions@,
            ) == Option::Some(final(self).balances()),
            !r ==> apply_batch_spec(
                old(self).balances(),
                submitter@,
                batch.target@,
                batch.actions@,
            ) is None && *final(self) == *old(self),
    {
        let ghost m0 = balances_of(self.accounts@);
        let ghost sub = submitter@;
        let ghost tgt = batch.target@;
        let ghost acts = batch.actions@;
        let mut scratch: Vec<LedgerAccount> = Vec::new();
        let mut c: usize = 0;
        while c < self.accounts.len()
            invariant
                0 <= c <= self.accounts@.len(),
                scratch@.len() == c as int,
                forall|i: int|
                    0 <= i < c ==> (#[trigger] scratch@[i]).id@ == self.accounts@[i].id@
                        && scratch@[i].balance == self.accounts@[i].balance,
            decreases self.accounts@.len() - c,
        {
            let entry = LedgerAccount {
                id: self.accounts[c].id.duplicate(),
                balance: self.accounts[c].balance,
            };
            scratch.push(entry);
            c = c + 1;
        }
        proof {
            lemma_balances_congruent(scratch@, self.accounts@);
            assert(accounts_wf(scratch@));
            assert(balances_of(scratch@) == m0);
            assert(acts.skip(0) =~= acts);
        }
        let mut j: usize = 0;
        while j < batch.actions.len()
            invariant
                old(self).wf(),
                m0 == balances_of(old(self).accounts@),
                sub == submitter@,
                tgt == batch.target@,
                acts == batch.actions@,
                0 <= j <= acts.len(),
                accounts_wf(scratch@),
                apply_actions_spec(m0, sub, tgt, acts) == apply_actions_spec(
                    balances_of(scratch@),
                    sub,
                    tgt,
                    acts.skip(j as int),
                ),
            decreases acts.len() - j,
        {
            proof {
                assert(acts.skip(j as int)[0] == acts[j as int]);
                assert(acts.skip(j as int).drop_first() =~= acts.skip(j as int + 1));
            }
            let ghost cur = balances_of(scratch@);
            let applied: bool = match &batch.actions[j] {
                LedgerAction::CreateAccount => {
                    match find_idx(&scratch, &batch.target) {
                        Option::Some(i) => {
                            proof {
                                lemma_balances_at(scratch@, i as int);
                            }
                            false
                        },
                        Option::None => {
                            let fresh = LedgerAccount { id: batch.target.duplicate(), balance: 0 };
                            proof {
                                lemma_balances_dom(scratch@, tgt);
                                lemma_balances_push(scratch@, fresh);
                            }
                            let ghost before = scratch@;
                            scratch.push(fresh);
                            proof {
                                assert forall|a: int, b: int|
                                    0 <= a < b < scratch@.len() implies (#[trigger] scratch@[a]).id@
                                    != (#[trigger] scratch@[b]).id@ by {
                                    if b < before.len() as int {
                                        assert(scratch@[a] == before[a]);
                                        assert(scratch@[b] == before[b]);
                                    } else {
                                        assert(scratch@[a] == before[a]);
                                    }
                                }
                            }
                            true
                        },
                    }
                },
                LedgerAction::Transfer { amount } => exec_transfer(
                    &mut scratch,
                    submitter,
                    &batch.target,
                    *amount,
                ),
                LedgerAction::AddFullAccessKey { .. } => {
                    match find_idx(&scratch, &batch.target) {
                        Option::Some(i) => {
                            proof {
                                lemma_balances_at(scratch@, i as int);
                            }
                            true
                        },
                        Option::None => {
                            proof {
                                lemma_balances_dom(scratch@, tgt);
                            }
                            false
                        },
                    }
                },
                LedgerAction::DeleteAccount { beneficiary } => exec_delete(
                    &mut scratch,
                    &batch.target,
                    beneficiary,
                ),
                LedgerAction::FunctionCall { deposit, .. } => exec_transfer(
                    &mut scratch,
                    submitter,
                    &batch.target,
                    *deposit,
                ),
            };
            if !applied {
                proof {
                    assert(apply_action_spec(cur, sub, tgt, acts[j as int]) is None);
                    assert(apply_actions_spec(cur, sub, tgt, acts.skip(j as int)) is None);
                }
                return false;
            }
            j = j + 1;
        }
        proof {
            assert(acts.skip(acts.len() as int) =~= Seq::<LedgerAction>::empty());
            assert(apply_actions_spec(m0, sub, tgt, acts) == Option::Some(balances_of(scratch@)));
        }
        let ghost m1 = balances_of(scratch@);
        let mut k: usize = 0;
        while k < scratch.len()
            invariant
                old(self).wf(),
                m0 == balances_of(old(self).accounts@),
                sub == submitter@,
                tgt == batch.target@,
                acts == batch.actions@,
                accounts_wf(scratch@),
                m1 == balances_of(scratch@),
                apply_actions_spec(m0, sub, tgt, acts) == Option::Some(m1),
                0 <= k <= scratch@.len(),
                forall|i: int|
                    0 <= i < k ==> m0.dom().contains((#[trigger] scratch@[i]).id@)
                        || scratch@[i].balance >= MIN_VIABLE_BALANCE,
            decreases scratch@.len() - k,
        {
            if scratch[k].balance < MIN_VIABLE_BALANCE {
                match find_idx(&self.accounts, &scratch[k].id) {
                    Option::Some(i) => {
                        proof {
                            lemma_balances_at(self.accounts@, i as int);
                        }
                    },
                    Option::None => {
                        proof {
                            lemma_balances_dom(old(self).accounts@, scratch@[k as int].id@);
                            lemma_balances_at(scratch@, k as int);
                            assert(!viable_created(m0, m1));
                        }
                        return false;
                    },
                }
            }
            k = k + 1;
        }
        proof {
            assert forall|key: Seq<char>|
                #[trigger] m1.dom().contains(key) && !m0.dom().contains(key) implies m1[key]
                >= MIN_VIABLE_BALANCE by {
                lemma_balances_dom(scratch@, key);
                let i = choose|i: int| 0 <= i < scratch@.len() && (#[trigger] scratch@[i]).id@ == key;
                lemma_balances_at(scratch@, i);
            }
            assert(viable_created(m0, m1));
        }
        self.accounts = scratch;
        true
    }
}

} // verus!
