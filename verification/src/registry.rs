//! The account registry: a mapping from recipient identity to that
//! recipient's ordered vesting accounts, with the ghost model the engine's
//! contracts are stated over.

use vstd::prelude::*;
use crate::schedule::{vested_spec, VestingSchedule};

verus! {

/// A single grant record: one recipient's entitlement, schedule, and
/// claimed-to-date amount.
#[derive(Debug, Clone)]
pub struct VestingAccount {
    /// The grantor (master) identity that registered the grant.
    pub master_address: String,
    /// The recipient identity.
    pub address: String,
    /// The total originally granted; fixed at creation.
    pub vesting_amount: u128,
    /// The amount released immediately at the cliff.
    pub cliff_amount: u128,
    /// The vesting curve's time parameters.
    pub vesting_schedule: VestingSchedule,
    /// The amount claimed so far; monotonically non-decreasing.
    pub claimed_amount: u128,
}

/// The mathematical model of a vesting account.
#[verifier::ext_equal]
pub struct AccountModel {
    pub master: Seq<char>,
    pub recipient: Seq<char>,
    pub vesting_amount: int,
    pub cliff_amount: int,
    pub schedule: VestingSchedule,
    pub claimed: int,
}

impl View for VestingAccount {
    type V = AccountModel;

    open spec fn view(&self) -> AccountModel {
        AccountModel {
            master: self.master_address@,
            recipient: self.address@,
            vesting_amount: self.vesting_amount as int,
            cliff_amount: self.cliff_amount as int,
            schedule: self.vesting_schedule,
            claimed: self.claimed_amount as int,
        }
    }
}

/// The internal invariant of a stored account.
pub open spec fn account_wf(a: AccountModel) -> bool {
    &&& 0 < a.vesting_amount <= u128::MAX
    &&& 0 <= a.cliff_amount <= a.vesting_amount
    &&& 0 <= a.claimed <= a.vesting_amount
    &&& a.schedule.is_valid()
}

/// The vested portion of the account's grant at time `now`.
pub open spec fn vested_at(a: AccountModel, now: int) -> int {
    vested_spec(a.schedule, a.vesting_amount, a.cliff_amount, now)
}

/// The vested-but-unclaimed portion at time `now`.
pub open spec fn claimable_at(a: AccountModel, now: int) -> int {
    vested_at(a, now) - a.claimed
}

/// One recipient's slot in the registry, holding that recipient's accounts
/// in insertion order.
#[derive(Debug, Clone)]
pub struct RegistryEntry {
    pub recipient: String,
    pub accounts: Vec<VestingAccount>,
}

/// The mathematical model of a registry slot.
#[verifier::ext_equal]
pub struct EntryModel {
    pub recipient: Seq<char>,
    pub accounts: Seq<AccountModel>,
}

impl View for RegistryEntry {
    type V = EntryModel;

    open spec fn view(&self) -> EntryModel {
        EntryModel {
            recipient: self.recipient@,
            accounts: self.accounts@.map_values(|a: VestingAccount| a@),
        }
    }
}

/// The registry: recipient identities mapped to their ordered accounts.
#[derive(Debug, Clone)]
pub struct Registry {
    pub entries: Vec<RegistryEntry>,
}

impl View for Registry {
    type V = Seq<EntryModel>;

    open spec fn view(&self) -> Seq<EntryModel> {
        self.entries@.map_values(|e: RegistryEntry| e@)
    }
}

/// Every stored slot is non-empty, holds well-formed accounts of its own
/// recipient, and recipients are unique.
pub open spec fn entry_wf(e: EntryModel) -> bool {
    &&& e.accounts.len() > 0
    &&& forall|i: int|
        0 <= i < e.accounts.len() ==> account_wf(#[trigger] e.accounts[i]) && e.accounts[i].recipient
            == e.recipient
}

pub open spec fn registry_wf(es: Seq<EntryModel>) -> bool {
    &&& forall|i: int| 0 <= i < es.len() ==> entry_wf(#[trigger] es[i])
    &&& forall|i: int, j: int|
        0 <= i < j < es.len() ==> (#[trigger] es[i]).recipient != (#[trigger] es[j]).recipient
}

/// Whether some slot belongs to `name`.
pub open spec fn has_recipient(es: Seq<EntryModel>, name: Seq<char>) -> bool {
    exists|i: int| 0 <= i < es.len() && (#[trigger] es[i]).recipient == name
}

/// The index of `name`'s slot; meaningful only when `has_recipient` holds
/// (and then unique under `registry_wf`).
pub open spec fn recipient_index(es: Seq<EntryModel>, name: Seq<char>) -> int {
    choose|i: int| 0 <= i < es.len() && (#[trigger] es[i]).recipient == name
}

/// The accounts registered for `name`, empty when there is no slot.
pub open spec fn accounts_of(es: Seq<EntryModel>, name: Seq<char>) -> Seq<AccountModel> {
    if has_recipient(es, name) {
        es[recipient_index(es, name)].accounts
    } else {
        Seq::empty()
    }
}

/// The sum of the original grant amounts of a run of accounts.
pub open spec fn sum_accounts_vesting(accs: Seq<AccountModel>) -> int
    decreases accs.len(),
{
    if accs.len() == 0 {
        0
    } else {
        accs[0].vesting_amount + sum_accounts_vesting(accs.drop_first())
    }
}

/// The sum of the original grant amounts over all registry slots: the
/// escrow the registry commits the ledger to.
pub open spec fn sum_entries_vesting(es: Seq<EntryModel>) -> int
    decreases es.len(),
{
    if es.len() == 0 {
        0
    } else {
        sum_accounts_vesting(es[0].accounts) + sum_entries_vesting(es.drop_first())
    }
}

pub proof fn lemma_sum_accounts_nonneg(accs: Seq<AccountModel>)
    requires
        forall|i: int| 0 <= i < accs.len() ==> account_wf(#[trigger] accs[i]),
    ensures
        0 <= sum_accounts_vesting(accs),
    decreases accs.len(),
{
    if accs.len() > 0 {
        lemma_sum_accounts_nonneg(accs.drop_first());
    }
}

pub proof fn lemma_sum_entries_nonneg(es: Seq<EntryModel>)
    requires
        forall|i: int| 0 <= i < es.len() ==> entry_wf(#[trigger] es[i]),
    ensures
        0 <= sum_entries_vesting(es),
    decreases es.len(),
{
    if es.len() > 0 {
        assert(entry_wf(es[0]));
        lemma_sum_accounts_nonneg(es[0].accounts);
        lemma_sum_entries_nonneg(es.drop_first());
    }
}

pub proof fn lemma_sum_accounts_concat(s1: Seq<AccountModel>, s2: Seq<AccountModel>)
    ensures
        sum_accounts_vesting(s1 + s2) == sum_accounts_vesting(s1) + sum_accounts_vesting(s2),
    decreases s1.len(),
{
    if s1.len() == 0 {
        assert(s1 + s2 =~= s2);
    } else {
        assert((s1 + s2).drop_first() =~= s1.drop_first() + s2);
        lemma_sum_accounts_concat(s1.drop_first(), s2);
    }
}

pub proof fn lemma_sum_accounts_singleton(a: AccountModel)
    ensures
        sum_accounts_vesting(seq![a]) == a.vesting_amount,
{
    assert(seq![a].drop_first() =~= Seq::<AccountModel>::empty());
    assert(sum_accounts_vesting(Seq::<AccountModel>::empty()) == 0);
    assert(sum_accounts_vesting(seq![a]) == a.vesting_amount + sum_accounts_vesting(
        seq![a].drop_first(),
    ));
}

pub proof fn lemma_sum_accounts_push(accs: Seq<AccountModel>, a: AccountModel)
    ensures
        sum_accounts_vesting(accs.push(a)) == sum_accounts_vesting(accs) + a.vesting_amount,
{
    assert(accs.push(a) =~= accs + seq![a]);
    lemma_sum_accounts_concat(accs, seq![a]);
    lemma_sum_accounts_singleton(a);
}

pub proof fn lemma_sum_entries_concat(s1: Seq<EntryModel>, s2: Seq<EntryModel>)
    ensures
        sum_entries_vesting(s1 + s2) == sum_entries_vesting(s1) + sum_entries_vesting(s2),
    decreases s1.len(),
{
    if s1.len() == 0 {
        assert(s1 + s2 =~= s2);
    } else {
        assert((s1 + s2).drop_first() =~= s1.drop_first() + s2);
        lemma_sum_entries_concat(s1.drop_first(), s2);
    }
}

pub proof fn lemma_sum_entries_push(es: Seq<EntryModel>, e: EntryModel)
    ensures
        sum_entries_vesting(es.push(e)) == sum_entries_vesting(es) + sum_accounts_vesting(
            e.accounts,
        ),
{
    assert(es.push(e) =~= es + seq![e]);
    lemma_sum_entries_concat(es, seq![e]);
    assert(seq![e].drop_first() =~= Seq::<EntryModel>::empty());
    assert(sum_entries_vesting(Seq::<EntryModel>::empty()) == 0);
    assert(sum_entries_vesting(seq![e]) == sum_accounts_vesting(e.accounts)
        + sum_entries_vesting(seq![e].drop_first()));
}

pub proof fn lemma_sum_entries_update(es: Seq<EntryModel>, i: int, e: EntryModel)
    requires
        0 <= i < es.len(),
    ensures
        sum_entries_vesting(es.update(i, e)) == sum_entries_vesting(es) - sum_accounts_vesting(
            es[i].accounts,
        ) + sum_accounts_vesting(e.accounts),
    decreases es.len(),
{
    if i == 0 {
        assert(es.update(0, e).drop_first() =~= es.drop_first());
    } else {
        assert(es.update(i, e).drop_first() =~= es.drop_first().update(i - 1, e));
        lemma_sum_entries_update(es.drop_first(), i - 1, e);
    }
}

pub proof fn lemma_sum_entries_remove(es: Seq<EntryModel>, i: int)
    requires
        0 <= i < es.len(),
    ensures
        sum_entries_vesting(es.remove(i)) == sum_entries_vesting(es) - sum_accounts_vesting(
            es[i].accounts,
        ),
    decreases es.len(),
{
    if i == 0 {
        assert(es.remove(0) =~= es.drop_first());
    } else {
        assert(es.remove(i).drop_first() =~= es.drop_first().remove(i - 1));
        lemma_sum_entries_remove(es.drop_first(), i - 1);
    }
}

/// Registering a grant appends the account to its recipient's slot,
/// creating the slot at the end when the recipient had none.
pub open spec fn add_account_m(es: Seq<EntryModel>, a: AccountModel) -> Seq<EntryModel> {
    if has_recipient(es, a.recipient) {
        let i = recipient_index(es, a.recipient);
        es.update(i, EntryModel { recipient: es[i].recipient, accounts: es[i].accounts.push(a) })
    } else {
        es.push(EntryModel { recipient: a.recipient, accounts: seq![a] })
    }
}

/// What registering one account does to the registry: the recipient's run
/// grows by exactly that account, every other recipient's run is untouched,
/// well-formedness is preserved, and the committed escrow grows by the
/// grant.
pub proof fn lemma_add_account(es: Seq<EntryModel>, a: AccountModel)
    requires
        registry_wf(es),
        account_wf(a),
    ensures
        registry_wf(add_account_m(es, a)),
        sum_entries_vesting(add_account_m(es, a)) == sum_entries_vesting(es) + a.vesting_amount,
        accounts_of(add_account_m(es, a), a.recipient) == accounts_of(es, a.recipient).push(a),
        forall|name: Seq<char>|
            name != a.recipient ==> #[trigger] accounts_of(add_account_m(es, a), name)
                == accounts_of(es, name),
{
    let es2 = add_account_m(es, a);
    if has_recipient(es, a.recipient) {
        let i = recipient_index(es, a.recipient);
        let e2 = EntryModel { recipient: es[i].recipient, accounts: es[i].accounts.push(a) };
        assert(registry_wf(es2)) by {
            assert forall|k: int| 0 <= k < es2.len() implies entry_wf(#[trigger] es2[k]) by {
                if k == i {
                    assert(forall|m: int|
                        0 <= m < es[i].accounts.len() ==> e2.accounts[m] == es[i].accounts[m]);
                }
            }
        }
        lemma_sum_entries_update(es, i, e2);
        lemma_sum_accounts_push(es[i].accounts, a);
        lemma_recipient_index_unique(es2, a.recipient, i);
        assert(accounts_of(es2, a.recipient) == accounts_of(es, a.recipient).push(a));
        assert forall|name: Seq<char>| name != a.recipient implies #[trigger] accounts_of(
            es2,
            name,
        ) == accounts_of(es, name) by {
            if has_recipient(es, name) {
                let j = recipient_index(es, name);
                assert(es2[j].recipient == name);
                lemma_recipient_index_unique(es2, name, j);
            } else {
                if has_recipient(es2, name) {
                    let k = choose|k: int| 0 <= k < es2.len() && (#[trigger] es2[k]).recipient
                        == name;
                    assert(es[k].recipient == name);
                }
            }
        }
    } else {
        let e2 = EntryModel { recipient: a.recipient, accounts: seq![a] };
        let n = es.len() as int;
        assert(registry_wf(es2)) by {
            assert forall|k: int| 0 <= k < es2.len() implies entry_wf(#[trigger] es2[k]) by {
                if k < n {
                    assert(es2[k] == es[k]);
                }
            }
            assert forall|i: int, j: int| 0 <= i < j < es2.len() implies (#[trigger] es2[i]).recipient
                != (#[trigger] es2[j]).recipient by {
                if j == n {
                    assert(es2[i] == es[i]);
                    assert(!(es[i].recipient == a.recipient));
                }
            }
        }
        lemma_sum_entries_push(es, e2);
        lemma_sum_accounts_singleton(a);
        lemma_recipient_index_unique(es2, a.recipient, n);
        assert(accounts_of(es, a.recipient) =~= Seq::<AccountModel>::empty());
        assert(accounts_of(es2, a.recipient) =~= accounts_of(es, a.recipient).push(a));
        assert forall|name: Seq<char>| name != a.recipient implies #[trigger] accounts_of(
            es2,
            name,
        ) == accounts_of(es, name) by {
            if has_recipient(es, name) {
                let j = recipient_index(es, name);
                assert(es2[j].recipient == name);
                lemma_recipient_index_unique(es2, name, j);
            } else {
                if has_recipient(es2, name) {
                    let k = choose|k: int| 0 <= k < es2.len() && (#[trigger] es2[k]).recipient
                        == name;
                    assert(k < n ==> es[k].recipient == name);
                    assert(k == n ==> es2[k].recipient == a.recipient);
                }
            }
        }
    }
}

/// Removing one slot keeps the registry well-formed and releases exactly
/// that slot's committed escrow.
pub proof fn lemma_registry_remove(es: Seq<EntryModel>, i: int)
    requires
        registry_wf(es),
        0 <= i < es.len(),
    ensures
        registry_wf(es.remove(i)),
        sum_entries_vesting(es.remove(i)) == sum_entries_vesting(es) - sum_accounts_vesting(
            es[i].accounts,
        ),
        !has_recipient(es.remove(i), es[i].recipient),
{
    let es2 = es.remove(i);
    lemma_sum_entries_remove(es, i);
    assert forall|k: int| 0 <= k < es2.len() implies entry_wf(#[trigger] es2[k]) by {
        if k < i {
            assert(es2[k] == es[k]);
        } else {
            assert(es2[k] == es[k + 1]);
        }
    }
    assert forall|k: int, j: int| 0 <= k < j < es2.len() implies (#[trigger] es2[k]).recipient != (
    #[trigger] es2[j]).recipient by {
        let k0 = if k < i { k } else { k + 1 };
        let j0 = if j < i { j } else { j + 1 };
        assert(es2[k] == es[k0]);
        assert(es2[j] == es[j0]);
    }
    if has_recipient(es2, es[i].recipient) {
        let k = choose|k: int| 0 <= k < es2.len() && (#[trigger] es2[k]).recipient
            == es[i].recipient;
        let k0 = if k < i { k } else { k + 1 };
        assert(es2[k] == es[k0]);
        assert(es[k0].recipient == es[i].recipient && k0 != i);
    }
}

/// Replacing a slot's accounts (same recipient, still non-empty and
/// well-formed) keeps the registry well-formed.
pub proof fn lemma_registry_update(es: Seq<EntryModel>, i: int, e: EntryModel)
    requires
        registry_wf(es),
        0 <= i < es.len(),
        e.recipient == es[i].recipient,
        entry_wf(e),
    ensures
        registry_wf(es.update(i, e)),
        sum_entries_vesting(es.update(i, e)) == sum_entries_vesting(es) - sum_accounts_vesting(
            es[i].accounts,
        ) + sum_accounts_vesting(e.accounts),
{
    lemma_sum_entries_update(es, i, e);
    let es2 = es.update(i, e);
    assert forall|k: int| 0 <= k < es2.len() implies entry_wf(#[trigger] es2[k]) by {
        if k != i {
            assert(es2[k] == es[k]);
        }
    }
    assert forall|k: int, j: int| 0 <= k < j < es2.len() implies (#[trigger] es2[k]).recipient != (
    #[trigger] es2[j]).recipient by {
        assert(es2[k].recipient == es[k].recipient);
        assert(es2[j].recipient == es[j].recipient);
    }
}

/// A claim settles an account: its claimed amount becomes the vested amount.
pub open spec fn claim_account(a: AccountModel, now: int) -> AccountModel {
    AccountModel { claimed: vested_at(a, now), ..a }
}

/// A settled account is pruned from the registry once the whole grant is
/// claimed and the schedule has run out.
pub open spec fn fully_claimed(a: AccountModel, now: int) -> bool {
    a.claimed == a.vesting_amount && now >= a.schedule.spec_end_time()
}

/// What one Claim call does to a recipient's run of accounts: each account
/// is settled, and the fully-claimed ones are pruned.
pub open spec fn claim_accounts(accs: Seq<AccountModel>, now: int) -> Seq<AccountModel>
    decreases accs.len(),
{
    if accs.len() == 0 {
        Seq::empty()
    } else {
        let a2 = claim_account(accs[0], now);
        let rest = claim_accounts(accs.drop_first(), now);
        if fully_claimed(a2, now) {
            rest
        } else {
            seq![a2] + rest
        }
    }
}

/// The total a Claim call transfers: the sum of the vested-but-unclaimed
/// portions.
pub open spec fn claim_total(accs: Seq<AccountModel>, now: int) -> int
    decreases accs.len(),
{
    if accs.len() == 0 {
        0
    } else {
        claimable_at(accs[0], now) + claim_total(accs.drop_first(), now)
    }
}

/// The settlement a deregistration pays the recipient: the sum of the
/// vested-but-unclaimed portions, counting only positive ones.
pub open spec fn settle_total(accs: Seq<AccountModel>, now: int) -> int
    decreases accs.len(),
{
    if accs.len() == 0 {
        0
    } else {
        let c = claimable_at(accs[0], now);
        (if c > 0 {
            c
        } else {
            0
        }) + settle_total(accs.drop_first(), now)
    }
}

/// The unvested remainder a deregistration releases back to the unallocated
/// pool.
pub open spec fn release_total(accs: Seq<AccountModel>, now: int) -> int
    decreases accs.len(),
{
    if accs.len() == 0 {
        0
    } else {
        (accs[0].vesting_amount - vested_at(accs[0], now)) + release_total(
            accs.drop_first(),
            now,
        )
    }
}

pub proof fn lemma_claim_accounts_concat(s1: Seq<AccountModel>, s2: Seq<AccountModel>, now: int)
    ensures
        claim_accounts(s1 + s2, now) == claim_accounts(s1, now) + claim_accounts(s2, now),
        claim_total(s1 + s2, now) == claim_total(s1, now) + claim_total(s2, now),
        settle_total(s1 + s2, now) == settle_total(s1, now) + settle_total(s2, now),
        release_total(s1 + s2, now) == release_total(s1, now) + release_total(s2, now),
    decreases s1.len(),
{
    if s1.len() == 0 {
        assert(s1 + s2 =~= s2);
        assert(claim_accounts(s1, now) + claim_accounts(s2, now) =~= claim_accounts(s2, now));
    } else {
        assert((s1 + s2).drop_first() =~= s1.drop_first() + s2);
        lemma_claim_accounts_concat(s1.drop_first(), s2, now);
        let a2 = claim_account(s1[0], now);
        if !fully_claimed(a2, now) {
            assert(seq![a2] + (claim_accounts(s1.drop_first(), now) + claim_accounts(s2, now))
                =~= (seq![a2] + claim_accounts(s1.drop_first(), now)) + claim_accounts(s2, now));
        }
    }
}

/// What the accounts of a recipient look like after a claim: all still
/// well-formed and the recipient's own, each settled exactly to its vested
/// amount, none of them prunable, and the committed escrow not grown.
pub proof fn lemma_claim_accounts_props(accs: Seq<AccountModel>, r: Seq<char>, now: int)
    requires
        forall|i: int|
            0 <= i < accs.len() ==> account_wf(#[trigger] accs[i]) && accs[i].recipient == r,
    ensures
        forall|k: int|
            0 <= k < claim_accounts(accs, now).len() ==> {
                let a = #[trigger] claim_accounts(accs, now)[k];
                account_wf(a) && a.recipient == r && a.claimed == vested_at(a, now)
                    && !fully_claimed(a, now)
            },
        sum_accounts_vesting(claim_accounts(accs, now)) <= sum_accounts_vesting(accs),
    decreases accs.len(),
{
    if accs.len() > 0 {
        let a0 = accs[0];
        let a2 = claim_account(a0, now);
        crate::schedule::lemma_vested_bounds(
            a0.schedule,
            a0.vesting_amount,
            a0.cliff_amount,
            now,
        );
        lemma_claim_accounts_props(accs.drop_first(), r, now);
        let rest = claim_accounts(accs.drop_first(), now);
        lemma_sum_accounts_singleton(a2);
        if !fully_claimed(a2, now) {
            lemma_sum_accounts_concat(seq![a2], rest);
            assert(forall|k: int|
                1 <= k < (seq![a2] + rest).len() ==> (seq![a2] + rest)[k] == rest[k - 1]);
        }
    }
}

/// The claim total is the exact transfer the call owes: non-negative when
/// no account is over-claimed, and never more than the recipient's escrow.
pub proof fn lemma_claim_total_bounds(accs: Seq<AccountModel>, now: int)
    requires
        forall|i: int|
            0 <= i < accs.len() ==> account_wf(#[trigger] accs[i]) && accs[i].claimed <= vested_at(
                accs[i],
                now,
            ),
    ensures
        0 <= claim_total(accs, now) <= sum_accounts_vesting(accs),
    decreases accs.len(),
{
    if accs.len() > 0 {
        let a0 = accs[0];
        crate::schedule::lemma_vested_bounds(
            a0.schedule,
            a0.vesting_amount,
            a0.cliff_amount,
            now,
        );
        lemma_claim_total_bounds(accs.drop_first(), now);
    }
}

/// Settlement and release stay within the deregistered escrow: the
/// recipient is paid at most the escrow, and together with the released
/// remainder the payout never exceeds it.
pub proof fn lemma_settle_release_bounds(accs: Seq<AccountModel>, now: int)
    requires
        forall|i: int| 0 <= i < accs.len() ==> account_wf(#[trigger] accs[i]),
    ensures
        0 <= settle_total(accs, now) <= sum_accounts_vesting(accs),
        0 <= release_total(accs, now) <= sum_accounts_vesting(accs),
        settle_total(accs, now) + release_total(accs, now) <= sum_accounts_vesting(accs),
    decreases accs.len(),
{
    if accs.len() > 0 {
        let a0 = accs[0];
        crate::schedule::lemma_vested_bounds(
            a0.schedule,
            a0.vesting_amount,
            a0.cliff_amount,
            now,
        );
        lemma_settle_release_bounds(accs.drop_first(), now);
    }
}

/// Accounts already settled at `now` are a fixed point of a claim: nothing
/// more is owed and nothing changes.
pub proof fn lemma_claim_fixed_point(accs: Seq<AccountModel>, now: int)
    requires
        forall|k: int|
            0 <= k < accs.len() ==> (#[trigger] accs[k]).claimed == vested_at(accs[k], now)
                && !fully_claimed(accs[k], now),
    ensures
        claim_accounts(accs, now) == accs,
        claim_total(accs, now) == 0,
    decreases accs.len(),
{
    if accs.len() > 0 {
        let a0 = accs[0];
        let a2 = claim_account(a0, now);
        assert(a2 == a0);
        lemma_claim_fixed_point(accs.drop_first(), now);
        assert(seq![a0] + accs.drop_first() =~= accs);
    }
}

/// Claiming is idempotent: right after a claim, a second claim at the same
/// time owes nothing and leaves every account unchanged.
pub proof fn lemma_claim_idempotent(accs: Seq<AccountModel>, r: Seq<char>, now: int)
    requires
        forall|i: int|
            0 <= i < accs.len() ==> account_wf(#[trigger] accs[i]) && accs[i].recipient == r,
    ensures
        claim_accounts(claim_accounts(accs, now), now) == claim_accounts(accs, now),
        claim_total(claim_accounts(accs, now), now) == 0,
{
    lemma_claim_accounts_props(accs, r, now);
    lemma_claim_fixed_point(claim_accounts(accs, now), now);
}

/// One claim never decreases an account's claimed amount, and never pushes
/// it past the grant.
pub proof fn lemma_claim_monotone(a: AccountModel, now: int)
    requires
        account_wf(a),
        a.claimed <= vested_at(a, now),
    ensures
        a.claimed <= claim_account(a, now).claimed <= a.vesting_amount,
{
    crate::schedule::lemma_vested_bounds(a.schedule, a.vesting_amount, a.cliff_amount, now);
}

/// What one Claim call does to the registry: the caller's run is settled
/// and pruned (the slot disappearing when nothing is left); everyone else
/// is untouched.
pub open spec fn claim_registry(es: Seq<EntryModel>, name: Seq<char>, now: int) -> Seq<
    EntryModel,
> {
    if has_recipient(es, name) {
        let i = recipient_index(es, name);
        let accs2 = claim_accounts(es[i].accounts, now);
        if accs2.len() == 0 {
            es.remove(i)
        } else {
            es.update(i, EntryModel { recipient: es[i].recipient, accounts: accs2 })
        }
    } else {
        es
    }
}

/// A claim keeps the registry well-formed and never grows the committed
/// escrow; afterwards the caller's remaining accounts are exactly the
/// settled, unpruned ones.
pub proof fn lemma_claim_registry(es: Seq<EntryModel>, name: Seq<char>, now: int)
    requires
        registry_wf(es),
    ensures
        registry_wf(claim_registry(es, name, now)),
        sum_entries_vesting(claim_registry(es, name, now)) <= sum_entries_vesting(es),
        accounts_of(claim_registry(es, name, now), name) == claim_accounts(
            accounts_of(es, name),
            now,
        ),
        forall|other: Seq<char>|
            other != name ==> #[trigger] accounts_of(claim_registry(es, name, now), other)
                == accounts_of(es, other),
{
    let es2 = claim_registry(es, name, now);
    if has_recipient(es, name) {
        let i = recipient_index(es, name);
        assert(entry_wf(es[i]));
        lemma_claim_accounts_props(es[i].accounts, name, now);
        let accs2 = claim_accounts(es[i].accounts, now);
        if accs2.len() == 0 {
            lemma_registry_remove(es, i);
            assert(accounts_of(es2, name) =~= claim_accounts(accounts_of(es, name), now));
            assert forall|other: Seq<char>| other != name implies #[trigger] accounts_of(
                es2,
                other,
            ) == accounts_of(es, other) by {
                lemma_remove_other_accounts(es, i, other);
            }
        } else {
            let e2 = EntryModel { recipient: es[i].recipient, accounts: accs2 };
            lemma_registry_update(es, i, e2);
            lemma_sum_accounts_nonneg(es[i].accounts);
            lemma_recipient_index_unique(es2, name, i);
            assert forall|other: Seq<char>| other != name implies #[trigger] accounts_of(
                es2,
                other,
            ) == accounts_of(es, other) by {
                if has_recipient(es, other) {
                    let j = recipient_index(es, other);
                    assert(es2[j].recipient == other);
                    lemma_recipient_index_unique(es2, other, j);
                } else {
                    if has_recipient(es2, other) {
                        let k = choose|k: int|
                            0 <= k < es2.len() && (#[trigger] es2[k]).recipient == other;
                        assert(es[k].recipient == other);
                    }
                }
            }
        }
    }
}

/// Claiming is idempotent at the registry: right after a claim, a second
/// claim at the same time owes the caller nothing and leaves the registry
/// unchanged.
pub proof fn lemma_claim_registry_idempotent(es: Seq<EntryModel>, name: Seq<char>, now: int)
    requires
        registry_wf(es),
    ensures
        claim_total(accounts_of(claim_registry(es, name, now), name), now) == 0,
        claim_registry(claim_registry(es, name, now), name, now) == claim_registry(es, name, now),
{
    lemma_claim_registry(es, name, now);
    let accs = accounts_of(es, name);
    let es2 = claim_registry(es, name, now);
    if has_recipient(es, name) {
        let i = recipient_index(es, name);
        assert(entry_wf(es[i]));
        assert(accs == es[i].accounts);
    } else {
        assert(accs =~= Seq::<AccountModel>::empty());
    }
    lemma_claim_accounts_props(accs, name, now);
    let settled = claim_accounts(accs, now);
    lemma_claim_fixed_point(settled, now);
    assert(accounts_of(es2, name) == settled);
    if has_recipient(es2, name) {
        let i2 = recipient_index(es2, name);
        assert(accounts_of(es2, name) == es2[i2].accounts);
        assert(claim_accounts(es2[i2].accounts, now) == es2[i2].accounts);
        assert(es2[i2].accounts.len() > 0) by {
            assert(entry_wf(es2[i2]));
        }
        assert(EntryModel { recipient: es2[i2].recipient, accounts: claim_accounts(
            es2[i2].accounts,
            now,
        ) } =~~= es2[i2]);
        assert(es2.update(i2, es2[i2]) =~= es2);
        assert(claim_registry(es2, name, now) == es2);
    }
}

/// Removing slot `i` leaves every other recipient's accounts unchanged.
pub proof fn lemma_remove_other_accounts(es: Seq<EntryModel>, i: int, other: Seq<char>)
    requires
        registry_wf(es),
        0 <= i < es.len(),
        other != es[i].recipient,
    ensures
        accounts_of(es.remove(i), other) == accounts_of(es, other),
{
    let es2 = es.remove(i);
    lemma_registry_remove(es, i);
    if has_recipient(es, other) {
        let j = recipient_index(es, other);
        assert(j != i);
        let j2 = if j < i { j } else { j - 1 };
        assert(es2[j2] == es[j]);
        lemma_recipient_index_unique(es2, other, j2);
    } else {
        if has_recipient(es2, other) {
            let k = choose|k: int| 0 <= k < es2.len() && (#[trigger] es2[k]).recipient == other;
            let k0 = if k < i { k } else { k + 1 };
            assert(es2[k] == es[k0]);
        }
    }
}

/// One slot's committed escrow is at most the whole registry's.
pub proof fn lemma_sum_entry_le(es: Seq<EntryModel>, i: int)
    requires
        forall|k: int| 0 <= k < es.len() ==> entry_wf(#[trigger] es[k]),
        0 <= i < es.len(),
    ensures
        sum_accounts_vesting(es[i].accounts) <= sum_entries_vesting(es),
    decreases es.len(),
{
    if i == 0 {
        lemma_sum_entries_nonneg(es.drop_first());
    } else {
        assert(entry_wf(es[0]));
        lemma_sum_accounts_nonneg(es[0].accounts);
        assert(es.drop_first()[i - 1] == es[i]);
        lemma_sum_entry_le(es.drop_first(), i - 1);
    }
}

/// A prefix of a run of well-formed accounts commits no more escrow than
/// the whole run.
pub proof fn lemma_sum_accounts_prefix(accs: Seq<AccountModel>, k: int)
    requires
        forall|i: int| 0 <= i < accs.len() ==> account_wf(#[trigger] accs[i]),
        0 <= k <= accs.len(),
    ensures
        sum_accounts_vesting(accs.take(k)) <= sum_accounts_vesting(accs),
{
    assert(accs =~= accs.take(k) + accs.skip(k));
    lemma_sum_accounts_concat(accs.take(k), accs.skip(k));
    assert(forall|i: int|
        0 <= i < accs.skip(k).len() ==> account_wf(#[trigger] accs.skip(k)[i]));
    lemma_sum_accounts_nonneg(accs.skip(k));
}

/// Under `registry_wf`, a slot holding `name` is the unique one at
/// `recipient_index`.
pub proof fn lemma_recipient_index_unique(es: Seq<EntryModel>, name: Seq<char>, i: int)
    requires
        registry_wf(es),
        0 <= i < es.len(),
        es[i].recipient == name,
    ensures
        has_recipient(es, name),
        recipient_index(es, name) == i,
{
    assert(has_recipient(es, name));
    let j = recipient_index(es, name);
    if i < j {
        assert(es[i].recipient != es[j].recipient);
    } else if j < i {
        assert(es[j].recipient != es[i].recipient);
    }
}

/// Why a registry operation was refused.
#[derive(Debug, Clone)]
pub enum RegistryError {
    /// The recipient has no vesting account.
    NoVestingAccount { recipient: String },
}

impl Registry {
    /// The slot index of `name`, scanning in insertion order.
    pub fn find_index(&self, name: &String) -> (r: Option<usize>)
        requires
            registry_wf(self@),
        ensures
            match r {
                Some(i) => {
                    &&& (i as int) < self@.len()
                    &&& self@[i as int].recipient == name@
                    &&& has_recipient(self@, name@)
                    &&& recipient_index(self@, name@) == i as int
                },
                None => !has_recipient(self@, name@),
            },
    {
        let n = self.entries.len();
        let mut i: usize = 0;
        while i < n
            invariant
                n == self.entries@.len(),
                i <= n,
                registry_wf(self@),
                self@.len() == self.entries@.len(),
                forall|j: int| 0 <= j < i ==> (#[trigger] self@[j]).recipient != name@,
            decreases n - i,
        {
            if self.entries[i].recipient == *name {
                proof {
                    assert(self@[i as int] == self.entries@[i as int]@);
                    lemma_recipient_index_unique(self@, name@, i as int);
                }
                return Some(i);
            }
            proof {
                assert(self@[i as int] == self.entries@[i as int]@);
            }
            i += 1;
        }
        proof {
            if has_recipient(self@, name@) {
                let k = choose|k: int| 0 <= k < self@.len() && (#[trigger] self@[k]).recipient
                    == name@;
                assert(self@[k].recipient != name@);
            }
        }
        None
    }

    /// Detaches and returns every account of `recipient`, deleting the
    /// slot, for pro-rata settlement on deregistration.
    pub fn remove_all(&mut self, recipient: &String) -> (r: Result<
        Vec<VestingAccount>,
        RegistryError,
    >)
        requires
            registry_wf(old(self)@),
        ensures
            r is Ok <==> has_recipient(old(self)@, recipient@),
            r is Err ==> *final(self) == *old(self) && (r matches Err(
                RegistryError::NoVestingAccount { recipient: rc },
            ) && rc@ == recipient@),
            r matches Ok(accounts) ==> {
                &&& final(self)@ == old(self)@.remove(recipient_index(old(self)@, recipient@))
                &&& accounts@.map_values(|a: VestingAccount| a@) == accounts_of(
                    old(self)@,
                    recipient@,
                )
            },
    {
        match self.find_index(recipient) {
            None => Err(RegistryError::NoVestingAccount { recipient: recipient.clone() }),
            Some(i) => {
                let entry = self.entries.remove(i);
                proof {
                    assert(self@ =~~= old(self)@.remove(i as int));
                    assert(entry@.accounts == accounts_of(old(self)@, recipient@));
                }
                Ok(entry.accounts)
            },
        }
    }

    /// Appends `account` to its recipient's slot, creating the slot at the
    /// end when the recipient had none.
    pub fn add_account(&mut self, account: VestingAccount)
        requires
            registry_wf(old(self)@),
        ensures
            final(self)@ == add_account_m(old(self)@, account@),
    {
        let found = self.find_index(&account.address);
        match found {
            Some(i) => {
                let ghost old_entries = self.entries@;
                self.entries[i].accounts.push(account);
                proof {
                    let iv = i as int;
                    assert(self.entries@[iv].accounts@ == old_entries[iv].accounts@.push(account));
                    assert(self.entries@[iv]@.accounts =~= old_entries[iv]@.accounts.push(
                        account@,
                    ));
                    assert(self.entries@[iv]@ =~~= EntryModel {
                        recipient: old_entries[iv]@.recipient,
                        accounts: old_entries[iv]@.accounts.push(account@),
                    });
                    assert(self@ =~~= add_account_m(old(self)@, account@));
                }
            },
            None => {
                let recipient = account.address.clone();
                let mut accounts: Vec<VestingAccount> = Vec::new();
                accounts.push(account);
                let ghost a = account@;
                let entry = RegistryEntry { recipient, accounts };
                proof {
                    assert(entry@.accounts =~= seq![a]);
                    assert(entry@ =~~= EntryModel { recipient: a.recipient, accounts: seq![a] });
                }
                self.entries.push(entry);
                proof {
                    assert(self@ =~~= add_account_m(old(self)@, a));
                }
            },
        }
    }
}

} // verus!
