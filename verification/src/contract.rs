//! The vesting engine: the ledger, the authorization policy, and the
//! operations that mutate the registry against them.

use vstd::prelude::*;
use vstd::string::StringExecFns;
use crate::decimal::{dec_str, u128_to_string};
use crate::errors::{ContractError, StdError, VestingError};
use crate::msgs::{
    Attribute, BankTransfer, Coin, CoinModel, Denom, DeregisterUserResponse, DeregModel,
    ExecuteMsg, InstantiateMsg, QueryAnswer, QueryMsg, Response, RewardModel, RewardUserRequest,
    TransferModel, VestingAccountResponse, VestingData, VestingScheduleQueryOutput,
};
use crate::registry::{
    account_wf, accounts_of, add_account_m, claim_account, claim_accounts, claim_registry,
    claim_total, claimable_at, entry_wf, fully_claimed, has_recipient, lemma_add_account,
    lemma_claim_accounts_concat, lemma_claim_accounts_props, lemma_claim_registry,
    lemma_claim_total_bounds, lemma_sum_accounts_prefix,
    lemma_sum_entry_le, recipient_index, registry_wf, release_total, settle_total,
    sum_accounts_vesting, sum_entries_vesting, vested_at, AccountModel, EntryModel, Registry,
    RegistryEntry, VestingAccount,
};
use crate::schedule::{validate_reward, vested_amount, VestingSchedule};

verus! {

/// The escrow ledger: the accepted denomination, the total deposited at
/// instantiation, and the part of it not committed to any active grant.
#[derive(Debug, Clone)]
pub struct Ledger {
    pub denom: String,
    pub total_deposited: u128,
    pub unallocated_amount: u128,
}

/// The mathematical model of the ledger.
pub struct LedgerModel {
    pub denom: Seq<char>,
    pub total: int,
    pub unallocated: int,
}

impl View for Ledger {
    type V = LedgerModel;

    open spec fn view(&self) -> LedgerModel {
        LedgerModel {
            denom: self.denom@,
            total: self.total_deposited as int,
            unallocated: self.unallocated_amount as int,
        }
    }
}

/// Why a ledger operation was refused.
#[derive(Debug, Clone, Copy, PartialEq, Eq, Structural)]
pub enum LedgerError {
    /// A reservation asked for more than the unallocated pool holds.
    InsufficientUnallocatedFunds { available: u128, requested: u128 },
    /// A withdrawal found the unallocated pool empty.
    NothingToWithdraw,
}

impl Ledger {
    /// Opens the ledger on the deposited escrow; everything starts
    /// unallocated.
    pub fn initialize(denom: String, deposited_amount: u128) -> (l: Ledger)
        ensures
            l@.denom == denom@,
            l@.total == deposited_amount as int,
            l@.unallocated == deposited_amount as int,
    {
        Ledger { denom, total_deposited: deposited_amount, unallocated_amount: deposited_amount }
    }

    /// Commits `amount` of the unallocated pool to new grants.
    pub fn reserve(&mut self, amount: u128) -> (r: Result<(), LedgerError>)
        ensures
            r is Ok <==> amount as int <= old(self)@.unallocated,
            r is Err ==> *final(self) == *old(self) && r == Err::<(), LedgerError>(
                LedgerError::InsufficientUnallocatedFunds {
                    available: old(self).unallocated_amount,
                    requested: amount,
                },
            ),
            r is Ok ==> final(self)@.unallocated == old(self)@.unallocated - amount as int
                && final(self)@.denom == old(self)@.denom && final(self)@.total
                == old(self)@.total,
    {
        if amount > self.unallocated_amount {
            Err(
                LedgerError::InsufficientUnallocatedFunds {
                    available: self.unallocated_amount,
                    requested: amount,
                },
            )
        } else {
            self.unallocated_amount = self.unallocated_amount - amount;
            Ok(())
        }
    }

    /// Returns `amount` to the unallocated pool; the inverse of `reserve`,
    /// used when deregistration refunds the unvested remainder.
    pub fn release(&mut self, amount: u128)
        requires
            old(self)@.unallocated + amount as int <= u128::MAX,
        ensures
            final(self)@.unallocated == old(self)@.unallocated + amount as int,
            final(self)@.denom == old(self)@.denom,
            final(self)@.total == old(self)@.total,
    {
        self.unallocated_amount = self.unallocated_amount + amount;
    }

    /// Pays out up to `amount` of the unallocated pool, clamping to what
    /// is there; an empty pool is an error.
    pub fn withdraw(&mut self, amount: u128) -> (r: Result<u128, LedgerError>)
        ensures
            r is Ok <==> old(self)@.unallocated > 0,
            r is Err ==> *final(self) == *old(self) && r == Err::<u128, LedgerError>(
                LedgerError::NothingToWithdraw,
            ),
            r matches Ok(w) ==> w as int == (if amount as int <= old(self)@.unallocated {
                amount as int
            } else {
                old(self)@.unallocated
            }) && final(self)@.unallocated == old(self)@.unallocated - w as int
                && final(self)@.denom == old(self)@.denom && final(self)@.total
                == old(self)@.total,
    {
        if self.unallocated_amount == 0 {
            return Err(LedgerError::NothingToWithdraw);
        }
        let w: u128 = if amount <= self.unallocated_amount {
            amount
        } else {
            self.unallocated_amount
        };
        self.unallocated_amount = self.unallocated_amount - w;
        Ok(w)
    }
}

/// The engine's whole state: authorization policy, ledger, and registry.
#[derive(Debug, Clone)]
pub struct VestingContract {
    pub admin: String,
    pub managers: Vec<String>,
    pub ledger: Ledger,
    pub registry: Registry,
}

/// The mathematical model of the engine's state.
pub struct ContractModel {
    pub admin: Seq<char>,
    pub managers: Seq<Seq<char>>,
    pub ledger: LedgerModel,
    pub registry: Seq<EntryModel>,
}

impl View for VestingContract {
    type V = ContractModel;

    open spec fn view(&self) -> ContractModel {
        ContractModel {
            admin: self.admin@,
            managers: self.managers@.map_values(|m: String| m@),
            ledger: self.ledger@,
            registry: self.registry@,
        }
    }
}

/// The ledger invariant: the unallocated pool is never negative and,
/// together with the escrow committed to active grants, never exceeds the
/// deposit.
pub open spec fn contract_wf(c: ContractModel) -> bool {
    &&& registry_wf(c.registry)
    &&& 0 <= c.ledger.unallocated
    &&& 0 <= c.ledger.total <= u128::MAX
    &&& c.ledger.unallocated + sum_entries_vesting(c.registry) <= c.ledger.total
}

/// Whether `sender` may run the gated operations: the admin and the
/// managers fixed at instantiation.
pub open spec fn authorized(c: ContractModel, sender: Seq<char>) -> bool {
    sender == c.admin || c.managers.contains(sender)
}

/// The host environment's identity rule: an address carries at least three
/// characters.
pub open spec fn valid_addr(s: Seq<char>) -> bool {
    3 <= s.len()
}

/// Checks an identity against the host environment's address rule.
pub fn validate_address(addr: &String) -> (r: Result<(), StdError>)
    ensures
        r is Ok <==> valid_addr(addr@),
        !valid_addr(addr@) ==> (r matches Err(StdError::GenericErr { msg }) && msg@
            == "Invalid input: human address too short for this mock implementation (must be >= 3)."@),
{
    let n = addr.as_str().unicode_len();
    if n >= 3 {
        Ok(())
    } else {
        Err(
            StdError::generic_err(
                "Invalid input: human address too short for this mock implementation (must be >= 3).".to_owned(),
            ),
        )
    }
}

/// Whether `sender` is the admin or one of the managers.
pub fn check_authorized(c: &VestingContract, sender: &String) -> (r: bool)
    ensures
        r == authorized(c@, sender@),
{
    if *sender == c.admin {
        return true;
    }
    let n = c.managers.len();
    let mut i: usize = 0;
    while i < n
        invariant
            n == c.managers@.len(),
            i <= n,
            forall|j: int| 0 <= j < i ==> c@.managers[j] != sender@,
            c@.managers == c.managers@.map_values(|m: String| m@),
        decreases n - i,
    {
        if c.managers[i] == *sender {
            assert(c@.managers[i as int] == sender@);
            return true;
        }
        assert(c@.managers[i as int] == c.managers@[i as int]@);
        i += 1;
    }
    assert(!c@.managers.contains(sender@));
    false
}

/// Creates the engine's state from the funding transaction: exactly one
/// coin with a positive amount must be deposited, and the manager set must
/// be non-empty with every identity valid.
pub fn instantiate(msg: InstantiateMsg, funds: Vec<Coin>) -> (r: Result<VestingContract, StdError>)
    ensures
        r is Ok <==> {
            &&& funds@.len() == 1
            &&& funds@[0].amount > 0
            &&& msg.managers@.len() > 0
            &&& forall|i: int| 0 <= i < msg.managers@.len() ==> valid_addr(#[trigger] msg.managers@[i]@)
            &&& valid_addr(msg.admin@)
        },
        r matches Ok(c) ==> {
            &&& c@.admin == msg.admin@
            &&& c@.managers == msg.managers@.map_values(|m: String| m@)
            &&& c@.ledger.denom == funds@[0].denom@
            &&& c@.ledger.total == funds@[0].amount as int
            &&& c@.ledger.unallocated == funds@[0].amount as int
            &&& c@.registry == Seq::<EntryModel>::empty()
            &&& contract_wf(c@)
        },
        funds@.len() != 1 ==> (r matches Err(StdError::GenericErr { msg: m }) && m@
            == "must deposit exactly one type of token"@),
        funds@.len() == 1 && funds@[0].amount == 0 ==> (r matches Err(
            StdError::GenericErr { msg: m },
        ) && m@ == "must deposit some token"@),
        funds@.len() == 1 && funds@[0].amount > 0 && msg.managers@.len() == 0 ==> (r matches Err(
            StdError::GenericErr { msg: m },
        ) && m@ == "managers cannot be empty"@),
{
    if funds.len() != 1 {
        return Err(StdError::generic_err("must deposit exactly one type of token".to_owned()));
    }
    if funds[0].amount == 0 {
        return Err(StdError::generic_err("must deposit some token".to_owned()));
    }
    if msg.managers.len() == 0 {
        return Err(StdError::generic_err("managers cannot be empty".to_owned()));
    }
    let n = msg.managers.len();
    let mut i: usize = 0;
    while i < n
        invariant
            n == msg.managers@.len(),
            i <= n,
            funds@.len() == 1,
            funds@[0].amount > 0,
            msg.managers@.len() > 0,
            forall|j: int| 0 <= j < i ==> valid_addr(#[trigger] msg.managers@[j]@),
        decreases n - i,
    {
        match validate_address(&msg.managers[i]) {
            Err(e) => {
                return Err(e);
            },
            Ok(()) => {},
        }
        i += 1;
    }
    match validate_address(&msg.admin) {
        Err(e) => {
            return Err(e);
        },
        Ok(()) => {},
    }
    let contract = VestingContract {
        admin: msg.admin,
        managers: msg.managers,
        ledger: Ledger::initialize(funds[0].denom.clone(), funds[0].amount),
        registry: Registry { entries: Vec::new() },
    };
    proof {
        assert(contract@.registry =~= Seq::<EntryModel>::empty());
        assert(sum_entries_vesting(contract@.registry) == 0);
    }
    Ok(contract)
}

/// The models of a batch of grant requests.
pub open spec fn rewards_m(rs: Seq<RewardUserRequest>) -> Seq<RewardModel> {
    rs.map_values(|r: RewardUserRequest| r@)
}

/// The outcome of validating one grant request (model level).
pub open spec fn reward_validation_m(r: RewardModel, schedule: VestingSchedule) -> Result<
    (),
    VestingError,
> {
    if r.vesting_amount == 0 {
        Err(VestingError::ZeroVestingAmount)
    } else if !schedule.is_valid() {
        Err(
            VestingError::InvalidTimeRange {
                start_time: schedule.spec_start_time(),
                cliff_time: schedule.spec_cliff_time(),
                end_time: schedule.spec_end_time(),
            },
        )
    } else if r.cliff_amount > r.vesting_amount {
        Err(
            VestingError::ExcessiveAmount {
                cliff_amount: r.cliff_amount as u128,
                vesting_amount: r.vesting_amount as u128,
            },
        )
    } else {
        Ok(())
    }
}

/// The first validation error of a batch, or success.
pub open spec fn batch_validation(rs: Seq<RewardModel>, schedule: VestingSchedule) -> Result<
    (),
    VestingError,
>
    decreases rs.len(),
{
    if rs.len() == 0 {
        Ok(())
    } else if reward_validation_m(rs[0], schedule) is Err {
        reward_validation_m(rs[0], schedule)
    } else {
        batch_validation(rs.drop_first(), schedule)
    }
}

/// The sum the batch asks to allocate.
pub open spec fn rewards_total(rs: Seq<RewardModel>) -> int
    decreases rs.len(),
{
    if rs.len() == 0 {
        0
    } else {
        rs[0].vesting_amount + rewards_total(rs.drop_first())
    }
}

/// The fresh account one grant request creates.
pub open spec fn reward_account(
    master: Seq<char>,
    r: RewardModel,
    schedule: VestingSchedule,
) -> AccountModel {
    AccountModel {
        master,
        recipient: r.user,
        vesting_amount: r.vesting_amount,
        cliff_amount: r.cliff_amount,
        schedule,
        claimed: 0,
    }
}

/// The registry after registering the whole batch, in order.
pub open spec fn register_batch(
    es: Seq<EntryModel>,
    master: Seq<char>,
    rs: Seq<RewardModel>,
    schedule: VestingSchedule,
) -> Seq<EntryModel>
    decreases rs.len(),
{
    if rs.len() == 0 {
        es
    } else {
        register_batch(
            add_account_m(es, reward_account(master, rs[0], schedule)),
            master,
            rs.drop_first(),
            schedule,
        )
    }
}

/// The audit attributes a successful batch emits: one set per entry.
pub open spec fn reward_attrs(rs: Seq<RewardModel>) -> Seq<(Seq<char>, Seq<char>)>
    decreases rs.len(),
{
    if rs.len() == 0 {
        Seq::empty()
    } else {
        seq![
            ("action"@, "register_vesting_account"@),
            ("address"@, rs[0].user),
            ("vesting_amount"@, dec_str(rs[0].vesting_amount as nat)),
            ("method"@, "reward_users"@),
        ] + reward_attrs(rs.drop_first())
    }
}

pub proof fn lemma_batch_concat(s1: Seq<RewardModel>, s2: Seq<RewardModel>, schedule: VestingSchedule)
    ensures
        batch_validation(s1 + s2, schedule) == (if batch_validation(s1, schedule) is Err {
            batch_validation(s1, schedule)
        } else {
            batch_validation(s2, schedule)
        }),
        rewards_total(s1 + s2) == rewards_total(s1) + rewards_total(s2),
        reward_attrs(s1 + s2) == reward_attrs(s1) + reward_attrs(s2),
    decreases s1.len(),
{
    if s1.len() == 0 {
        assert(s1 + s2 =~= s2);
        assert(reward_attrs(s1) + reward_attrs(s2) =~= reward_attrs(s2));
    } else {
        assert((s1 + s2).drop_first() =~= s1.drop_first() + s2);
        lemma_batch_concat(s1.drop_first(), s2, schedule);
        if batch_validation(s1, schedule) is Ok {
            let head = seq![
                ("action"@, "register_vesting_account"@),
                ("address"@, s1[0].user),
                ("vesting_amount"@, dec_str(s1[0].vesting_amount as nat)),
                ("method"@, "reward_users"@),
            ];
            assert(head + (reward_attrs(s1.drop_first()) + reward_attrs(s2)) =~= (head
                + reward_attrs(s1.drop_first())) + reward_attrs(s2));
        } else {
            assert(reward_attrs(s1 + s2) == reward_attrs(s1) + reward_attrs(s2)) by {
                let head = seq![
                    ("action"@, "register_vesting_account"@),
                    ("address"@, s1[0].user),
                    ("vesting_amount"@, dec_str(s1[0].vesting_amount as nat)),
                    ("method"@, "reward_users"@),
                ];
                assert(head + (reward_attrs(s1.drop_first()) + reward_attrs(s2)) =~= (head
                    + reward_attrs(s1.drop_first())) + reward_attrs(s2));
            }
        }
    }
}

pub proof fn lemma_register_batch_concat(
    es: Seq<EntryModel>,
    master: Seq<char>,
    s1: Seq<RewardModel>,
    s2: Seq<RewardModel>,
    schedule: VestingSchedule,
)
    ensures
        register_batch(es, master, s1 + s2, schedule) == register_batch(
            register_batch(es, master, s1, schedule),
            master,
            s2,
            schedule,
        ),
    decreases s1.len(),
{
    if s1.len() == 0 {
        assert(s1 + s2 =~= s2);
    } else {
        assert((s1 + s2).drop_first() =~= s1.drop_first() + s2);
        lemma_register_batch_concat(
            add_account_m(es, reward_account(master, s1[0], schedule)),
            master,
            s1.drop_first(),
            s2,
            schedule,
        );
    }
}

/// How the batch folds behave on a single request.
pub proof fn lemma_reward_singleton(
    es: Seq<EntryModel>,
    master: Seq<char>,
    r: RewardModel,
    schedule: VestingSchedule,
)
    ensures
        rewards_total(seq![r]) == r.vesting_amount,
        batch_validation(seq![r], schedule) == reward_validation_m(r, schedule),
        register_batch(es, master, seq![r], schedule) == add_account_m(
            es,
            reward_account(master, r, schedule),
        ),
        reward_attrs(seq![r]) == seq![
            ("action"@, "register_vesting_account"@),
            ("address"@, r.user),
            ("vesting_amount"@, dec_str(r.vesting_amount as nat)),
            ("method"@, "reward_users"@),
        ],
{
    let s = seq![r];
    assert(s.drop_first() =~= Seq::<RewardModel>::empty());
    assert(rewards_total(Seq::<RewardModel>::empty()) == 0);
    assert(rewards_total(s) == r.vesting_amount + rewards_total(s.drop_first()));
    assert(batch_validation(Seq::<RewardModel>::empty(), schedule) is Ok);
    let es2 = add_account_m(es, reward_account(master, r, schedule));
    assert(register_batch(es2, master, Seq::<RewardModel>::empty(), schedule) == es2);
    assert(reward_attrs(Seq::<RewardModel>::empty()) =~= Seq::<(Seq<char>, Seq<char>)>::empty());
    assert(reward_attrs(s) =~= seq![
        ("action"@, "register_vesting_account"@),
        ("address"@, r.user),
        ("vesting_amount"@, dec_str(r.vesting_amount as nat)),
        ("method"@, "reward_users"@),
    ] + reward_attrs(s.drop_first()));
    assert(reward_attrs(s) =~= seq![
        ("action"@, "register_vesting_account"@),
        ("address"@, r.user),
        ("vesting_amount"@, dec_str(r.vesting_amount as nat)),
        ("method"@, "reward_users"@),
    ]);
}

pub proof fn lemma_rewards_total_nonneg(rs: Seq<RewardModel>)
    requires
        forall|i: int| 0 <= i < rs.len() ==> 0 <= (#[trigger] rs[i]).vesting_amount,
    ensures
        0 <= rewards_total(rs),
    decreases rs.len(),
{
    if rs.len() > 0 {
        lemma_rewards_total_nonneg(rs.drop_first());
    }
}

/// Registers one vesting account per reward entry, atomically as a batch:
/// any validation failure or shortfall of the unallocated pool rejects the
/// whole batch with no state change.
pub fn reward_users(
    c: &mut VestingContract,
    sender: &String,
    rewards: Vec<RewardUserRequest>,
    vesting_schedule: VestingSchedule,
) -> (r: Result<Response, ContractError>)
    requires
        contract_wf(old(c)@),
    ensures
        contract_wf(final(c)@),
        r is Err ==> final(c)@ == old(c)@,
        r is Ok <==> authorized(old(c)@, sender@) && batch_validation(
            rewards_m(rewards@),
            vesting_schedule,
        ) is Ok && rewards_total(rewards_m(rewards@)) <= old(c)@.ledger.unallocated,
        !authorized(old(c)@, sender@) ==> (r matches Err(ContractError::Std(
            StdError::GenericErr { msg },
        )) && msg@ == "Sender "@ + sender@ + " is unauthorized to reward users."@),
        (match batch_validation(rewards_m(rewards@), vesting_schedule) {
            Err(e) => authorized(old(c)@, sender@) ==> r == Err::<Response, ContractError>(
                ContractError::Vesting(e),
            ),
            Ok(()) => true,
        }),
        authorized(old(c)@, sender@) && batch_validation(rewards_m(rewards@), vesting_schedule)
            is Ok && rewards_total(rewards_m(rewards@)) > u128::MAX ==> r == Err::<
            Response,
            ContractError,
        >(ContractError::Overflow),
        authorized(old(c)@, sender@) && batch_validation(rewards_m(rewards@), vesting_schedule)
            is Ok && rewards_total(rewards_m(rewards@)) <= u128::MAX && rewards_total(
            rewards_m(rewards@),
        ) > old(c)@.ledger.unallocated ==> (r matches Err(ContractError::Std(
            StdError::GenericErr { msg },
        )) && msg@ == "Insufficient funds for all rewards. Contract has "@ + dec_str(
            old(c)@.ledger.unallocated as nat,
        ) + " available but trying to allocate "@ + dec_str(
            rewards_total(rewards_m(rewards@)) as nat,
        )),
        r matches Ok(resp) ==> {
            &&& final(c)@.registry == register_batch(
                old(c)@.registry,
                sender@,
                rewards_m(rewards@),
                vesting_schedule,
            )
            &&& final(c)@.ledger.unallocated == old(c)@.ledger.unallocated - rewards_total(
                rewards_m(rewards@),
            )
            &&& final(c)@.ledger.denom == old(c)@.ledger.denom
            &&& final(c)@.ledger.total == old(c)@.ledger.total
            &&& final(c)@.admin == old(c)@.admin
            &&& final(c)@.managers == old(c)@.managers
            &&& resp.messages@.len() == 0
            &&& resp.data is None
            &&& resp.attributes@.map_values(|a: Attribute| a@) == reward_attrs(
                rewards_m(rewards@),
            )
        },
{
    let ghost rs = rewards_m(rewards@);
    if !check_authorized(c, sender) {
        let mut m = "Sender ".to_owned();
        m.append(sender.as_str());
        m.append(" is unauthorized to reward users.");
        return Err(ContractError::Std(StdError::generic_err(m)));
    }
    let n = rewards.len();
    let mut i: usize = 0;
    while i < n
        invariant
            n == rewards@.len(),
            i <= n,
            rs == rewards_m(rewards@),
            rs.len() == n,
            c@ == old(c)@,
            contract_wf(old(c)@),
            authorized(old(c)@, sender@),
            batch_validation(rs.take(i as int), vesting_schedule) is Ok,
        decreases n - i,
    {
        proof {
            assert(rs[i as int] == rewards@[i as int]@);
        }
        match validate_reward(
            rewards[i].vesting_amount,
            rewards[i].cliff_amount,
            &vesting_schedule,
        ) {
            Err(e) => {
                proof {
                    assert(rs.take(i as int + 1) =~= rs.take(i as int) + seq![rs[i as int]]);
                    lemma_batch_concat(rs.take(i as int), seq![rs[i as int]], vesting_schedule);
                    lemma_reward_singleton(old(c)@.registry, sender@, rs[i as int], vesting_schedule);
                    assert(reward_validation_m(rs[i as int], vesting_schedule) == Err::<
                        (),
                        VestingError,
                    >(e));
                    assert(rs =~= rs.take(i as int + 1) + rs.skip(i as int + 1));
                    lemma_batch_concat(rs.take(i as int + 1), rs.skip(i as int + 1), vesting_schedule);
                    assert(batch_validation(rs, vesting_schedule) == Err::<(), VestingError>(e));
                }
                return Err(ContractError::Vesting(e));
            },
            Ok(()) => {
                proof {
                    assert(rs.take(i as int + 1) =~= rs.take(i as int) + seq![rs[i as int]]);
                    lemma_batch_concat(rs.take(i as int), seq![rs[i as int]], vesting_schedule);
                    lemma_reward_singleton(old(c)@.registry, sender@, rs[i as int], vesting_schedule);
                }
            },
        }
        i += 1;
    }
    proof {
        assert(rs.take(n as int) =~= rs);
    }
    let mut total: u128 = 0;
    i = 0;
    while i < n
        invariant
            n == rewards@.len(),
            i <= n,
            rs == rewards_m(rewards@),
            rs.len() == n,
            c@ == old(c)@,
            contract_wf(old(c)@),
            authorized(old(c)@, sender@),
            batch_validation(rs, vesting_schedule) is Ok,
            total == rewards_total(rs.take(i as int)),
        decreases n - i,
    {
        proof {
            assert(rs[i as int] == rewards@[i as int]@);
            assert(rs.take(i as int + 1) =~= rs.take(i as int) + seq![rs[i as int]]);
            lemma_batch_concat(rs.take(i as int), seq![rs[i as int]], vesting_schedule);
            lemma_reward_singleton(old(c)@.registry, sender@, rs[i as int], vesting_schedule);
        }
        if rewards[i].vesting_amount > u128::MAX - total {
            proof {
                assert(rs =~= rs.take(i as int + 1) + rs.skip(i as int + 1));
                lemma_batch_concat(rs.take(i as int + 1), rs.skip(i as int + 1), vesting_schedule);
                assert(forall|k: int|
                    0 <= k < rs.skip(i as int + 1).len() ==> 0 <= (#[trigger] rs.skip(
                        i as int + 1,
                    )[k]).vesting_amount);
                lemma_rewards_total_nonneg(rs.skip(i as int + 1));
                assert(rewards_total(rs) > u128::MAX);
            }
            return Err(ContractError::Overflow);
        }
        total = total + rewards[i].vesting_amount;
        i += 1;
    }
    proof {
        assert(rs.take(n as int) =~= rs);
    }
    let avail = c.ledger.unallocated_amount;
    match c.ledger.reserve(total) {
        Ok(()) => {},
        Err(_) => {
            let mut m = "Insufficient funds for all rewards. Contract has ".to_owned();
            m.append(u128_to_string(avail).as_str());
            m.append(" available but trying to allocate ");
            m.append(u128_to_string(total).as_str());
            return Err(ContractError::Std(StdError::generic_err(m)));
        },
    }
    let mut attrs: Vec<Attribute> = Vec::new();
    i = 0;
    proof {
        assert(c@.registry == register_batch(
            old(c)@.registry,
            sender@,
            rs.take(0),
            vesting_schedule,
        )) by {
            assert(rs.take(0) =~= Seq::<RewardModel>::empty());
        }
        assert(attrs@.map_values(|a: Attribute| a@) =~= reward_attrs(rs.take(0)));
        assert(rs.take(0) =~= Seq::<RewardModel>::empty());
    }
    while i < n
        invariant
            n == rewards@.len(),
            i <= n,
            rs == rewards_m(rewards@),
            rs.len() == n,
            batch_validation(rs, vesting_schedule) is Ok,
            contract_wf(old(c)@),
            registry_wf(c@.registry),
            c@.registry == register_batch(
                old(c)@.registry,
                sender@,
                rs.take(i as int),
                vesting_schedule,
            ),
            sum_entries_vesting(c@.registry) == sum_entries_vesting(old(c)@.registry)
                + rewards_total(rs.take(i as int)),
            rewards_total(rs.take(i as int)) <= rewards_total(rs),
            c@.ledger.unallocated == old(c)@.ledger.unallocated - rewards_total(rs),
            rewards_total(rs) <= old(c)@.ledger.unallocated,
            c@.ledger.denom == old(c)@.ledger.denom,
            c@.ledger.total == old(c)@.ledger.total,
            c@.admin == old(c)@.admin,
            c@.managers == old(c)@.managers,
            attrs@.map_values(|a: Attribute| a@) == reward_attrs(rs.take(i as int)),
        decreases n - i,
    {
        proof {
            assert(rs[i as int] == rewards@[i as int]@);
            assert(rs.take(i as int + 1) =~= rs.take(i as int) + seq![rs[i as int]]);
            lemma_batch_concat(rs.take(i as int), seq![rs[i as int]], vesting_schedule);
            lemma_reward_singleton(old(c)@.registry, sender@, rs[i as int], vesting_schedule);
            assert(rs =~= rs.take(i as int + 1) + rs.skip(i as int + 1));
            lemma_batch_concat(rs.take(i as int + 1), rs.skip(i as int + 1), vesting_schedule);
            assert(forall|k: int|
                0 <= k < rs.skip(i as int + 1).len() ==> 0 <= (#[trigger] rs.skip(
                    i as int + 1,
                )[k]).vesting_amount);
            lemma_rewards_total_nonneg(rs.skip(i as int + 1));
        }
        let account = VestingAccount {
            master_address: sender.clone(),
            address: rewards[i].user_address.clone(),
            vesting_amount: rewards[i].vesting_amount,
            cliff_amount: rewards[i].cliff_amount,
            vesting_schedule,
            claimed_amount: 0,
        };
        proof {
            assert(account@ =~~= reward_account(sender@, rs[i as int], vesting_schedule));
            assert(reward_validation_m(rs[i as int], vesting_schedule) is Ok);
        }
        c.registry.add_account(account);
        attrs.push(
            Attribute { key: "action".to_owned(), value: "register_vesting_account".to_owned() },
        );
        attrs.push(Attribute { key: "address".to_owned(), value: rewards[i].user_address.clone() });
        attrs.push(
            Attribute { key: "vesting_amount".to_owned(), value: u128_to_string(
                rewards[i].vesting_amount,
            ) },
        );
        attrs.push(Attribute { key: "method".to_owned(), value: "reward_users".to_owned() });
        proof {
            let es_before = register_batch(old(c)@.registry, sender@, rs.take(i as int), vesting_schedule);
            let a = reward_account(sender@, rs[i as int], vesting_schedule);
            lemma_register_batch_concat(
                old(c)@.registry,
                sender@,
                rs.take(i as int),
                seq![rs[i as int]],
                vesting_schedule,
            );
            lemma_reward_singleton(es_before, sender@, rs[i as int], vesting_schedule);
            assert(account_wf(a));
            lemma_add_account(es_before, a);
            assert(attrs@.map_values(|at: Attribute| at@) =~~= reward_attrs(rs.take(i as int + 1)));
        }
        i += 1;
    }
    proof {
        assert(rs.take(n as int) =~= rs);
    }
    Ok(Response { messages: Vec::new(), attributes: attrs, data: None })
}

/// The audit attributes a Claim call emits: one set per account with a
/// positive claimable amount, in account order.
pub open spec fn claim_attrs(accs: Seq<AccountModel>, sender: Seq<char>, now: int) -> Seq<
    (Seq<char>, Seq<char>),
>
    decreases accs.len(),
{
    if accs.len() == 0 {
        Seq::empty()
    } else {
        let a = accs[0];
        let rest = claim_attrs(accs.drop_first(), sender, now);
        if claimable_at(a, now) > 0 {
            seq![
                ("action"@, "claim"@),
                ("address"@, sender),
                ("vesting_amount"@, dec_str(a.vesting_amount as nat)),
                ("vested_amount"@, dec_str(vested_at(a, now) as nat)),
                ("claim_amount"@, dec_str(claimable_at(a, now) as nat)),
            ] + rest
        } else {
            rest
        }
    }
}

pub proof fn lemma_claim_attrs_concat(
    s1: Seq<AccountModel>,
    s2: Seq<AccountModel>,
    sender: Seq<char>,
    now: int,
)
    ensures
        claim_attrs(s1 + s2, sender, now) == claim_attrs(s1, sender, now) + claim_attrs(
            s2,
            sender,
            now,
        ),
    decreases s1.len(),
{
    if s1.len() == 0 {
        assert(s1 + s2 =~= s2);
        assert(claim_attrs(s1, sender, now) + claim_attrs(s2, sender, now) =~= claim_attrs(
            s2,
            sender,
            now,
        ));
    } else {
        assert((s1 + s2).drop_first() =~= s1.drop_first() + s2);
        lemma_claim_attrs_concat(s1.drop_first(), s2, sender, now);
        let a = s1[0];
        if claimable_at(a, now) > 0 {
            let head = seq![
                ("action"@, "claim"@),
                ("address"@, sender),
                ("vesting_amount"@, dec_str(a.vesting_amount as nat)),
                ("vested_amount"@, dec_str(vested_at(a, now) as nat)),
                ("claim_amount"@, dec_str(claimable_at(a, now) as nat)),
            ];
            assert(head + (claim_attrs(s1.drop_first(), sender, now) + claim_attrs(
                s2,
                sender,
                now,
            )) =~= (head + claim_attrs(s1.drop_first(), sender, now)) + claim_attrs(
                s2,
                sender,
                now,
            ));
        }
    }
}

/// How the claim folds behave on a single account.
pub proof fn lemma_claim_singleton(a: AccountModel, sender: Seq<char>, now: int)
    ensures
        claim_total(seq![a], now) == claimable_at(a, now),
        claim_accounts(seq![a], now) == (if fully_claimed(claim_account(a, now), now) {
            Seq::<AccountModel>::empty()
        } else {
            seq![claim_account(a, now)]
        }),
        claim_attrs(seq![a], sender, now) == (if claimable_at(a, now) > 0 {
            seq![
                ("action"@, "claim"@),
                ("address"@, sender),
                ("vesting_amount"@, dec_str(a.vesting_amount as nat)),
                ("vested_amount"@, dec_str(vested_at(a, now) as nat)),
                ("claim_amount"@, dec_str(claimable_at(a, now) as nat)),
            ]
        } else {
            Seq::<(Seq<char>, Seq<char>)>::empty()
        }),
        sum_accounts_vesting(seq![a]) == a.vesting_amount,
{
    let s = seq![a];
    assert(s.drop_first() =~= Seq::<AccountModel>::empty());
    assert(claim_total(Seq::<AccountModel>::empty(), now) == 0);
    assert(claim_total(s, now) == claimable_at(a, now) + claim_total(s.drop_first(), now));
    assert(claim_accounts(Seq::<AccountModel>::empty(), now) =~= Seq::<AccountModel>::empty());
    if !fully_claimed(claim_account(a, now), now) {
        assert(claim_accounts(s, now) =~= seq![claim_account(a, now)] + claim_accounts(
            s.drop_first(),
            now,
        ));
        assert(seq![claim_account(a, now)] + Seq::<AccountModel>::empty() =~= seq![
            claim_account(a, now),
        ]);
    }
    assert(claim_attrs(Seq::<AccountModel>::empty(), sender, now) =~= Seq::<
        (Seq<char>, Seq<char>),
    >::empty());
    if claimable_at(a, now) > 0 {
        let head = seq![
            ("action"@, "claim"@),
            ("address"@, sender),
            ("vesting_amount"@, dec_str(a.vesting_amount as nat)),
            ("vested_amount"@, dec_str(vested_at(a, now) as nat)),
            ("claim_amount"@, dec_str(claimable_at(a, now) as nat)),
        ];
        assert(claim_attrs(s, sender, now) =~= head + claim_attrs(s.drop_first(), sender, now));
        assert(head + Seq::<(Seq<char>, Seq<char>)>::empty() =~= head);
    }
    crate::registry::lemma_sum_accounts_singleton(a);
}

/// Pays the caller everything vested and unclaimed across their accounts:
/// one summed transfer, each account settled in place, and fully claimed,
/// ended accounts pruned. A caller without accounts, or with nothing
/// claimable, succeeds with no transfer.
pub fn claim(c: &mut VestingContract, now: u64, sender: &String) -> (r: Result<
    Response,
    ContractError,
>)
    requires
        contract_wf(old(c)@),
    ensures
        contract_wf(final(c)@),
        r is Err ==> final(c)@ == old(c)@ && r == Err::<Response, ContractError>(
            ContractError::Overflow,
        ),
        r is Ok <==> forall|k: int|
            0 <= k < accounts_of(old(c)@.registry, sender@).len() ==> (#[trigger] accounts_of(
                old(c)@.registry,
                sender@,
            )[k]).claimed <= vested_at(accounts_of(old(c)@.registry, sender@)[k], now as int),
        r matches Ok(resp) ==> {
            let accs = accounts_of(old(c)@.registry, sender@);
            let total = claim_total(accs, now as int);
            &&& final(c)@.registry == claim_registry(old(c)@.registry, sender@, now as int)
            &&& final(c)@.ledger == old(c)@.ledger
            &&& final(c)@.admin == old(c)@.admin
            &&& final(c)@.managers == old(c)@.managers
            &&& resp.data is None
            &&& total > 0 ==> resp.messages@.map_values(|t: BankTransfer| t@) == seq![
                TransferModel {
                    to: sender@,
                    amount: seq![
                        CoinModel { denom: old(c)@.ledger.denom, amount: total },
                    ],
                },
            ]
            &&& total == 0 ==> resp.messages@.len() == 0
            &&& resp.attributes@.map_values(|a: Attribute| a@) == claim_attrs(
                accs,
                sender@,
                now as int,
            )
            &&& forall|k: int|
                0 <= k < accounts_of(final(c)@.registry, sender@).len() ==> {
                    let a = #[trigger] accounts_of(final(c)@.registry, sender@)[k];
                    a.claimed == vested_at(a, now as int) && a.claimed <= a.vesting_amount
                }
        },
{
    let found = c.registry.find_index(sender);
    let ghost es0 = old(c)@.registry;
    let ghost accs = accounts_of(es0, sender@);
    match found {
        None => {
            proof {
                assert(accs =~= Seq::<AccountModel>::empty());
                assert(claim_total(accs, now as int) == 0);
                assert(claim_registry(es0, sender@, now as int) == es0);
                assert(claim_attrs(accs, sender@, now as int) =~= Seq::<
                    (Seq<char>, Seq<char>),
                >::empty());
                lemma_claim_registry(es0, sender@, now as int);
                lemma_claim_accounts_props(accs, sender@, now as int);
                let ghost msgs0: Seq<BankTransfer> = Seq::empty();
                assert(msgs0.map_values(|t: BankTransfer| t@) =~= Seq::<TransferModel>::empty());
            }
            let resp = Response { messages: Vec::new(), attributes: Vec::new(), data: None };
            proof {
                assert(resp.attributes@.map_values(|a: Attribute| a@) =~= claim_attrs(
                    accs,
                    sender@,
                    now as int,
                ));
            }
            Ok(resp)
        },
        Some(idx) => {
            proof {
                assert(accs == es0[idx as int].accounts);
                assert(entry_wf(es0[idx as int]));
            }
            let m = c.registry.entries[idx].accounts.len();
            let mut new_accounts: Vec<VestingAccount> = Vec::new();
            let mut attrs: Vec<Attribute> = Vec::new();
            let mut total: u128 = 0;
            let mut k: usize = 0;
            proof {
                assert(accs.take(0) =~= Seq::<AccountModel>::empty());
                assert(new_accounts@.map_values(|a: VestingAccount| a@) =~= claim_accounts(
                    accs.take(0),
                    now as int,
                ));
                assert(attrs@.map_values(|a: Attribute| a@) =~= claim_attrs(
                    accs.take(0),
                    sender@,
                    now as int,
                ));
            }
            while k < m
                invariant
                    c@ == old(c)@,
                    contract_wf(old(c)@),
                    es0 == old(c)@.registry,
                    accs == accounts_of(es0, sender@),
                    (idx as int) < es0.len(),
                    accs == es0[idx as int].accounts,
                    entry_wf(es0[idx as int]),
                    recipient_index(es0, sender@) == idx as int,
                    has_recipient(es0, sender@),
                    es0[idx as int].recipient == sender@,
                    m == accs.len(),
                    (idx as int) < c.registry.entries@.len(),
                    m == c.registry.entries@[idx as int].accounts@.len(),
                    k <= m,
                    forall|j: int|
                        0 <= j < k ==> (#[trigger] accs[j]).claimed <= vested_at(
                            accs[j],
                            now as int,
                        ),
                    total == claim_total(accs.take(k as int), now as int),
                    0 <= total,
                    new_accounts@.map_values(|a: VestingAccount| a@) == claim_accounts(
                        accs.take(k as int),
                        now as int,
                    ),
                    attrs@.map_values(|a: Attribute| a@) == claim_attrs(
                        accs.take(k as int),
                        sender@,
                        now as int,
                    ),
                decreases m - k,
            {
                proof {
                    assert(c@.registry[idx as int] == c.registry.entries@[idx as int]@);
                    assert(c.registry.entries@[idx as int]@.accounts[k as int]
                        == c.registry.entries@[idx as int].accounts@[k as int]@);
                    assert(accs[k as int] == c.registry.entries@[idx as int].accounts@[k as int]@);
                    assert(account_wf(accs[k as int]));
                }
                let a_vesting_amount = c.registry.entries[idx].accounts[k].vesting_amount;
                let a_cliff_amount = c.registry.entries[idx].accounts[k].cliff_amount;
                let a_schedule = c.registry.entries[idx].accounts[k].vesting_schedule;
                let a_claimed = c.registry.entries[idx].accounts[k].claimed_amount;
                let vested = vested_amount(&a_schedule, a_vesting_amount, a_cliff_amount, now);
                proof {
                    assert(vested == vested_at(accs[k as int], now as int));
                }
                if a_claimed > vested {
                    return Err(ContractError::Overflow);
                }
                let claimable = vested - a_claimed;
                proof {
                    assert(claimable == claimable_at(accs[k as int], now as int));
                    assert(accs.take(k as int + 1) =~= accs.take(k as int) + seq![accs[k as int]]);
                    lemma_claim_accounts_concat(
                        accs.take(k as int),
                        seq![accs[k as int]],
                        now as int,
                    );
                    lemma_claim_attrs_concat(
                        accs.take(k as int),
                        seq![accs[k as int]],
                        sender@,
                        now as int,
                    );
                    lemma_claim_singleton(accs[k as int], sender@, now as int);
                    assert(forall|j: int|
                        0 <= j < accs.take(k as int + 1).len() ==> account_wf(
                            #[trigger] accs.take(k as int + 1)[j],
                        ) && accs.take(k as int + 1)[j].claimed <= vested_at(
                            accs.take(k as int + 1)[j],
                            now as int,
                        ));
                    lemma_claim_total_bounds(accs.take(k as int + 1), now as int);
                    assert(forall|j: int|
                        0 <= j < accs.len() ==> account_wf(#[trigger] accs[j]));
                    lemma_sum_accounts_prefix(accs, k as int + 1);
                    lemma_sum_entry_le(es0, idx as int);
                    assert(claim_total(accs.take(k as int + 1), now as int)
                        <= sum_entries_vesting(es0));
                    assert(total + claimable <= u128::MAX);
                }
                if claimable > 0 {
                    attrs.push(Attribute { key: "action".to_owned(), value: "claim".to_owned() });
                    attrs.push(Attribute { key: "address".to_owned(), value: sender.clone() });
                    attrs.push(
                        Attribute {
                            key: "vesting_amount".to_owned(),
                            value: u128_to_string(a_vesting_amount),
                        },
                    );
                    attrs.push(
                        Attribute { key: "vested_amount".to_owned(), value: u128_to_string(vested) },
                    );
                    attrs.push(
                        Attribute { key: "claim_amount".to_owned(), value: u128_to_string(
                            claimable,
                        ) },
                    );
                }
                total = total + claimable;
                let prune = vested == a_vesting_amount && now >= a_schedule.end_time();
                if !prune {
                    let settled = VestingAccount {
                        master_address: c.registry.entries[idx].accounts[k].master_address.clone(),
                        address: c.registry.entries[idx].accounts[k].address.clone(),
                        vesting_amount: a_vesting_amount,
                        cliff_amount: a_cliff_amount,
                        vesting_schedule: a_schedule,
                        claimed_amount: vested,
                    };
                    proof {
                        assert(settled@ =~~= claim_account(accs[k as int], now as int));
                    }
                    new_accounts.push(settled);
                }
                proof {
                    assert(fully_claimed(claim_account(accs[k as int], now as int), now as int)
                        == prune);
                    assert(new_accounts@.map_values(|a: VestingAccount| a@) =~~= claim_accounts(
                        accs.take(k as int + 1),
                        now as int,
                    ));
                    assert(attrs@.map_values(|a: Attribute| a@) =~~= claim_attrs(
                        accs.take(k as int + 1),
                        sender@,
                        now as int,
                    ));
                }
                k += 1;
            }
            proof {
                assert(accs.take(m as int) =~= accs);
                lemma_claim_registry(es0, sender@, now as int);
                lemma_claim_accounts_props(accs, sender@, now as int);
            }
            if new_accounts.len() == 0 {
                let removed = c.registry.entries.remove(idx);
                proof {
                    assert(c@.registry =~~= claim_registry(es0, sender@, now as int));
                }
            } else {
                let recipient = sender.clone();
                c.registry.entries[idx] = RegistryEntry { recipient, accounts: new_accounts };
                proof {
                    assert(c.registry.entries@[idx as int]@ =~~= EntryModel {
                        recipient: es0[idx as int].recipient,
                        accounts: claim_accounts(accs, now as int),
                    });
                    assert(c@.registry =~~= claim_registry(es0, sender@, now as int));
                }
            }
            let mut messages: Vec<BankTransfer> = Vec::new();
            if total > 0 {
                let mut coins: Vec<Coin> = Vec::new();
                coins.push(Coin { denom: c.ledger.denom.clone(), amount: total });
                messages.push(BankTransfer { to_address: sender.clone(), amount: coins });
                proof {
                    assert(messages@.map_values(|t: BankTransfer| t@) =~~= seq![
                        TransferModel {
                            to: sender@,
                            amount: seq![
                                CoinModel {
                                    denom: old(c)@.ledger.denom,
                                    amount: claim_total(accs, now as int),
                                },
                            ],
                        },
                    ]);
                }
            }
            Ok(Response { messages, attributes: attrs, data: None })
        },
    }
}

/// The models of a list of addresses.
pub open spec fn addresses_m(addrs: Seq<String>) -> Seq<Seq<char>> {
    addrs.map_values(|s: String| s@)
}

/// What deregistering a list of addresses does, processed in order against
/// the evolving registry: the registry after all removals, the total
/// released back to the unallocated pool, the settlement transfers, and
/// the per-address results.
pub open spec fn dereg_fold(
    es: Seq<EntryModel>,
    names: Seq<Seq<char>>,
    now: int,
    denom: Seq<char>,
) -> (Seq<EntryModel>, int, Seq<TransferModel>, Seq<DeregModel>)
    decreases names.len(),
{
    if names.len() == 0 {
        (es, 0, Seq::empty(), Seq::empty())
    } else {
        let name = names[0];
        if has_recipient(es, name) {
            let i = recipient_index(es, name);
            let accs = es[i].accounts;
            let rest = dereg_fold(es.remove(i), names.drop_first(), now, denom);
            let pay = settle_total(accs, now);
            let head_tr: Seq<TransferModel> = if pay > 0 {
                seq![
                    TransferModel { to: name, amount: seq![CoinModel { denom, amount: pay }] },
                ]
            } else {
                Seq::empty()
            };
            (
                rest.0,
                release_total(accs, now) + rest.1,
                head_tr + rest.2,
                seq![DeregModel { user: name, success: true, error_msg: ""@ }] + rest.3,
            )
        } else {
            let rest = dereg_fold(es, names.drop_first(), now, denom);
            (
                rest.0,
                rest.1,
                rest.2,
                seq![
                    DeregModel {
                        user: name,
                        success: false,
                        error_msg: "Failed to deregister vesting account: Generic error: User "@
                            + name + " does not have a vesting account."@,
                    },
                ] + rest.3,
            )
        }
    }
}

pub proof fn lemma_dereg_concat(
    es: Seq<EntryModel>,
    n1: Seq<Seq<char>>,
    n2: Seq<Seq<char>>,
    now: int,
    denom: Seq<char>,
)
    ensures
        ({
            let f1 = dereg_fold(es, n1, now, denom);
            let f2 = dereg_fold(f1.0, n2, now, denom);
            dereg_fold(es, n1 + n2, now, denom) == (
                f2.0,
                f1.1 + f2.1,
                f1.2 + f2.2,
                f1.3 + f2.3,
            )
        }),
    decreases n1.len(),
{
    let f1 = dereg_fold(es, n1, now, denom);
    let f2 = dereg_fold(f1.0, n2, now, denom);
    if n1.len() == 0 {
        assert(n1 + n2 =~= n2);
        assert(Seq::<TransferModel>::empty() + f2.2 =~= f2.2);
        assert(Seq::<DeregModel>::empty() + f2.3 =~= f2.3);
    } else {
        assert((n1 + n2).drop_first() =~= n1.drop_first() + n2);
        assert((n1 + n2)[0] == n1[0]);
        let name = n1[0];
        if has_recipient(es, name) {
            let i = recipient_index(es, name);
            lemma_dereg_concat(es.remove(i), n1.drop_first(), n2, now, denom);
            let g1 = dereg_fold(es.remove(i), n1.drop_first(), now, denom);
            let g2 = dereg_fold(g1.0, n2, now, denom);
            let pay = settle_total(es[i].accounts, now);
            let head_tr: Seq<TransferModel> = if pay > 0 {
                seq![
                    TransferModel { to: name, amount: seq![CoinModel { denom, amount: pay }] },
                ]
            } else {
                Seq::empty()
            };
            assert(head_tr + (g1.2 + g2.2) =~= (head_tr + g1.2) + g2.2);
            let head_d = seq![DeregModel { user: name, success: true, error_msg: ""@ }];
            assert(head_d + (g1.3 + g2.3) =~= (head_d + g1.3) + g2.3);
        } else {
            lemma_dereg_concat(es, n1.drop_first(), n2, now, denom);
            let g1 = dereg_fold(es, n1.drop_first(), now, denom);
            let g2 = dereg_fold(g1.0, n2, now, denom);
            let head_d = seq![
                DeregModel {
                    user: name,
                    success: false,
                    error_msg: "Failed to deregister vesting account: Generic error: User "@
                        + name + " does not have a vesting account."@,
                },
            ];
            assert(head_d + (g1.3 + g2.3) =~= (head_d + g1.3) + g2.3);
        }
    }
}

/// How the deregistration fold behaves on a single address.
pub proof fn lemma_dereg_singleton(es: Seq<EntryModel>, name: Seq<char>, now: int, denom: Seq<char>)
    ensures
        has_recipient(es, name) ==> ({
            let i = recipient_index(es, name);
            let pay = settle_total(es[i].accounts, now);
            dereg_fold(es, seq![name], now, denom) == (
                es.remove(i),
                release_total(es[i].accounts, now),
                if pay > 0 {
                    seq![
                        TransferModel { to: name, amount: seq![CoinModel { denom, amount: pay }] },
                    ]
                } else {
                    Seq::<TransferModel>::empty()
                },
                seq![DeregModel { user: name, success: true, error_msg: ""@ }],
            )
        }),
        !has_recipient(es, name) ==> dereg_fold(es, seq![name], now, denom) == (
            es,
            0int,
            Seq::<TransferModel>::empty(),
            seq![
                DeregModel {
                    user: name,
                    success: false,
                    error_msg: "Failed to deregister vesting account: Generic error: User "@ + name
                        + " does not have a vesting account."@,
                },
            ],
        ),
{
    let s = seq![name];
    assert(s.drop_first() =~= Seq::<Seq<char>>::empty());
    if has_recipient(es, name) {
        let i = recipient_index(es, name);
        let pay = settle_total(es[i].accounts, now);
        let rest = dereg_fold(es.remove(i), s.drop_first(), now, denom);
        assert(rest.0 == es.remove(i) && rest.1 == 0);
        let head_tr: Seq<TransferModel> = if pay > 0 {
            seq![TransferModel { to: name, amount: seq![CoinModel { denom, amount: pay }] }]
        } else {
            Seq::empty()
        };
        assert(head_tr + rest.2 =~= head_tr);
        assert(seq![DeregModel { user: name, success: true, error_msg: ""@ }] + rest.3 =~= seq![
            DeregModel { user: name, success: true, error_msg: ""@ },
        ]);
    } else {
        let rest = dereg_fold(es, s.drop_first(), now, denom);
        assert(rest.2 =~= Seq::<TransferModel>::empty());
        let head_d = seq![
            DeregModel {
                user: name,
                success: false,
                error_msg: "Failed to deregister vesting account: Generic error: User "@ + name
                    + " does not have a vesting account."@,
            },
        ];
        assert(head_d + rest.3 =~= head_d);
    }
}

/// Removes every account of each given address: vested-but-unclaimed funds
/// are paid to the recipient, the unvested remainder returns to the
/// unallocated pool, and a nonexistent address yields a per-address
/// failure entry instead of failing the call.
pub fn deregister_vesting_accounts(
    c: &mut VestingContract,
    now: u64,
    sender: &String,
    addresses: Vec<String>,
) -> (r: Result<Response, ContractError>)
    requires
        contract_wf(old(c)@),
    ensures
        contract_wf(final(c)@),
        r is Err ==> final(c)@ == old(c)@,
        r is Ok <==> authorized(old(c)@, sender@),
        !authorized(old(c)@, sender@) ==> (r matches Err(ContractError::Std(
            StdError::GenericErr { msg },
        )) && msg@ == "Sender "@ + sender@
            + " is not authorized to deregister vesting accounts."@),
        r matches Ok(resp) ==> ({
            let f = dereg_fold(
                old(c)@.registry,
                addresses_m(addresses@),
                now as int,
                old(c)@.ledger.denom,
            );
            &&& final(c)@.registry == f.0
            &&& final(c)@.ledger.unallocated == old(c)@.ledger.unallocated + f.1
            &&& final(c)@.ledger.denom == old(c)@.ledger.denom
            &&& final(c)@.ledger.total == old(c)@.ledger.total
            &&& final(c)@.admin == old(c)@.admin
            &&& final(c)@.managers == old(c)@.managers
            &&& resp.messages@.map_values(|t: BankTransfer| t@) == f.2
            &&& (resp.data matches Some(d) && d@.map_values(|x: DeregisterUserResponse| x@)
                == f.3)
            &&& resp.attributes@.len() == 0
        }),
{
    let ghost names = addresses_m(addresses@);
    let ghost denom0 = old(c)@.ledger.denom;
    if !check_authorized(c, sender) {
        let mut m = "Sender ".to_owned();
        m.append(sender.as_str());
        m.append(" is not authorized to deregister vesting accounts.");
        return Err(ContractError::Std(StdError::generic_err(m)));
    }
    let n = addresses.len();
    let mut messages: Vec<BankTransfer> = Vec::new();
    let mut data: Vec<DeregisterUserResponse> = Vec::new();
    let mut i: usize = 0;
    proof {
        assert(names.take(0) =~= Seq::<Seq<char>>::empty());
        assert(messages@.map_values(|t: BankTransfer| t@) =~= Seq::<TransferModel>::empty());
        assert(data@.map_values(|x: DeregisterUserResponse| x@) =~= Seq::<DeregModel>::empty());
    }
    while i < n
        invariant
            n == addresses@.len(),
            i <= n,
            names == addresses_m(addresses@),
            names.len() == n,
            contract_wf(old(c)@),
            contract_wf(c@),
            denom0 == old(c)@.ledger.denom,
            ({
                let f = dereg_fold(old(c)@.registry, names.take(i as int), now as int, denom0);
                &&& c@.registry == f.0
                &&& c@.ledger.unallocated == old(c)@.ledger.unallocated + f.1
                &&& messages@.map_values(|t: BankTransfer| t@) == f.2
                &&& data@.map_values(|x: DeregisterUserResponse| x@) == f.3
            }),
            c@.ledger.denom == old(c)@.ledger.denom,
            c@.ledger.total == old(c)@.ledger.total,
            c@.admin == old(c)@.admin,
            c@.managers == old(c)@.managers,
        decreases n - i,
    {
        let ghost es_cur = c@.registry;
        proof {
            assert(names[i as int] == addresses@[i as int]@);
            assert(names.take(i as int + 1) =~= names.take(i as int) + seq![names[i as int]]);
            lemma_dereg_concat(
                old(c)@.registry,
                names.take(i as int),
                seq![names[i as int]],
                now as int,
                denom0,
            );
            lemma_dereg_singleton(es_cur, names[i as int], now as int, denom0);
        }
        match c.registry.remove_all(&addresses[i]) {
            Err(_) => {
                let mut m = "Failed to deregister vesting account: Generic error: User ".to_owned();
                m.append(addresses[i].as_str());
                m.append(" does not have a vesting account.");
                data.push(
                    DeregisterUserResponse {
                        user_address: addresses[i].clone(),
                        success: false,
                        error_msg: m,
                    },
                );
                proof {
                    assert(data@.map_values(|x: DeregisterUserResponse| x@) =~~= dereg_fold(
                        old(c)@.registry,
                        names.take(i as int + 1),
                        now as int,
                        denom0,
                    ).3);
                }
            },
            Ok(accounts) => {
                let ghost idx = recipient_index(es_cur, names[i as int]);
                let ghost accs = es_cur[idx].accounts;
                let ghost unalloc0 = c@.ledger.unallocated;
                let ghost total0 = c@.ledger.total;
                proof {
                    assert(entry_wf(es_cur[idx]));
                    assert(accounts@.map_values(|a: VestingAccount| a@) == accs);
                    assert(unalloc0 + sum_entries_vesting(es_cur) <= total0 <= u128::MAX);
                }
                let m = accounts.len();
                let mut pay: u128 = 0;
                let mut rel: u128 = 0;
                let mut k: usize = 0;
                proof {
                    assert(accs.take(0) =~= Seq::<AccountModel>::empty());
                }
                while k < m
                    invariant
                        accs == accounts@.map_values(|a: VestingAccount| a@),
                        registry_wf(es_cur),
                        0 <= idx < es_cur.len(),
                        accs == es_cur[idx].accounts,
                        entry_wf(es_cur[idx]),
                        unalloc0 + sum_entries_vesting(es_cur) <= total0 <= u128::MAX,
                        0 <= unalloc0,
                        m == accs.len(),
                        m == accounts@.len(),
                        k <= m,
                        pay == settle_total(accs.take(k as int), now as int),
                        rel == release_total(accs.take(k as int), now as int),
                        0 <= pay,
                        0 <= rel,
                    decreases m - k,
                {
                    proof {
                        assert(accs[k as int] == accounts@[k as int]@);
                        assert(account_wf(accs[k as int]));
                    }
                    let a_vesting_amount = accounts[k].vesting_amount;
                    let a_cliff_amount = accounts[k].cliff_amount;
                    let a_schedule = accounts[k].vesting_schedule;
                    let a_claimed = accounts[k].claimed_amount;
                    let vested = vested_amount(&a_schedule, a_vesting_amount, a_cliff_amount, now);
                    proof {
                        assert(vested == vested_at(accs[k as int], now as int));
                        crate::schedule::lemma_vested_bounds(
                            accs[k as int].schedule,
                            accs[k as int].vesting_amount,
                            accs[k as int].cliff_amount,
                            now as int,
                        );
                        assert(accs.take(k as int + 1) =~= accs.take(k as int) + seq![
                            accs[k as int],
                        ]);
                        lemma_claim_accounts_concat(
                            accs.take(k as int),
                            seq![accs[k as int]],
                            now as int,
                        );
                        assert(seq![accs[k as int]].drop_first() =~= Seq::<AccountModel>::empty());
                        assert(settle_total(Seq::<AccountModel>::empty(), now as int) == 0);
                        assert(release_total(Seq::<AccountModel>::empty(), now as int) == 0);
                        assert(settle_total(seq![accs[k as int]], now as int) == (if claimable_at(
                            accs[k as int],
                            now as int,
                        ) > 0 {
                            claimable_at(accs[k as int], now as int)
                        } else {
                            0int
                        }));
                        assert(release_total(seq![accs[k as int]], now as int)
                            == accs[k as int].vesting_amount - vested_at(accs[k as int], now as int));
                        assert(forall|j: int|
                            0 <= j < accs.take(k as int + 1).len() ==> account_wf(
                                #[trigger] accs.take(k as int + 1)[j],
                            ));
                        crate::registry::lemma_settle_release_bounds(
                            accs.take(k as int + 1),
                            now as int,
                        );
                        assert(forall|j: int|
                            0 <= j < accs.len() ==> account_wf(#[trigger] accs[j]));
                        lemma_sum_accounts_prefix(accs, k as int + 1);
                        lemma_sum_entry_le(es_cur, idx);
                        assert(settle_total(accs.take(k as int + 1), now as int)
                            <= sum_entries_vesting(es_cur));
                        assert(release_total(accs.take(k as int + 1), now as int)
                            <= sum_entries_vesting(es_cur));
                    }
                    if vested > a_claimed {
                        pay = pay + (vested - a_claimed);
                    }
                    rel = rel + (a_vesting_amount - vested);
                    k += 1;
                }
                proof {
                    assert(accs.take(m as int) =~= accs);
                    crate::registry::lemma_registry_remove(es_cur, idx);
                    crate::registry::lemma_settle_release_bounds(accs, now as int);
                    lemma_sum_entry_le(es_cur, idx);
                }
                c.ledger.release(rel);
                if pay > 0 {
                    let mut coins: Vec<Coin> = Vec::new();
                    coins.push(Coin { denom: c.ledger.denom.clone(), amount: pay });
                    messages.push(
                        BankTransfer { to_address: addresses[i].clone(), amount: coins },
                    );
                }
                data.push(
                    DeregisterUserResponse {
                        user_address: addresses[i].clone(),
                        success: true,
                        error_msg: "".to_owned(),
                    },
                );
                proof {
                    let f = dereg_fold(
                        old(c)@.registry,
                        names.take(i as int + 1),
                        now as int,
                        denom0,
                    );
                    assert(messages@.map_values(|t: BankTransfer| t@) =~~= f.2);
                    assert(data@.map_values(|x: DeregisterUserResponse| x@) =~~= f.3);
                }
            },
        }
        i += 1;
    }
    proof {
        assert(names.take(n as int) =~= names);
    }
    Ok(Response { messages, attributes: Vec::new(), data: Some(data) })
}

/// Pays the admin up to `amount` out of the unallocated pool, clamping to
/// what is available; withdrawing from an empty pool is an error.
pub fn withdraw(c: &mut VestingContract, sender: &String, amount: u128) -> (r: Result<
    Response,
    ContractError,
>)
    requires
        contract_wf(old(c)@),
    ensures
        contract_wf(final(c)@),
        r is Err ==> final(c)@ == old(c)@,
        r is Ok <==> sender@ == old(c)@.admin && old(c)@.ledger.unallocated > 0,
        sender@ != old(c)@.admin ==> (r matches Err(ContractError::Std(
            StdError::GenericErr { msg },
        )) && msg@ == "Unauthorized"@),
        sender@ == old(c)@.admin && old(c)@.ledger.unallocated == 0 ==> (r matches Err(
            ContractError::Std(StdError::GenericErr { msg }),
        ) && msg@ == "Nothing to withdraw"@),
        r matches Ok(resp) ==> ({
            let w = if amount as int <= old(c)@.ledger.unallocated {
                amount as int
            } else {
                old(c)@.ledger.unallocated
            };
            &&& final(c)@.ledger.unallocated == old(c)@.ledger.unallocated - w
            &&& final(c)@.ledger.denom == old(c)@.ledger.denom
            &&& final(c)@.ledger.total == old(c)@.ledger.total
            &&& final(c)@.registry == old(c)@.registry
            &&& final(c)@.admin == old(c)@.admin
            &&& final(c)@.managers == old(c)@.managers
            &&& resp.data is None
            &&& resp.messages@.map_values(|t: BankTransfer| t@) == seq![
                TransferModel {
                    to: old(c)@.admin,
                    amount: seq![CoinModel { denom: old(c)@.ledger.denom, amount: w }],
                },
            ]
            &&& resp.attributes@.map_values(|a: Attribute| a@) == seq![
                ("action"@, "withdraw"@),
                ("recipient"@, old(c)@.admin),
                ("amount"@, dec_str(w as nat)),
                ("unallocated_amount"@, dec_str((old(c)@.ledger.unallocated - w) as nat)),
            ]
        }),
{
    if !(*sender == c.admin) {
        return Err(ContractError::Std(StdError::generic_err("Unauthorized".to_owned())));
    }
    let w: u128 = match c.ledger.withdraw(amount) {
        Err(_) => {
            return Err(
                ContractError::Std(StdError::generic_err("Nothing to withdraw".to_owned())),
            );
        },
        Ok(w) => w,
    };
    let mut coins: Vec<Coin> = Vec::new();
    coins.push(Coin { denom: c.ledger.denom.clone(), amount: w });
    let mut messages: Vec<BankTransfer> = Vec::new();
    messages.push(BankTransfer { to_address: c.admin.clone(), amount: coins });
    let mut attrs: Vec<Attribute> = Vec::new();
    attrs.push(Attribute { key: "action".to_owned(), value: "withdraw".to_owned() });
    attrs.push(Attribute { key: "recipient".to_owned(), value: c.admin.clone() });
    attrs.push(Attribute { key: "amount".to_owned(), value: u128_to_string(w) });
    attrs.push(
        Attribute {
            key: "unallocated_amount".to_owned(),
            value: u128_to_string(c.ledger.unallocated_amount),
        },
    );
    let resp = Response { messages, attributes: attrs, data: None };
    proof {
        assert(resp.messages@.map_values(|t: BankTransfer| t@) =~~= seq![
            TransferModel {
                to: old(c)@.admin,
                amount: seq![
                    CoinModel {
                        denom: old(c)@.ledger.denom,
                        amount: (if amount as int <= old(c)@.ledger.unallocated {
                            amount as int
                        } else {
                            old(c)@.ledger.unallocated
                        }),
                    },
                ],
            },
        ]);
        assert(resp.attributes@.map_values(|a: Attribute| a@) =~~= seq![
            ("action"@, "withdraw"@),
            ("recipient"@, old(c)@.admin),
            ("amount"@, dec_str(w as nat)),
            ("unallocated_amount"@, dec_str((old(c)@.ledger.unallocated - w as int) as nat)),
        ]);
    }
    Ok(resp)
}

/// The ledger invariant, as every operation preserves it: each operation
/// requires a well-formed state and ensures one again, so across any
/// sequence of calls the unallocated pool stays non-negative and never
/// exceeds the total deposit.
pub proof fn lemma_ledger_invariant(c: ContractModel)
    requires
        contract_wf(c),
    ensures
        0 <= c.ledger.unallocated <= c.ledger.total,
{
    crate::registry::lemma_sum_entries_nonneg(c.registry);
}

/// Round trip: registering a grant appends exactly one fresh account for
/// the recipient, and a query right after reports for it the schedule's
/// exact vested amount — zero below the cliff — and, with nothing yet
/// claimed, a claimable amount equal to it.
pub proof fn lemma_register_then_query(
    es: Seq<EntryModel>,
    master: Seq<char>,
    r: RewardModel,
    schedule: VestingSchedule,
    now: int,
)
    requires
        registry_wf(es),
        reward_validation_m(r, schedule) is Ok,
        0 <= r.cliff_amount,
        r.vesting_amount <= u128::MAX,
    ensures
        ({
            let accs = accounts_of(register_batch(es, master, seq![r], schedule), r.user);
            &&& accs.len() == accounts_of(es, r.user).len() + 1
            &&& accs.last() == reward_account(master, r, schedule)
            &&& vested_at(accs.last(), now) == crate::schedule::vested_spec(
                schedule,
                r.vesting_amount,
                r.cliff_amount,
                now,
            )
            &&& claimable_at(accs.last(), now) == vested_at(accs.last(), now)
            &&& now < schedule.spec_cliff_time() ==> vested_at(accs.last(), now) == 0
        }),
{
    lemma_reward_singleton(es, master, r, schedule);
    let a = reward_account(master, r, schedule);
    lemma_add_account(es, a);
    let accs = accounts_of(add_account_m(es, a), r.user);
    assert(accs == accounts_of(es, r.user).push(a));
    assert(accs.last() == a);
}

/// The first account index a paginated query reports: everything up to and
/// including `start_after` is skipped.
pub open spec fn page_start(start_after: Option<u64>) -> int {
    match start_after {
        None => 0,
        Some(s) => s as int + 1,
    }
}

/// How many accounts a paginated query reports at most: ten by default,
/// thirty at the highest.
pub open spec fn page_limit(limit: Option<u32>) -> int {
    let l = match limit {
        None => 10int,
        Some(v) => v as int,
    };
    if l <= 30 {
        l
    } else {
        30int
    }
}

/// The window of a recipient's accounts that a paginated query reports.
pub open spec fn page_of(accs: Seq<AccountModel>, start: int, lim: int) -> Seq<AccountModel> {
    if start >= accs.len() || lim < 0 {
        Seq::empty()
    } else {
        let end = if start + lim <= accs.len() {
            start + lim
        } else {
            accs.len() as int
        };
        accs.subrange(start, end)
    }
}

/// Whether one reported record faithfully describes the account at query
/// time: identity, grant, schedule, denomination, and the live vested and
/// claimable amounts.
pub open spec fn data_matches(d: VestingData, a: AccountModel, denom: Seq<char>, now: int) -> bool {
    &&& (d.master_address matches Some(m) && m@ == a.master)
    &&& d.vesting_amount as int == a.vesting_amount
    &&& d.vested_amount as int == vested_at(a, now)
    &&& d.claimable_amount as int == claimable_at(a, now)
    &&& (d.vesting_denom matches Denom::Native(dn) && dn@ == denom)
    &&& (d.vesting_schedule matches VestingScheduleQueryOutput::LinearVestingWithCliff {
        start_time,
        end_time,
        cliff_time,
        vesting_amount,
        cliff_amount,
    } && start_time == a.schedule.spec_start_time() && end_time == a.schedule.spec_end_time()
        && cliff_time == a.schedule.spec_cliff_time() && vesting_amount as int == a.vesting_amount
        && cliff_amount as int == a.cliff_amount)
}

/// Builds the reported records for the accounts of slot `idx` in the index
/// window `[start, end)`, computing vested and claimable live at `now`.
fn vesting_datas(
    c: &VestingContract,
    now: u64,
    idx: usize,
    start: usize,
    end: usize,
) -> (r: Result<Vec<VestingData>, ContractError>)
    requires
        contract_wf(c@),
        (idx as int) < c.registry.entries@.len(),
        start <= end,
        end <= c.registry.entries@[idx as int].accounts@.len(),
    ensures
        ({
            let accs = c@.registry[idx as int].accounts;
            &&& r is Ok <==> forall|j: int|
                start <= j < end ==> (#[trigger] accs[j]).claimed <= vested_at(accs[j], now as int)
            &&& r is Err ==> r == Err::<Vec<VestingData>, ContractError>(ContractError::Overflow)
            &&& (r matches Ok(ds) ==> ds@.len() == end - start && forall|j: int|
                0 <= j < ds@.len() ==> data_matches(
                    #[trigger] ds@[j],
                    accs[start + j],
                    c@.ledger.denom,
                    now as int,
                ))
        }),
{
    let ghost accs = c@.registry[idx as int].accounts;
    proof {
        assert(c@.registry[idx as int] == c.registry.entries@[idx as int]@);
        assert(entry_wf(c@.registry[idx as int]));
    }
    let mut ds: Vec<VestingData> = Vec::new();
    let mut k: usize = start;
    while k < end
        invariant
            contract_wf(c@),
            (idx as int) < c.registry.entries@.len(),
            accs == c@.registry[idx as int].accounts,
            entry_wf(c@.registry[idx as int]),
            start <= k <= end,
            end <= c.registry.entries@[idx as int].accounts@.len(),
            accs.len() == c.registry.entries@[idx as int].accounts@.len(),
            ds@.len() == k - start,
            forall|j: int|
                start <= j < k ==> (#[trigger] accs[j]).claimed <= vested_at(accs[j], now as int),
            forall|j: int|
                0 <= j < ds@.len() ==> data_matches(
                    #[trigger] ds@[j],
                    accs[start + j],
                    c@.ledger.denom,
                    now as int,
                ),
        decreases end - k,
    {
        proof {
            assert(c@.registry[idx as int] == c.registry.entries@[idx as int]@);
            assert(accs[k as int] == c.registry.entries@[idx as int].accounts@[k as int]@);
            assert(account_wf(accs[k as int]));
        }
        let a_vesting_amount = c.registry.entries[idx].accounts[k].vesting_amount;
        let a_cliff_amount = c.registry.entries[idx].accounts[k].cliff_amount;
        let a_schedule = c.registry.entries[idx].accounts[k].vesting_schedule;
        let a_claimed = c.registry.entries[idx].accounts[k].claimed_amount;
        let vested = vested_amount(&a_schedule, a_vesting_amount, a_cliff_amount, now);
        if a_claimed > vested {
            return Err(ContractError::Overflow);
        }
        let d = VestingData {
            master_address: Some(c.registry.entries[idx].accounts[k].master_address.clone()),
            vesting_amount: a_vesting_amount,
            vesting_schedule: VestingScheduleQueryOutput::LinearVestingWithCliff {
                start_time: a_schedule.start_time(),
                end_time: a_schedule.end_time(),
                cliff_time: a_schedule.cliff_time(),
                vesting_amount: a_vesting_amount,
                cliff_amount: a_cliff_amount,
            },
            vesting_denom: Denom::Native(c.ledger.denom.clone()),
            vested_amount: vested,
            claimable_amount: vested - a_claimed,
        };
        proof {
            assert(data_matches(d, accs[k as int], c@.ledger.denom, now as int));
        }
        ds.push(d);
        k += 1;
    }
    Ok(ds)
}

/// Reports one recipient's accounts with vested and claimable amounts
/// computed live at `now`; `start_after` and `limit` page through the
/// recipient's account list. A recipient without accounts yields an empty
/// report, not an error.
pub fn query_vesting_account(
    c: &VestingContract,
    now: u64,
    address: &String,
    start_after: Option<u64>,
    limit: Option<u32>,
) -> (r: Result<VestingAccountResponse, ContractError>)
    requires
        contract_wf(c@),
    ensures
        ({
            let page = page_of(
                accounts_of(c@.registry, address@),
                page_start(start_after),
                page_limit(limit),
            );
            &&& r is Ok <==> forall|j: int|
                0 <= j < page.len() ==> (#[trigger] page[j]).claimed <= vested_at(
                    page[j],
                    now as int,
                )
            &&& r is Err ==> r == Err::<VestingAccountResponse, ContractError>(
                ContractError::Overflow,
            )
            &&& (r matches Ok(resp) ==> resp.address@ == address@ && resp.vestings@.len()
                == page.len() && forall|j: int|
                0 <= j < page.len() ==> data_matches(
                    #[trigger] resp.vestings@[j],
                    page[j],
                    c@.ledger.denom,
                    now as int,
                ))
        }),
{
    let found = c.registry.find_index(address);
    let ghost accs = accounts_of(c@.registry, address@);
    let ghost pstart = page_start(start_after);
    let ghost plim = page_limit(limit);
    match found {
        None => {
            proof {
                assert(accs =~= Seq::<AccountModel>::empty());
                assert(page_of(accs, pstart, plim) =~= Seq::<AccountModel>::empty());
            }
            Ok(VestingAccountResponse { address: address.clone(), vestings: Vec::new() })
        },
        Some(idx) => {
            proof {
                assert(accs == c@.registry[idx as int].accounts);
                assert(c@.registry[idx as int] == c.registry.entries@[idx as int]@);
            }
            let len = c.registry.entries[idx].accounts.len();
            let start: usize = match start_after {
                None => 0,
                Some(s) => {
                    if s >= len as u64 {
                        len
                    } else {
                        (s + 1) as usize
                    }
                },
            };
            let lim: usize = match limit {
                None => 10,
                Some(v) => {
                    if v <= 30 {
                        v as usize
                    } else {
                        30
                    }
                },
            };
            let end: usize = if lim > len - start {
                len
            } else {
                start + lim
            };
            proof {
                assert(page_of(accs, pstart, plim) =~= accs.subrange(start as int, end as int));
            }
            let ds = match vesting_datas(c, now, idx, start, end) {
                Ok(ds) => ds,
                Err(e) => {
                    proof {
                        let page = page_of(accs, pstart, plim);
                        assert(forall|j: int|
                            0 <= j < page.len() ==> page[j] == accs[start as int + j]);
                        if forall|j: int|
                            0 <= j < page.len() ==> (#[trigger] page[j]).claimed <= vested_at(
                                page[j],
                                now as int,
                            ) {
                            assert forall|j: int|
                                start <= j < end implies (#[trigger] accs[j]).claimed <= vested_at(
                                accs[j],
                                now as int,
                            ) by {
                                assert(page[j - start] == accs[j]);
                            }
                            assert(false);
                        }
                    }
                    return Err(e);
                },
            };
            proof {
                let page = page_of(accs, pstart, plim);
                assert(forall|j: int| 0 <= j < page.len() ==> page[j] == accs[start as int + j]);
            }
            Ok(VestingAccountResponse { address: address.clone(), vestings: ds })
        },
    }
}

/// Reports each of the given recipients in caller order, every account
/// included, with live vested and claimable amounts.
pub fn query_vesting_accounts(c: &VestingContract, now: u64, addresses: &Vec<String>) -> (r: Result<
    Vec<VestingAccountResponse>,
    ContractError,
>)
    requires
        contract_wf(c@),
    ensures
        r is Ok <==> forall|i: int, j: int|
            0 <= i < addresses@.len() && 0 <= j < accounts_of(
                c@.registry,
                addresses@[i]@,
            ).len() ==> (#[trigger] accounts_of(c@.registry, addresses@[i]@)[j]).claimed
                <= vested_at(accounts_of(c@.registry, addresses@[i]@)[j], now as int),
        r is Err ==> r == Err::<Vec<VestingAccountResponse>, ContractError>(
            ContractError::Overflow,
        ),
        (r matches Ok(resp) ==> resp@.len() == addresses@.len() && forall|i: int|
            0 <= i < addresses@.len() ==> {
                let accs = accounts_of(c@.registry, addresses@[i]@);
                &&& (#[trigger] resp@[i]).address@ == addresses@[i]@
                &&& resp@[i].vestings@.len() == accs.len()
                &&& forall|j: int|
                    0 <= j < accs.len() ==> data_matches(
                        #[trigger] resp@[i].vestings@[j],
                        accs[j],
                        c@.ledger.denom,
                        now as int,
                    )
            }),
{
    let n = addresses.len();
    let mut out: Vec<VestingAccountResponse> = Vec::new();
    let mut i: usize = 0;
    while i < n
        invariant
            contract_wf(c@),
            n == addresses@.len(),
            i <= n,
            out@.len() == i,
            forall|p: int, j: int|
                0 <= p < i && 0 <= j < accounts_of(c@.registry, addresses@[p]@).len() ==> (
                #[trigger] accounts_of(c@.registry, addresses@[p]@)[j]).claimed <= vested_at(
                    accounts_of(c@.registry, addresses@[p]@)[j],
                    now as int,
                ),
            forall|p: int|
                0 <= p < i ==> {
                    let accs = accounts_of(c@.registry, addresses@[p]@);
                    &&& (#[trigger] out@[p]).address@ == addresses@[p]@
                    &&& out@[p].vestings@.len() == accs.len()
                    &&& forall|j: int|
                        0 <= j < accs.len() ==> data_matches(
                            #[trigger] out@[p].vestings@[j],
                            accs[j],
                            c@.ledger.denom,
                            now as int,
                        )
                },
        decreases n - i,
    {
        let ghost accs_i = accounts_of(c@.registry, addresses@[i as int]@);
        let found = c.registry.find_index(&addresses[i]);
        match found {
            None => {
                proof {
                    assert(accs_i =~= Seq::<AccountModel>::empty());
                }
                out.push(
                    VestingAccountResponse { address: addresses[i].clone(), vestings: Vec::new() },
                );
            },
            Some(idx) => {
                proof {
                    assert(accs_i == c@.registry[idx as int].accounts);
                    assert(c@.registry[idx as int] == c.registry.entries@[idx as int]@);
                }
                let len = c.registry.entries[idx].accounts.len();
                let ds = match vesting_datas(c, now, idx, 0, len) {
                    Ok(ds) => ds,
                    Err(e) => {
                        return Err(e);
                    },
                };
                out.push(VestingAccountResponse { address: addresses[i].clone(), vestings: ds });
            },
        }
        i += 1;
    }
    Ok(out)
}

/// Runs one state-changing operation against the engine at block time
/// `now`, on behalf of `sender`. Failed calls leave the state untouched.
pub fn execute(c: &mut VestingContract, now: u64, sender: &String, msg: ExecuteMsg) -> (r: Result<
    Response,
    ContractError,
>)
    requires
        contract_wf(old(c)@),
    ensures
        contract_wf(final(c)@),
        r is Err ==> final(c)@ == old(c)@,
        (match msg {
            ExecuteMsg::RewardUsers { rewards, vesting_schedule } => {
                &&& (r is Ok <==> authorized(old(c)@, sender@) && batch_validation(
                    rewards_m(rewards@),
                    vesting_schedule,
                ) is Ok && rewards_total(rewards_m(rewards@)) <= old(c)@.ledger.unallocated)
                &&& (r is Ok ==> final(c)@.registry == register_batch(
                    old(c)@.registry,
                    sender@,
                    rewards_m(rewards@),
                    vesting_schedule,
                ) && final(c)@.ledger.unallocated == old(c)@.ledger.unallocated - rewards_total(
                    rewards_m(rewards@),
                ))
            },
            ExecuteMsg::Claim {} => {
                &&& (r is Ok <==> forall|k: int|
                    0 <= k < accounts_of(old(c)@.registry, sender@).len() ==> (
                    #[trigger] accounts_of(old(c)@.registry, sender@)[k]).claimed <= vested_at(
                        accounts_of(old(c)@.registry, sender@)[k],
                        now as int,
                    ))
                &&& (r is Ok ==> final(c)@.registry == claim_registry(
                    old(c)@.registry,
                    sender@,
                    now as int,
                ) && final(c)@.ledger == old(c)@.ledger)
            },
            ExecuteMsg::DeregisterVestingAccounts { addresses } => {
                &&& (r is Ok <==> authorized(old(c)@, sender@))
                &&& (r is Ok ==> final(c)@.registry == dereg_fold(
                    old(c)@.registry,
                    addresses_m(addresses@),
                    now as int,
                    old(c)@.ledger.denom,
                ).0 && final(c)@.ledger.unallocated == old(c)@.ledger.unallocated + dereg_fold(
                    old(c)@.registry,
                    addresses_m(addresses@),
                    now as int,
                    old(c)@.ledger.denom,
                ).1)
            },
            ExecuteMsg::Withdraw { amount } => {
                &&& (r is Ok <==> sender@ == old(c)@.admin && old(c)@.ledger.unallocated > 0)
                &&& (r is Ok ==> final(c)@.ledger.unallocated == old(c)@.ledger.unallocated - (
                if amount as int <= old(c)@.ledger.unallocated {
                    amount as int
                } else {
                    old(c)@.ledger.unallocated
                }) && final(c)@.registry == old(c)@.registry)
            },
        }),
{
    match msg {
        ExecuteMsg::RewardUsers { rewards, vesting_schedule } => {
            reward_users(c, sender, rewards, vesting_schedule)
        },
        ExecuteMsg::DeregisterVestingAccounts { addresses } => {
            deregister_vesting_accounts(c, now, sender, addresses)
        },
        ExecuteMsg::Claim {} => claim(c, now, sender),
        ExecuteMsg::Withdraw { amount } => withdraw(c, sender, amount),
    }
}

/// Answers one query against the engine at block time `now`.
pub fn query(c: &VestingContract, now: u64, msg: QueryMsg) -> (r: Result<
    QueryAnswer,
    ContractError,
>)
    requires
        contract_wf(c@),
    ensures
        (match msg {
            QueryMsg::VestingAccount { address, start_after, limit } => {
                let page = page_of(
                    accounts_of(c@.registry, address@),
                    page_start(start_after),
                    page_limit(limit),
                );
                &&& (r matches Ok(ans) ==> ans matches QueryAnswer::VestingAccount(resp)
                    && resp.address@ == address@ && resp.vestings@.len() == page.len() && forall|
                    j: int,
                |
                    0 <= j < page.len() ==> data_matches(
                        #[trigger] resp.vestings@[j],
                        page[j],
                        c@.ledger.denom,
                        now as int,
                    ))
                &&& (r is Ok <==> forall|j: int|
                    0 <= j < page.len() ==> (#[trigger] page[j]).claimed <= vested_at(
                        page[j],
                        now as int,
                    ))
            },
            QueryMsg::VestingAccounts { address } => {
                r matches Ok(ans) ==> ans matches QueryAnswer::VestingAccounts(resp) && resp@.len()
                    == address@.len() && forall|i: int|
                    0 <= i < address@.len() ==> {
                        let accs = accounts_of(c@.registry, address@[i]@);
                        &&& (#[trigger] resp@[i]).address@ == address@[i]@
                        &&& resp@[i].vestings@.len() == accs.len()
                        &&& forall|j: int|
                            0 <= j < accs.len() ==> data_matches(
                                #[trigger] resp@[i].vestings@[j],
                                accs[j],
                                c@.ledger.denom,
                                now as int,
                            )
                    }
            },
        }),
{
    match msg {
        QueryMsg::VestingAccount { address, start_after, limit } => {
            match query_vesting_account(c, now, &address, start_after, limit) {
                Ok(resp) => Ok(QueryAnswer::VestingAccount(resp)),
                Err(e) => Err(e),
            }
        },
        QueryMsg::VestingAccounts { address } => {
            match query_vesting_accounts(c, now, &address) {
                Ok(resp) => Ok(QueryAnswer::VestingAccounts(resp)),
                Err(e) => Err(e),
            }
        },
    }
}

} // verus!
