//! The broker bank: an operator-run pass-through account whose owner
//! controls a halt switch, the operator set, the allow-listed recipients,
//! and withdrawals; every outbound transfer is logged.

use vstd::prelude::*;
use crate::contains_name;
use crate::names_m;
use crate::name_in;
use crate::decimal::{dec_str, u64_to_string};
use crate::errors::StdError;
use crate::msgs::{Attribute, BankTransfer, Coin, CoinModel};
use crate::ownership::{assert_owner, update_ownership, Action, Ownership, OwnershipError};
use crate::contract::{valid_addr, validate_address};

verus! {

/// One emitted event: a type tag and its attributes.
#[derive(Debug, Clone)]
pub struct Event {
    pub ty: String,
    pub attributes: Vec<Attribute>,
}

/// The mathematical model of an event.
#[verifier::ext_equal]
pub struct EventModel {
    pub ty: Seq<char>,
    pub attributes: Seq<(Seq<char>, Seq<char>)>,
}

impl View for Event {
    type V = EventModel;

    open spec fn view(&self) -> EventModel {
        EventModel { ty: self.ty@, attributes: self.attributes@.map_values(|a: Attribute| a@) }
    }
}

/// One transaction-history record.
#[derive(Debug, Clone)]
pub struct Log {
    pub block_height: u64,
    pub sender_addr: String,
    pub event: Event,
}

/// The mathematical model of a history record.
#[verifier::ext_equal]
pub struct LogModel {
    pub block_height: int,
    pub sender: Seq<char>,
    pub event: EventModel,
}

impl View for Log {
    type V = LogModel;

    open spec fn view(&self) -> LogModel {
        LogModel {
            block_height: self.block_height as int,
            sender: self.sender_addr@,
            event: self.event@,
        }
    }
}

/// The permission roles as reported by queries.
#[derive(Debug, Clone)]
pub struct Permissions {
    pub owner: Option<String>,
    pub operators: Vec<String>,
}

/// The full permission status as reported by queries.
#[derive(Debug, Clone)]
pub struct PermsStatus {
    pub perms: Permissions,
    pub is_halted: bool,
}

/// Why a broker-bank operation was refused.
#[derive(Debug, Clone)]
pub enum BrokerError {
    /// An ownership check or action failed.
    Ownership(OwnershipError),
    /// The requested recipient is not on the allow list.
    ToAddrNotAllowed { to_addr: String },
    /// The halt guard refused the operator call.
    OperationsHalted,
    /// The caller is not an operator.
    UnauthorizedOperator { sender: String },
    /// An identity failed the host environment's address rule.
    Std(StdError),
}

/// The broker bank's whole state.
#[derive(Debug, Clone)]
pub struct BrokerBank {
    pub ownership: Ownership,
    /// The recipients outbound operator transfers may name.
    pub to_addrs: Vec<String>,
    /// The identities allowed to run `bank_send`.
    pub operators: Vec<String>,
    pub is_halted: bool,
    /// The transaction history, oldest first.
    pub logs: Vec<Log>,
}

/// Creates the contract instance.
#[derive(Debug, Clone)]
pub struct BrokerInstantiateMsg {
    pub owner: String,
    pub to_addrs: Vec<String>,
    pub opers: Vec<String>,
}

/// Sets up the broker bank: the owner is fixed, the halt switch starts
/// off, and the history is empty.
pub fn instantiate(msg: BrokerInstantiateMsg) -> (r: Result<BrokerBank, StdError>)
    ensures
        r is Ok <==> valid_addr(msg.owner@),
        r matches Ok(b) ==> {
            &&& (b.ownership.owner matches Some(w) && w@ == msg.owner@)
            &&& b.ownership.pending_owner is None
            &&& b.ownership.pending_expiry is None
            &&& b.to_addrs@ == msg.to_addrs@
            &&& b.operators@ == msg.opers@
            &&& b.is_halted == false
            &&& b.logs@.len() == 0
        },
{
    match validate_address(&msg.owner) {
        Err(e) => {
            return Err(e);
        },
        Ok(()) => {},
    }
    Ok(
        BrokerBank {
            ownership: Ownership {
                owner: Some(msg.owner),
                pending_owner: None,
                pending_expiry: None,
            },
            to_addrs: msg.to_addrs,
            operators: msg.opers,
            is_halted: false,
            logs: Vec::new(),
        },
    )
}

/// The halt guard on operator calls: it accepts exactly when the halt flag
/// is set, so `bank_send` goes through only while the contract is halted.
pub fn assert_not_halted(is_halted: bool) -> (r: Result<(), BrokerError>)
    ensures
        r is Ok <==> is_halted,
        r is Err ==> r matches Err(BrokerError::OperationsHalted),
{
    match is_halted {
        true => Ok(()),
        false => Err(BrokerError::OperationsHalted),
    }
}

/// An operator sends `coins` to an allow-listed recipient: the caller must
/// be an operator, the halt guard must accept, and the recipient must be on
/// the allow list; the transfer is logged. `coins_json` is the caller's
/// serialisation of `coins` for the audit event.
pub fn bank_send(
    b: &mut BrokerBank,
    block_height: u64,
    sender: &String,
    coins: Vec<Coin>,
    coins_json: String,
    to: String,
) -> (r: Result<(BankTransfer, Event), BrokerError>)
    ensures
        r is Err ==> *final(b) == *old(b),
        r is Ok <==> contains_name(names_m(old(b).operators@), sender@) && old(b).is_halted
            && contains_name(names_m(old(b).to_addrs@), to@),
        !contains_name(names_m(old(b).operators@), sender@) ==> (r matches Err(
            BrokerError::UnauthorizedOperator { sender: s },
        ) && s@ == sender@),
        contains_name(names_m(old(b).operators@), sender@) && !old(b).is_halted ==> r matches Err(
            BrokerError::OperationsHalted,
        ),
        (contains_name(names_m(old(b).operators@), sender@) && old(b).is_halted && !contains_name(
            names_m(old(b).to_addrs@),
            to@,
        )) ==> (r matches Err(BrokerError::ToAddrNotAllowed { to_addr }) && to_addr@ == to@),
        r matches Ok((tr, ev)) ==> {
            &&& tr@.to == to@
            &&& tr@.amount == coins@.map_values(|cn: Coin| cn@)
            &&& ev@.ty == "bank_send"@
            &&& ev@.attributes == seq![("coins"@, coins_json@), ("sender"@, sender@)]
            &&& final(b).logs@.len() == old(b).logs@.len() + 1
            &&& final(b).logs@.take(old(b).logs@.len() as int) == old(b).logs@
            &&& final(b).logs@.last()@ == (LogModel {
                block_height: block_height as int,
                sender: sender@,
                event: ev@,
            })
            &&& final(b).ownership == old(b).ownership
            &&& final(b).to_addrs@ == old(b).to_addrs@
            &&& final(b).operators@ == old(b).operators@
            &&& final(b).is_halted == old(b).is_halted
        },
{
    if !name_in(&b.operators, sender) {
        return Err(BrokerError::UnauthorizedOperator { sender: sender.clone() });
    }
    match assert_not_halted(b.is_halted) {
        Err(e) => {
            return Err(e);
        },
        Ok(()) => {},
    }
    if !name_in(&b.to_addrs, &to) {
        return Err(BrokerError::ToAddrNotAllowed { to_addr: to });
    }
    let mut ev_attrs: Vec<Attribute> = Vec::new();
    ev_attrs.push(Attribute { key: "coins".to_owned(), value: coins_json });
    ev_attrs.push(Attribute { key: "sender".to_owned(), value: sender.clone() });
    let event = Event { ty: "bank_send".to_owned(), attributes: ev_attrs };
    let log = Log {
        block_height,
        sender_addr: sender.clone(),
        event: event.clone_event(),
    };
    b.logs.push(log);
    let transfer = BankTransfer { to_address: to, amount: coins };
    proof {
        assert(event@.attributes =~= seq![
            ("coins"@, event.attributes@[0].value@),
            ("sender"@, sender@),
        ]);
        assert(transfer@.amount =~= transfer.amount@.map_values(|cn: Coin| cn@));
    }
    Ok((transfer, event))
}

impl Event {
    /// A structural copy of the event.
    pub fn clone_event(&self) -> (r: Event)
        ensures
            r@ == self@,
    {
        let n = self.attributes.len();
        let mut attrs: Vec<Attribute> = Vec::new();
        let mut i: usize = 0;
        while i < n
            invariant
                n == self.attributes@.len(),
                i <= n,
                attrs@.len() == i,
                forall|j: int| 0 <= j < i ==> attrs@[j]@ == self.attributes@[j]@,
            decreases n - i,
        {
            attrs.push(
                Attribute {
                    key: self.attributes[i].key.clone(),
                    value: self.attributes[i].value.clone(),
                },
            );
            i += 1;
        }
        let r = Event { ty: self.ty.clone(), attributes: attrs };
        proof {
            assert(r@.attributes =~= self@.attributes);
        }
        r
    }
}

/// The owner flips the halt switch.
pub fn toggle_halt(b: &mut BrokerBank, sender: &String) -> (r: Result<Event, BrokerError>)
    ensures
        r is Err ==> *final(b) == *old(b),
        r is Ok <==> crate::ownership::is_owner(old(b).ownership, sender@),
        r is Err ==> r matches Err(BrokerError::Ownership(OwnershipError::NotOwner)),
        r matches Ok(ev) ==> {
            &&& final(b).is_halted == !old(b).is_halted
            &&& final(b).ownership == old(b).ownership
            &&& final(b).to_addrs@ == old(b).to_addrs@
            &&& final(b).operators@ == old(b).operators@
            &&& final(b).logs@ == old(b).logs@
            &&& ev@.ty == "toggle_halt"@
            &&& ev@.attributes == seq![
                ("new_is_halted"@, if !old(b).is_halted { "true"@ } else { "false"@ }),
            ]
        },
{
    match assert_owner(&b.ownership, sender) {
        Err(e) => {
            return Err(BrokerError::Ownership(e));
        },
        Ok(()) => {},
    }
    b.is_halted = !b.is_halted;
    let flag: &'static str = if b.is_halted {
        "true"
    } else {
        "false"
    };
    let mut ev_attrs: Vec<Attribute> = Vec::new();
    ev_attrs.push(Attribute { key: "new_is_halted".to_owned(), value: flag.to_owned() });
    let ev = Event { ty: "toggle_halt".to_owned(), attributes: ev_attrs };
    proof {
        assert(ev@.attributes =~= seq![
            ("new_is_halted"@, if !old(b).is_halted { "true"@ } else { "false"@ }),
        ]);
    }
    Ok(ev)
}

/// The owner runs an ownership action; on success the new ownership state
/// is reported as attributes (absent parts as `none`).
pub fn execute_update_ownership(
    b: &mut BrokerBank,
    block_height: u64,
    sender: &String,
    action: Action,
) -> (r: Result<Vec<Attribute>, OwnershipError>)
    ensures
        r is Err ==> *final(b) == *old(b),
        final(b).to_addrs@ == old(b).to_addrs@ && final(b).operators@ == old(b).operators@
            && final(b).is_halted == old(b).is_halted && final(b).logs@ == old(b).logs@,
        r matches Ok(attrs) ==> {
            &&& attrs@.len() == 3
            &&& attrs@[0]@ == ("owner"@, match final(b).ownership.owner {
                Some(w) => w@,
                None => "none"@,
            })
            &&& attrs@[1]@ == ("pending_owner"@, match final(b).ownership.pending_owner {
                Some(w) => w@,
                None => "none"@,
            })
            &&& attrs@[2]@ == ("pending_expiry"@, match final(b).ownership.pending_expiry {
                Some(e) => dec_str(e as nat),
                None => "none"@,
            })
        },
{
    match update_ownership(&mut b.ownership, block_height, sender, action) {
        Err(e) => Err(e),
        Ok(()) => {
            let owner_s: String = match &b.ownership.owner {
                Some(w) => w.clone(),
                None => "none".to_owned(),
            };
            let pending_s: String = match &b.ownership.pending_owner {
                Some(w) => w.clone(),
                None => "none".to_owned(),
            };
            let expiry_s: String = match b.ownership.pending_expiry {
                Some(e) => u64_to_string(e),
                None => "none".to_owned(),
            };
            let mut attrs: Vec<Attribute> = Vec::new();
            attrs.push(Attribute { key: "owner".to_owned(), value: owner_s });
            attrs.push(Attribute { key: "pending_owner".to_owned(), value: pending_s });
            attrs.push(Attribute { key: "pending_expiry".to_owned(), value: expiry_s });
            Ok(attrs)
        },
    }
}

/// An operator-set action.
#[derive(Debug, Clone, PartialEq, Eq)]
pub enum OperAction {
    AddOper { address: String },
    RemoveOper { address: String },
}

/// The owner adds or removes an operator. Adding keeps the set free of
/// duplicates; removing drops every occurrence of the identity.
pub fn edit_opers(b: &mut BrokerBank, sender: &String, action: OperAction) -> (r: Result<
    Vec<Attribute>,
    BrokerError,
>)
    ensures
        r is Err ==> *final(b) == *old(b),
        !crate::ownership::is_owner(old(b).ownership, sender@) ==> r matches Err(
            BrokerError::Ownership(OwnershipError::NotOwner),
        ),
        final(b).ownership == old(b).ownership && final(b).to_addrs@ == old(b).to_addrs@
            && final(b).is_halted == old(b).is_halted && final(b).logs@ == old(b).logs@,
        (match action {
            OperAction::AddOper { address } => {
                &&& (r is Ok <==> crate::ownership::is_owner(old(b).ownership, sender@)
                    && valid_addr(address@))
                &&& r is Ok ==> (forall|n: Seq<char>|
                    #[trigger] contains_name(names_m(final(b).operators@), n) == (contains_name(
                        names_m(old(b).operators@),
                        n,
                    ) || n == address@))
            },
            OperAction::RemoveOper { address } => {
                &&& (r is Ok <==> crate::ownership::is_owner(old(b).ownership, sender@))
                &&& r is Ok ==> (forall|n: Seq<char>|
                    #[trigger] contains_name(names_m(final(b).operators@), n) == (contains_name(
                        names_m(old(b).operators@),
                        n,
                    ) && n != address@))
            },
        }),
        r matches Ok(attrs) ==> attrs@.len() == 2 && attrs@[0]@ == ("action"@, match action {
            OperAction::AddOper { .. } => "add_operator"@,
            OperAction::RemoveOper { .. } => "remove_operator"@,
        }) && attrs@[1]@ == ("address"@, match action {
            OperAction::AddOper { address } => address@,
            OperAction::RemoveOper { address } => address@,
        }),
{
    match assert_owner(&b.ownership, sender) {
        Err(e) => {
            return Err(BrokerError::Ownership(e));
        },
        Ok(()) => {},
    }
    match action {
        OperAction::AddOper { address } => {
            match validate_address(&address) {
                Err(e) => {
                    return Err(BrokerError::Std(e));
                },
                Ok(()) => {},
            }
            if !name_in(&b.operators, &address) {
                b.operators.push(address.clone());
                proof {
                    assert(names_m(b.operators@) =~= names_m(old(b).operators@).push(address@));
                    assert forall|n: Seq<char>| #[trigger] contains_name(
                        names_m(b.operators@),
                        n,
                    ) == (contains_name(names_m(old(b).operators@), n) || n == address@) by {
                        let ms = names_m(old(b).operators@);
                        let ms2 = names_m(b.operators@);
                        if contains_name(ms, n) {
                            let k = choose|k: int| 0 <= k < ms.len() && ms[k] == n;
                            assert(ms2[k] == n);
                        }
                        if n == address@ {
                            assert(ms2[ms.len() as int] == n);
                        }
                        if contains_name(ms2, n) && n != address@ {
                            let k = choose|k: int| 0 <= k < ms2.len() && ms2[k] == n;
                            assert(k < ms.len());
                            assert(ms[k] == n);
                        }
                    }
                }
            } else {
                proof {
                    assert forall|n: Seq<char>| #[trigger] contains_name(
                        names_m(b.operators@),
                        n,
                    ) == (contains_name(names_m(old(b).operators@), n) || n == address@) by {}
                }
            }
            let mut attrs: Vec<Attribute> = Vec::new();
            attrs.push(Attribute { key: "action".to_owned(), value: "add_operator".to_owned() });
            attrs.push(Attribute { key: "address".to_owned(), value: address });
            Ok(attrs)
        },
        OperAction::RemoveOper { address } => {
            let mut kept: Vec<String> = Vec::new();
            let n = b.operators.len();
            let mut i: usize = 0;
            proof {
                assert(names_m(b.operators@.take(0)) =~= Seq::<Seq<char>>::empty());
                assert(names_m(kept@) =~= names_without(
                    names_m(b.operators@.take(0)),
                    address@,
                ));
            }
            while i < n
                invariant
                    n == b.operators@.len(),
                    i <= n,
                    names_m(kept@) == names_without(
                        names_m(b.operators@.take(i as int)),
                        address@,
                    ),
                    b == old(b),
                decreases n - i,
            {
                let ghost pre = names_m(b.operators@.take(i as int));
                let ghost cur = b.operators@[i as int]@;
                proof {
                    assert(names_m(b.operators@.take(i as int + 1)) =~= pre + seq![cur]);
                    lemma_names_without_concat(pre, seq![cur], address@);
                    assert(seq![cur].drop_first() =~= Seq::<Seq<char>>::empty());
                    assert(names_without(Seq::<Seq<char>>::empty(), address@) =~= Seq::<
                        Seq<char>,
                    >::empty());
                    if cur == address@ {
                        assert(names_without(seq![cur], address@) =~= Seq::<Seq<char>>::empty());
                    } else {
                        assert(names_without(seq![cur], address@) =~= seq![cur]);
                    }
                }
                let ghost kept_before = kept@;
                if !(b.operators[i] == address) {
                    let item = b.operators[i].clone();
                    kept.push(item);
                    proof {
                        assert(names_m(kept@) =~= names_m(kept_before).push(cur));
                        assert(names_m(kept_before).push(cur) =~= names_m(kept_before) + seq![
                            cur,
                        ]);
                    }
                }
                proof {
                    assert(names_m(kept@) =~= names_without(
                        names_m(b.operators@.take(i as int + 1)),
                        address@,
                    ));
                }
                i += 1;
            }
            proof {
                assert(b.operators@.take(n as int) =~= b.operators@);
                lemma_names_without_contains(names_m(b.operators@), address@);
            }
            b.operators = kept;
            let mut attrs: Vec<Attribute> = Vec::new();
            attrs.push(
                Attribute { key: "action".to_owned(), value: "remove_operator".to_owned() },
            );
            attrs.push(Attribute { key: "address".to_owned(), value: address });
            Ok(attrs)
        },
    }
}

/// The identities of `ms` with every occurrence of `name` dropped, in
/// order.
pub open spec fn names_without(ms: Seq<Seq<char>>, name: Seq<char>) -> Seq<Seq<char>>
    decreases ms.len(),
{
    if ms.len() == 0 {
        Seq::empty()
    } else {
        let rest = names_without(ms.drop_first(), name);
        if ms[0] == name {
            rest
        } else {
            seq![ms[0]] + rest
        }
    }
}

pub proof fn lemma_names_without_concat(s1: Seq<Seq<char>>, s2: Seq<Seq<char>>, name: Seq<char>)
    ensures
        names_without(s1 + s2, name) == names_without(s1, name) + names_without(s2, name),
    decreases s1.len(),
{
    if s1.len() == 0 {
        assert(s1 + s2 =~= s2);
        assert(names_without(s1, name) + names_without(s2, name) =~= names_without(s2, name));
    } else {
        assert((s1 + s2).drop_first() =~= s1.drop_first() + s2);
        lemma_names_without_concat(s1.drop_first(), s2, name);
        if s1[0] != name {
            assert(seq![s1[0]] + (names_without(s1.drop_first(), name) + names_without(s2, name))
                =~= (seq![s1[0]] + names_without(s1.drop_first(), name)) + names_without(
                s2,
                name,
            ));
        }
    }
}

/// Membership in a list head or its tail.
pub proof fn lemma_contains_head_tail(ms: Seq<Seq<char>>, m: Seq<char>)
    requires
        ms.len() > 0,
    ensures
        contains_name(ms, m) == (ms[0] == m || contains_name(ms.drop_first(), m)),
{
    if contains_name(ms, m) {
        let k = choose|k: int| 0 <= k < ms.len() && ms[k] == m;
        if k > 0 {
            assert(ms.drop_first()[k - 1] == m);
        }
    }
    if contains_name(ms.drop_first(), m) {
        let k = choose|k: int| 0 <= k < ms.drop_first().len() && ms.drop_first()[k] == m;
        assert(ms[k + 1] == m);
    }
}

/// Dropping a name removes exactly that name from the membership set.
pub proof fn lemma_names_without_contains(ms: Seq<Seq<char>>, name: Seq<char>)
    ensures
        forall|m: Seq<char>|
            #[trigger] contains_name(names_without(ms, name), m) == (contains_name(ms, m) && m
                != name),
    decreases ms.len(),
{
    if ms.len() == 0 {
        assert forall|m: Seq<char>| #[trigger] contains_name(names_without(ms, name), m) == (
        contains_name(ms, m) && m != name) by {
            if contains_name(ms, m) {
                let k = choose|k: int| 0 <= k < ms.len() && ms[k] == m;
            }
            if contains_name(names_without(ms, name), m) {
                let k = choose|k: int|
                    0 <= k < names_without(ms, name).len() && names_without(ms, name)[k] == m;
            }
        }
    } else {
        lemma_names_without_contains(ms.drop_first(), name);
        let rest = names_without(ms.drop_first(), name);
        assert forall|m: Seq<char>| #[trigger] contains_name(names_without(ms, name), m) == (
        contains_name(ms, m) && m != name) by {
            lemma_contains_head_tail(ms, m);
            if ms[0] == name {
                assert(names_without(ms, name) == rest);
            } else {
                let whole = seq![ms[0]] + rest;
                assert(names_without(ms, name) == whole);
                assert(whole.len() > 0 && whole[0] == ms[0]);
                assert(whole.drop_first() =~= rest);
                lemma_contains_head_tail(whole, m);
            }
        }
    }
}

/// The coins of `balances` whose denomination is in `denoms`, in order.
pub open spec fn filtered_coins(s: Seq<CoinModel>, denoms: Seq<Seq<char>>) -> Seq<CoinModel>
    decreases s.len(),
{
    if s.len() == 0 {
        Seq::empty()
    } else {
        let rest = filtered_coins(s.drop_first(), denoms);
        if contains_name(denoms, s[0].denom) {
            seq![s[0]] + rest
        } else {
            rest
        }
    }
}

pub proof fn lemma_filtered_coins_concat(
    s1: Seq<CoinModel>,
    s2: Seq<CoinModel>,
    denoms: Seq<Seq<char>>,
)
    ensures
        filtered_coins(s1 + s2, denoms) == filtered_coins(s1, denoms) + filtered_coins(s2, denoms),
    decreases s1.len(),
{
    if s1.len() == 0 {
        assert(s1 + s2 =~= s2);
        assert(filtered_coins(s1, denoms) + filtered_coins(s2, denoms) =~= filtered_coins(
            s2,
            denoms,
        ));
    } else {
        assert((s1 + s2).drop_first() =~= s1.drop_first() + s2);
        lemma_filtered_coins_concat(s1.drop_first(), s2, denoms);
        if contains_name(denoms, s1[0].denom) {
            assert(seq![s1[0]] + (filtered_coins(s1.drop_first(), denoms) + filtered_coins(
                s2,
                denoms,
            )) =~= (seq![s1[0]] + filtered_coins(s1.drop_first(), denoms)) + filtered_coins(
                s2,
                denoms,
            ));
        }
    }
}

/// Keeps exactly the coins of the requested denominations, in order.
pub fn filter_coins(balances: Vec<Coin>, denoms: &Vec<String>) -> (r: Vec<Coin>)
    ensures
        r@.map_values(|cn: Coin| cn@) == filtered_coins(
            balances@.map_values(|cn: Coin| cn@),
            names_m(denoms@),
        ),
{
    let ghost s = balances@.map_values(|cn: Coin| cn@);
    let ghost ds = names_m(denoms@);
    let n = balances.len();
    let mut out: Vec<Coin> = Vec::new();
    let mut i: usize = 0;
    proof {
        assert(s.take(0) =~= Seq::<CoinModel>::empty());
        assert(out@.map_values(|cn: Coin| cn@) =~= filtered_coins(s.take(0), ds));
    }
    while i < n
        invariant
            n == balances@.len(),
            i <= n,
            s == balances@.map_values(|cn: Coin| cn@),
            ds == names_m(denoms@),
            s.len() == n,
            out@.map_values(|cn: Coin| cn@) == filtered_coins(s.take(i as int), ds),
        decreases n - i,
    {
        proof {
            assert(s[i as int] == balances@[i as int]@);
            assert(s.take(i as int + 1) =~= s.take(i as int) + seq![s[i as int]]);
            lemma_filtered_coins_concat(s.take(i as int), seq![s[i as int]], ds);
            assert(seq![s[i as int]].drop_first() =~= Seq::<CoinModel>::empty());
            assert(filtered_coins(Seq::<CoinModel>::empty(), ds) =~= Seq::<CoinModel>::empty());
            assert(seq![s[i as int]] + Seq::<CoinModel>::empty() =~= seq![s[i as int]]);
            if contains_name(ds, s[i as int].denom) {
                assert(filtered_coins(seq![s[i as int]], ds) =~= seq![s[i as int]]);
            } else {
                assert(filtered_coins(seq![s[i as int]], ds) =~= Seq::<CoinModel>::empty());
            }
        }
        if name_in(denoms, &balances[i].denom) {
            out.push(Coin { denom: balances[i].denom.clone(), amount: balances[i].amount });
            proof {
                assert(out@.map_values(|cn: Coin| cn@) =~~= filtered_coins(
                    s.take(i as int + 1),
                    ds,
                ));
            }
        }
        i += 1;
    }
    proof {
        assert(s.take(n as int) =~= s);
    }
    out
}

/// The owner withdraws `coins` (already gathered and, for the targeted
/// variant, filtered) to `to`, defaulting to the owner's own address; the
/// transfer is logged. `coins_json` is the caller's serialisation of
/// `coins` for the audit event.
pub fn withdraw_funds(
    b: &mut BrokerBank,
    block_height: u64,
    sender: &String,
    to: Option<String>,
    coins: Vec<Coin>,
    coins_json: String,
) -> (r: Result<(BankTransfer, Event), BrokerError>)
    ensures
        r is Err ==> *final(b) == *old(b),
        r is Ok <==> crate::ownership::is_owner(old(b).ownership, sender@),
        r is Err ==> r matches Err(BrokerError::Ownership(OwnershipError::NotOwner)),
        r matches Ok((tr, ev)) ==> {
            &&& tr@.to == (match to {
                Some(t) => t@,
                None => sender@,
            })
            &&& tr@.amount == coins@.map_values(|cn: Coin| cn@)
            &&& ev@.ty == "withdraw"@
            &&& ev@.attributes == seq![("coins"@, coins_json@), ("to"@, tr@.to)]
            &&& final(b).logs@.len() == old(b).logs@.len() + 1
            &&& final(b).logs@.take(old(b).logs@.len() as int) == old(b).logs@
            &&& final(b).logs@.last()@ == (LogModel {
                block_height: block_height as int,
                sender: sender@,
                event: ev@,
            })
            &&& final(b).ownership == old(b).ownership
            &&& final(b).to_addrs@ == old(b).to_addrs@
            &&& final(b).operators@ == old(b).operators@
            &&& final(b).is_halted == old(b).is_halted
        },
{
    match assert_owner(&b.ownership, sender) {
        Err(e) => {
            return Err(BrokerError::Ownership(e));
        },
        Ok(()) => {},
    }
    let to_addr: String = match to {
        Some(t) => t,
        None => sender.clone(),
    };
    let mut ev_attrs: Vec<Attribute> = Vec::new();
    ev_attrs.push(Attribute { key: "coins".to_owned(), value: coins_json });
    ev_attrs.push(Attribute { key: "to".to_owned(), value: to_addr.clone() });
    let event = Event { ty: "withdraw".to_owned(), attributes: ev_attrs };
    let log = Log { block_height, sender_addr: sender.clone(), event: event.clone_event() };
    b.logs.push(log);
    let transfer = BankTransfer { to_address: to_addr, amount: coins };
    proof {
        assert(event@.attributes =~= seq![
            ("coins"@, event.attributes@[0].value@),
            ("to"@, transfer.to_address@),
        ]);
        assert(transfer@.amount =~= transfer.amount@.map_values(|cn: Coin| cn@));
    }
    Ok((transfer, event))
}

/// Reports the permission roles and the halt flag.
pub fn query_perms_status(b: &BrokerBank) -> (r: PermsStatus)
    ensures
        (match b.ownership.owner {
            Some(w) => r.perms.owner matches Some(o) && o@ == w@,
            None => r.perms.owner is None,
        }),
        names_m(r.perms.operators@) == names_m(b.operators@),
        r.is_halted == b.is_halted,
{
    let owner: Option<String> = match &b.ownership.owner {
        Some(w) => Some(w.clone()),
        None => None,
    };
    let n = b.operators.len();
    let mut operators: Vec<String> = Vec::new();
    let mut i: usize = 0;
    while i < n
        invariant
            n == b.operators@.len(),
            i <= n,
            operators@.len() == i,
            forall|j: int| 0 <= j < i ==> operators@[j]@ == b.operators@[j]@,
        decreases n - i,
    {
        operators.push(b.operators[i].clone());
        i += 1;
    }
    proof {
        assert(names_m(operators@) =~= names_m(b.operators@));
    }
    PermsStatus { perms: Permissions { owner, operators }, is_halted: b.is_halted }
}

/// The broker bank's queries.
#[derive(Debug, Clone, PartialEq, Eq)]
pub enum BrokerQueryMsg {
    Perms {},
    Ownership {},
}

/// The typed answer of the broker query dispatcher.
#[derive(Debug, Clone)]
pub enum BrokerQueryAnswer {
    Perms(PermsStatus),
    Ownership(Ownership),
}

/// Answers one broker query.
pub fn query(b: &BrokerBank, msg: BrokerQueryMsg) -> (r: BrokerQueryAnswer)
    ensures
        (match msg {
            BrokerQueryMsg::Perms {} => r matches BrokerQueryAnswer::Perms(status) && (match b
                .ownership.owner {
                Some(w) => status.perms.owner matches Some(o) && o@ == w@,
                None => status.perms.owner is None,
            }) && names_m(status.perms.operators@) == names_m(b.operators@) && status.is_halted
                == b.is_halted,
            BrokerQueryMsg::Ownership {} => r matches BrokerQueryAnswer::Ownership(o) && (match b
                .ownership.owner {
                Some(w) => o.owner matches Some(x) && x@ == w@,
                None => o.owner is None,
            }) && (match b.ownership.pending_owner {
                Some(w) => o.pending_owner matches Some(x) && x@ == w@,
                None => o.pending_owner is None,
            }) && o.pending_expiry == b.ownership.pending_expiry,
        }),
{
    match msg {
        BrokerQueryMsg::Perms {} => BrokerQueryAnswer::Perms(query_perms_status(b)),
        BrokerQueryMsg::Ownership {} => {
            let owner: Option<String> = match &b.ownership.owner {
                Some(w) => Some(w.clone()),
                None => None,
            };
            let pending_owner: Option<String> = match &b.ownership.pending_owner {
                Some(w) => Some(w.clone()),
                None => None,
            };
            BrokerQueryAnswer::Ownership(
                Ownership { owner, pending_owner, pending_expiry: b.ownership.pending_expiry },
            )
        },
    }
}

/// Reports the stored allow-list set (the recipients operator transfers
/// may name), as the accepted-denominations query hands it out.
pub fn query_accepted_denoms(b: &BrokerBank) -> (r: Vec<String>)
    ensures
        names_m(r@) == names_m(b.to_addrs@),
{
    let n = b.to_addrs.len();
    let mut out: Vec<String> = Vec::new();
    let mut i: usize = 0;
    while i < n
        invariant
            n == b.to_addrs@.len(),
            i <= n,
            out@.len() == i,
            forall|j: int| 0 <= j < i ==> out@[j]@ == b.to_addrs@[j]@,
        decreases n - i,
    {
        out.push(b.to_addrs[i].clone());
        i += 1;
    }
    proof {
        assert(names_m(out@) =~= names_m(b.to_addrs@));
    }
    out
}

} // verus!
