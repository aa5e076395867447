//! The shifter whitelist: an admin-managed member set whose members may
//! request permissioned market adjustments (peg and depth shifts) that the
//! host chain executes.

use vstd::prelude::*;
use crate::contains_name;
use crate::names_m;
use crate::name_in;
use crate::errors::StdError;
use crate::msgs::Attribute;
use crate::contract::valid_addr;
use vstd::string::StringExecFns;

verus! {

/// The whitelist: the admin and the member set.
#[derive(Debug, Clone)]
pub struct Whitelist {
    pub members: Vec<String>,
    pub admin: String,
}

/// The member set holds no duplicates.
pub open spec fn whitelist_wf(w: Whitelist) -> bool {
    forall|i: int, j: int|
        0 <= i < j < w.members@.len() ==> names_m(w.members@)[i] != names_m(w.members@)[j]
}

impl Whitelist {
    /// Whether `addr` is the admin.
    pub fn is_admin(&self, addr: &String) -> (r: bool)
        ensures
            r == (self.admin@ == addr@),
    {
        self.admin == *addr
    }

    /// Whether `addr` is a member.
    pub fn is_member(&self, addr: &String) -> (r: bool)
        ensures
            r == contains_name(names_m(self.members@), addr@),
    {
        name_in(&self.members, addr)
    }

    /// Whether `addr` is on the whitelist; the same test as `is_member`.
    pub fn has(&self, addr: &String) -> (r: bool)
        ensures
            r == contains_name(names_m(self.members@), addr@),
    {
        self.is_member(addr)
    }
}

/// Creates the contract instance.
#[derive(Debug, Clone, PartialEq, Eq)]
pub struct InitMsg {
    pub admin: String,
}

/// The whitelist operations.
#[derive(Debug, Clone, PartialEq, Eq)]
pub enum WhitelistExecuteMsg {
    /// A member requests a liquidity-depth shift on a market pair; the
    /// multiplier is carried verbatim to the host chain.
    DepthShift { pair: String, depth_mult: String },
    /// A member requests a peg shift on a market pair.
    PegShift { pair: String, peg_mult: String },
    AddMember { address: String },
    RemoveMember { address: String },
    ChangeAdmin { address: String },
}

/// The permissioned market adjustment a member call hands to the host
/// chain's executor.
#[derive(Debug, Clone, PartialEq, Eq)]
pub enum PerpAction {
    DepthShift { pair: String, depth_mult: String },
    PegShift { pair: String, peg_mult: String },
}

/// What a whitelist operation hands back: a plain attribute response, or
/// one carrying a market adjustment for the host chain.
#[derive(Debug, Clone, PartialEq, Eq)]
pub enum ExecuteResponse {
    Empty(Vec<Attribute>),
    NibiruExecuteMsg(PerpAction, Vec<Attribute>),
}

/// Sets up the whitelist with an empty member set.
pub fn instantiate(msg: InitMsg) -> (w: Whitelist)
    ensures
        w.members@.len() == 0,
        w.admin@ == msg.admin@,
        whitelist_wf(w),
{
    Whitelist { members: Vec::new(), admin: msg.admin }
}

/// What a caller may do: the roles resolved once per call.
pub struct CanExecute {
    pub is_admin: bool,
    pub is_member: bool,
    pub sender: String,
}

/// Resolves the caller's roles against the whitelist.
pub fn can_execute(w: &Whitelist, sender: &String) -> (can: CanExecute)
    ensures
        can.is_admin == (w.admin@ == sender@),
        can.is_member == contains_name(names_m(w.members@), sender@),
        can.sender@ == sender@,
{
    CanExecute {
        is_admin: w.is_admin(sender),
        is_member: w.is_member(sender),
        sender: sender.clone(),
    }
}

/// Refuses a caller who is not the admin.
pub fn check_admin(can: CanExecute) -> (r: Result<(), StdError>)
    ensures
        r is Ok <==> can.is_admin,
        !can.is_admin ==> (r matches Err(StdError::GenericErr { msg }) && msg@
            == "unauthorized : sender "@ + can.sender@ + " is not an admin"@),
{
    match can.is_admin {
        true => Ok(()),
        false => {
            let mut m = "unauthorized : sender ".to_owned();
            m.append(can.sender.as_str());
            m.append(" is not an admin");
            Err(StdError::generic_err(m))
        },
    }
}

/// Refuses a caller who is not a whitelist member.
pub fn check_member(can: CanExecute) -> (r: Result<(), StdError>)
    ensures
        r is Ok <==> can.is_member,
        !can.is_member ==> (r matches Err(StdError::GenericErr { msg }) && msg@
            == "unauthorized : sender "@ + can.sender@ + " is not a whitelist member"@),
{
    match can.is_member {
        true => Ok(()),
        false => {
            let mut m = "unauthorized : sender ".to_owned();
            m.append(can.sender.as_str());
            m.append(" is not a whitelist member");
            Err(StdError::generic_err(m))
        },
    }
}

/// Runs one whitelist operation: members may request market adjustments,
/// the admin manages the member set and may hand the admin role on. Failed
/// calls leave the whitelist untouched.
pub fn execute(w: &mut Whitelist, sender: &String, msg: WhitelistExecuteMsg) -> (r: Result<
    ExecuteResponse,
    StdError,
>)
    requires
        whitelist_wf(*old(w)),
        (match msg {
            WhitelistExecuteMsg::AddMember { address } => valid_addr(address@),
            WhitelistExecuteMsg::ChangeAdmin { address } => valid_addr(address@),
            _ => true,
        }),
    ensures
        whitelist_wf(*final(w)),
        r is Err ==> *final(w) == *old(w),
        (match msg {
            WhitelistExecuteMsg::DepthShift { pair, depth_mult } => {
                &&& (r is Ok <==> contains_name(names_m(old(w).members@), sender@))
                &&& (r matches Ok(resp) ==> ({
                    &&& *final(w) == *old(w)
                    &&& resp matches ExecuteResponse::NibiruExecuteMsg(act, attrs) && act matches
                        PerpAction::DepthShift { pair: p, depth_mult: d } && p@ == pair@ && d@
                        == depth_mult@ && attrs@.map_values(|a: Attribute| a@) == seq![
                        ("action"@, "depth_shift"@),
                    ]
                }))
            },
            WhitelistExecuteMsg::PegShift { pair, peg_mult } => {
                &&& (r is Ok <==> contains_name(names_m(old(w).members@), sender@))
                &&& (r matches Ok(resp) ==> ({
                    &&& *final(w) == *old(w)
                    &&& resp matches ExecuteResponse::NibiruExecuteMsg(act, attrs) && act matches
                        PerpAction::PegShift { pair: p, peg_mult: d } && p@ == pair@ && d@
                        == peg_mult@ && attrs@.map_values(|a: Attribute| a@) == seq![
                        ("action"@, "peg_shift"@),
                    ]
                }))
            },
            WhitelistExecuteMsg::AddMember { address } => {
                &&& (r is Ok <==> old(w).admin@ == sender@)
                &&& (r matches Ok(resp) ==> ({
                    &&& final(w).admin@ == old(w).admin@
                    &&& forall|n: Seq<char>|
                        #[trigger] contains_name(names_m(final(w).members@), n) == (contains_name(
                            names_m(old(w).members@),
                            n,
                        ) || n == address@)
                    &&& resp matches ExecuteResponse::Empty(attrs) && attrs@.map_values(
                        |a: Attribute| a@,
                    ) == seq![("action"@, "add_member"@), ("address"@, address@)]
                }))
            },
            WhitelistExecuteMsg::RemoveMember { address } => {
                &&& (r is Ok <==> old(w).admin@ == sender@)
                &&& (r matches Ok(resp) ==> ({
                    &&& final(w).admin@ == old(w).admin@
                    &&& forall|n: Seq<char>|
                        #[trigger] contains_name(names_m(final(w).members@), n) == (contains_name(
                            names_m(old(w).members@),
                            n,
                        ) && n != address@)
                    &&& resp matches ExecuteResponse::Empty(attrs) && attrs@.map_values(
                        |a: Attribute| a@,
                    ) == seq![("action"@, "remove_member"@), ("address"@, address@)]
                }))
            },
            WhitelistExecuteMsg::ChangeAdmin { address } => {
                &&& (r is Ok <==> old(w).admin@ == sender@)
                &&& (r matches Ok(resp) ==> ({
                    &&& final(w).admin@ == address@
                    &&& names_m(final(w).members@) == names_m(old(w).members@)
                    &&& resp matches ExecuteResponse::Empty(attrs) && attrs@.map_values(
                        |a: Attribute| a@,
                    ) == seq![("action"@, "change_admin"@), ("address"@, address@)]
                }))
            },
        }),
{
    let check = can_execute(w, sender);
    match msg {
        WhitelistExecuteMsg::DepthShift { pair, depth_mult } => {
            match check_member(check) {
                Err(e) => Err(e),
                Ok(()) => {
                    let mut attrs: Vec<Attribute> = Vec::new();
                    attrs.push(
                        Attribute { key: "action".to_owned(), value: "depth_shift".to_owned() },
                    );
                    proof {
                        assert(attrs@.map_values(|a: Attribute| a@) =~= seq![
                            ("action"@, "depth_shift"@),
                        ]);
                    }
                    Ok(
                        ExecuteResponse::NibiruExecuteMsg(
                            PerpAction::DepthShift { pair, depth_mult },
                            attrs,
                        ),
                    )
                },
            }
        },
        WhitelistExecuteMsg::PegShift { pair, peg_mult } => {
            match check_member(check) {
                Err(e) => Err(e),
                Ok(()) => {
                    let mut attrs: Vec<Attribute> = Vec::new();
                    attrs.push(
                        Attribute { key: "action".to_owned(), value: "peg_shift".to_owned() },
                    );
                    proof {
                        assert(attrs@.map_values(|a: Attribute| a@) =~= seq![
                            ("action"@, "peg_shift"@),
                        ]);
                    }
                    Ok(
                        ExecuteResponse::NibiruExecuteMsg(
                            PerpAction::PegShift { pair, peg_mult },
                            attrs,
                        ),
                    )
                },
            }
        },
        WhitelistExecuteMsg::AddMember { address } => {
            match check_admin(check) {
                Err(e) => Err(e),
                Ok(()) => {
                    if !name_in(&w.members, &address) {
                        w.members.push(address.clone());
                        proof {
                            assert(names_m(w.members@) =~= names_m(old(w).members@).push(
                                address@,
                            ));
                            assert forall|n: Seq<char>| #[trigger] contains_name(
                                names_m(w.members@),
                                n,
                            ) == (contains_name(names_m(old(w).members@), n) || n == address@) by {
                                let ms = names_m(old(w).members@);
                                let ms2 = names_m(w.members@);
                                if contains_name(ms, n) {
                                    let k = choose|k: int| 0 <= k < ms.len() && ms[k] == n;
                                    assert(ms2[k] == n);
                                }
                                if n == address@ {
                                    assert(ms2[ms.len() as int] == n);
                                }
                                if contains_name(ms2, n) && n != address@ {
                                    let k = choose|k: int| 0 <= k < ms2.len() && ms2[k] == n;
                                    assert(k < ms.len());
                                    assert(ms[k] == n);
                                }
                            }
                        }
                    } else {
                        proof {
                            assert forall|n: Seq<char>| #[trigger] contains_name(
                                names_m(w.members@),
                                n,
                            ) == (contains_name(names_m(old(w).members@), n) || n
                                == address@) by {}
                        }
                    }
                    let mut attrs: Vec<Attribute> = Vec::new();
                    attrs.push(
                        Attribute { key: "action".to_owned(), value: "add_member".to_owned() },
                    );
                    attrs.push(Attribute { key: "address".to_owned(), value: address });
                    proof {
                        assert(attrs@.map_values(|a: Attribute| a@) =~= seq![
                            ("action"@, "add_member"@),
                            ("address"@, attrs@[1].value@),
                        ]);
                    }
                    Ok(ExecuteResponse::Empty(attrs))
                },
            }
        },
        WhitelistExecuteMsg::RemoveMember { address } => {
            match check_admin(check) {
                Err(e) => Err(e),
                Ok(()) => {
                    let mut kept: Vec<String> = Vec::new();
                    let n = w.members.len();
                    let mut i: usize = 0;
                    proof {
                        assert(names_m(w.members@.take(0)) =~= Seq::<Seq<char>>::empty());
                        assert(names_m(kept@) =~= crate::broker::names_without(
                            names_m(w.members@.take(0)),
                            address@,
                        ));
                    }
                    while i < n
                        invariant
                            n == w.members@.len(),
                            i <= n,
                            names_m(kept@) == crate::broker::names_without(
                                names_m(w.members@.take(i as int)),
                                address@,
                            ),
                            w == old(w),
                            kept@.len() <= i,
                        decreases n - i,
                    {
                        let ghost pre = names_m(w.members@.take(i as int));
                        let ghost cur = w.members@[i as int]@;
                        proof {
                            assert(names_m(w.members@.take(i as int + 1)) =~= pre + seq![cur]);
                            crate::broker::lemma_names_without_concat(pre, seq![cur], address@);
                            assert(seq![cur].drop_first() =~= Seq::<Seq<char>>::empty());
                            assert(crate::broker::names_without(
                                Seq::<Seq<char>>::empty(),
                                address@,
                            ) =~= Seq::<Seq<char>>::empty());
                            if cur == address@ {
                                assert(crate::broker::names_without(seq![cur], address@) =~= Seq::<
                                    Seq<char>,
                                >::empty());
                            } else {
                                assert(crate::broker::names_without(seq![cur], address@)
                                    =~= seq![cur]);
                            }
                        }
                        let ghost kept_before = kept@;
                        if !(w.members[i] == address) {
                            let item = w.members[i].clone();
                            kept.push(item);
                            proof {
                                assert(names_m(kept@) =~= names_m(kept_before).push(cur));
                                assert(names_m(kept_before).push(cur) =~= names_m(kept_before)
                                    + seq![cur]);
                            }
                        }
                        proof {
                            assert(names_m(kept@) =~= crate::broker::names_without(
                                names_m(w.members@.take(i as int + 1)),
                                address@,
                            ));
                        }
                        i += 1;
                    }
                    proof {
                        assert(w.members@.take(n as int) =~= w.members@);
                        crate::broker::lemma_names_without_contains(
                            names_m(w.members@),
                            address@,
                        );
                    }
                    w.members = kept;
                    proof {
                        assert(whitelist_wf(*w)) by {
                            let ms = names_m(old(w).members@);
                            let ms2 = names_m(w.members@);
                            assert forall|p: int, q: int| 0 <= p < q < ms2.len() implies ms2[p]
                                != ms2[q] by {
                                lemma_names_without_distinct(ms, address@, p, q);
                            }
                        }
                    }
                    let mut attrs: Vec<Attribute> = Vec::new();
                    attrs.push(
                        Attribute { key: "action".to_owned(), value: "remove_member".to_owned() },
                    );
                    attrs.push(Attribute { key: "address".to_owned(), value: address });
                    proof {
                        assert(attrs@.map_values(|a: Attribute| a@) =~= seq![
                            ("action"@, "remove_member"@),
                            ("address"@, attrs@[1].value@),
                        ]);
                    }
                    Ok(ExecuteResponse::Empty(attrs))
                },
            }
        },
        WhitelistExecuteMsg::ChangeAdmin { address } => {
            match check_admin(check) {
                Err(e) => Err(e),
                Ok(()) => {
                    w.admin = address.clone();
                    let mut attrs: Vec<Attribute> = Vec::new();
                    attrs.push(
                        Attribute { key: "action".to_owned(), value: "change_admin".to_owned() },
                    );
                    attrs.push(Attribute { key: "address".to_owned(), value: address });
                    proof {
                        assert(attrs@.map_values(|a: Attribute| a@) =~= seq![
                            ("action"@, "change_admin"@),
                            ("address"@, attrs@[1].value@),
                        ]);
                    }
                    Ok(ExecuteResponse::Empty(attrs))
                },
            }
        },
    }
}

/// Dropping occurrences of one name keeps the remaining identities
/// pairwise distinct when they were distinct before.
pub proof fn lemma_names_without_distinct(ms: Seq<Seq<char>>, name: Seq<char>, p: int, q: int)
    requires
        forall|i: int, j: int| 0 <= i < j < ms.len() ==> ms[i] != ms[j],
        0 <= p < q < crate::broker::names_without(ms, name).len(),
    ensures
        crate::broker::names_without(ms, name)[p] != crate::broker::names_without(ms, name)[q],
    decreases ms.len(),
{
    let out = crate::broker::names_without(ms, name);
    if ms.len() > 0 {
        let rest = crate::broker::names_without(ms.drop_first(), name);
        assert(forall|i: int, j: int|
            0 <= i < j < ms.drop_first().len() ==> ms.drop_first()[i] != ms.drop_first()[j]);
        if ms[0] == name {
            lemma_names_without_distinct(ms.drop_first(), name, p, q);
        } else {
            assert(out =~= seq![ms[0]] + rest);
            if p == 0 {
                // the head differs from every kept tail element, which all
                // come from the tail of ms
                lemma_names_without_members(ms.drop_first(), name, q - 1);
            } else {
                lemma_names_without_distinct(ms.drop_first(), name, p - 1, q - 1);
            }
        }
    }
}

/// Every identity kept by `names_without` occurs in the original list.
pub proof fn lemma_names_without_members(ms: Seq<Seq<char>>, name: Seq<char>, k: int)
    requires
        0 <= k < crate::broker::names_without(ms, name).len(),
    ensures
        contains_name(ms, crate::broker::names_without(ms, name)[k]),
    decreases ms.len(),
{
    let out = crate::broker::names_without(ms, name);
    if ms.len() > 0 {
        let rest = crate::broker::names_without(ms.drop_first(), name);
        if ms[0] == name {
            lemma_names_without_members(ms.drop_first(), name, k);
            let m = out[k];
            let j = choose|j: int|
                0 <= j < ms.drop_first().len() && ms.drop_first()[j] == m;
            assert(ms[j + 1] == m);
        } else {
            assert(out =~= seq![ms[0]] + rest);
            if k == 0 {
                assert(ms[0] == out[0]);
            } else {
                lemma_names_without_members(ms.drop_first(), name, k - 1);
                let m = out[k];
                assert(rest[k - 1] == m);
                let j = choose|j: int|
                    0 <= j < ms.drop_first().len() && ms.drop_first()[j] == m;
                assert(ms[j + 1] == m);
            }
        }
    }
}

/// The caller's membership, together with the whole whitelist.
#[derive(Debug, Clone)]
pub struct IsMemberResponse {
    pub is_member: bool,
    pub whitelist: Whitelist,
}

/// The whole whitelist.
#[derive(Debug, Clone)]
pub struct WhitelistResponse {
    pub whitelist: Whitelist,
}

/// The whitelist queries.
#[derive(Debug, Clone, PartialEq, Eq)]
pub enum WhitelistQueryMsg {
    IsMember { address: String },
    Whitelist {},
}

/// The typed answer of the whitelist query dispatcher.
#[derive(Debug, Clone)]
pub enum WhitelistQueryAnswer {
    IsMember(IsMemberResponse),
    Whitelist(WhitelistResponse),
}

/// Answers one whitelist query.
pub fn query(w: &Whitelist, msg: WhitelistQueryMsg) -> (r: WhitelistQueryAnswer)
    ensures
        (match msg {
            WhitelistQueryMsg::IsMember { address } => r matches WhitelistQueryAnswer::IsMember(
                resp,
            ) && resp.is_member == contains_name(names_m(w.members@), address@)
                && resp.whitelist.admin@ == w.admin@ && names_m(resp.whitelist.members@)
                == names_m(w.members@),
            WhitelistQueryMsg::Whitelist {} => r matches WhitelistQueryAnswer::Whitelist(resp)
                && resp.whitelist.admin@ == w.admin@ && names_m(resp.whitelist.members@)
                == names_m(w.members@),
        }),
{
    match msg {
        WhitelistQueryMsg::IsMember { address } => {
            let is_member = w.is_member(&address);
            let copy = clone_whitelist(w);
            WhitelistQueryAnswer::IsMember(IsMemberResponse { is_member, whitelist: copy })
        },
        WhitelistQueryMsg::Whitelist {} => {
            let copy = clone_whitelist(w);
            WhitelistQueryAnswer::Whitelist(WhitelistResponse { whitelist: copy })
        },
    }
}

/// A structural copy of the whitelist.
pub fn clone_whitelist(w: &Whitelist) -> (r: Whitelist)
    ensures
        r.admin@ == w.admin@,
        names_m(r.members@) == names_m(w.members@),
{
    let n = w.members.len();
    let mut members: Vec<String> = Vec::new();
    let mut i: usize = 0;
    while i < n
        invariant
            n == w.members@.len(),
            i <= n,
            members@.len() == i,
            forall|j: int| 0 <= j < i ==> members@[j]@ == w.members@[j]@,
        decreases n - i,
    {
        members.push(w.members[i].clone());
        i += 1;
    }
    proof {
        assert(names_m(members@) =~= names_m(w.members@));
    }
    Whitelist { members, admin: w.admin.clone() }
}

} // verus!
