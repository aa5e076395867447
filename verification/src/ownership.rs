//! The contract-ownership state machine: a two-step transfer in which the
//! current owner nominates a successor who must accept before an optional
//! expiry height.

use vstd::prelude::*;

verus! {

/// Who owns the contract, and a pending transfer if one is under way.
#[derive(Debug, Clone)]
pub struct Ownership {
    pub owner: Option<String>,
    pub pending_owner: Option<String>,
    /// The block height after which a pending transfer can no longer be
    /// accepted; `None` leaves it open.
    pub pending_expiry: Option<u64>,
}

/// The ownership actions a caller can request.
#[derive(Debug, Clone, PartialEq, Eq)]
pub enum Action {
    TransferOwnership { new_owner: String, expiry: Option<u64> },
    AcceptOwnership,
    RenounceOwnership,
}

/// Why an ownership action was refused.
#[derive(Debug, Clone, Copy, PartialEq, Eq, Structural)]
pub enum OwnershipError {
    /// The caller is not the contract's current owner.
    NotOwner,
    /// The caller is not the nominated successor.
    NotPendingOwner,
    /// There is no transfer under way to accept.
    NoPendingOwner,
    /// The pending transfer's expiry height has passed.
    OwnershipExpired,
}

impl OwnershipError {
    /// A plain-text description of the refusal.
    pub fn message(&self) -> (r: &'static str)
        ensures
            *self is NotOwner ==> r@ == "Caller is not the contract's current owner"@,
            *self is NotPendingOwner ==> r@ == "Caller is not the contract's pending owner"@,
            *self is NoPendingOwner ==> r@ == "There isn't a pending ownership transfer"@,
            *self is OwnershipExpired ==> r@ == "The pending ownership transfer expired"@,
    {
        match self {
            OwnershipError::NotOwner => "Caller is not the contract's current owner",
            OwnershipError::NotPendingOwner => "Caller is not the contract's pending owner",
            OwnershipError::NoPendingOwner => "There isn't a pending ownership transfer",
            OwnershipError::OwnershipExpired => "The pending ownership transfer expired",
        }
    }
}

/// Whether `sender` is the current owner.
pub open spec fn is_owner(o: Ownership, sender: Seq<char>) -> bool {
    o.owner matches Some(w) && w@ == sender
}

/// Whether a pending transfer may still be accepted at `block_height`.
pub open spec fn pending_live(o: Ownership, block_height: u64) -> bool {
    match o.pending_expiry {
        None => true,
        Some(e) => block_height <= e,
    }
}

/// Refuses any caller but the current owner.
pub fn assert_owner(o: &Ownership, sender: &String) -> (r: Result<(), OwnershipError>)
    ensures
        r is Ok <==> is_owner(*o, sender@),
        r is Err ==> r == Err::<(), OwnershipError>(OwnershipError::NotOwner),
{
    match &o.owner {
        Some(w) => {
            if *w == *sender {
                Ok(())
            } else {
                Err(OwnershipError::NotOwner)
            }
        },
        None => Err(OwnershipError::NotOwner),
    }
}

/// Runs one ownership action: the owner nominates a successor, the
/// successor accepts before the expiry, or the owner renounces. Failed
/// actions leave the state untouched.
pub fn update_ownership(
    o: &mut Ownership,
    block_height: u64,
    sender: &String,
    action: Action,
) -> (r: Result<(), OwnershipError>)
    ensures
        r is Err ==> *final(o) == *old(o),
        (match action {
            Action::TransferOwnership { new_owner, expiry } => {
                &&& (r is Ok <==> is_owner(*old(o), sender@))
                &&& (r is Ok ==> final(o).owner == old(o).owner && (final(o).pending_owner
                    matches Some(p) && p@ == new_owner@) && final(o).pending_expiry == expiry)
                &&& (!is_owner(*old(o), sender@) ==> r == Err::<(), OwnershipError>(
                    OwnershipError::NotOwner,
                ))
            },
            Action::AcceptOwnership => {
                &&& (r is Ok <==> (old(o).pending_owner matches Some(p) && p@ == sender@)
                    && pending_live(*old(o), block_height))
                &&& (r is Ok ==> (final(o).owner matches Some(w) && w@ == sender@)
                    && final(o).pending_owner is None && final(o).pending_expiry is None)
                &&& (old(o).pending_owner is None ==> r == Err::<(), OwnershipError>(
                    OwnershipError::NoPendingOwner,
                ))
                &&& ((old(o).pending_owner matches Some(p) && p@ != sender@) ==> r == Err::<
                    (),
                    OwnershipError,
                >(OwnershipError::NotPendingOwner))
                &&& ((old(o).pending_owner matches Some(p) && p@ == sender@ && !pending_live(
                    *old(o),
                    block_height,
                )) ==> r == Err::<(), OwnershipError>(OwnershipError::OwnershipExpired))
            },
            Action::RenounceOwnership => {
                &&& (r is Ok <==> is_owner(*old(o), sender@))
                &&& (r is Ok ==> final(o).owner is None && final(o).pending_owner is None
                    && final(o).pending_expiry is None)
                &&& (!is_owner(*old(o), sender@) ==> r == Err::<(), OwnershipError>(
                    OwnershipError::NotOwner,
                ))
            },
        }),
{
    match action {
        Action::TransferOwnership { new_owner, expiry } => {
            match assert_owner(o, sender) {
                Err(e) => Err(e),
                Ok(()) => {
                    o.pending_owner = Some(new_owner);
                    o.pending_expiry = expiry;
                    Ok(())
                },
            }
        },
        Action::AcceptOwnership => {
            match &o.pending_owner {
                None => Err(OwnershipError::NoPendingOwner),
                Some(p) => {
                    if !(*p == *sender) {
                        Err(OwnershipError::NotPendingOwner)
                    } else {
                        let live = match o.pending_expiry {
                            None => true,
                            Some(e) => block_height <= e,
                        };
                        if !live {
                            Err(OwnershipError::OwnershipExpired)
                        } else {
                            o.owner = Some(sender.clone());
                            o.pending_owner = None;
                            o.pending_expiry = None;
                            Ok(())
                        }
                    }
                },
            }
        },
        Action::RenounceOwnership => {
            match assert_owner(o, sender) {
                Err(e) => Err(e),
                Ok(()) => {
                    o.owner = None;
                    o.pending_owner = None;
                    o.pending_expiry = None;
                    Ok(())
                },
            }
        },
    }
}

} // verus!
