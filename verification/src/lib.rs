//! Token-vesting accounting engine.
//!
//! Tracks deferred token grants for a set of recipients, computes how much of
//! each grant has vested as a function of block time, and releases vested
//! funds on demand while enforcing that the escrowed balance never becomes
//! over-committed.

pub mod broker;
pub mod contract;
pub mod decimal;
pub mod errors;
pub mod msgs;
pub mod ownership;
pub mod proto;
pub mod registry;
pub mod schedule;
pub mod valuator;
pub mod whitelist;

use vstd::prelude::*;

verus! {

/// The views of a list of identities.
pub open spec fn names_m(xs: Seq<String>) -> Seq<Seq<char>> {
    xs.map_values(|s: String| s@)
}

/// Whether `name` occurs in the list.
pub open spec fn contains_name(ms: Seq<Seq<char>>, name: Seq<char>) -> bool {
    exists|i: int| 0 <= i < ms.len() && ms[i] == name
}

/// Membership scan over a list of identities.
pub fn name_in(v: &Vec<String>, name: &String) -> (r: bool)
    ensures
        r == contains_name(names_m(v@), name@),
{
    let n = v.len();
    let mut i: usize = 0;
    while i < n
        invariant
            n == v@.len(),
            i <= n,
            forall|j: int| 0 <= j < i ==> names_m(v@)[j] != name@,
        decreases n - i,
    {
        if v[i] == *name {
            proof {
                assert(names_m(v@)[i as int] == name@);
            }
            return true;
        }
        proof {
            assert(names_m(v@)[i as int] == v@[i as int]@);
        }
        i += 1;
    }
    proof {
        if contains_name(names_m(v@), name@) {
            let k = choose|k: int| 0 <= k < names_m(v@).len() && names_m(v@)[k] == name@;
            assert(names_m(v@)[k] != name@);
        }
    }
    false
}

} // verus!
