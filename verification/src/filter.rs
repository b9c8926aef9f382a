//! The client-side address filter: an optional allow-list of token or
//! pool addresses.  An absent filter means "pass everything", not
//! "pass nothing".

use vstd::prelude::*;
use crate::primitives::Address;
use crate::types::bonding_curve::BondingCurveEvent;

verus! {

/// A caller-supplied allow-list of addresses.  Its view is the set of
/// address byte strings it holds.
#[derive(Debug, Clone)]
pub struct AddressFilterSet {
    addrs: Vec<Address>,
}

impl View for AddressFilterSet {
    type V = Set<Seq<u8>>;

    closed spec fn view(&self) -> Set<Seq<u8>> {
        Set::new(|s: Seq<u8>| exists|i: int| 0 <= i < self.addrs@.len() && self.addrs@[i]@ == s)
    }
}

impl AddressFilterSet {
    /// Build the filter from the caller's address list.
    pub fn from_addresses(addrs: Vec<Address>) -> (r: AddressFilterSet)
        ensures
            forall|s: Seq<u8>|
                r@.contains(s) <==> exists|i: int| 0 <= i < addrs@.len() && addrs@[i]@ == s,
    {
        AddressFilterSet { addrs }
    }

    /// Membership of an address, by a scan of the list.
    pub fn contains(&self, a: &Address) -> (r: bool)
        ensures
            r == self@.contains(a@),
    {
        let n = self.addrs.len();
        let mut i: usize = 0;
        while i < n
            invariant
                i <= n,
                n == self.addrs@.len(),
                forall|j: int| 0 <= j < i ==> self.addrs@[j]@ != a@,
            decreases n - i,
        {
            if self.addrs[i] == *a {
                return true;
            }
            i = i + 1;
        }
        false
    }
}

/// Whether a token address passes the optional filter: with no filter
/// configured everything passes; with one, exactly its members pass.
pub open spec fn spec_passes(filter: &Option<AddressFilterSet>, token: Seq<u8>) -> bool {
    match filter {
        None => true,
        Some(f) => f@.contains(token),
    }
}

/// Whether a decoded bonding-curve event passes the optional filter,
/// judged by its subject token address.
pub fn matches(event: &BondingCurveEvent, filter: &Option<AddressFilterSet>) -> (r: bool)
    ensures
        r == spec_passes(filter, event.spec_token()),
{
    match filter {
        None => true,
        Some(f) => f.contains(&event.token()),
    }
}

} // verus!
