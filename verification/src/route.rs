//! Routes: ordered sequences of addresses describing a message's remaining
//! hops.
//!
//! The router always consumes the front address of a message's onward route
//! before dispatch, so a handler sees the *next* hop, never itself, at the
//! front of the route it receives.

use crate::address::{Address, AddressView};
use vstd::prelude::*;

verus! {

/// An ordered list of addresses: the remaining hops of a message.
#[derive(Debug)]
pub struct Route {
    pub addresses: Vec<Address>,
}

impl View for Route {
    type V = Seq<AddressView>;

    open spec fn view(&self) -> Seq<AddressView> {
        self.addresses.deep_view()
    }
}

impl DeepView for Route {
    type V = Seq<AddressView>;

    open spec fn deep_view(&self) -> Seq<AddressView> {
        self@
    }
}

impl Route {
    /// The empty route.
    pub fn empty() -> (r: Route)
        ensures
            r@ == Seq::<AddressView>::empty(),
    {
        Route { addresses: Vec::new() }
    }

    /// A route of a single hop.
    pub fn single(address: Address) -> (r: Route)
        ensures
            r@ == seq![address@],
    {
        let mut addresses: Vec<Address> = Vec::new();
        addresses.push(address);
        assert(addresses.deep_view() =~= seq![address@]);
        Route { addresses }
    }

    /// Appends an address at the back of the route.
    pub fn append(&mut self, address: Address)
        ensures
            final(self)@ == old(self)@.push(address@),
    {
        self.addresses.push(address);
        assert(self.addresses.deep_view() =~= old(self)@.push(address@));
    }

    /// The number of remaining hops.
    pub fn len(&self) -> (n: usize)
        ensures
            n == self@.len(),
    {
        self.addresses.len()
    }

    /// Removes and returns the front address, if any.
    pub fn step(&mut self) -> (r: Option<Address>)
        ensures
            old(self)@.len() == 0 ==> r is None && final(self)@ == old(self)@,
            old(self)@.len() > 0 ==> (r matches Some(front) && front@ == old(self)@[0]
                && final(self)@ == old(self)@.drop_first()),
    {
        if self.addresses.len() == 0 {
            None
        } else {
            let front = self.addresses.remove(0);
            assert(self.addresses.deep_view() =~= old(self)@.drop_first());
            Some(front)
        }
    }
}

impl Clone for Route {
    fn clone(&self) -> (r: Self)
        ensures
            r@ == self@,
    {
        let mut addresses: Vec<Address> = Vec::new();
        let mut i: usize = 0;
        while i < self.addresses.len()
            invariant
                i <= self.addresses.len(),
                addresses@.len() == i,
                forall|j: int| 0 <= j < i ==> #[trigger] addresses@[j]@ == self.addresses@[j]@,
            decreases self.addresses.len() - i,
        {
            addresses.push(self.addresses[i].clone());
            i = i + 1;
        }
        assert(addresses.deep_view() =~= self.addresses.deep_view());
        Route { addresses }
    }
}

impl Default for Route {
    /// The default route is empty.
    fn default() -> (r: Self)
        ensures
            r@ == Seq::<AddressView>::empty(),
    {
        Route::empty()
    }
}

} // verus!
