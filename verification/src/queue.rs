//! FIFO queues, optionally carrying an address.

use crate::address::{Address, AddressView};
use crate::error::Error;
use std::collections::VecDeque;
use vstd::prelude::*;

verus! {

/// A first-in, first-out container.
pub trait Queue<T>: Sized {
    /// What the queue holds, front first.
    spec fn contents(&self) -> Seq<T>;

    /// Appends an element at the back; always succeeds.
    fn enqueue(&mut self, element: T) -> (r: Result<bool, Error>)
        ensures
            r == Ok::<bool, Error>(true),
            final(self).contents() == old(self).contents().push(element),
    ;

    /// Removes and returns the front element, if any.
    fn dequeue(&mut self) -> (r: Option<T>)
        ensures
            old(self).contents().len() == 0 ==> r is None && final(self).contents() == old(
                self,
            ).contents(),
            old(self).contents().len() > 0 ==> (r matches Some(front) && front == old(
                self,
            ).contents()[0] && final(self).contents() == old(self).contents().drop_first()),
    ;

    /// Whether nothing is queued.
    fn is_empty(&self) -> (r: bool)
        ensures
            r <==> self.contents().len() == 0,
    ;
}

impl<T> Queue<T> for VecDeque<T> {
    open spec fn contents(&self) -> Seq<T> {
        self@
    }

    fn enqueue(&mut self, element: T) -> (r: Result<bool, Error>) {
        self.push_back(element);
        Ok(true)
    }

    fn dequeue(&mut self) -> (r: Option<T>) {
        self.pop_front()
    }

    fn is_empty(&self) -> (r: bool) {
        self.len() == 0
    }
}

/// A fresh empty queue.
pub fn new_queue<T>() -> (r: VecDeque<T>)
    ensures
        r@ == Seq::<T>::empty(),
{
    VecDeque::new()
}

/// Something that has an address.
pub trait Addressable: Sized {
    /// The abstract address.
    spec fn address_spec(&self) -> AddressView;

    /// The address.
    fn address(&self) -> (r: Address)
        ensures
            r@ == self.address_spec(),
    ;
}

/// A queue which also has an address.
pub trait AddressableQueue<T>: Queue<T> + Addressable {

}

/// The workhorse in-memory queue: a FIFO with an address.
#[derive(Debug)]
pub struct AddressedVec<T> {
    pub address: Address,
    pub vec: VecDeque<T>,
}

impl<T> Queue<T> for AddressedVec<T> {
    open spec fn contents(&self) -> Seq<T> {
        self.vec@
    }

    fn enqueue(&mut self, element: T) -> (r: Result<bool, Error>) {
        self.vec.push_back(element);
        Ok(true)
    }

    fn dequeue(&mut self) -> (r: Option<T>) {
        self.vec.pop_front()
    }

    fn is_empty(&self) -> (r: bool) {
        self.vec.len() == 0
    }
}

impl<T> Addressable for AddressedVec<T> {
    open spec fn address_spec(&self) -> AddressView {
        self.address@
    }

    fn address(&self) -> (r: Address) {
        self.address.clone()
    }
}

impl<T> AddressableQueue<T> for AddressedVec<T> {

}

/// Empties a queue, handing every element out in queue order.
pub trait Drain<T>: Queue<T> {
    /// Removes every element, front first.
    fn drain(&mut self) -> (r: Vec<T>)
        ensures
            r@ == old(self).contents(),
            final(self).contents() == Seq::<T>::empty(),
    ;
}

impl<T> Drain<T> for AddressedVec<T> {
    fn drain(&mut self) -> (r: Vec<T>) {
        let mut r: Vec<T> = Vec::new();
        loop
            invariant
                old(self).contents() == r@ + self.vec@,
            ensures
                self.vec@.len() == 0,
                r@ == old(self).contents(),
            decreases self.vec@.len(),
        {
            match self.vec.pop_front() {
                Some(front) => {
                    r.push(front);
                    proof {
                        assert(r@ + self.vec@ =~= old(self).contents());
                    }
                },
                None => {
                    proof {
                        assert(r@ + self.vec@ =~= r@);
                    }
                    break;
                },
            }
        }
        r
    }
}

} // verus!
