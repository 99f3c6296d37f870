//! Identifier newtypes for the IR and the specialization engine.
//!
//! Every identifier is a plain index.  Identifiers of different kinds are
//! distinct types so that a block id can never be confused with a register id.

use vstd::prelude::*;

verus! {

/// Common interface of all identifier newtypes: an identifier is constructed
/// from, and exposes, a plain index.
pub trait IdCompat: Sized {
    /// The index this identifier carries.
    spec fn id_value(&self) -> nat;

    fn new_with_value(value: usize) -> (r: Self)
        ensures
            r.id_value() == value,
    ;

    fn value(&self) -> (r: usize)
        ensures
            r == self.id_value(),
    ;
}

/// Re-wraps an identifier as an identifier of another kind with the same index.
pub fn convert<A: IdCompat, B: IdCompat>(a: A) -> (r: B)
    ensures
        r.id_value() == a.id_value(),
{
    B::new_with_value(a.value())
}

#[derive(Debug, Clone, Copy, PartialEq, Eq, Hash, Structural)]
pub struct FunctionId {
    pub index: usize,
}

impl IdCompat for FunctionId {
    open spec fn id_value(&self) -> nat {
        self.index as nat
    }

    fn new_with_value(value: usize) -> (r: Self) {
        FunctionId { index: value }
    }

    fn value(&self) -> (r: usize) {
        self.index
    }
}

#[derive(Debug, Clone, Copy, PartialEq, Eq, Hash, Structural)]
pub struct BlockId {
    pub index: usize,
}

impl IdCompat for BlockId {
    open spec fn id_value(&self) -> nat {
        self.index as nat
    }

    fn new_with_value(value: usize) -> (r: Self) {
        BlockId { index: value }
    }

    fn value(&self) -> (r: usize) {
        self.index
    }
}

#[derive(Debug, Clone, Copy, PartialEq, Eq, Hash, Structural)]
pub struct RegisterId {
    pub index: usize,
}

impl IdCompat for RegisterId {
    open spec fn id_value(&self) -> nat {
        self.index as nat
    }

    fn new_with_value(value: usize) -> (r: Self) {
        RegisterId { index: value }
    }

    fn value(&self) -> (r: usize) {
        self.index
    }
}

#[derive(Debug, Clone, Copy, PartialEq, Eq, Hash, Structural)]
pub struct ConstantId {
    pub index: usize,
}

impl IdCompat for ConstantId {
    open spec fn id_value(&self) -> nat {
        self.index as nat
    }

    fn new_with_value(value: usize) -> (r: Self) {
        ConstantId { index: value }
    }

    fn value(&self) -> (r: usize) {
        self.index
    }
}

#[derive(Debug, Clone, Copy, PartialEq, Eq, Hash, Structural)]
pub struct ExternalFunctionId {
    pub index: usize,
}

impl IdCompat for ExternalFunctionId {
    open spec fn id_value(&self) -> nat {
        self.index as nat
    }

    fn new_with_value(value: usize) -> (r: Self) {
        ExternalFunctionId { index: value }
    }

    fn value(&self) -> (r: usize) {
        self.index
    }
}

/// Mints identifiers of one kind in increasing index order.
#[derive(Debug)]
pub struct Counter {
    pub next_value: usize,
}

impl Counter {
    pub fn new() -> (r: Counter)
        ensures
            r.next_value == 0,
    {
        Counter { next_value: 0 }
    }

    pub fn new_with_value(start: usize) -> (r: Counter)
        ensures
            r.next_value == start,
    {
        Counter { next_value: start }
    }

    /// Mints the next identifier, or `None` once the index space is spent.
    pub fn next<T: IdCompat>(&mut self) -> (r: Option<T>)
        ensures
            old(self).next_value < usize::MAX ==> {
                &&& r is Some
                &&& r->Some_0.id_value() == old(self).next_value
                &&& final(self).next_value == old(self).next_value + 1
            },
            old(self).next_value == usize::MAX ==> {
                &&& r is None
                &&& final(self).next_value == old(self).next_value
            },
    {
        if self.next_value < usize::MAX {
            let id = T::new_with_value(self.next_value);
            self.next_value = self.next_value + 1;
            Some(id)
        } else {
            None
        }
    }
}

} // verus!
