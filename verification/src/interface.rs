//! What the object model knows of one interface: its identity, the
//! identities of its ancestors, and the shape of the sub-object through
//! which an object presents it.

use crate::guid::{guid_eq, Guid};
use crate::layout::Shape;
use vstd::prelude::*;

verus! {

/// The descriptor of one interface.
#[derive(Debug)]
pub struct Interface {
    /// The identity of the interface itself.
    pub iid: Guid,
    /// The identities of the interfaces it inherits from, nearest first.
    pub ancestors: Vec<Guid>,
    /// The shape of its sub-object in a composite header.
    pub shape: Shape,
}

impl Interface {
    /// The interface answers to `iid`: it is its own identity, or that of
    /// one of its ancestors.
    pub open spec fn answers(&self, iid: Guid) -> bool {
        iid == self.iid || self.ancestors@.contains(iid)
    }

    /// Describes an interface.
    pub fn new(iid: Guid, ancestors: Vec<Guid>, shape: Shape) -> (interface: Interface)
        ensures
            interface.iid == iid,
            interface.ancestors == ancestors,
            interface.shape == shape,
    {
        Interface { iid, ancestors, shape }
    }

    /// Tells whether the interface satisfies a request for `iid`.
    pub fn inherits(&self, iid: &Guid) -> (yes: bool)
        ensures
            yes == self.answers(*iid),
    {
        if guid_eq(iid, &self.iid) {
            return true;
        }
        let mut k: usize = 0;
        while k < self.ancestors.len()
            invariant
                k <= self.ancestors.len(),
                forall|j: int| 0 <= j < k ==> self.ancestors@[j] != *iid,
            decreases self.ancestors.len() - k,
        {
            if guid_eq(iid, &self.ancestors[k]) {
                return true;
            }
            k += 1;
        }
        false
    }
}

} // verus!
