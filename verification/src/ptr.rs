//! Handles to an interface of an object: the borrowed handle, which never
//! touches the count of holds, and the owning handle, which stands for one
//! hold.

use crate::guid::Guid;
use crate::wrapper::ComWrapper;
use vstd::prelude::*;

verus! {

/// A borrowed handle: the address, never null, of an interface sub-object
/// of a live object. It owns no hold and may be copied freely.
#[derive(Clone, Copy, Debug)]
pub struct ComRef {
    ptr: usize,
}

/// An owning handle: the address, never null, of an interface sub-object,
/// together with one hold on the object. It cannot be copied; a second
/// handle costs a second hold.
#[derive(Debug)]
pub struct ComPtr {
    ptr: usize,
}

impl View for ComRef {
    type V = usize;

    closed spec fn view(&self) -> usize {
        self.ptr
    }
}

impl View for ComPtr {
    type V = usize;

    closed spec fn view(&self) -> usize {
        self.ptr
    }
}

impl ComRef {
    #[verifier::type_invariant]
    spec fn not_null(self) -> bool {
        self.ptr != 0
    }

    /// A handle to the sub-object at `ptr`, unless `ptr` is null.
    pub fn from_raw(ptr: usize) -> (handle: Option<ComRef>)
        ensures
            match handle {
                Some(handle) => ptr != 0 && handle@ == ptr,
                None => ptr == 0,
            },
    {
        if ptr != 0 {
            Some(ComRef { ptr })
        } else {
            None
        }
    }

    /// A handle to the sub-object at `ptr`, which is known not to be null.
    pub fn from_raw_unchecked(ptr: usize) -> (handle: ComRef)
        requires
            ptr != 0,
        ensures
            handle@ == ptr,
    {
        ComRef { ptr }
    }

    /// The address of the sub-object.
    pub fn as_ptr(&self) -> (ptr: usize)
        ensures
            ptr == self@,
            ptr != 0,
    {
        proof {
            use_type_invariant(self);
        }
        self.ptr
    }

    /// An owning handle to the same sub-object, with a hold of its own:
    /// the count of holds on the object grows by one.
    pub fn to_owned<C>(&self, object: &mut ComWrapper<'_, C>) -> (owned: ComPtr)
        requires
            old(object)@.wf(),
            old(object)@.exposes(self@ as int),
            old(object)@.holds < usize::MAX,
        ensures
            final(object)@ == old(object)@.retain(),
            final(object)@.wf(),
            owned@ == self@,
    {
        proof {
            use_type_invariant(self);
        }
        let data = object.data_from_interface(self.ptr);
        object.add_ref(data);
        ComPtr { ptr: self.ptr }
    }

    /// Asks the object behind the handle for the interface `iid`. Where a
    /// declared interface answers, the object gains a hold and the handle
    /// returned owns it; where none does, nothing changes.
    pub fn query_interface<C>(&self, object: &mut ComWrapper<'_, C>, iid: &Guid) -> (found: Option<
        ComPtr,
    >)
        requires
            old(object)@.wf(),
            old(object)@.exposes(self@ as int),
            old(object)@.holds < usize::MAX,
        ensures
            final(object)@ == old(object)@.discover(*iid).0,
            final(object)@.wf(),
            match found {
                Some(handle) => old(object)@.discover(*iid).1 == Some(handle@ as int),
                None => old(object)@.discover(*iid).1 is None,
            },
    {
        let data = object.data_from_interface(self.ptr);
        match object.query_interface(data, iid) {
            Some(ptr) => ComPtr::from_raw(ptr),
            None => None,
        }
    }
}

impl ComPtr {
    #[verifier::type_invariant]
    spec fn not_null(self) -> bool {
        self.ptr != 0
    }

    /// A handle that takes over one hold on the object whose sub-object
    /// lies at `ptr`, unless `ptr` is null.
    pub fn from_raw(ptr: usize) -> (handle: Option<ComPtr>)
        ensures
            match handle {
                Some(handle) => ptr != 0 && handle@ == ptr,
                None => ptr == 0,
            },
    {
        if ptr != 0 {
            Some(ComPtr { ptr })
        } else {
            None
        }
    }

    /// A handle that takes over one hold on the object whose sub-object
    /// lies at `ptr`, which is known not to be null.
    pub fn from_raw_unchecked(ptr: usize) -> (handle: ComPtr)
        requires
            ptr != 0,
        ensures
            handle@ == ptr,
    {
        ComPtr { ptr }
    }

    /// The address of the sub-object.
    pub fn as_ptr(&self) -> (ptr: usize)
        ensures
            ptr == self@,
            ptr != 0,
    {
        proof {
            use_type_invariant(self);
        }
        self.ptr
    }

    /// A borrowed handle to the same sub-object.
    pub fn as_com_ref(&self) -> (borrowed: ComRef)
        ensures
            borrowed@ == self@,
    {
        proof {
            use_type_invariant(self);
        }
        ComRef { ptr: self.ptr }
    }

    /// Gives up the handle and leaves its hold to the caller, who owes
    /// the object one release.
    pub fn into_raw(self) -> (ptr: usize)
        ensures
            ptr == self@,
            ptr != 0,
    {
        proof {
            use_type_invariant(&self);
        }
        self.ptr
    }

    /// A second owning handle to the same sub-object, with a hold of its
    /// own: the count of holds on the object grows by one.
    pub fn duplicate<C>(&self, object: &mut ComWrapper<'_, C>) -> (second: ComPtr)
        requires
            old(object)@.wf(),
            old(object)@.exposes(self@ as int),
            old(object)@.holds < usize::MAX,
        ensures
            final(object)@ == old(object)@.retain(),
            final(object)@.wf(),
            second@ == self@,
    {
        proof {
            use_type_invariant(self);
        }
        let data = object.data_from_interface(self.ptr);
        object.add_ref(data);
        ComPtr { ptr: self.ptr }
    }

    /// Ends the handle: its hold is released, and the new count of holds
    /// on the object is returned. With the last hold the object's data is
    /// dropped.
    pub fn release<C>(self, object: &mut ComWrapper<'_, C>) -> (count: usize)
        requires
            old(object)@.wf(),
            old(object)@.exposes(self@ as int),
        ensures
            final(object)@ == old(object)@.release(),
            final(object)@.wf(),
            count == final(object)@.holds,
    {
        let data = object.data_from_interface(self.ptr);
        object.release(data)
    }
}

} // verus!
