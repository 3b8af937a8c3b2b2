//! The shared allocation of one object: header and data behind a single
//! hold count, and the pointer arithmetic that leads from any view of the
//! allocation to any other.

use crate::class::{lemma_first_match, Class};
use crate::guid::Guid;
use crate::ptr::{ComPtr, ComRef};
use vstd::prelude::*;

verus! {

/// An object as the model sees it: the class it belongs to, where its
/// allocation begins, how many holds keep it alive, and its data for as
/// long as any hold does.
pub struct Object<C> {
    pub class: Class,
    pub base: usize,
    pub holds: nat,
    pub data: Option<C>,
}

/// The header of the allocation whose data lies at `ptr`.
pub open spec fn header_of_data(class: Class, ptr: int) -> int {
    ptr - class.data_offset
}

/// The data of the allocation whose header lies at `ptr`.
pub open spec fn data_of_header(class: Class, ptr: int) -> int {
    ptr + class.data_offset
}

/// The sub-object, declared at position `index`, of the header at `ptr`.
pub open spec fn interface_of_header(class: Class, ptr: int, index: int) -> int {
    ptr + class.offsets@[index]
}

/// The header whose sub-object, declared at position `index`, lies at `ptr`.
pub open spec fn header_of_interface(class: Class, ptr: int, index: int) -> int {
    ptr - class.offsets@[index]
}

impl<C> Object<C> {
    /// The object is of a sound class, lies where the class admits it, and
    /// holds its data exactly as long as it is held.
    pub open spec fn wf(self) -> bool {
        &&& self.class.wf()
        &&& self.class.admits(self.base)
        &&& self.holds <= usize::MAX
        &&& (self.holds > 0 <==> self.data is Some)
    }

    /// At least one hold keeps the object alive.
    pub open spec fn alive(self) -> bool {
        self.holds > 0
    }

    /// The address of the composite header: the start of the allocation.
    pub open spec fn header_ptr(self) -> int {
        self.base as int
    }

    /// The address of the data.
    pub open spec fn data_ptr(self) -> int {
        data_of_header(self.class, self.header_ptr())
    }

    /// The address of the sub-object of the interface declared at `index`.
    pub open spec fn interface_ptr(self, index: int) -> int {
        interface_of_header(self.class, self.header_ptr(), index)
    }

    /// `ptr` is the address of one of the sub-objects of this object.
    pub open spec fn presents(self, ptr: int) -> bool {
        exists|i: int| 0 <= i < self.class.offsets@.len() && ptr == #[trigger] self.interface_ptr(i)
    }

    /// `ptr` is an interface pointer into this object, and the object is
    /// alive.
    pub open spec fn exposes(self, ptr: int) -> bool {
        self.alive() && self.presents(ptr)
    }

    /// The object with one hold more.
    pub open spec fn retain(self) -> Object<C> {
        Object { holds: self.holds + 1, ..self }
    }

    /// The object with one hold less; with the last hold goes the data.
    pub open spec fn release(self) -> Object<C> {
        Object {
            holds: (self.holds - 1) as nat,
            data: if self.holds == 1 {
                None
            } else {
                self.data
            },
            ..self
        }
    }

    /// The outcome of a request for the interface `iid`: where a declared
    /// interface answers, the object with one hold more and the address of
    /// the first such interface's sub-object; else the object unchanged
    /// and no address.
    pub open spec fn discover(self, iid: Guid) -> (Object<C>, Option<int>) {
        match self.class.implements_spec(iid) {
            Some(which) => (
                self.retain(),
                Some(interface_of_header(self.class, self.header_ptr(), which.index as int)),
            ),
            None => (self, None),
        }
    }

    /// The addresses of a sound object are addresses: the header is not
    /// null, and every sub-object and the data lie within the allocation.
    pub proof fn lemma_addresses(self, i: int)
        requires
            self.wf(),
            0 <= i < self.class.interfaces@.len(),
        ensures
            0 < self.header_ptr() <= self.interface_ptr(i),
            self.interface_ptr(i) + self.class.interfaces@[i].shape.size <= self.data_ptr(),
            self.data_ptr() + self.class.data.size <= self.base + self.class.shape.size,
            self.base + self.class.shape.size <= usize::MAX,
    {
        self.class.lemma_spans(i);
    }
}

/// The three operations that every object offers at its own address:
/// asking for an interface, taking a hold, and giving a hold back.
pub trait Unknown<C>: View<V = Object<C>> + Sized {
    /// Asks the object whose data lies at `this` for the interface `iid`.
    /// The first declared interface that answers decides: the object
    /// gains a hold, and the address of that interface's sub-object is
    /// returned. Where none answers, nothing is returned and nothing
    /// changes.
    fn query_interface(&mut self, this: usize, iid: &Guid) -> (found: Option<usize>)
        requires
            old(self)@.wf(),
            old(self)@.alive(),
            old(self)@.holds < usize::MAX,
            this == old(self)@.data_ptr(),
        ensures
            final(self)@ == old(self)@.discover(*iid).0,
            final(self)@.wf(),
            match found {
                Some(ptr) => old(self)@.discover(*iid).1 == Some(ptr as int),
                None => old(self)@.discover(*iid).1 is None,
            },
    ;

    /// Adds a hold to the object whose data lies at `this`, and returns
    /// the new count.
    fn add_ref(&mut self, this: usize) -> (count: usize)
        requires
            old(self)@.wf(),
            old(self)@.alive(),
            old(self)@.holds < usize::MAX,
            this == old(self)@.data_ptr(),
        ensures
            final(self)@ == old(self)@.retain(),
            final(self)@.wf(),
            count == final(self)@.holds,
    ;

    /// Takes a hold from the object whose data lies at `this`, and
    /// returns the new count. With the last hold the data is dropped.
    fn release(&mut self, this: usize) -> (count: usize)
        requires
            old(self)@.wf(),
            old(self)@.alive(),
            this == old(self)@.data_ptr(),
        ensures
            final(self)@ == old(self)@.release(),
            final(self)@.wf(),
            count == final(self)@.holds,
    ;
}

/// The shared allocation of one object of a class: the composite header
/// and the data, kept alive by a single count of holds.
///
/// A new allocation has one hold, the wrapper's own. Handles to any of the
/// object's interfaces count on the same allocation. When the last hold is
/// released the data is dropped, once.
pub struct ComWrapper<'a, C> {
    class: &'a Class,
    base: usize,
    holds: usize,
    data: Option<C>,
}

impl<'a, C> View for ComWrapper<'a, C> {
    type V = Object<C>;

    closed spec fn view(&self) -> Object<C> {
        Object { class: *self.class, base: self.base, holds: self.holds as nat, data: self.data }
    }
}

impl<'a, C> ComWrapper<'a, C> {
    /// Wraps `data` in a new allocation of `class` that begins at `base`.
    /// The allocation has one hold.
    pub fn new(class: &'a Class, base: usize, data: C) -> (wrapper: ComWrapper<'a, C>)
        requires
            class.wf(),
            class.admits(base),
        ensures
            wrapper@ == (Object { class: *class, base, holds: 1, data: Some(data) }),
            wrapper@.wf(),
    {
        ComWrapper { class, base, holds: 1, data: Some(data) }
    }

    /// The sub-object, declared at position `index`, of the allocation at
    /// `ptr`.
    pub fn interface_from_wrapper(class: &Class, ptr: usize, index: usize) -> (interface: usize)
        requires
            class.wf(),
            index < class.interfaces@.len(),
            interface_of_header(*class, ptr as int, index as int) <= usize::MAX,
        ensures
            interface == interface_of_header(*class, ptr as int, index as int),
    {
        ptr + class.offsets[index]
    }

    /// The allocation whose sub-object, declared at position `index`, lies
    /// at `ptr`.
    pub fn wrapper_from_interface(class: &Class, ptr: usize, index: usize) -> (wrapper: usize)
        requires
            class.wf(),
            index < class.interfaces@.len(),
            header_of_interface(*class, ptr as int, index as int) >= 0,
        ensures
            wrapper == header_of_interface(*class, ptr as int, index as int),
    {
        ptr - class.offsets[index]
    }

    /// The allocation whose data lies at `ptr`.
    pub fn wrapper_from_data(class: &Class, ptr: usize) -> (wrapper: usize)
        requires
            header_of_data(*class, ptr as int) >= 0,
        ensures
            wrapper == header_of_data(*class, ptr as int),
    {
        ptr - class.data_offset
    }

    /// The data of the allocation whose header lies at `ptr`.
    pub fn data_from_header(class: &Class, ptr: usize) -> (data: usize)
        requires
            data_of_header(*class, ptr as int) <= usize::MAX,
        ensures
            data == data_of_header(*class, ptr as int),
    {
        ptr + class.data_offset
    }

    /// The header of the allocation whose data lies at `ptr`.
    pub fn header_from_data(class: &Class, ptr: usize) -> (header: usize)
        requires
            header_of_data(*class, ptr as int) >= 0,
        ensures
            header == header_of_data(*class, ptr as int),
    {
        ptr - class.data_offset
    }

    /// A borrowed handle to the interface declared at position `index`.
    /// The count of holds stays as it is.
    pub fn as_com_ref(&self, index: usize) -> (handle: ComRef)
        requires
            self@.wf(),
            self@.alive(),
            index < self@.class.interfaces@.len(),
        ensures
            handle@ == self@.interface_ptr(index as int),
            self@.exposes(handle@ as int),
    {
        proof {
            self@.lemma_addresses(index as int);
        }
        let interface = Self::interface_from_wrapper(self.class, self.base, index);
        ComRef::from_raw_unchecked(interface)
    }

    /// An owning handle to the interface declared at position `index`,
    /// with a hold of its own: the count grows by one.
    pub fn to_com_ptr(&mut self, index: usize) -> (handle: ComPtr)
        requires
            old(self)@.wf(),
            old(self)@.alive(),
            old(self)@.holds < usize::MAX,
            index < old(self)@.class.interfaces@.len(),
        ensures
            final(self)@ == old(self)@.retain(),
            final(self)@.wf(),
            handle@ == old(self)@.interface_ptr(index as int),
            final(self)@.exposes(handle@ as int),
    {
        proof {
            self@.lemma_addresses(index as int);
        }
        self.holds = self.holds + 1;
        let interface = Self::interface_from_wrapper(self.class, self.base, index);
        assert(interface == self@.interface_ptr(index as int));
        ComPtr::from_raw_unchecked(interface)
    }

    /// Hands the wrapper's own hold to an owning handle to the interface
    /// declared at position `index`. The count of holds stays as it is:
    /// the hold changes hands.
    pub fn into_com_ptr(&self, index: usize) -> (handle: ComPtr)
        requires
            self@.wf(),
            self@.alive(),
            index < self@.class.interfaces@.len(),
        ensures
            handle@ == self@.interface_ptr(index as int),
            self@.exposes(handle@ as int),
    {
        proof {
            self@.lemma_addresses(index as int);
        }
        let interface = Self::interface_from_wrapper(self.class, self.base, index);
        ComPtr::from_raw_unchecked(interface)
    }

    /// Adds a hold to the allocation whose data lies at `ptr`, and returns
    /// the new count.
    pub fn add_ref(&mut self, ptr: usize) -> (count: usize)
        requires
            old(self)@.wf(),
            old(self)@.alive(),
            old(self)@.holds < usize::MAX,
            ptr == old(self)@.data_ptr(),
        ensures
            final(self)@ == old(self)@.retain(),
            final(self)@.wf(),
            count == final(self)@.holds,
    {
        let wrapper = Self::wrapper_from_data(self.class, ptr);
        assert(wrapper == self.base);
        let count: usize = self.holds + 1;
        self.holds = count;
        count
    }

    /// Takes a hold from the allocation whose data lies at `ptr`, and
    /// returns the new count. With the last hold the data is dropped.
    pub fn release(&mut self, ptr: usize) -> (count: usize)
        requires
            old(self)@.wf(),
            old(self)@.alive(),
            ptr == old(self)@.data_ptr(),
        ensures
            final(self)@ == old(self)@.release(),
            final(self)@.wf(),
            count == final(self)@.holds,
    {
        let wrapper = Self::wrapper_from_data(self.class, ptr);
        assert(wrapper == self.base);
        let count: usize = self.holds - 1;
        self.holds = count;
        if count == 0 {
            self.data = None;
        }
        count
    }

    /// Asks the object whose data lies at `this` for the interface `iid`.
    ///
    /// The declared interfaces are asked in order. The first that answers
    /// to `iid` decides: the object gains a hold, and the address of that
    /// interface's sub-object is returned. Where none answers, nothing is
    /// returned and nothing changes.
    pub fn query_interface(&mut self, this: usize, iid: &Guid) -> (found: Option<usize>)
        requires
            old(self)@.wf(),
            old(self)@.alive(),
            old(self)@.holds < usize::MAX,
            this == old(self)@.data_ptr(),
        ensures
            final(self)@ == old(self)@.discover(*iid).0,
            final(self)@.wf(),
            match found {
                Some(ptr) => old(self)@.discover(*iid).1 == Some(ptr as int),
                None => old(self)@.discover(*iid).1 is None,
            },
    {
        match self.class.implements(iid) {
            Some(which) => {
                proof {
                    lemma_first_match(self@.class.interfaces@, *iid, 0);
                    self@.lemma_addresses(which.index as int);
                }
                self.add_ref(this);
                let header = Self::header_from_data(self.class, this);
                Some(Self::interface_from_wrapper(self.class, header, which.index))
            },
            None => None,
        }
    }

    /// Finds the sub-object that lies at `ptr`: the position of the first
    /// declared interface whose sub-object begins there.
    pub fn resolve(&self, ptr: usize) -> (found: Option<usize>)
        requires
            self@.wf(),
        ensures
            match found {
                Some(i) => {
                    &&& i < self@.class.interfaces@.len()
                    &&& ptr == self@.interface_ptr(i as int)
                    &&& forall|j: int| 0 <= j < i ==> ptr != #[trigger] self@.interface_ptr(j)
                },
                None => !self@.presents(ptr as int),
            },
    {
        let mut i: usize = 0;
        while i < self.class.offsets.len()
            invariant
                self@.wf(),
                i <= self.class.offsets@.len(),
                forall|j: int| 0 <= j < i ==> ptr != #[trigger] self@.interface_ptr(j),
            decreases self.class.offsets.len() - i,
        {
            proof {
                self@.lemma_addresses(i as int);
            }
            if self.base + self.class.offsets[i] == ptr {
                return Some(i);
            }
            i += 1;
        }
        None
    }

    /// The data of the object whose sub-object lies at `ptr`.
    pub fn data_from_interface(&self, ptr: usize) -> (data: usize)
        requires
            self@.wf(),
            self@.presents(ptr as int),
        ensures
            data == self@.data_ptr(),
    {
        let index = self.resolve(ptr).unwrap();
        proof {
            self@.lemma_addresses(index as int);
        }
        let header = Self::wrapper_from_interface(self.class, ptr, index);
        Self::data_from_header(self.class, header)
    }

    /// The count of holds on the allocation.
    pub fn count(&self) -> (count: usize)
        ensures
            count == self@.holds,
    {
        self.holds
    }

    /// Tells whether any hold keeps the object alive.
    pub fn is_alive(&self) -> (alive: bool)
        ensures
            alive == self@.alive(),
    {
        self.holds > 0
    }

    /// The data, for as long as the object is alive.
    pub fn get(&self) -> (data: Option<&C>)
        ensures
            match data {
                Some(data) => self@.data == Some(*data),
                None => self@.data is None,
            },
    {
        self.data.as_ref()
    }

    /// The class of the object.
    pub fn class(&self) -> (class: &'a Class)
        ensures
            *class == self@.class,
    {
        self.class
    }

    /// The address of the composite header.
    pub fn header_ptr(&self) -> (ptr: usize)
        ensures
            ptr == self@.header_ptr(),
    {
        self.base
    }

    /// The address of the data.
    pub fn data_ptr(&self) -> (ptr: usize)
        requires
            self@.wf(),
        ensures
            ptr == self@.data_ptr(),
    {
        proof {
            self@.lemma_addresses(0);
        }
        Self::data_from_header(self.class, self.base)
    }
}

impl<'a, C> Unknown<C> for ComWrapper<'a, C> {
    fn query_interface(&mut self, this: usize, iid: &Guid) -> (found: Option<usize>) {
        ComWrapper::query_interface(self, this, iid)
    }

    fn add_ref(&mut self, this: usize) -> (count: usize) {
        ComWrapper::add_ref(self, this)
    }

    fn release(&mut self, this: usize) -> (count: usize) {
        ComWrapper::release(self, this)
    }
}

} // verus!
