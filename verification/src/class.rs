//! The composition of an implementing type: the ordered set of interfaces
//! it declares, the composite header with one sub-object per interface, and
//! the place of header and data in the one allocation they share.

use crate::guid::{guid_eq, Guid};
use crate::interface::Interface;
use crate::layout::{
    align_up, alignments_valid, check_alignments, field_offset, is_power_of_two, layout_record,
    lemma_align_up, lemma_field_address_aligned, lemma_field_placed, lemma_pow2_divides,
    lemma_pow2_positive, lemma_record_align, record_align, record_size, round_up, Record, Shape,
};
use vstd::arithmetic::div_mod::{
    lemma_add_mod_noop, lemma_fundamental_div_mod, lemma_mod_multiples_basic, lemma_small_mod,
};
use vstd::arithmetic::power2::is_pow2;
use vstd::prelude::*;

verus! {

/// Why a list of interfaces and a data shape do not make a class.
#[derive(Clone, Copy, Debug, PartialEq, Eq, Structural)]
pub enum ClassError {
    /// No interface is declared.
    NoInterfaces,
    /// Two declared interfaces have the same identity.
    DuplicateInterface,
    /// An alignment, of a sub-object or of the data, is not a power of two.
    BadAlignment,
    /// The allocation would be larger than the address space.
    TooLarge,
}

/// That a class presents an interface: which of its declared interfaces
/// does, and where that interface's sub-object lies in the header.
#[derive(Clone, Copy, Debug, PartialEq, Eq, Structural)]
pub struct Implements {
    /// The position of the interface in the declared order.
    pub index: usize,
    /// The offset of its sub-object from the start of the header.
    pub offset: usize,
}

/// An implementing type as the object model sees it.
///
/// The allocation of an object of the class begins with the composite
/// header, whose sub-objects follow the declared order of the interfaces;
/// the data follows the header at the next address that its alignment
/// allows.
#[derive(Debug)]
pub struct Class {
    /// The declared interfaces, in order.
    pub interfaces: Vec<Interface>,
    /// The offset of each interface's sub-object from the start of the header.
    pub offsets: Vec<usize>,
    /// The shape of the composite header.
    pub header: Shape,
    /// The shape of the data.
    pub data: Shape,
    /// The offset of the data from the start of the allocation.
    pub data_offset: usize,
    /// The shape of the whole allocation.
    pub shape: Shape,
}

/// The shapes of the sub-objects, in declared order.
pub open spec fn shapes_of(interfaces: Seq<Interface>) -> Seq<Shape> {
    Seq::new(interfaces.len(), |i: int| interfaces[i].shape)
}

/// No identity is declared twice.
pub open spec fn distinct(interfaces: Seq<Interface>) -> bool {
    forall|i: int, j: int|
        0 <= i < j < interfaces.len() ==> (#[trigger] interfaces[i]).iid != (
        #[trigger] interfaces[j]).iid
}

/// The offset of the data from the start of the allocation: the end of
/// the header, rounded up to the data's alignment.
pub open spec fn data_offset_of(shapes: Seq<Shape>, data: Shape) -> int {
    align_up(record_size(shapes), data.align as int)
}

/// The alignment of the allocation: the larger of header's and data's.
pub open spec fn allocation_align(shapes: Seq<Shape>, data: Shape) -> int {
    if data.align > record_align(shapes) {
        data.align as int
    } else {
        record_align(shapes)
    }
}

/// The size of the allocation: the end of the data, rounded up to the
/// allocation's alignment.
pub open spec fn allocation_size(shapes: Seq<Shape>, data: Shape) -> int {
    align_up(data_offset_of(shapes, data) + data.size, allocation_align(shapes, data))
}

/// What is wrong with a declaration, if anything; the first that applies.
pub open spec fn defect(interfaces: Seq<Interface>, data: Shape) -> Option<ClassError> {
    let shapes = shapes_of(interfaces);
    if interfaces.len() == 0 {
        Some(ClassError::NoInterfaces)
    } else if !distinct(interfaces) {
        Some(ClassError::DuplicateInterface)
    } else if !(alignments_valid(shapes) && is_pow2(data.align as int)) {
        Some(ClassError::BadAlignment)
    } else if allocation_size(shapes, data) > usize::MAX {
        Some(ClassError::TooLarge)
    } else {
        None
    }
}

/// The first interface at or after position `from` that answers to `iid`.
pub open spec fn first_match(interfaces: Seq<Interface>, iid: Guid, from: int) -> Option<int>
    decreases interfaces.len() - from,
{
    if from < 0 || from >= interfaces.len() {
        None
    } else if interfaces[from].answers(iid) {
        Some(from)
    } else {
        first_match(interfaces, iid, from + 1)
    }
}

/// `first_match` finds the least position that answers, and finds none
/// only where no position answers.
pub proof fn lemma_first_match(interfaces: Seq<Interface>, iid: Guid, from: int)
    requires
        0 <= from,
    ensures
        match first_match(interfaces, iid, from) {
            Some(i) => {
                &&& from <= i < interfaces.len()
                &&& interfaces[i].answers(iid)
                &&& forall|j: int| from <= j < i ==> !(#[trigger] interfaces[j]).answers(iid)
            },
            None => forall|j: int|
                from <= j < interfaces.len() ==> !(#[trigger] interfaces[j]).answers(iid),
        },
    decreases interfaces.len() - from,
{
    if from < interfaces.len() && !interfaces[from].answers(iid) {
        lemma_first_match(interfaces, iid, from + 1);
    }
}

impl Class {
    /// The shapes of the class's sub-objects, in declared order.
    pub open spec fn shapes(&self) -> Seq<Shape> {
        shapes_of(self.interfaces@)
    }

    /// The class is a sound declaration, laid out as the rules say.
    pub open spec fn wf(&self) -> bool {
        &&& defect(self.interfaces@, self.data) is None
        &&& self.offsets@.len() == self.interfaces@.len()
        &&& forall|i: int|
            0 <= i < self.offsets@.len() ==> #[trigger] self.offsets@[i] == field_offset(
                self.shapes(),
                i,
            )
        &&& self.header.size == record_size(self.shapes())
        &&& self.header.align == record_align(self.shapes())
        &&& self.data_offset == data_offset_of(self.shapes(), self.data)
        &&& self.shape.size == allocation_size(self.shapes(), self.data)
        &&& self.shape.align == allocation_align(self.shapes(), self.data)
    }

    /// Which declared interface serves a request for `iid`, and at which
    /// offset: the first in declared order that answers to it.
    pub open spec fn implements_spec(&self, iid: Guid) -> Option<Implements> {
        match first_match(self.interfaces@, iid, 0) {
            Some(i) => Some(Implements { index: i as usize, offset: self.offsets@[i] }),
            None => None,
        }
    }

    /// An allocation of this class can begin at `base`: the address is not
    /// null, is a multiple of the allocation's alignment, and leaves room
    /// for the allocation below the end of the address space.
    pub open spec fn admits(&self, base: usize) -> bool {
        &&& base != 0
        &&& base as int % self.shape.align as int == 0
        &&& base + self.shape.size <= usize::MAX
    }

    /// Where things lie in an allocation of a sound class: each sub-object
    /// within the header at a multiple of its alignment, the header before
    /// the data, the data within the allocation.
    pub proof fn lemma_spans(&self, i: int)
        requires
            self.wf(),
            0 <= i < self.interfaces@.len(),
        ensures
            self.offsets@[i] % self.interfaces@[i].shape.align == 0,
            self.offsets@[i] + self.interfaces@[i].shape.size <= self.header.size,
            self.header.size <= self.data_offset,
            self.data_offset % self.data.align == 0,
            self.data_offset + self.data.size <= self.shape.size,
            self.shape.align > 0,
    {
        let shapes = self.shapes();
        lemma_field_placed(shapes, i);
        lemma_record_align(shapes);
        lemma_pow2_positive(self.data.align as int);
        lemma_align_up(record_size(shapes), self.data.align as int);
        lemma_align_up(
            data_offset_of(shapes, self.data) + self.data.size,
            allocation_align(shapes, self.data),
        );
    }

    /// In an allocation that begins where the class admits it, every
    /// sub-object and the data begin at a multiple of their alignment.
    pub proof fn lemma_addresses_aligned(&self, base: usize, i: int)
        requires
            self.wf(),
            self.admits(base),
            0 <= i < self.interfaces@.len(),
        ensures
            (base + self.offsets@[i]) % (self.interfaces@[i].shape.align as int) == 0,
            (base + self.data_offset) % (self.data.align as int) == 0,
    {
        let shapes = self.shapes();
        let big = self.shape.align as int;
        let head = self.header.align as int;
        let d = self.data.align as int;
        self.lemma_spans(i);
        lemma_record_align(shapes);
        lemma_pow2_positive(d);
        lemma_pow2_positive(head);
        lemma_pow2_divides(head, big);
        lemma_pow2_divides(d, big);
        lemma_multiple_of_multiple(base as int, big, head);
        lemma_multiple_of_multiple(base as int, big, d);
        lemma_field_address_aligned(shapes, base as int, i);
        lemma_add_mod_noop(base as int, self.data_offset as int, d);
        lemma_small_mod(0, d as nat);
    }

    /// Declares a class: the interfaces it implements, in order, and the
    /// shape of its data.
    ///
    /// The declaration is refused where it names no interface, names one
    /// identity twice, gives an alignment that is no power of two, or asks
    /// for more than the address space holds, in this order.
    pub fn new(interfaces: Vec<Interface>, data: Shape) -> (made: Result<Class, ClassError>)
        ensures
            match made {
                Ok(class) => {
                    &&& defect(interfaces@, data) is None
                    &&& class.wf()
                    &&& class.interfaces@ == interfaces@
                    &&& class.data == data
                },
                Err(e) => defect(interfaces@, data) == Some(e),
            },
    {
        if interfaces.len() == 0 {
            return Err(ClassError::NoInterfaces);
        }
        if has_duplicates(&interfaces) {
            return Err(ClassError::DuplicateInterface);
        }
        let shapes = collect_shapes(&interfaces);
        if !check_alignments(&shapes) || !is_power_of_two(data.align) {
            return Err(ClassError::BadAlignment);
        }
        proof {
            lemma_record_align(shapes@);
            lemma_pow2_positive(data.align as int);
            lemma_align_up(record_size(shapes@), data.align as int);
            lemma_align_up(
                data_offset_of(shapes@, data) + data.size,
                allocation_align(shapes@, data),
            );
        }
        let header = match layout_record(&shapes) {
            Ok(header) => header,
            Err(_) => {
                return Err(ClassError::TooLarge);
            },
        };
        let Record { offsets, shape: header } = header;
        let data_offset: usize = match round_up(header.size, data.align) {
            Some(data_offset) => data_offset,
            None => {
                return Err(ClassError::TooLarge);
            },
        };
        let end: usize = match data_offset.checked_add(data.size) {
            Some(end) => end,
            None => {
                return Err(ClassError::TooLarge);
            },
        };
        let align: usize = if data.align > header.align {
            data.align
        } else {
            header.align
        };
        let size: usize = match round_up(end, align) {
            Some(size) => size,
            None => {
                return Err(ClassError::TooLarge);
            },
        };
        Ok(Class { interfaces, offsets, header, data, data_offset, shape: Shape { size, align } })
    }

    /// The number of declared interfaces.
    pub fn len(&self) -> (n: usize)
        ensures
            n == self.interfaces@.len(),
    {
        self.interfaces.len()
    }

    /// The offset, from the start of the header, of the sub-object of the
    /// interface declared at position `index`.
    pub fn offset(&self, index: usize) -> (offset: usize)
        requires
            self.wf(),
            index < self.interfaces@.len(),
        ensures
            offset == field_offset(self.shapes(), index as int),
    {
        self.offsets[index]
    }

    /// Finds the interface that serves a request for `iid`: the first in
    /// declared order that answers to it.
    pub fn implements(&self, iid: &Guid) -> (found: Option<Implements>)
        requires
            self.wf(),
        ensures
            found == self.implements_spec(*iid),
    {
        let mut i: usize = 0;
        while i < self.interfaces.len()
            invariant
                self.wf(),
                i <= self.interfaces@.len(),
                first_match(self.interfaces@, *iid, 0) == first_match(
                    self.interfaces@,
                    *iid,
                    i as int,
                ),
            decreases self.interfaces.len() - i,
        {
            if self.interfaces[i].inherits(iid) {
                return Some(Implements { index: i, offset: self.offsets[i] });
            }
            i += 1;
        }
        None
    }
}

/// A multiple of a multiple of `small` is a multiple of `small`.
proof fn lemma_multiple_of_multiple(x: int, big: int, small: int)
    requires
        0 < small,
        0 < big,
        x % big == 0,
        big % small == 0,
    ensures
        x % small == 0,
{
    lemma_fundamental_div_mod(x, big);
    lemma_fundamental_div_mod(big, small);
    let k = (x / big) * (big / small);
    assert(x == k * small) by (nonlinear_arith)
        requires
            x == big * (x / big),
            big == small * (big / small),
            k == (x / big) * (big / small),
    ;
    lemma_mod_multiples_basic(k, small);
}

/// Tells whether some identity is declared twice.
fn has_duplicates(interfaces: &Vec<Interface>) -> (dup: bool)
    ensures
        dup == !distinct(interfaces@),
{
    let n: usize = interfaces.len();
    let mut j: usize = 0;
    while j < n
        invariant
            n == interfaces@.len(),
            j <= n,
            forall|a: int, b: int|
                0 <= a < b < j ==> (#[trigger] interfaces@[a]).iid != (#[trigger] interfaces@[b]).iid,
        decreases n - j,
    {
        let mut i: usize = 0;
        while i < j
            invariant
                n == interfaces@.len(),
                i <= j < n,
                forall|a: int| 0 <= a < i ==> (#[trigger] interfaces@[a]).iid != interfaces@[j as int].iid,
            decreases j - i,
        {
            if guid_eq(&interfaces[i].iid, &interfaces[j].iid) {
                return true;
            }
            i += 1;
        }
        j += 1;
    }
    false
}

/// Collects the shapes of the sub-objects, in declared order.
fn collect_shapes(interfaces: &Vec<Interface>) -> (shapes: Vec<Shape>)
    ensures
        shapes@ == shapes_of(interfaces@),
{
    let mut shapes: Vec<Shape> = Vec::new();
    let mut i: usize = 0;
    while i < interfaces.len()
        invariant
            i <= interfaces@.len(),
            shapes@.len() == i,
            forall|j: int| 0 <= j < i ==> shapes@[j] == interfaces@[j].shape,
        decreases interfaces.len() - i,
    {
        shapes.push(interfaces[i].shape);
        i += 1;
    }
    assert(shapes@ =~= shapes_of(interfaces@));
    shapes
}

} // verus!
