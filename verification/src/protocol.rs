//! What holds of every object whatever is done with it: all its interface
//! views lead to the same data, the offsets of its sub-objects belong to
//! its class and not to the object, and its count of holds moves only
//! where a hold is taken or given back.

use crate::class::{first_match, lemma_first_match, Class};
use crate::guid::Guid;
use crate::layout::field_offset;
use crate::wrapper::{data_of_header, header_of_interface, Object};
use vstd::prelude::*;

verus! {

/// One thing that can be done with a live object.
pub enum Op {
    /// A hold is taken: by `add_ref`, or by deriving or duplicating an
    /// owning handle, through whichever interface.
    Retain,
    /// A hold is given back: by `release`, or by ending an owning handle.
    Release,
    /// A borrowed handle is derived.
    Borrow,
    /// The object is asked for the interface of the given identity.
    Discover(Guid),
}

/// By how much an operation moves the count of holds of an object of
/// `class`.
pub open spec fn gain(class: Class, op: Op) -> int {
    match op {
        Op::Retain => 1,
        Op::Release => -1,
        Op::Borrow => 0,
        Op::Discover(iid) => if class.implements_spec(iid) is Some {
            1
        } else {
            0
        },
    }
}

/// By how much a run of operations moves the count of holds.
pub open spec fn net(class: Class, ops: Seq<Op>) -> int
    decreases ops.len(),
{
    if ops.len() == 0 {
        0
    } else {
        net(class, ops.drop_last()) + gain(class, ops.last())
    }
}

impl<C> Object<C> {
    /// The object after one operation.
    pub open spec fn step(self, op: Op) -> Object<C> {
        match op {
            Op::Retain => self.retain(),
            Op::Release => self.release(),
            Op::Borrow => self,
            Op::Discover(iid) => self.discover(iid).0,
        }
    }

    /// The object after a run of operations, in order.
    pub open spec fn run(self, ops: Seq<Op>) -> Object<C>
        decreases ops.len(),
    {
        if ops.len() == 0 {
            self
        } else {
            self.run(ops.drop_last()).step(ops.last())
        }
    }

    /// Every operation of the run meets a live object.
    pub open spec fn admits(self, ops: Seq<Op>) -> bool
        decreases ops.len(),
    {
        ops.len() == 0 || (self.admits(ops.drop_last()) && self.run(ops.drop_last()).alive())
    }

    /// How often, in the course of the run, the object goes from alive to
    /// destroyed.
    pub open spec fn destructions(self, ops: Seq<Op>) -> nat
        decreases ops.len(),
    {
        if ops.len() == 0 {
            0
        } else {
            let before = self.run(ops.drop_last());
            let once: nat = if before.alive() && !before.step(ops.last()).alive() {
                1
            } else {
                0
            };
            self.destructions(ops.drop_last()) + once
        }
    }
}

/// Both interface views resolve to the same object: whichever two
/// interfaces an object is asked for, going back from either answer by
/// that interface's offset, and on to the data, arrives at the object's
/// one data address.
pub proof fn lemma_views_share_data<C>(object: Object<C>, first: Guid, second: Guid)
    requires
        object.wf(),
        object.discover(first).1 is Some,
        object.discover(second).1 is Some,
    ensures
        ({
            let class = object.class;
            let p = object.discover(first).1->0;
            let q = object.discover(second).1->0;
            let i = class.implements_spec(first)->0.index as int;
            let j = class.implements_spec(second)->0.index as int;
            &&& data_of_header(class, header_of_interface(class, p, i)) == object.data_ptr()
            &&& data_of_header(class, header_of_interface(class, q, j)) == object.data_ptr()
        }),
{
}

/// Every sub-object of an object leads back to the object's data, and no
/// two of them overlap.
pub proof fn lemma_sub_objects<C>(object: Object<C>, i: int, j: int)
    requires
        object.wf(),
        0 <= i < j < object.class.interfaces@.len(),
    ensures
        data_of_header(object.class, header_of_interface(object.class, object.interface_ptr(i), i))
            == object.data_ptr(),
        data_of_header(object.class, header_of_interface(object.class, object.interface_ptr(j), j))
            == object.data_ptr(),
        object.interface_ptr(i) + object.class.interfaces@[i].shape.size <= object.interface_ptr(j),
{
    crate::layout::lemma_fields_disjoint(object.class.shapes(), i, j);
}

/// The offset of a sub-object belongs to the class: two objects whose
/// classes declare sub-objects of the same shapes in the same order have
/// each sub-object at the same offset from their headers, wherever the
/// objects lie and whatever has been done with them.
pub proof fn lemma_offsets_stable<C, D>(
    a: Object<C>,
    b: Object<D>,
    done_a: Seq<Op>,
    done_b: Seq<Op>,
    i: int,
)
    requires
        a.wf(),
        b.wf(),
        a.class.shapes() == b.class.shapes(),
        0 <= i < a.class.interfaces@.len(),
    ensures
        a.interface_ptr(i) - a.header_ptr() == field_offset(a.class.shapes(), i),
        b.interface_ptr(i) - b.header_ptr() == a.interface_ptr(i) - a.header_ptr(),
        a.run(done_a).interface_ptr(i) - a.run(done_a).header_ptr() == a.interface_ptr(i)
            - a.header_ptr(),
        b.run(done_b).interface_ptr(i) - b.run(done_b).header_ptr() == a.interface_ptr(i)
            - a.header_ptr(),
{
    lemma_run_keeps_place(a, done_a);
    lemma_run_keeps_place(b, done_b);
    assert(a.class.offsets@.len() == b.class.offsets@.len());
}

/// No operation moves an object or changes its class.
pub proof fn lemma_run_keeps_place<C>(object: Object<C>, ops: Seq<Op>)
    ensures
        object.run(ops).class == object.class,
        object.run(ops).base == object.base,
    decreases ops.len(),
{
    if ops.len() > 0 {
        lemma_run_keeps_place(object, ops.drop_last());
    }
}

/// The count of holds moves only where a hold is taken or given back.
///
/// After a run in which every operation meets a live object, the count is
/// the count before, plus one for each hold taken and each request that
/// was answered, minus one for each hold given back. Deriving borrowed
/// handles and requests that go unanswered add nothing. While the count is
/// above zero the data is what it was; the object is destroyed in the
/// step that takes the count to zero, and in no other.
pub proof fn lemma_count<C>(object: Object<C>, ops: Seq<Op>)
    requires
        object.alive(),
        object.data is Some,
        object.admits(ops),
    ensures
        object.run(ops).holds == object.holds + net(object.class, ops),
        object.run(ops).alive() ==> object.run(ops).data == object.data,
        !object.run(ops).alive() ==> object.run(ops).data is None,
        object.destructions(ops) == if object.run(ops).alive() {
            0nat
        } else {
            1nat
        },
    decreases ops.len(),
{
    if ops.len() > 0 {
        lemma_count(object, ops.drop_last());
        lemma_run_keeps_place(object, ops.drop_last());
    }
}

/// A run that gives back as many holds as it takes leaves the object as
/// it was: alive, with the same count and the same data.
pub proof fn lemma_round_trip<C>(object: Object<C>, ops: Seq<Op>)
    requires
        object.alive(),
        object.data is Some,
        object.admits(ops),
        net(object.class, ops) == 0,
    ensures
        object.run(ops) == object,
        object.destructions(ops) == 0,
{
    lemma_count(object, ops);
    lemma_run_keeps_place(object, ops);
}

/// A run that gives back one hold more than it takes, on an object with a
/// single hold, destroys the object, and destroys it exactly once.
pub proof fn lemma_last_release<C>(object: Object<C>, ops: Seq<Op>)
    requires
        object.holds == 1,
        object.data is Some,
        object.admits(ops),
        net(object.class, ops) == -1,
    ensures
        !object.run(ops).alive(),
        object.run(ops).data is None,
        object.destructions(ops) == 1,
{
    lemma_count(object, ops);
}

/// Deriving borrowed handles changes nothing: a run with its borrows
/// taken out ends in the same object.
pub proof fn lemma_borrows_add_nothing<C>(object: Object<C>, ops: Seq<Op>)
    ensures
        object.run(ops) == object.run(ops.filter(|op: Op| !(op is Borrow))),
    decreases ops.len(),
{
    reveal(Seq::filter);
    let kept = |op: Op| !(op is Borrow);
    if ops.len() > 0 {
        lemma_borrows_add_nothing(object, ops.drop_last());
        if kept(ops.last()) {
            let shorter = ops.drop_last().filter(kept);
            assert(shorter.push(ops.last()).drop_last() =~= shorter);
        }
    }
}

/// A request that no declared interface answers returns nothing and
/// leaves the object, its count of holds included, as it was.
pub proof fn lemma_unanswered<C>(object: Object<C>, iid: Guid)
    requires
        forall|i: int|
            0 <= i < object.class.interfaces@.len() ==> !(
            #[trigger] object.class.interfaces@[i]).answers(iid),
    ensures
        object.discover(iid).1 is None,
        object.discover(iid).0 == object,
        object.step(Op::Discover(iid)) == object,
        gain(object.class, Op::Discover(iid)) == 0,
{
    lemma_first_match(object.class.interfaces@, iid, 0);
}

/// A request that some declared interface answers is served by the first
/// that does, and costs the object one hold.
pub proof fn lemma_answered<C>(object: Object<C>, iid: Guid, i: int)
    requires
        object.wf(),
        0 <= i < object.class.interfaces@.len(),
        object.class.interfaces@[i].answers(iid),
        forall|j: int| 0 <= j < i ==> !(#[trigger] object.class.interfaces@[j]).answers(iid),
    ensures
        object.discover(iid).1 == Some(object.interface_ptr(i)),
        object.discover(iid).0 == object.retain(),
{
    lemma_first_match(object.class.interfaces@, iid, 0);
    let k = first_match(object.class.interfaces@, iid, 0)->0;
    assert(object.class.interfaces@[k].answers(iid));
    assert(k == i);
    assert(object.class.interfaces.len() == object.class.interfaces@.len());
}

} // verus!
