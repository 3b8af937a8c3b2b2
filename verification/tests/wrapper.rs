use com_scrape::{Class, ComPtr, ComRef, ComWrapper, Guid, Interface, Shape, Unknown};
use std::cell::Cell;
use std::rc::Rc;

const WORD: Shape = Shape { size: 8, align: 8 };
const BASE: usize = 0x1000;

struct Probe {
    drops: Rc<Cell<usize>>,
    value: u32,
}

impl Drop for Probe {
    fn drop(&mut self) {
        self.drops.set(self.drops.get() + 1);
    }
}

fn iid(n: u8) -> Guid {
    [n; 16]
}

fn interface(n: u8, ancestors: &[u8]) -> Interface {
    Interface::new(iid(n), ancestors.iter().map(|a| iid(*a)).collect(), WORD)
}

fn two_interfaces() -> Class {
    Class::new(vec![interface(1, &[]), interface(2, &[1])], Shape { size: 16, align: 16 }).unwrap()
}

fn probe(drops: &Rc<Cell<usize>>) -> Probe {
    Probe { drops: drops.clone(), value: 42 }
}

#[test]
fn one_interface_from_wrapping_to_destruction() {
    let drops = Rc::new(Cell::new(0));
    let class = Class::new(vec![interface(0, &[])], Shape { size: 16, align: 8 }).unwrap();
    let mut object = ComWrapper::new(&class, BASE, probe(&drops));
    assert_eq!(object.count(), 1);
    let handle = object.to_com_ptr(0);
    assert_eq!(object.count(), 2);
    let data = object.data_ptr();
    assert_eq!(object.release(data), 1);
    assert_eq!(object.count(), 1);
    let found = handle.as_com_ref().query_interface(&mut object, &[0; 16]).unwrap();
    assert_eq!(object.count(), 2);
    assert_eq!(found.as_ptr(), handle.as_ptr());
    assert_eq!(drops.get(), 0);
    assert_eq!(handle.release(&mut object), 1);
    assert_eq!(drops.get(), 0);
    assert!(object.is_alive());
    assert_eq!(found.release(&mut object), 0);
    assert_eq!(object.count(), 0);
    assert!(!object.is_alive());
    assert!(object.get().is_none());
    assert_eq!(drops.get(), 1);
    drop(object);
    assert_eq!(drops.get(), 1);
}

#[test]
fn a_new_wrapper_has_one_hold_and_its_data() {
    let drops = Rc::new(Cell::new(0));
    let class = two_interfaces();
    let object = ComWrapper::new(&class, BASE, probe(&drops));
    assert_eq!(object.count(), 1);
    assert!(object.is_alive());
    assert_eq!(object.get().unwrap().value, 42);
    assert_eq!(object.header_ptr(), BASE);
    assert_eq!(object.data_ptr(), BASE + 16);
    assert_eq!(object.class().len(), 2);
    assert_eq!(drops.get(), 0);
}

#[test]
fn both_views_lead_to_the_same_data() {
    let class = two_interfaces();
    let mut object = ComWrapper::new(&class, BASE, 7u64);
    let data = object.data_ptr();
    let first = object.query_interface(data, &iid(1)).unwrap();
    let second = object.query_interface(data, &iid(2)).unwrap();
    assert_eq!(first, BASE);
    assert_eq!(second, BASE + 8);
    assert_eq!(object.data_from_interface(first), data);
    assert_eq!(object.data_from_interface(second), data);
    let back_first = ComWrapper::<u64>::wrapper_from_interface(&class, first, 0);
    let back_second = ComWrapper::<u64>::wrapper_from_interface(&class, second, 1);
    assert_eq!(back_first, back_second);
    assert_eq!(ComWrapper::<u64>::data_from_header(&class, back_first), data);
    assert_eq!(object.count(), 3);
}

#[test]
fn pointer_conversions_undo_one_another() {
    let class = two_interfaces();
    let header = 0x7000;
    let data = ComWrapper::<u8>::data_from_header(&class, header);
    assert_eq!(data, 0x7010);
    assert_eq!(ComWrapper::<u8>::header_from_data(&class, data), header);
    assert_eq!(ComWrapper::<u8>::wrapper_from_data(&class, data), header);
    let interface = ComWrapper::<u8>::interface_from_wrapper(&class, header, 1);
    assert_eq!(interface, 0x7008);
    assert_eq!(ComWrapper::<u8>::wrapper_from_interface(&class, interface, 1), header);
    assert_eq!(ComWrapper::<u8>::interface_from_wrapper(&class, header, 0), header);
}

#[test]
fn retains_and_releases_in_any_mix_come_back_to_one() {
    let drops = Rc::new(Cell::new(0));
    let class = two_interfaces();
    let mut object = ComWrapper::new(&class, BASE, probe(&drops));
    let data = object.data_ptr();
    let a = object.to_com_ptr(0);
    let b = object.to_com_ptr(1);
    assert_eq!(object.add_ref(data), 4);
    let c = a.duplicate(&mut object);
    let d = b.as_com_ref().to_owned(&mut object);
    assert_eq!(object.count(), 6);
    assert_eq!(b.release(&mut object), 5);
    assert_eq!(object.release(data), 4);
    assert_eq!(c.release(&mut object), 3);
    assert_eq!(a.release(&mut object), 2);
    assert_eq!(d.release(&mut object), 1);
    assert!(object.is_alive());
    assert_eq!(object.get().unwrap().value, 42);
    assert_eq!(drops.get(), 0);
    assert_eq!(object.release(data), 0);
    assert!(!object.is_alive());
    assert_eq!(drops.get(), 1);
}

#[test]
fn borrowing_leaves_the_count_alone() {
    let class = two_interfaces();
    let mut object = ComWrapper::new(&class, BASE, 0u8);
    let first = object.as_com_ref(0);
    assert_eq!(object.count(), 1);
    let owned = object.to_com_ptr(1);
    assert_eq!(object.count(), 2);
    let second = object.as_com_ref(1);
    let again = owned.as_com_ref();
    let copy = first;
    assert_eq!(object.count(), 2);
    assert_eq!(first.as_ptr(), BASE);
    assert_eq!(copy.as_ptr(), BASE);
    assert_eq!(second.as_ptr(), BASE + 8);
    assert_eq!(again.as_ptr(), BASE + 8);
    assert_eq!(owned.release(&mut object), 1);
    let third = object.as_com_ref(0);
    assert_eq!(third.as_ptr(), BASE);
    assert_eq!(object.count(), 1);
}

#[test]
fn an_unknown_identity_is_refused_without_a_hold() {
    let class = two_interfaces();
    let mut object = ComWrapper::new(&class, BASE, 0u8);
    let data = object.data_ptr();
    assert_eq!(object.query_interface(data, &iid(9)), None);
    assert_eq!(object.count(), 1);
    let borrowed = object.as_com_ref(1);
    assert!(borrowed.query_interface(&mut object, &iid(9)).is_none());
    assert_eq!(object.count(), 1);
    assert!(object.is_alive());
}

#[test]
fn an_ancestor_is_served_by_the_first_heir() {
    let class = Class::new(vec![interface(5, &[]), interface(3, &[1]), interface(2, &[1])], WORD).unwrap();
    let mut object = ComWrapper::new(&class, BASE, 0u8);
    let data = object.data_ptr();
    assert_eq!(object.query_interface(data, &iid(1)), Some(BASE + 8));
    assert_eq!(object.query_interface(data, &iid(2)), Some(BASE + 16));
    assert_eq!(object.count(), 3);
}

#[test]
fn offsets_are_the_same_in_every_object() {
    let class = two_interfaces();
    let mut near = ComWrapper::new(&class, 0x10, 1u8);
    let mut far = ComWrapper::new(&class, 0xFFFF_0000, 2u8);
    for index in 0..2 {
        let a = near.as_com_ref(index).as_ptr() - near.header_ptr();
        let b = far.as_com_ref(index).as_ptr() - far.header_ptr();
        assert_eq!(a, b);
        assert_eq!(a, class.offset(index));
    }
    let data = near.data_ptr();
    let first = near.query_interface(data, &iid(2)).unwrap();
    let second = near.query_interface(data, &iid(2)).unwrap();
    assert_eq!(first, second);
    assert_eq!(first - near.header_ptr(), 8);
    let other = far.data_ptr();
    assert_eq!(far.query_interface(other, &iid(2)).unwrap() - far.header_ptr(), 8);
}

#[test]
fn a_handle_taken_over_from_the_wrapper_costs_nothing() {
    let drops = Rc::new(Cell::new(0));
    let class = two_interfaces();
    let mut object = ComWrapper::new(&class, BASE, probe(&drops));
    let handle = object.into_com_ptr(1);
    assert_eq!(object.count(), 1);
    assert_eq!(handle.as_ptr(), BASE + 8);
    assert_eq!(handle.release(&mut object), 0);
    assert_eq!(drops.get(), 1);
}

#[test]
fn sub_objects_are_found_by_their_address() {
    let class = two_interfaces();
    let object = ComWrapper::new(&class, BASE, 0u8);
    assert_eq!(object.resolve(BASE), Some(0));
    assert_eq!(object.resolve(BASE + 8), Some(1));
    assert_eq!(object.resolve(BASE + 4), None);
    assert_eq!(object.resolve(BASE + 16), None);
    assert_eq!(object.resolve(0), None);
}

#[test]
fn a_null_pointer_makes_no_handle() {
    assert!(ComRef::from_raw(0).is_none());
    assert!(ComPtr::from_raw(0).is_none());
}

#[test]
fn a_pointer_that_is_not_null_makes_a_handle() {
    assert_eq!(ComRef::from_raw(0x40).unwrap().as_ptr(), 0x40);
    assert_eq!(ComPtr::from_raw(usize::MAX).unwrap().as_ptr(), usize::MAX);
    assert_eq!(ComRef::from_raw_unchecked(1).as_ptr(), 1);
    assert_eq!(ComPtr::from_raw_unchecked(8).as_ptr(), 8);
}

#[test]
fn a_raw_pointer_carries_its_hold_across() {
    let drops = Rc::new(Cell::new(0));
    let class = two_interfaces();
    let mut object = ComWrapper::new(&class, BASE, probe(&drops));
    let raw = object.to_com_ptr(1).into_raw();
    assert_eq!(raw, BASE + 8);
    assert_eq!(object.count(), 2);
    let back = ComPtr::from_raw(raw).unwrap();
    assert_eq!(object.count(), 2);
    assert_eq!(back.release(&mut object), 1);
    let data = object.data_ptr();
    assert_eq!(object.release(data), 0);
    assert_eq!(drops.get(), 1);
}

fn ask_twice<C, U: Unknown<C>>(object: &mut U, this: usize, iid: &Guid) -> (Option<usize>, usize, usize) {
    let found = Unknown::query_interface(object, this, iid);
    let up = Unknown::add_ref(object, this);
    let down = Unknown::release(object, this);
    (found, up, down)
}

#[test]
fn the_three_operations_serve_any_caller() {
    let drops = Rc::new(Cell::new(0));
    let class = two_interfaces();
    let mut object = ComWrapper::new(&class, BASE, probe(&drops));
    let data = object.data_ptr();
    assert_eq!(ask_twice(&mut object, data, &iid(2)), (Some(BASE + 8), 3, 2));
    assert_eq!(ask_twice(&mut object, data, &iid(7)), (None, 3, 2));
    assert_eq!(Unknown::release(&mut object, data), 1);
    assert_eq!(Unknown::release(&mut object, data), 0);
    assert_eq!(drops.get(), 1);
}
