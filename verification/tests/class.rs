use com_scrape::{Class, ClassError, Guid, Implements, Interface, Shape};

const WORD: Shape = Shape { size: 8, align: 8 };

fn iid(n: u8) -> Guid {
    [n; 16]
}

fn interface(n: u8, ancestors: &[u8]) -> Interface {
    Interface::new(iid(n), ancestors.iter().map(|a| iid(*a)).collect(), WORD)
}

#[test]
fn an_interface_answers_to_itself_and_to_its_ancestors() {
    let derived = interface(3, &[2, 1]);
    assert!(derived.inherits(&iid(3)));
    assert!(derived.inherits(&iid(2)));
    assert!(derived.inherits(&iid(1)));
    assert!(!derived.inherits(&iid(4)));
    assert!(!derived.inherits(&iid(0)));
}

#[test]
fn an_interface_without_ancestors_answers_to_itself_only() {
    let root = interface(0, &[]);
    assert!(root.inherits(&[0; 16]));
    let mut near = [0u8; 16];
    near[9] = 1;
    assert!(!root.inherits(&near));
}

#[test]
fn a_descriptor_keeps_what_it_was_given() {
    let described = Interface::new(iid(5), vec![iid(4)], Shape { size: 24, align: 8 });
    assert_eq!(described.iid, iid(5));
    assert_eq!(described.ancestors, vec![iid(4)]);
    assert_eq!(described.shape, Shape { size: 24, align: 8 });
}

#[test]
fn a_class_lays_out_header_and_data() {
    let class = Class::new(vec![interface(1, &[]), interface(2, &[])], Shape { size: 12, align: 16 }).unwrap();
    assert_eq!(class.len(), 2);
    assert_eq!(class.offsets, vec![0, 8]);
    assert_eq!(class.offset(0), 0);
    assert_eq!(class.offset(1), 8);
    assert_eq!(class.header, Shape { size: 16, align: 8 });
    assert_eq!(class.data, Shape { size: 12, align: 16 });
    assert_eq!(class.data_offset, 16);
    assert_eq!(class.shape, Shape { size: 32, align: 16 });
}

#[test]
fn data_follows_the_header_at_its_own_alignment() {
    let class = Class::new(vec![interface(1, &[])], Shape { size: 1, align: 64 }).unwrap();
    assert_eq!(class.header, WORD);
    assert_eq!(class.data_offset, 64);
    assert_eq!(class.shape, Shape { size: 128, align: 64 });
}

#[test]
fn sub_objects_of_mixed_shapes_are_padded() {
    let interfaces = vec![
        Interface::new(iid(1), vec![], Shape { size: 4, align: 4 }),
        Interface::new(iid(2), vec![], Shape { size: 8, align: 8 }),
        Interface::new(iid(3), vec![], Shape { size: 2, align: 2 }),
    ];
    let class = Class::new(interfaces, Shape { size: 3, align: 1 }).unwrap();
    assert_eq!(class.offsets, vec![0, 8, 16]);
    assert_eq!(class.header, Shape { size: 24, align: 8 });
    assert_eq!(class.data_offset, 24);
    assert_eq!(class.shape, Shape { size: 32, align: 8 });
}

#[test]
fn data_without_size_is_accepted() {
    let class = Class::new(vec![interface(1, &[])], Shape { size: 0, align: 1 }).unwrap();
    assert_eq!(class.data_offset, 8);
    assert_eq!(class.shape, WORD);
}

#[test]
fn offsets_do_not_depend_on_identities_or_data() {
    let first = Class::new(vec![interface(1, &[]), interface(2, &[]), interface(3, &[])], WORD).unwrap();
    let second =
        Class::new(vec![interface(7, &[1]), interface(8, &[]), interface(9, &[7])], Shape { size: 40, align: 32 })
            .unwrap();
    assert_eq!(first.offsets, vec![0, 8, 16]);
    assert_eq!(first.offsets, second.offsets);
    assert_eq!(first.header, second.header);
}

#[test]
fn a_class_without_interfaces_is_refused() {
    assert_eq!(Class::new(vec![], WORD).unwrap_err(), ClassError::NoInterfaces);
}

#[test]
fn an_identity_declared_twice_is_refused() {
    let twice = vec![interface(1, &[]), interface(2, &[]), interface(1, &[2])];
    assert_eq!(Class::new(twice, WORD).unwrap_err(), ClassError::DuplicateInterface);
    let adjacent = vec![interface(4, &[]), interface(4, &[])];
    assert_eq!(Class::new(adjacent, WORD).unwrap_err(), ClassError::DuplicateInterface);
}

#[test]
fn shared_ancestors_are_no_duplicates() {
    let class = Class::new(vec![interface(2, &[1]), interface(3, &[1])], WORD).unwrap();
    assert_eq!(class.len(), 2);
}

#[test]
fn an_alignment_that_is_no_power_of_two_is_refused() {
    let odd = vec![Interface::new(iid(1), vec![], Shape { size: 8, align: 6 })];
    assert_eq!(Class::new(odd, WORD).unwrap_err(), ClassError::BadAlignment);
    assert_eq!(
        Class::new(vec![interface(1, &[])], Shape { size: 8, align: 0 }).unwrap_err(),
        ClassError::BadAlignment
    );
    assert_eq!(
        Class::new(vec![interface(1, &[])], Shape { size: 8, align: 24 }).unwrap_err(),
        ClassError::BadAlignment
    );
}

#[test]
fn an_allocation_beyond_the_address_space_is_refused() {
    assert_eq!(
        Class::new(vec![interface(1, &[])], Shape { size: usize::MAX, align: 1 }).unwrap_err(),
        ClassError::TooLarge
    );
    let huge = vec![Interface::new(iid(1), vec![], Shape { size: usize::MAX, align: 2 })];
    assert_eq!(Class::new(huge, Shape { size: 0, align: 1 }).unwrap_err(), ClassError::TooLarge);
    assert_eq!(
        Class::new(vec![interface(1, &[])], Shape { size: usize::MAX - 8, align: 8 }).unwrap_err(),
        ClassError::TooLarge
    );
}

#[test]
fn defects_are_reported_in_order() {
    let bad = Shape { size: usize::MAX, align: 3 };
    assert_eq!(Class::new(vec![], bad).unwrap_err(), ClassError::NoInterfaces);
    let twice = vec![
        Interface::new(iid(1), vec![], bad),
        Interface::new(iid(1), vec![], bad),
    ];
    assert_eq!(Class::new(twice, bad).unwrap_err(), ClassError::DuplicateInterface);
    let once = vec![Interface::new(iid(1), vec![], Shape { size: usize::MAX, align: 8 })];
    assert_eq!(Class::new(once, bad).unwrap_err(), ClassError::BadAlignment);
}

#[test]
fn the_largest_allocation_is_accepted() {
    let class = Class::new(
        vec![Interface::new(iid(1), vec![], Shape { size: 1, align: 1 })],
        Shape { size: usize::MAX - 1, align: 1 },
    )
    .unwrap();
    assert_eq!(class.data_offset, 1);
    assert_eq!(class.shape, Shape { size: usize::MAX, align: 1 });
}

#[test]
fn a_request_is_served_by_the_first_interface_that_answers() {
    let class = Class::new(vec![interface(2, &[1]), interface(3, &[1]), interface(4, &[])], WORD).unwrap();
    assert_eq!(class.implements(&iid(2)), Some(Implements { index: 0, offset: 0 }));
    assert_eq!(class.implements(&iid(3)), Some(Implements { index: 1, offset: 8 }));
    assert_eq!(class.implements(&iid(4)), Some(Implements { index: 2, offset: 16 }));
    assert_eq!(class.implements(&iid(1)), Some(Implements { index: 0, offset: 0 }));
}

#[test]
fn an_ancestor_declared_later_yields_to_an_earlier_heir() {
    let class = Class::new(vec![interface(9, &[]), interface(5, &[4]), interface(4, &[])], WORD).unwrap();
    assert_eq!(class.implements(&iid(4)), Some(Implements { index: 1, offset: 8 }));
}

#[test]
fn a_request_that_nothing_answers_finds_nothing() {
    let class = Class::new(vec![interface(2, &[1]), interface(3, &[])], WORD).unwrap();
    assert_eq!(class.implements(&iid(0)), None);
    assert_eq!(class.implements(&iid(4)), None);
}
