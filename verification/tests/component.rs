use ecs::component::ComponentList;
use ecs::Entity;

fn entity(index: usize) -> Entity {
    Entity::new(index, 0x1111_2222_3333_4444_5555_6666_7777_8888 + index as u128)
}

#[test]
fn new_list_is_empty_and_knows_its_type() {
    let list = ComponentList::new::<u32>();
    assert_eq!(list.get_cid(), 32);
    assert_eq!(list.buffer().stride(), 4);
    assert_eq!(list.buffer().bytes_len(), 0);
    assert!(!list.has(&entity(0)));
    assert!(!list.has(&entity(1)));
    assert_eq!(list.get::<u32>(&entity(1)), None);
    assert_eq!(ComponentList::new::<u64>().get_cid(), 64);
}

#[test]
fn add_twice_fails_the_second_time_and_keeps_the_value() {
    let mut list = ComponentList::new::<u32>();
    let e = entity(3);
    assert!(list.add(&e, &7u32));
    assert!(!list.add(&e, &7u32));
    assert_eq!(list.get::<u32>(&e), Some(7));
    assert!(!list.add(&e, &8u32));
    assert_eq!(list.get::<u32>(&e), Some(7));
}

#[test]
fn add_then_set_overwrites() {
    let mut list = ComponentList::new::<u32>();
    let e = entity(2);
    assert!(list.add(&e, &1u32));
    assert!(list.set(&e, &2u32));
    assert_eq!(list.get::<u32>(&e), Some(2));
    assert!(list.has(&e));
}

#[test]
fn set_on_an_absent_slot_fails_and_changes_nothing() {
    let mut list = ComponentList::new::<u32>();
    assert!(!list.set(&entity(5), &1u32));
    assert!(!list.has(&entity(5)));
    assert_eq!(list.buffer().bytes_len(), 0);
    assert!(list.add(&entity(5), &1u32));
    assert!(!list.set(&entity(2), &9u32));
    assert!(!list.has(&entity(2)));
    assert_eq!(list.buffer().read_as::<u32>(2), 0);
}

#[test]
fn rm_then_has_is_false_and_get_is_none() {
    let mut list = ComponentList::new::<u32>();
    let e = entity(1);
    assert!(list.add(&e, &5u32));
    assert!(list.rm(&e));
    assert!(!list.has(&e));
    assert_eq!(list.get::<u32>(&e), None);
    assert!(!list.rm(&e));
    assert!(!list.rm(&entity(40)));
}

#[test]
fn rm_leaves_the_row_in_place_until_it_is_written_again() {
    let mut list = ComponentList::new::<u32>();
    let e = entity(1);
    assert!(list.add(&e, &0x0a0b_0c0du32));
    assert!(list.rm(&e));
    assert_eq!(list.buffer().bytes_len(), 8);
    assert_eq!(list.buffer().read_as::<u32>(1), 0x0a0b_0c0d);
    assert!(list.add(&e, &6u32));
    assert_eq!(list.get::<u32>(&e), Some(6));
    assert_eq!(list.buffer().bytes_len(), 8);
}

#[test]
fn add_or_set_always_stores() {
    let mut list = ComponentList::new::<u64>();
    let e = entity(4);
    assert!(list.add_or_set(&e, &1u64));
    assert!(list.has(&e));
    assert_eq!(list.get::<u64>(&e), Some(1));
    assert!(list.add_or_set(&e, &2u64));
    assert_eq!(list.get::<u64>(&e), Some(2));
    assert!(list.rm(&e));
    assert!(list.add_or_set(&e, &3u64));
    assert_eq!(list.get::<u64>(&e), Some(3));
}

#[test]
fn an_untouched_slot_counts_as_absent_for_add_or_set() {
    let mut list = ComponentList::new::<u8>();
    assert!(list.add_or_set(&entity(9), &1u8));
    assert!(!list.has(&entity(8)));
    assert!(list.add_or_set(&entity(8), &2u8));
    assert_eq!(list.get::<u8>(&entity(8)), Some(2));
    assert_eq!(list.get::<u8>(&entity(9)), Some(1));
}

#[test]
fn mismatched_type_is_refused_without_touching_the_buffer() {
    let mut list = ComponentList::new::<u32>();
    let e = entity(1);
    assert!(!list.add(&e, &42u64));
    assert_eq!(list.buffer().bytes_len(), 0);
    assert!(!list.has(&e));
    assert!(list.add(&e, &42u32));
    let before = list.buffer().bytes_len();
    assert_eq!(before, 8);
    assert!(!list.add(&entity(7), &1u64));
    assert!(!list.set(&e, &1u64));
    assert!(!list.add_or_set(&e, &1u64));
    assert!(!list.add_or_set(&entity(7), &1u16));
    assert_eq!(list.buffer().bytes_len(), before);
    assert_eq!(list.get::<u32>(&e), Some(42));
    assert_eq!(list.get::<u64>(&e), None);
    assert_eq!(list.get::<u16>(&e), None);
    assert!(list.borrow::<u64>(&e).is_none());
    assert!(list.borrow_mut::<u8>(&e).is_none());
}

#[test]
fn components_of_different_entities_do_not_interfere() {
    let mut list = ComponentList::new::<u16>();
    assert!(list.add(&entity(1), &100u16));
    assert!(list.add(&entity(3), &300u16));
    assert!(list.add(&entity(2), &200u16));
    assert_eq!(list.get::<u16>(&entity(1)), Some(100));
    assert_eq!(list.get::<u16>(&entity(2)), Some(200));
    assert_eq!(list.get::<u16>(&entity(3)), Some(300));
    assert!(!list.has(&entity(0)));
    assert!(!list.has(&entity(4)));
    assert!(list.rm(&entity(2)));
    assert_eq!(list.get::<u16>(&entity(1)), Some(100));
    assert_eq!(list.get::<u16>(&entity(3)), Some(300));
}

#[test]
fn the_uuid_plays_no_part_in_locating_a_component() {
    let mut list = ComponentList::new::<u32>();
    assert!(list.add(&Entity::new(2, 1), &5u32));
    assert!(list.has(&Entity::new(2, 99)));
    assert_eq!(list.get::<u32>(&Entity::new(2, 99)), Some(5));
}

#[test]
fn borrow_gives_the_bytes_of_a_present_component() {
    let mut list = ComponentList::new::<u32>();
    let e = entity(2);
    assert!(list.borrow::<u32>(&e).is_none());
    assert!(list.add(&e, &0x0102_0304u32));
    assert_eq!(list.borrow::<u32>(&e), Some(&[4u8, 3, 2, 1][..]));
    assert!(list.borrow::<u32>(&entity(1)).is_none());
    assert!(list.rm(&e));
    assert!(list.borrow::<u32>(&e).is_none());
}

#[test]
fn borrow_mut_lets_the_caller_change_the_component_in_place() {
    let mut list = ComponentList::new::<u32>();
    let e = entity(2);
    assert!(list.borrow_mut::<u32>(&e).is_none());
    assert!(list.add(&e, &1u32));
    assert!(list.add(&entity(3), &3u32));
    {
        let row = list.borrow_mut::<u32>(&e).unwrap();
        assert_eq!(row, &[1, 0, 0, 0]);
        row[1] = 2;
    }
    assert_eq!(list.get::<u32>(&e), Some(0x0201));
    assert_eq!(list.get::<u32>(&entity(3)), Some(3));
    assert!(list.has(&e));
}
