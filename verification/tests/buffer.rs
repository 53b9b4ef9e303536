use ecs::buffer::{Buffer, IntoBuffer};
use ecs::Component;

#[test]
fn new_buffer_is_empty_with_the_stride_of_its_type() {
    let b = Buffer::new::<u32>();
    assert_eq!(b.stride(), 4);
    assert_eq!(b.len(), 0);
    assert_eq!(b.bytes_len(), 0);
    assert!(b.as_bytes().is_empty());
    assert_eq!(Buffer::new::<u8>().stride(), 1);
    assert_eq!(Buffer::new::<u16>().stride(), 2);
    assert_eq!(Buffer::new::<u64>().stride(), 8);
}

#[test]
fn first_write_grows_from_empty_and_reads_back() {
    let mut b = Buffer::new::<u32>();
    b.write_as(0, &0xdead_beefu32);
    assert_eq!(b.len(), 1);
    assert_eq!(b.bytes_len(), 4);
    assert_eq!(b.read_as::<u32>(0), 0xdead_beef);
}

#[test]
fn write_then_read_returns_the_value_at_any_index() {
    for k in [0usize, 1, 2, 7, 100, 1000] {
        let mut b = Buffer::new::<u64>();
        b.write_as(k, &(k as u64 * 3 + 1));
        assert_eq!(b.read_as::<u64>(k), k as u64 * 3 + 1);
        assert_eq!(b.len(), k + 1);
        assert_eq!(b.bytes_len(), (k + 1) * 8);
    }
}

#[test]
fn write_beyond_the_end_zero_fills_the_skipped_rows() {
    let mut b = Buffer::new::<u16>();
    b.write_as(3, &0x1234u16);
    assert_eq!(b.len(), 4);
    assert_eq!(b.bytes_len(), 8);
    assert_eq!(b.as_bytes().as_slice(), &[0, 0, 0, 0, 0, 0, 0x34, 0x12]);
    for j in 0..3 {
        assert_eq!(b.read_as::<u16>(j), 0);
        assert_eq!(b.row(j), &[0, 0]);
    }
    assert_eq!(b.read_as::<u16>(3), 0x1234);
}

#[test]
fn rows_are_stored_in_little_endian_order() {
    let mut b = Buffer::new::<u32>();
    b.write_as(1, &0x0102_0304u32);
    assert_eq!(b.as_bytes().as_slice(), &[0, 0, 0, 0, 4, 3, 2, 1]);
}

#[test]
fn write_inside_the_buffer_keeps_length_and_other_rows() {
    let mut b = Buffer::new::<u32>();
    b.write_as(0, &10u32);
    b.write_as(1, &11u32);
    b.write_as(2, &12u32);
    b.write_as(1, &99u32);
    assert_eq!(b.len(), 3);
    assert_eq!(b.bytes_len(), 12);
    assert_eq!(b.read_as::<u32>(0), 10);
    assert_eq!(b.read_as::<u32>(1), 99);
    assert_eq!(b.read_as::<u32>(2), 12);
}

#[test]
fn growth_keeps_the_rows_that_were_there() {
    let mut b = Buffer::new::<u8>();
    b.write_as(0, &7u8);
    b.write_as(4, &9u8);
    assert_eq!(b.as_bytes().as_slice(), &[7, 0, 0, 0, 9]);
    assert_eq!(b.len(), 5);
}

#[test]
fn row_gives_the_bytes_of_one_row() {
    let mut b = Buffer::new::<u16>();
    b.write_as(0, &0x0a0bu16);
    b.write_as(1, &0x0c0du16);
    assert_eq!(b.row(0), &[0x0b, 0x0a]);
    assert_eq!(b.row(1), &[0x0d, 0x0c]);
}

#[test]
fn row_mut_changes_only_its_row() {
    let mut b = Buffer::new::<u16>();
    b.write_as(0, &1u16);
    b.write_as(1, &2u16);
    b.write_as(2, &3u16);
    {
        let row = b.row_mut(1);
        assert_eq!(row, &[2, 0]);
        row[0] = 0xff;
        row[1] = 0x01;
    }
    assert_eq!(b.read_as::<u16>(0), 1);
    assert_eq!(b.read_as::<u16>(1), 0x01ff);
    assert_eq!(b.read_as::<u16>(2), 3);
    assert_eq!(b.len(), 3);
}

#[test]
fn as_mut_slice_exposes_all_bytes() {
    let mut b = Buffer::new::<u16>();
    b.write_as(1, &0x0102u16);
    {
        let all = b.as_mut_slice();
        assert_eq!(all, &[0, 0, 2, 1]);
        all[0] = 5;
    }
    assert_eq!(b.read_as::<u16>(0), 5);
    assert_eq!(b.read_as::<u16>(1), 0x0102);
    assert_eq!(b.bytes_len(), 4);
}

#[test]
fn vec_into_buffer_holds_one_row_per_element() {
    let b = vec![1u16, 2, 0x0304].into_buffer();
    assert_eq!(b.stride(), 2);
    assert_eq!(b.len(), 3);
    assert_eq!(b.as_bytes().as_slice(), &[1, 0, 2, 0, 4, 3]);
    assert_eq!(b.read_as::<u16>(2), 0x0304);
}

#[test]
fn empty_vec_into_buffer_is_empty() {
    let b = Vec::<u64>::new().into_buffer();
    assert_eq!(b.stride(), 8);
    assert_eq!(b.len(), 0);
    assert_eq!(b.bytes_len(), 0);
}

#[test]
fn scalar_components_have_their_width_as_identifier_and_size() {
    assert_eq!((<u8 as Component>::component_id(), <u8 as Component>::size()), (8, 1));
    assert_eq!((<u16 as Component>::component_id(), <u16 as Component>::size()), (16, 2));
    assert_eq!((<u32 as Component>::component_id(), <u32 as Component>::size()), (32, 4));
    assert_eq!((<u64 as Component>::component_id(), <u64 as Component>::size()), (64, 8));
}

#[test]
fn scalar_components_round_trip_through_bytes() {
    assert_eq!(Component::to_bytes(&0xabu8), vec![0xab]);
    assert_eq!(Component::to_bytes(&0xabcdu16), vec![0xcd, 0xab]);
    assert_eq!(Component::to_bytes(&0x0102_0304u32), vec![4, 3, 2, 1]);
    assert_eq!(
        Component::to_bytes(&0x0102_0304_0506_0708u64),
        vec![8, 7, 6, 5, 4, 3, 2, 1]
    );
    assert_eq!(<u8 as Component>::from_bytes(&[0xab]), 0xab);
    assert_eq!(<u16 as Component>::from_bytes(&[0xcd, 0xab]), 0xabcd);
    assert_eq!(<u32 as Component>::from_bytes(&[4, 3, 2, 1]), 0x0102_0304);
    assert_eq!(
        <u64 as Component>::from_bytes(&[8, 7, 6, 5, 4, 3, 2, 1]),
        0x0102_0304_0506_0708
    );
    for v in [0u32, 1, 0xffff_ffff, 0x8000_0000] {
        assert_eq!(<u32 as Component>::from_bytes(&Component::to_bytes(&v)), v);
    }
}
