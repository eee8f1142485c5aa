use filevec::error::io_outcome;
use filevec::{
    plan_growth, plan_open, Element, FVecError, Growth, OpenPlan, Slice, SliceMut, DEFAULT_PATH,
    START_CAPACITY,
};
use std::marker::PhantomData;

#[test]
fn starting_capacity_is_eight() {
    assert_eq!(START_CAPACITY, 8);
}

#[test]
fn default_path_is_in_the_working_directory() {
    assert_eq!(DEFAULT_PATH, "./filevec.bin");
}

#[test]
fn empty_file_opens_with_starting_capacity() {
    assert_eq!(plan_open::<u64>(0), Ok(OpenPlan { file_bytes: 64, capacity: 8, len: 0 }));
    assert_eq!(plan_open::<u8>(0), Ok(OpenPlan { file_bytes: 8, capacity: 8, len: 0 }));
    assert_eq!(plan_open::<u16>(0), Ok(OpenPlan { file_bytes: 16, capacity: 8, len: 0 }));
    assert_eq!(plan_open::<u32>(0), Ok(OpenPlan { file_bytes: 32, capacity: 8, len: 0 }));
    assert_eq!(plan_open::<usize>(0), Ok(OpenPlan { file_bytes: 64, capacity: 8, len: 0 }));
}

#[test]
fn file_of_whole_slots_opens_full() {
    assert_eq!(plan_open::<u64>(24), Ok(OpenPlan { file_bytes: 24, capacity: 3, len: 3 }));
    assert_eq!(plan_open::<u64>(8), Ok(OpenPlan { file_bytes: 8, capacity: 1, len: 1 }));
    assert_eq!(plan_open::<u8>(3), Ok(OpenPlan { file_bytes: 3, capacity: 3, len: 3 }));
    assert_eq!(plan_open::<u32>(4000), Ok(OpenPlan { file_bytes: 4000, capacity: 1000, len: 1000 }));
}

#[test]
fn file_ending_within_a_slot_loses_the_tail() {
    assert_eq!(plan_open::<u64>(27), Ok(OpenPlan { file_bytes: 24, capacity: 3, len: 3 }));
    assert_eq!(plan_open::<u16>(3), Ok(OpenPlan { file_bytes: 2, capacity: 1, len: 1 }));
}

#[test]
fn file_shorter_than_a_slot_opens_as_new() {
    assert_eq!(plan_open::<u64>(5), Ok(OpenPlan { file_bytes: 64, capacity: 8, len: 0 }));
    assert_eq!(plan_open::<u32>(3), Ok(OpenPlan { file_bytes: 32, capacity: 8, len: 0 }));
}

#[test]
fn growth_doubles_the_slots() {
    assert_eq!(plan_growth::<u64>(8), Ok(Growth { file_bytes: 128, capacity: 16 }));
    assert_eq!(plan_growth::<u64>(3), Ok(Growth { file_bytes: 48, capacity: 6 }));
    assert_eq!(plan_growth::<u8>(8), Ok(Growth { file_bytes: 16, capacity: 16 }));
    assert_eq!(plan_growth::<u16>(1), Ok(Growth { file_bytes: 4, capacity: 2 }));
}

#[test]
fn growth_beyond_the_address_space_fails() {
    assert_eq!(plan_growth::<u64>(usize::MAX), Err(FVecError::Mapping));
    assert_eq!(plan_growth::<u8>(usize::MAX / 2 + 1), Err(FVecError::Mapping));
    assert_eq!(plan_growth::<u64>(usize::MAX / 16 + 1), Err(FVecError::Mapping));
    assert_eq!(
        plan_growth::<u64>(usize::MAX / 16),
        Ok(Growth { file_bytes: (usize::MAX / 16 * 16) as u64, capacity: usize::MAX / 16 * 2 })
    );
}

#[test]
fn failed_write_back_is_an_io_error() {
    assert_eq!(io_outcome(Ok(())), Ok(()));
    let failure = std::io::Error::from(std::io::ErrorKind::PermissionDenied);
    assert_eq!(io_outcome(Err(failure)), Err(FVecError::Io));
}

#[test]
fn integers_are_stored_least_significant_byte_first() {
    assert_eq!(7u8.encode(), vec![7]);
    assert_eq!(0x0102u16.encode(), vec![0x02, 0x01]);
    assert_eq!(0x01020304u32.encode(), vec![0x04, 0x03, 0x02, 0x01]);
    assert_eq!(
        0x0102030405060708u64.encode(),
        vec![0x08, 0x07, 0x06, 0x05, 0x04, 0x03, 0x02, 0x01]
    );
    assert_eq!(0x0102usize.encode(), vec![0x02, 0x01, 0, 0, 0, 0, 0, 0]);
    assert_eq!(usize::MAX.encode(), (usize::MAX as u64).to_le_bytes().to_vec());
}

#[test]
fn stored_bytes_read_back_as_the_value() {
    assert_eq!(u8::decode(&[7]), 7);
    assert_eq!(u16::decode(&[0x02, 0x01]), 0x0102);
    assert_eq!(u32::decode(&[0x04, 0x03, 0x02, 0x01]), 0x01020304);
    assert_eq!(
        u64::decode(&[0x08, 0x07, 0x06, 0x05, 0x04, 0x03, 0x02, 0x01]),
        0x0102030405060708
    );
    assert_eq!(usize::decode(&[0x02, 0x01, 0, 0, 0, 0, 0, 0]), 0x0102);
    for value in [0u64, 1, 255, 256, u64::MAX - 1, u64::MAX] {
        assert_eq!(u64::decode(&value.encode()), value);
    }
    for value in [0usize, 1, 255, 256, usize::MAX] {
        assert_eq!(usize::decode(&value.encode()), value);
    }
}

#[test]
fn slot_widths() {
    assert_eq!(u8::byte_width(), 1);
    assert_eq!(u16::byte_width(), 2);
    assert_eq!(u32::byte_width(), 4);
    assert_eq!(u64::byte_width(), 8);
    assert_eq!(usize::byte_width(), 8);
}

#[test]
fn window_ranges_over_whole_slots_only() {
    let bytes = [1, 0, 2, 0, 3, 0, 4];
    let window = Slice::<u16> { bytes: &bytes, marker: PhantomData };
    assert_eq!(window.len(), 3);
    assert!(!window.is_empty());
    assert_eq!(window.to_vec(), vec![1, 2, 3]);
    assert_eq!(window.get(0), Ok(1));
    assert_eq!(window.get(2), Ok(3));
    assert_eq!(window.get(3), Err(FVecError::IndexOutOfBounds));

    let nothing = Slice::<u64> { bytes: &bytes, marker: PhantomData };
    assert_eq!(nothing.len(), 0);
    assert!(nothing.is_empty());
    assert_eq!(nothing.get(0), Err(FVecError::IndexOutOfBounds));
}

#[test]
fn window_writes_in_place() {
    let mut bytes = [1, 0, 2, 0, 3, 0, 4];
    let mut window = SliceMut::<u16> { bytes: &mut bytes, marker: PhantomData };
    assert_eq!(window.len(), 3);
    assert!(!window.is_empty());
    assert_eq!(window.set(1, 0x0a0b), Ok(()));
    assert_eq!(window.get(1), Ok(0x0a0b));
    assert_eq!(window.get(0), Ok(1));
    assert_eq!(window.get(2), Ok(3));
    assert_eq!(window.set(3, 9), Err(FVecError::IndexOutOfBounds));
    assert_eq!(bytes, [1, 0, 0x0b, 0x0a, 3, 0, 4]);
}
