use my_vec::DynamicSizeArray;
use my_vec::{ArrayLayout, GrowError, InsertError, RawDynamicSizeArray};

#[test]
fn push_pop() {
    let mut array = DynamicSizeArray::new();
    let expected = ["123", "abc"];

    array.push("abc");
    array.push("123");

    let mut i = 0;
    while let Some(s) = array.pop() {
        assert_eq!(s, expected[i]);
        i += 1;
    }
}

#[test]
fn pop_after_last_reports_empty() {
    let mut array = DynamicSizeArray::new();
    assert!(array.push_checked("abc").is_ok());
    assert!(array.push_checked("123").is_ok());
    assert_eq!(array.pop(), Some("123"));
    assert_eq!(array.pop(), Some("abc"));
    assert_eq!(array.pop(), None);
    assert!(array.is_empty());
}

#[test]
fn pushes_then_pops_come_out_reversed() {
    let mut array = DynamicSizeArray::new();
    for v in 0..100u32 {
        array.push(v);
    }
    for v in (0..100u32).rev() {
        assert_eq!(array.pop(), Some(v));
    }
    assert_eq!(array.pop(), None);
}

#[test]
fn insert_front_then_remove_back() {
    let mut array = DynamicSizeArray::new();
    array.push(10u8);
    assert_eq!(array.insert_checked(0, 20), Ok(()));
    assert_eq!(array.as_slice(), &[20, 10]);
    assert_eq!(array.remove_checked(1), Some(10));
    assert_eq!(array.as_slice(), &[20]);
}

#[test]
fn remove_right_after_insert_restores() {
    let mut array = DynamicSizeArray::new();
    for v in [1u16, 2, 3, 4] {
        array.push(v);
    }
    for i in 0..=4usize {
        assert_eq!(array.insert_checked(i, 99), Ok(()));
        assert_eq!(array.remove_checked(i), Some(99));
        assert_eq!(array.as_slice(), &[1, 2, 3, 4]);
    }
}

#[test]
fn insert_shifts_later_elements() {
    let mut array = DynamicSizeArray::new();
    for v in [1u16, 2, 3, 4] {
        array.push(v);
    }
    array.inset(2, 7);
    assert_eq!(array.as_slice(), &[1, 2, 7, 3, 4]);
    array.inset(5, 8);
    assert_eq!(array.as_slice(), &[1, 2, 7, 3, 4, 8]);
    assert_eq!(array.remove_checked(0), Some(1));
    assert_eq!(array.as_slice(), &[2, 7, 3, 4, 8]);
}

#[test]
fn out_of_bounds_leaves_array_unchanged() {
    let mut array = DynamicSizeArray::new();
    for v in [5i32, 6, 7] {
        array.push(v);
    }
    assert_eq!(array.insert_checked(4, 1), Err(InsertError::IndexOutOfBounds));
    assert_eq!(array.remove_checked(3), None);
    assert_eq!(array.length(), 3);
    assert_eq!(array.as_slice(), &[5, 6, 7]);

    let mut empty: DynamicSizeArray<i32> = DynamicSizeArray::new();
    assert_eq!(empty.insert_checked(1, 1), Err(InsertError::IndexOutOfBounds));
    assert_eq!(empty.remove_checked(0), None);
    assert_eq!(empty.length(), 0);
    assert_eq!(empty.capacity(), 0);
}

#[test]
fn capacity_starts_at_eight_then_doubles() {
    let mut array = DynamicSizeArray::new();
    assert_eq!(array.capacity(), 0);
    assert!(array.is_full());
    let mut capacities = vec![];
    for v in 0..65u64 {
        array.push(v);
        if capacities.last() != Some(&array.capacity()) {
            capacities.push(array.capacity());
        }
        assert!(array.length() <= array.capacity());
    }
    assert_eq!(capacities, vec![8, 16, 32, 64, 128]);
}

#[test]
fn growth_events_stay_logarithmic() {
    let mut array = DynamicSizeArray::new();
    let mut growths = 0u32;
    let n = 10_000u32;
    for v in 0..n {
        let before = array.capacity();
        array.push(v);
        if array.capacity() != before {
            growths += 1;
        }
    }
    assert_eq!(growths, 12);
    assert!(2u64.pow(growths) <= n as u64 + 1);
}

#[test]
fn capacity_kept_when_emptied() {
    let mut array = DynamicSizeArray::new();
    for v in 0..9u8 {
        array.push(v);
    }
    assert_eq!(array.capacity(), 16);
    while array.pop().is_some() {}
    assert_eq!(array.length(), 0);
    assert_eq!(array.capacity(), 16);
    assert!(array.is_empty());
    assert!(!array.is_full());
}

#[test]
fn full_only_when_every_slot_taken() {
    let mut array = DynamicSizeArray::new();
    for v in 0..8u8 {
        assert_eq!(array.push_checked(v), Ok(()));
    }
    assert!(array.is_full());
    assert_eq!(array.push_checked(8), Ok(()));
    assert!(!array.is_full());
    assert_eq!(array.capacity(), 16);
}

#[test]
fn heap_elements_survive_growth_and_shifts() {
    let mut array = DynamicSizeArray::new();
    for i in 0..20 {
        array.push(format!("s{}", i));
    }
    array.inset(0, String::from("first"));
    assert_eq!(array.remove_checked(10), Some(String::from("s9")));
    assert_eq!(array.length(), 20);
    assert_eq!(array.as_slice()[0], "first");
    assert_eq!(array.as_slice()[19], "s19");
}

#[test]
fn mutable_slice_writes_in_place() {
    let mut array = DynamicSizeArray::new();
    for v in [1u8, 2, 3] {
        array.push(v);
    }
    array.as_mutable_slice()[1] = 20;
    assert_eq!(array.as_slice(), &[1, 20, 3]);
    assert_eq!(array.as_mutable_slice().len(), 3);
}

#[test]
fn raw_buffer_grows_from_nothing() {
    let mut buffer: RawDynamicSizeArray<u64> = RawDynamicSizeArray::new();
    assert_eq!(buffer.capacity(), 0);
    assert_eq!(buffer.grow(), Ok(()));
    assert_eq!(buffer.capacity(), 8);
    assert_eq!(buffer.grow(), Ok(()));
    assert_eq!(buffer.capacity(), 16);
    let other: RawDynamicSizeArray<u64> = RawDynamicSizeArray::default();
    assert_eq!(other.capacity(), 0);
}

#[test]
fn raw_buffer_of_zero_sized_slots_stops_at_usize_overflow() {
    let mut buffer: RawDynamicSizeArray<()> = RawDynamicSizeArray::new();
    let mut growths = 0u32;
    while buffer.grow().is_ok() {
        growths += 1;
    }
    assert_eq!(buffer.capacity(), 1usize << (usize::BITS - 1));
    assert_eq!(growths, usize::BITS - 3);
    assert_eq!(buffer.grow(), Err(GrowError::Layout));
    assert_eq!(buffer.capacity(), 1usize << (usize::BITS - 1));
}

#[test]
fn raw_buffer_rejects_block_past_signed_range() {
    let mut buffer: RawDynamicSizeArray<[u8; 1 << 60]> = RawDynamicSizeArray::new();
    assert_eq!(buffer.grow(), Err(GrowError::AllocationTooLarge));
    assert_eq!(buffer.capacity(), 0);
}

#[test]
fn raw_buffer_reports_allocator_failure() {
    let mut buffer: RawDynamicSizeArray<[u8; 1 << 59]> = RawDynamicSizeArray::new();
    assert_eq!(
        buffer.grow(),
        Err(GrowError::AllocationFail(ArrayLayout { size: 1 << 62, align: 1 }))
    );
    assert_eq!(buffer.capacity(), 0);
}

#[test]
fn grow_error_converts_to_insert_error() {
    assert_eq!(InsertError::from(GrowError::Layout), InsertError::Grow(GrowError::Layout));
    assert_eq!(
        InsertError::from(GrowError::AllocationTooLarge),
        InsertError::Grow(GrowError::AllocationTooLarge)
    );
}
