use osciemu::memory::{MappedMemory, Memory, NullMemory, ReadOnlyMemory, SliceMemory, Store};

type Mixed = Store<SliceMemory, SliceMemory>;

fn slice(words: &[i32]) -> SliceMemory {
    SliceMemory::from_slice(words.to_vec().into_boxed_slice())
}

#[test]
fn nullmemory_read() {
    let m = NullMemory::new();
    assert_eq!(m.get(0), 0);
    assert_eq!(m.get(123), 0);
}

#[test]
fn nullmemory_write() {
    let mut m = NullMemory::new();
    assert_eq!(m.get(0), 0);
    m.set(0, 4);
    assert_eq!(m.get(0), 0);
}

#[test]
fn nullmemory_spans_the_address_range() {
    let m = NullMemory::new();
    assert_eq!(m.size(), 0x7FFF_FFFF);
    assert_eq!(m.get(0x7FFF_FFFE), 0);
}

#[test]
fn readonlymemory_read() {
    let sm = SliceMemory::from_slice(Box::new([0, 1, 2, 3]));
    let m = ReadOnlyMemory::new(sm);
    assert_eq!(m.get(0), 0);
    assert_eq!(m.get(3), 3);
}

#[test]
fn readonlymemory_write() {
    let sm = SliceMemory::from_slice(Box::new([0, 1, 2, 3]));
    let mut m = ReadOnlyMemory::new(sm);
    m.set(0, 9);
    assert_eq!(m.get(0), 0);
    m.set(3, 4);
    assert_eq!(m.get(3), 3);
}

#[test]
fn readonlymemory_size() {
    let sm = SliceMemory::from_slice(Box::new([0, 1, 2, 3]));
    let m = ReadOnlyMemory::new(sm);
    assert_eq!(m.size(), 4);
}

#[test]
fn slicememory_get_and_set() {
    let mut m = SliceMemory::new(16);
    for i in 0..4 {
        m.set(i, i as i32);
    }
    for i in 0..4 {
        assert_eq!(m.get(i), i as i32);
    }
}

#[test]
fn from_slice() {
    let s = Box::new([0, 1, 2, 3, 4, 5, 6, 7]);
    let m = SliceMemory::from_slice(s);
    assert_eq!(m.get(0), 0);
    assert_eq!(m.get(4), 4);
}

#[test]
fn slicememory_size() {
    let m = SliceMemory::new(16);
    assert_eq!(m.size(), 16);

    let m = SliceMemory::from_slice(Box::new([1, 2, 3, 4]));
    assert_eq!(m.size(), 4);
}

#[test]
fn slicememory_new_is_zeroed() {
    let m = SliceMemory::new(5);
    for i in 0..5 {
        assert_eq!(m.get(i), 0);
    }
    assert_eq!(SliceMemory::new(0).size(), 0);
}

#[test]
fn slicememory_write_leaves_other_cells() {
    let mut m = slice(&[7, 8, 9]);
    m.set(1, -1);
    assert_eq!(m.get(0), 7);
    assert_eq!(m.get(1), -1);
    assert_eq!(m.get(2), 9);
    assert_eq!(m.size(), 3);
}

#[test]
fn overlapping_mounts() {
    let mut mm: MappedMemory<Mixed> = MappedMemory::new();
    let _m1 = mm.mount(0, Store::Null(NullMemory::new()));
    let _m2 = mm.mount(1, Store::Slice(SliceMemory::from_slice(Box::new([2, 2]))));
    let _m3 = mm.mount(2, Store::Slice(SliceMemory::from_slice(Box::new([3]))));
    assert_eq!(mm.get(0), 0);
    assert_eq!(mm.get(1), 2);
    assert_eq!(mm.get(2), 3);
    assert_eq!(mm.get(3), 0);
}

#[test]
fn mappedmemory_get_and_set() {
    let mut mm = MappedMemory::new();
    let m1 = mm.mount(0, SliceMemory::from_slice(Box::new([1])));
    let m2 = mm.mount(2, SliceMemory::from_slice(Box::new([2, 2])));

    assert_eq!(mm.get(0), 1);
    assert_eq!(mm.get(2), 2);

    mm.set(0, 3);
    assert_eq!(mm.get(0), 3);

    mm.set(3, 0);
    assert_eq!(mm.get(3), 0);
    assert_eq!(mm.borrow(&m1).get(0), 3);
    assert_eq!(mm.borrow(&m2).get(1), 0);
}

#[test]
fn mappedmemory_size() {
    let mut mm = MappedMemory::new();
    let m1 = SliceMemory::from_slice(Box::new([1]));
    let m2 = SliceMemory::from_slice(Box::new([2, 2]));
    assert_eq!(mm.size(), 0);

    mm.mount(0, m1);
    assert_eq!(mm.size(), 1);

    mm.mount(2, m2);
    assert_eq!(mm.size(), 4);
}

#[test]
fn size_with_overlap() {
    let mut mm = MappedMemory::new();
    let m1 = SliceMemory::from_slice(Box::new([1, 1, 1, 1, 1]));
    let m2 = SliceMemory::from_slice(Box::new([2, 2]));
    let m3 = SliceMemory::from_slice(Box::new([3, 3, 3]));

    mm.mount(0, m1);
    mm.mount(2, m2);
    assert_eq!(mm.size(), 5);

    mm.mount(6, m3);
    assert_eq!(mm.size(), 9);
}

#[test]
fn size_skips_disabled_mounts() {
    let mut mm = MappedMemory::new();
    let _low = mm.mount(0, slice(&[1, 1]));
    let high = mm.mount(10, slice(&[2, 2, 2]));
    assert_eq!(mm.size(), 13);
    mm.disable_mount(&high);
    assert_eq!(mm.size(), 2);
    mm.enable_mount(&high);
    assert_eq!(mm.size(), 13);
}

#[test]
fn disable_mount() {
    let mut mm = MappedMemory::new();
    let m1 = mm.mount(0, SliceMemory::from_slice(Box::new([1, 1, 1, 1, 1])));
    let _m2 = mm.mount(0, SliceMemory::from_slice(Box::new([2, 2, 2, 2, 2])));
    let m3 = mm.mount(0, SliceMemory::from_slice(Box::new([3, 3, 3, 3, 3])));

    for i in 0..5 {
        assert_eq!(mm.get(i), 3);
    }
    mm.disable_mount(&m3);
    for i in 0..5 {
        assert_eq!(mm.get(i), 2);
    }
    mm.disable_mount(&m1);
    for i in 0..5 {
        assert_eq!(mm.get(i), 2);
    }
}

#[test]
fn enable_mount() {
    let mut mm = MappedMemory::new();
    let _m1 = mm.mount(0, SliceMemory::from_slice(Box::new([1, 1, 1, 1, 1])));
    let m2 = mm.mount(0, SliceMemory::from_slice(Box::new([2, 2, 2, 2, 2])));

    for i in 0..5 {
        assert_eq!(mm.get(i), 2);
    }
    mm.disable_mount(&m2);
    for i in 0..5 {
        assert_eq!(mm.get(i), 1);
    }
    mm.enable_mount(&m2);
    for i in 0..5 {
        assert_eq!(mm.get(i), 2);
    }
}

#[test]
fn unmount() {
    let mut mm = MappedMemory::new();
    let _m1 = mm.mount(0, SliceMemory::from_slice(Box::new([1, 1, 1, 1, 1])));
    let m2 = mm.mount(0, SliceMemory::from_slice(Box::new([2, 2, 2, 2, 2])));

    for i in 0..5 {
        assert_eq!(mm.get(i), 2);
    }
    let m2 = mm.unmount(m2).unwrap();
    for i in 0..5 {
        assert_eq!(mm.get(i), 1);
        assert_eq!(m2.get(i), 2);
    }
}

#[test]
fn unmount_twice_is_harmless() {
    let mut mm = MappedMemory::new();
    let _m1 = mm.mount(0, slice(&[1, 1]));
    let m2 = mm.mount(0, slice(&[2, 2]));
    let again = m2.clone();

    assert!(mm.unmount(m2).is_some());
    assert!(mm.unmount(again).is_none());
    assert_eq!(mm.get(0), 1);
    assert_eq!(mm.get(1), 1);
    assert_eq!(mm.size(), 2);
}

#[test]
fn unmount_gives_the_store_back_with_what_was_written() {
    let mut mm = MappedMemory::new();
    let base = mm.mount(0, slice(&[0, 0, 0]));
    let top = mm.mount(1, slice(&[5, 6]));
    mm.set(1, 50);
    mm.set(0, 9);
    let top = mm.unmount(top).unwrap();
    assert_eq!(top.get(0), 50);
    assert_eq!(top.get(1), 6);
    assert_eq!(mm.get(1), 0);
    let base = mm.unmount(base).unwrap();
    assert_eq!(base.get(0), 9);
    assert_eq!(mm.size(), 0);
}

#[test]
fn tokens_stay_valid_when_another_store_is_unmounted() {
    let mut mm = MappedMemory::new();
    let first = mm.mount(0, slice(&[1]));
    let second = mm.mount(1, slice(&[2]));
    let third = mm.mount(2, slice(&[3]));
    assert!(mm.unmount(first).is_some());
    assert_eq!(mm.borrow(&second).get(0), 2);
    assert_eq!(mm.borrow(&third).get(0), 3);
    let fourth = mm.mount(0, slice(&[4]));
    assert_eq!(mm.borrow(&fourth).get(0), 4);
    assert_eq!(mm.borrow(&second).get(0), 2);
    assert_eq!(mm.get(0), 4);
}

#[test]
fn is_enabled_mount() {
    let mut mm = MappedMemory::new();
    let _m1 = mm.mount(0, SliceMemory::from_slice(Box::new([1, 1, 1, 1, 1])));
    let m2 = mm.mount(0, SliceMemory::from_slice(Box::new([2, 2, 2, 2, 2])));

    assert!(mm.is_enabled_mount(&m2));
    mm.disable_mount(&m2);
    assert!(!mm.is_enabled_mount(&m2));
    mm.enable_mount(&m2);
    assert!(mm.is_enabled_mount(&m2));
}

#[test]
fn borrow_reaches_a_disabled_store() {
    let mut mm: MappedMemory<Mixed> = MappedMemory::new();
    let _m1 = mm.mount(0, Store::Null(NullMemory::new()));
    let m2 = mm.mount(0, Store::Slice(slice(&[1, 2, 3, 4])));
    mm.set(0, 99);
    assert_eq!(mm.get(0), 99);
    assert_eq!(mm.borrow(&m2).get(0), 99);
    mm.disable_mount(&m2);
    assert_eq!(mm.get(0), 0);
    assert_eq!(mm.borrow(&m2).get(0), 99);
}

#[test]
fn borrow_mut_writes_past_the_address_space() {
    let mut mm = MappedMemory::new();
    let low = mm.mount(0, slice(&[1, 2]));
    let _top = mm.mount(0, slice(&[7]));
    mm.borrow_mut(&low).set(0, 5);
    assert_eq!(mm.get(0), 7);
    assert_eq!(mm.borrow(&low).get(0), 5);
    assert_eq!(mm.get(1), 2);
}

#[test]
fn writes_go_to_the_store_that_answers() {
    let mut mm: MappedMemory<Mixed> = MappedMemory::new();
    let low = mm.mount(0, Store::Slice(slice(&[1, 1, 1])));
    let rom = mm.mount(1, Store::ReadOnly(ReadOnlyMemory::new(slice(&[8]))));
    mm.set(1, 4);
    assert_eq!(mm.get(1), 8);
    assert_eq!(mm.borrow(&low).get(1), 1);
    mm.disable_mount(&rom);
    assert_eq!(mm.get(1), 1);
    mm.set(1, 4);
    assert_eq!(mm.get(1), 4);
    mm.enable_mount(&rom);
    assert_eq!(mm.get(1), 8);
}

#[test]
fn mounted_store_sees_local_addresses() {
    let mut mm = MappedMemory::new();
    let _a = mm.mount(0x100, slice(&[10, 11, 12]));
    let _b = mm.mount(0x200, slice(&[20, 21, 22, 23, 24, 25, 26, 27, 28]));
    assert_eq!(mm.get(0x208), 28);
    assert_eq!(mm.get(0x102), 12);
    assert_eq!(mm.size(), 0x209);
}

#[test]
fn resolves_tells_whether_an_address_is_answered() {
    let mut mm = MappedMemory::new();
    assert!(!mm.resolves(0));
    let low = mm.mount(1, slice(&[1, 1]));
    assert!(!mm.resolves(0));
    assert!(mm.resolves(1));
    assert!(mm.resolves(2));
    assert!(!mm.resolves(3));
    assert!(!mm.resolves(usize::MAX));
    mm.disable_mount(&low);
    assert!(!mm.resolves(1));
}

#[test]
fn empty_store_answers_nowhere() {
    let mut mm = MappedMemory::new();
    let _base = mm.mount(0, slice(&[1, 2, 3]));
    let _none = mm.mount(1, slice(&[]));
    assert_eq!(mm.get(1), 2);
    assert_eq!(mm.size(), 3);
}
