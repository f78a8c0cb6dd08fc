use osciemu::instruction::{to_address, Instruction};
use osciemu::memory::{Memory, NullMemory, SliceMemory};

#[test]
fn execute() {
    let mut ip = 0;
    let mut m = SliceMemory::from_slice(Box::new([1, 2, 0, 0]));
    let i = Instruction { op_a: 0, op_b: 1, target: 2, jmp: 128 };
    i.execute(&mut ip, &mut m);
    assert_eq!(m.get(2) as i32, -1);
    assert_eq!(ip, 128);

    let mut m = SliceMemory::from_slice(Box::new([1, 2, 0, 0]));
    let mut ip = 0;
    let i = Instruction { op_a: 1, op_b: 0, target: 2, jmp: 128 };
    i.execute(&mut ip, &mut m);
    assert_eq!(m.get(2), 1);
    assert_eq!(ip, 4);

    let mut m = SliceMemory::from_slice(Box::new([1, 2, 0, 0, 1, 8]));
    let mut ip = 0;
    let i = Instruction { op_a: -2, op_b: -4, target: -1, jmp: -5 };
    i.execute(&mut ip, &mut m);
    assert_eq!(m.get(2), -1);
    assert_eq!(ip, 8);
}

#[test]
fn execute_at() {
    let mut ip = 0;
    let mut m = SliceMemory::from_slice(Box::new([
        12, 13, 14, 15, 12, 12, 14, 15, 0, 0, 0, 0, 2, 1, 0, 0,
    ]));
    Instruction::execute_at(&mut ip, &mut m);
    assert_eq!(m.get(14), 1);
    assert_eq!(ip, 4);
    Instruction::execute_at(&mut ip, &mut m);
    assert_eq!(m.get(14), 0);
    assert_eq!(ip, 15);
}

#[test]
fn positive_difference_advances() {
    let mut ip = 8;
    let mut m = SliceMemory::from_slice(Box::new([5, 3, 0, 0]));
    let i = Instruction { op_a: 0, op_b: 1, target: 2, jmp: 100 };
    i.execute(&mut ip, &mut m);
    assert_eq!(m.get(2), 2);
    assert_eq!(ip, 12);
}

#[test]
fn negative_difference_jumps() {
    let mut ip = 8;
    let mut m = SliceMemory::from_slice(Box::new([3, 5, 0, 0]));
    let i = Instruction { op_a: 0, op_b: 1, target: 2, jmp: 100 };
    i.execute(&mut ip, &mut m);
    assert_eq!(m.get(2), -2);
    assert_eq!(ip, 100);
}

#[test]
fn zero_difference_jumps() {
    let mut ip = 0;
    let mut m = SliceMemory::from_slice(Box::new([7, 7, 1]));
    let i = Instruction { op_a: 0, op_b: 1, target: 2, jmp: 3 };
    i.execute(&mut ip, &mut m);
    assert_eq!(m.get(2), 0);
    assert_eq!(ip, 3);
}

#[test]
fn difference_wraps_around() {
    let mut ip = 0;
    let mut m = SliceMemory::from_slice(Box::new([i32::MIN, 1, 0]));
    let i = Instruction { op_a: 0, op_b: 1, target: 2, jmp: 9 };
    i.execute(&mut ip, &mut m);
    assert_eq!(m.get(2), i32::MAX);
    assert_eq!(ip, 4);

    let mut ip = 0;
    let mut m = SliceMemory::from_slice(Box::new([i32::MAX, -1, 0]));
    let i = Instruction { op_a: 0, op_b: 1, target: 2, jmp: 9 };
    i.execute(&mut ip, &mut m);
    assert_eq!(m.get(2), i32::MIN);
    assert_eq!(ip, 9);
}

#[test]
fn operands_are_resolved_before_the_result_is_stored() {
    // The target is the very cell that the indirect jump reads.
    let mut ip = 0;
    let mut m = SliceMemory::from_slice(Box::new([1, 5, 0, 40]));
    let i = Instruction { op_a: 0, op_b: 1, target: 3, jmp: -3 };
    i.execute(&mut ip, &mut m);
    assert_eq!(m.get(3), -4);
    assert_eq!(ip, 40);
}

#[test]
fn serialize_then_from_memory() {
    let mut m = SliceMemory::new(8);
    let i = Instruction { op_a: 11, op_b: -12, target: 13, jmp: i32::MIN };
    i.serialize(2, &mut m);
    assert_eq!(m.get(1), 0);
    assert_eq!(m.get(2), 11);
    assert_eq!(m.get(3), -12);
    assert_eq!(m.get(4), 13);
    assert_eq!(m.get(5), i32::MIN);
    assert_eq!(m.get(6), 0);
    let back = Instruction::from_memory(2, &m);
    assert_eq!(back.op_a, 11);
    assert_eq!(back.op_b, -12);
    assert_eq!(back.target, 13);
    assert_eq!(back.jmp, i32::MIN);
}

#[test]
fn jump_to_a_negative_number() {
    // The result is stored and the jump taken; the new `ip` is the number
    // widened to an address.
    let mut ip = 0;
    let mut m = SliceMemory::from_slice(Box::new([0, 0, 0, -7]));
    let i = Instruction { op_a: 0, op_b: 1, target: 2, jmp: -3 };
    i.execute(&mut ip, &mut m);
    assert_eq!(m.get(2), 0);
    assert_eq!(ip, -7i32 as usize);
    assert_eq!(ip, usize::MAX - 6);

    let mut ip = 0;
    let mut m = SliceMemory::from_slice(Box::new([0, 0, 0, 7]));
    i.execute(&mut ip, &mut m);
    assert_eq!(ip, 7);

    let mut ip = 0;
    let mut m = SliceMemory::from_slice(Box::new([0, 0, 0, i32::MIN]));
    i.execute(&mut ip, &mut m);
    assert_eq!(ip, i32::MIN as usize);
}

#[test]
fn negative_addresses_on_a_store_that_serves_them() {
    // All operands are indirect through zeros, so they name address 0; a
    // store that answers everywhere serves any word as an address.
    let mut ip = 0;
    let mut m = NullMemory::new();
    let i = Instruction { op_a: -1, op_b: -2, target: -3, jmp: -4 };
    i.execute(&mut ip, &mut m);
    assert_eq!(ip, 0);
}

#[test]
fn words_as_addresses() {
    assert_eq!(to_address(0), 0);
    assert_eq!(to_address(5), 5);
    assert_eq!(to_address(i32::MAX), 0x7FFF_FFFF);
    assert_eq!(to_address(-1), usize::MAX);
    assert_eq!(to_address(-7), usize::MAX - 6);
    assert_eq!(to_address(i32::MIN), usize::MAX - 0x7FFF_FFFF);
    assert_eq!(to_address(i32::MIN), i32::MIN as usize);
}
