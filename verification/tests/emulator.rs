use osciemu::emulator::Emulator;
use osciemu::memory::address;
use osciemu::memory::{Memory, NullMemory, SliceMemory};

#[test]
fn unmounts_bios() {
    let bios = SliceMemory::from_slice(Box::new([
        address::BIOS_START_ADDRESS as i32 + 4,
        address::BIOS_START_ADDRESS as i32 + 5,
        address::FLAGS_START_ADDRESS as i32,
        0,
        2,
        0,
        0,
        0,
    ]));
    let mut emu = Emulator::from_bios_only(bios);

    assert!(!emu.is_flag_set(address::FLAG_BIOS_DONE));
    assert_eq!(emu.memory.get(address::BIOS_START_ADDRESS + 4), 2);
    emu.step();
    assert!(emu.is_flag_set(address::FLAG_BIOS_DONE));
    assert_eq!(emu.memory.get(address::BIOS_START_ADDRESS + 4), 0);
}

#[test]
fn is_halted() {
    let bios = SliceMemory::from_slice(Box::new([
        address::BIOS_START_ADDRESS as i32 + 4,
        address::BIOS_START_ADDRESS as i32 + 5,
        address::FLAGS_START_ADDRESS as i32,
        0,
        1,
        0,
        0,
        0,
    ]));
    let mut emu = Emulator::from_bios_only(bios);

    assert!(!emu.is_halted());
    emu.step();
    assert!(emu.is_halted());
}

#[test]
fn readonly_bios() {
    let bios = SliceMemory::from_slice(Box::new([
        address::BIOS_START_ADDRESS as i32 + 4,
        address::BIOS_START_ADDRESS as i32 + 5,
        address::BIOS_START_ADDRESS as i32 + 6,
        0,
        1,
        0,
        0,
        0,
    ]));
    let mut emu = Emulator::from_bios_only(bios);
    emu.step();
    assert_eq!(emu.memory.get(address::BIOS_START_ADDRESS + 6), 0);
}

#[test]
fn get_register() {
    let mut emu = Emulator::from_bios_only(NullMemory::new());
    emu.memory.set(address::REGISTERS_START_ADDRESS + 1, 101);
    emu.memory.set(address::REGISTERS_START_ADDRESS, 100);
    assert_eq!(emu.get_register(1), 101);
    assert_eq!(emu.get_register(0), 100);
}

#[test]
fn halted_stays_halted_without_steps() {
    let bios = SliceMemory::from_slice(Box::new([
        address::BIOS_START_ADDRESS as i32 + 4,
        address::BIOS_START_ADDRESS as i32 + 5,
        address::FLAGS_START_ADDRESS as i32,
        0,
        1,
        0,
    ]));
    let mut emu = Emulator::from_bios_only(bios);
    emu.step();
    for _ in 0..3 {
        assert!(emu.is_halted());
    }
    assert!(!emu.is_flag_set(address::FLAG_BIOS_DONE));
    assert_eq!(emu.ip, address::BIOS_START_ADDRESS + 4);
}

#[test]
fn bios_stays_disabled_once_the_flag_is_cleared() {
    // The first instruction stores -2 in the flag word, which sets the
    // BIOS-done flag, and jumps to 0. The second one, in main memory, clears
    // the flag word again.
    let bios = SliceMemory::from_slice(Box::new([
        address::BIOS_START_ADDRESS as i32 + 5,
        address::BIOS_START_ADDRESS as i32 + 4,
        address::FLAGS_START_ADDRESS as i32,
        0,
        2,
        0,
    ]));
    let flags = address::FLAGS_START_ADDRESS as i32;
    let img = SliceMemory::from_slice(Box::new([flags, flags, flags, 0]));
    let mut emu = Emulator::new(bios, img);
    emu.step();
    assert!(emu.is_flag_set(address::FLAG_BIOS_DONE));
    assert!(!emu.is_halted());
    assert_eq!(emu.memory.get(address::FLAGS_START_ADDRESS), -2);
    assert_eq!(emu.ip, 0);
    emu.step();
    assert!(!emu.is_flag_set(address::FLAG_BIOS_DONE));
    assert_eq!(emu.memory.get(address::BIOS_START_ADDRESS + 4), 0);
    assert_eq!(emu.ip, 0);
}

#[test]
fn boot_layout() {
    let bios = SliceMemory::from_slice(Box::new([9, 8, 7]));
    let img = SliceMemory::from_slice(Box::new([1, 2]));
    let mut emu = Emulator::new(bios, img);
    assert_eq!(emu.ip, address::BIOS_START_ADDRESS);
    assert_eq!(emu.memory.get(0), 1);
    assert_eq!(emu.memory.get(1), 2);
    assert_eq!(emu.memory.get(2), 0);
    assert_eq!(emu.memory.get(address::BIOS_START_ADDRESS), 9);
    assert_eq!(emu.memory.get(address::BIOS_START_ADDRESS + 2), 7);
    assert_eq!(emu.memory.get(address::BIOS_START_ADDRESS + 3), 0);
    assert_eq!(emu.memory.get(address::CONTROLS_ADDRESS), 0);
    assert_eq!(emu.memory.get(address::MAX_ADDRESS), 0);
    assert_eq!(emu.memory.size(), address::MAX_ADDRESS + 1);
    emu.memory.set(address::STACK_POINTER_ADDRESS, 77);
    assert_eq!(emu.memory.get(address::STACK_POINTER_ADDRESS), 77);
    emu.memory.set(address::BIOS_START_ADDRESS, 5);
    assert_eq!(emu.memory.get(address::BIOS_START_ADDRESS), 9);
    emu.memory.set(5, 5);
    assert_eq!(emu.memory.get(5), 0);
    assert!(!emu.is_halted());
}

#[test]
fn address_layout() {
    assert_eq!(address::MAX_ADDRESS, 0x7FFF_FFFF);
    assert_eq!(address::BIOS_START_ADDRESS, 0x4000_0000);
    assert_eq!(address::FLAGS_START_ADDRESS, 0x7FFF_FFFE);
    assert_eq!(address::IVT_START_ADDRESS, 0x7FFF_FFFD);
    assert_eq!(address::REGISTERS_START_ADDRESS, 0x7FFF_FFF9);
    assert_eq!(address::STACK_POINTER_ADDRESS, 0x7FFF_FFF8);
    assert_eq!(address::CONTROLS_ADDRESS, 0x7FFF_FFF8);
    assert_eq!(address::FLAG_HALTED, 0);
    assert_eq!(address::FLAG_BIOS_DONE, 1);
}

#[test]
fn can_step_tells_whether_a_step_is_served() {
    let bios = SliceMemory::from_slice(Box::new([
        address::BIOS_START_ADDRESS as i32 + 4,
        address::BIOS_START_ADDRESS as i32 + 5,
        address::FLAGS_START_ADDRESS as i32,
        0,
        1,
        0,
    ]));
    let mut emu = Emulator::from_bios_only(bios);
    assert!(emu.can_step());
    emu.step();
    assert!(emu.is_halted());
    // Behind the BIOS program lie zeros: an instruction that stores 0 at 0.
    assert!(emu.can_step());

    // An operand that cannot be negated names no address.
    let emu = Emulator::from_bios_only(SliceMemory::from_slice(Box::new([i32::MIN, 0, 0, 0])));
    assert!(!emu.can_step());

    // An indirect operand that points to a negative number is not served.
    let emu = Emulator::new(
        SliceMemory::from_slice(Box::new([-1, 0, 0, 0])),
        SliceMemory::from_slice(Box::new([0, -7])),
    );
    assert!(!emu.can_step());

    // A jump to a negative number is taken; it is the step after it that
    // finds no instruction there.
    let mut emu = Emulator::new(
        SliceMemory::from_slice(Box::new([0, 0, 0, -1])),
        SliceMemory::from_slice(Box::new([0, -7])),
    );
    assert!(emu.can_step());
    emu.step();
    assert_eq!(emu.memory.get(0), 0);
    assert_eq!(emu.ip, -7i32 as usize);
    assert_eq!(emu.ip, usize::MAX - 6);
    assert!(!emu.can_step());

    // An indirect operand that points to a zero names address 0.
    let emu = Emulator::from_bios_only(SliceMemory::from_slice(Box::new([-1, 0, 0, 0])));
    assert!(emu.can_step());
    // A target that is a negative number is an address at the far end, where
    // nothing is mounted.
    let emu = Emulator::new(
        SliceMemory::from_slice(Box::new([0, 0, -1, 0])),
        SliceMemory::from_slice(Box::new([0, -7])),
    );
    assert!(!emu.can_step());

    // The same jump operand does no harm where the jump is not taken.
    let mut emu = Emulator::new(
        SliceMemory::from_slice(Box::new([2, 0, 0, -1])),
        SliceMemory::from_slice(Box::new([0, -7, 5])),
    );
    assert!(emu.can_step());
    emu.step();
    assert_eq!(emu.memory.get(0), 5);
    assert_eq!(emu.ip, address::BIOS_START_ADDRESS + 4);

    // There is no instruction behind the last address.
    let mut emu = Emulator::from_bios_only(SliceMemory::new(4));
    emu.ip = address::MAX_ADDRESS - 2;
    assert!(!emu.can_step());
    emu.ip = address::MAX_ADDRESS - 3;
    assert!(emu.can_step());
}

#[test]
fn hex_program_subtracts_into_register_0() {
    let bios = osciemu::loader::hexloader::load(
        "
        # Calculate 0x10 - 0x3 and store it in register 0
        40000004 40000005 7FFFFFF9 0
        10 3
        ",
    )
    .unwrap();
    let mut emu = Emulator::from_bios_only(bios);
    emu.step();
    assert_eq!(emu.get_register(0), 0x10 - 0x3);
    assert_eq!(emu.get_register(0), 0xD);
    assert_eq!(emu.ip, address::BIOS_START_ADDRESS + 4);
}

#[test]
fn stepping_goes_on_after_halt() {
    // The instruction stores 1 in the flag word and, as 1 is positive, goes
    // on behind itself; the next one reads zeros and jumps to 0.
    let bios = SliceMemory::from_slice(Box::new([
        address::BIOS_START_ADDRESS as i32 + 4,
        address::BIOS_START_ADDRESS as i32 + 5,
        address::FLAGS_START_ADDRESS as i32,
        0,
        1,
        0,
    ]));
    let mut emu = Emulator::from_bios_only(bios);
    emu.step();
    assert!(emu.is_halted());
    emu.step();
    assert!(emu.is_halted());
    assert_eq!(emu.ip, 0);
}
