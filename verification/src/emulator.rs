//! osci emulator.
//!
//! The `emulator` module combines the other modules to form a full-fledged
//! emulator for the osci architecture: an address space with the main memory,
//! the BIOS and the control registers in it, and an instruction pointer.
use crate::instruction::{
    address_of, effective, resolvable, to_address, Instruction, INSTRUCTION_SIZE,
};
use crate::memory::address::{
    BIOS_START_ADDRESS, CONTROLS_ADDRESS, FLAGS_START_ADDRESS, FLAG_BIOS_DONE, FLAG_HALTED,
    MAX_ADDRESS, REGISTERS_START_ADDRESS,
};
use crate::memory::mappedmemory::{
    lemma_disable_falls_through, lemma_index_of, lemma_resolve_in_range, lemma_same_spans,
    lemma_set_enabled_keeps_mounts, lemma_set_enabled_keeps_solid, lemma_solid_serves,
    lemma_write_keeps_solid, span_served, MappedModel, MemoryToken,
};
use crate::memory::nullmemory::NullModel;
use crate::memory::readonlymemory::ReadOnlyModel;
use crate::memory::slicememory::SliceModel;
use crate::memory::store::StoreModel;
use crate::memory::{
    solid, MappedMemory, Memory, Model, NullMemory, ReadOnlyMemory, SliceMemory, Store,
};
use vstd::prelude::*;

verus! {

/// The address of the flag word that holds the flag `flag_idx`.
pub open spec fn flag_address(flag_idx: usize) -> int {
    FLAGS_START_ADDRESS + flag_idx / 32
}

/// Whether the flag `flag_idx` is set in `mem`: each flag word holds 32 flags,
/// the first of them in its lowest bit.
pub open spec fn flag_set<S: Model>(mem: S, flag_idx: usize) -> bool {
    mem.read(flag_address(flag_idx) as usize) & (1i32 << (flag_idx % 32)) != 0
}

/// Whether an entry other than the one at `bios` answers for the first flag
/// word, and serves reading it.
pub open spec fn flags_apart<S: Model>(mem: MappedModel<S>, bios: int) -> bool {
    mem.resolve(FLAGS_START_ADDRESS) matches Some(i) && i != bios && mem.entries[i].memory.readable(
        mem.local(i, FLAGS_START_ADDRESS),
    )
}

/// `mem` once the BIOS-done flag was looked at: where the flag is set and the
/// BIOS, the entry at `bios`, is still enabled, the BIOS is disabled. Nothing
/// enables it again.
pub open spec fn after_boot_check<S: Model>(mem: MappedModel<S>, bios: int) -> MappedModel<S> {
    if flag_set(mem, FLAG_BIOS_DONE) && mem.entries[bios].enabled {
        mem.set_enabled(bios, false)
    } else {
        mem
    }
}

/// The address space of a new emulator: a `NullMemory` below everything, the
/// main memory at 0, the BIOS, read-only, at `BIOS_START_ADDRESS`, and on top
/// the control registers, all zero, from `CONTROLS_ADDRESS` up to
/// `MAX_ADDRESS`.
pub open spec fn boot_layout<B: Model, I: Model>(bios: B, img: I) -> MappedModel<StoreModel<B, I>> {
    MappedModel::<StoreModel<B, I>>::empty().mount(0, StoreModel::Null(NullModel)).mount(
        0,
        StoreModel::Other(img),
    ).mount(BIOS_START_ADDRESS, StoreModel::ReadOnly(ReadOnlyModel { inner: bios })).mount(
        CONTROLS_ADDRESS,
        StoreModel::Slice(SliceModel::zeroed(8)),
    )
}

/// Emulator for osci.
pub struct Emulator<B, I> {
    /// Token of the BIOS in `memory`
    pub bios_memory_token: MemoryToken,
    /// Memory
    pub memory: MappedMemory<Store<B, I>>,
    /// Instruction pointer
    pub ip: usize,
}

impl<B: Memory> Emulator<B, SliceMemory> where B::V: Model {
    /// Initializes an `Emulator` with the given BIOS.
    ///
    /// Equivalent to calling `new()` with an empty `SliceMemory` as the main memory.
    pub fn from_bios_only(bios: B) -> (emulator: Emulator<B, SliceMemory>)
        requires
            bios.inv(),
            BIOS_START_ADDRESS + bios@.size() <= usize::MAX,
        ensures
            emulator.wf(),
            emulator.ip == BIOS_START_ADDRESS,
            emulator.memory@ == boot_layout(bios@, SliceModel::zeroed(0)),
            emulator.bios_index() == 2,
            solid(bios@) ==> emulator.memory@.solid(),
    {
        Emulator::new(bios, SliceMemory::new(0))
    }
}

impl<B: Memory, I: Memory> Emulator<B, I> where B::V: Model, I::V: Model {
    /// The position of the BIOS among the entries of the address space.
    pub open spec fn bios_index(&self) -> int {
        self.memory@.index_of(self.bios_memory_token@)
    }

    /// What holds of an emulator between steps: its address space is fit for
    /// use, the BIOS is mounted in it, and the first flag word can be read
    /// whether the BIOS is enabled or not.
    pub open spec fn wf(&self) -> bool {
        &&& self.memory.inv()
        &&& self.memory@.mounted(self.bios_memory_token@)
        &&& flags_apart(self.memory@, self.bios_index())
    }

    /// Whether the emulator can take a step: the instruction at `ip` can be
    /// read, and the address space serves all that the instruction does.
    pub open spec fn spec_can_step(&self) -> bool {
        &&& Instruction::fetchable(self.memory@, self.ip)
        &&& Instruction::decode(self.memory@, self.ip).executable(self.memory@, self.ip)
    }

    /// Initializes an `Emulator` with the given BIOS and main memory.
    ///
    /// The BIOS must end at an address that `usize` holds.
    pub fn new(bios: B, img: I) -> (emulator: Emulator<B, I>)
        requires
            bios.inv(),
            img.inv(),
            BIOS_START_ADDRESS + bios@.size() <= usize::MAX,
        ensures
            emulator.wf(),
            emulator.ip == BIOS_START_ADDRESS,
            emulator.memory@ == boot_layout(bios@, img@),
            emulator.bios_index() == 2,
            solid(bios@) && solid(img@) ==> emulator.memory@.solid(),
    {
        let mut memory = MappedMemory::new();
        memory.mount(0, Store::Null(NullMemory::new()));

        memory.mount(0, Store::Other(img));
        let bios_memory_token = memory.mount(
            BIOS_START_ADDRESS,
            Store::ReadOnly(ReadOnlyMemory::new(bios)),
        );

        let controls_memory = SliceMemory::new(MAX_ADDRESS - CONTROLS_ADDRESS + 1);
        memory.mount(CONTROLS_ADDRESS, Store::Slice(controls_memory));

        proof {
            assert(memory@.entries[2].id == 2);
            lemma_index_of(memory@, 2);
            assert(memory@.entries[3].serves(FLAGS_START_ADDRESS));
            if solid(bios@) && solid(img@) {
                assert(span_served(memory@.entries[0]));
                assert(span_served(memory@.entries[1]));
                assert(span_served(memory@.entries[2]));
                assert(span_served(memory@.entries[3]));
            }
        }
        Emulator { memory, bios_memory_token, ip: BIOS_START_ADDRESS }
    }

    /// Checks if a flag is set.
    ///
    /// Use with the constants from `memory::address`.
    pub fn is_flag_set(&self, flag_idx: usize) -> (set: bool)
        requires
            self.memory.inv(),
            self.memory@.readable(flag_address(flag_idx) as usize),
        ensures
            set == flag_set(self.memory@, flag_idx),
    {
        let bit = flag_idx % 32;
        self.memory.get(FLAGS_START_ADDRESS + flag_idx / 32) & (1 << bit) != 0
    }

    /// Gets the current value of the given register.
    pub fn get_register(&self, reg_idx: usize) -> (value: i32)
        requires
            self.memory.inv(),
            REGISTERS_START_ADDRESS + reg_idx <= usize::MAX,
            self.memory@.readable((REGISTERS_START_ADDRESS + reg_idx) as usize),
        ensures
            value == self.memory@.read((REGISTERS_START_ADDRESS + reg_idx) as usize),
    {
        self.memory.get(REGISTERS_START_ADDRESS + reg_idx)
    }

    /// The address that `operand` names, if it names one.
    fn effective_operand(&self, operand: i32) -> (address: Option<i32>)
        requires
            self.memory.inv(),
            self.memory@.solid(),
        ensures
            match address {
                Some(a) => resolvable(self.memory@, operand) && a == effective(
                    self.memory@,
                    operand,
                ),
                None => !resolvable(self.memory@, operand),
            },
    {
        if operand >= 0 {
            Some(operand)
        } else if operand == i32::MIN {
            None
        } else {
            let addr = (-operand) as usize;
            proof {
                lemma_solid_serves(self.memory@, addr, 0);
            }
            if self.memory.resolves(addr) {
                Some(self.memory.get(addr))
            } else {
                None
            }
        }
    }

    /// Whether the word `word`, taken as an address, resolves.
    fn served(&self, word: i32) -> (served: bool)
        requires
            self.memory.inv(),
            self.memory@.solid(),
        ensures
            served == self.memory@.readable(address_of(word)),
            served == (forall|value: i32| #[trigger]
                self.memory@.writable(address_of(word), value)),
    {
        let address = to_address(word);
        proof {
            assert forall|value: i32| #[trigger]
                self.memory@.writable(address, value) == self.memory@.resolve(address).is_some() by {
                lemma_solid_serves(self.memory@, address, value);
            }
            lemma_solid_serves(self.memory@, address, 0);
        }
        self.memory.resolves(address)
    }

    /// Whether the emulator can take a step.
    ///
    /// Where the stores serve their spans, all it takes to find out is to
    /// resolve the addresses that the step would use.
    #[verifier::when_used_as_spec(spec_can_step)]
    pub fn can_step(&self) -> (possible: bool)
        requires
            self.memory.inv(),
            self.memory@.solid(),
        ensures
            possible == self.spec_can_step(),
    {
        let ip = self.ip;
        if ip > usize::MAX - 3 {
            return false;
        }
        proof {
            lemma_solid_serves(self.memory@, ip, 0);
            lemma_solid_serves(self.memory@, (ip + 1) as usize, 0);
            lemma_solid_serves(self.memory@, (ip + 2) as usize, 0);
            lemma_solid_serves(self.memory@, (ip + 3) as usize, 0);
        }
        if !(self.memory.resolves(ip) && self.memory.resolves(ip + 1) && self.memory.resolves(
            ip + 2,
        ) && self.memory.resolves(ip + 3)) {
            return false;
        }
        let instr = Instruction::from_memory(ip, &self.memory);
        let a = match self.effective_operand(instr.op_a) {
            Some(a) => a,
            None => { return false; },
        };
        let b = match self.effective_operand(instr.op_b) {
            Some(b) => b,
            None => { return false; },
        };
        let target = match self.effective_operand(instr.target) {
            Some(target) => target,
            None => { return false; },
        };
        if self.effective_operand(instr.jmp).is_none() {
            return false;
        }
        proof {
            lemma_solid_serves(self.memory@, address_of(target), instr.result(self.memory@));
        }
        if !(self.served(a) && self.served(b) && self.served(target)) {
            return false;
        }
        let result = self.memory.get(to_address(a)).wrapping_sub(self.memory.get(to_address(b)));
        result <= 0 || ip <= usize::MAX - INSTRUCTION_SIZE
    }

    /// Executes one cycle: the instruction at `ip` runs, and then the BIOS is
    /// disabled if the instruction has left the BIOS-done flag set.
    ///
    /// This method will execute a cycle even if the halted flag is set.
    pub fn step(&mut self)
        requires
            old(self).wf(),
            old(self).spec_can_step(),
        ensures
            final(self).wf(),
            final(self).bios_memory_token == old(self).bios_memory_token,
            final(self).bios_index() == old(self).bios_index(),
            final(self).ip == Instruction::decode(old(self).memory@, old(self).ip).next_ip(
                old(self).memory@,
                old(self).ip,
            ),
            final(self).memory@ == after_boot_check(
                Instruction::decode(old(self).memory@, old(self).ip).executed(old(self).memory@),
                old(self).bios_index(),
            ),
            old(self).memory@.solid() ==> final(self).memory@.solid(),
    {
        let instr = Instruction::from_memory(self.ip, &self.memory);
        proof {
            let before = self.memory@;
            let operands = instr.operands(before);
            let after = instr.executed(before);
            if before.solid() {
                lemma_write_keeps_solid(before, address_of(operands.target), instr.result(before));
            }
            before.lemma_write_keeps_shape(address_of(operands.target), instr.result(before));
            lemma_resolve_in_range(before, address_of(operands.target), before.entries.len() as int);
            lemma_same_spans(before, after);
            assert(after.mounted(self.bios_memory_token@));
            assert(after.resolve(FLAGS_START_ADDRESS) == before.resolve(FLAGS_START_ADDRESS));
            assert(after.readable(FLAGS_START_ADDRESS) == before.readable(FLAGS_START_ADDRESS));
            assert(flags_apart(after, after.index_of(self.bios_memory_token@)));
        }
        instr.execute(&mut self.ip, &mut self.memory);

        self.check_bios_mount()
    }

    fn is_bios_mounted(&self) -> (enabled: bool)
        requires
            self.wf(),
        ensures
            enabled == self.memory@.entries[self.bios_index()].enabled,
    {
        self.memory.is_enabled_mount(&self.bios_memory_token)
    }

    fn check_bios_mount(&mut self)
        requires
            old(self).wf(),
        ensures
            final(self).wf(),
            final(self).bios_memory_token == old(self).bios_memory_token,
            final(self).bios_index() == old(self).bios_index(),
            final(self).ip == old(self).ip,
            final(self).memory@ == after_boot_check(old(self).memory@, old(self).bios_index()),
            old(self).memory@.solid() ==> final(self).memory@.solid(),
    {
        if self.is_flag_set(FLAG_BIOS_DONE) && self.is_bios_mounted() {
            proof {
                let before = self.memory@;
                let bios = self.bios_index();
                if before.solid() {
                    lemma_set_enabled_keeps_solid(before, bios, false);
                }
                lemma_set_enabled_keeps_mounts(before, bios, false);
                lemma_disable_falls_through(before, bios, FLAGS_START_ADDRESS);
            }
            self.memory.disable_mount(&self.bios_memory_token);
            proof {
                let before = old(self).memory@;
                let flags = before.resolve(FLAGS_START_ADDRESS)->0;
                lemma_resolve_in_range(before, FLAGS_START_ADDRESS, before.entries.len() as int);
                assert(self.memory@.entries[flags] == before.entries[flags]);
            }
        }
    }

    /// Checks if the halted flag is set.
    ///
    /// Equivalent to calling `is_flag_set(FLAG_HALTED)`.
    pub fn is_halted(&self) -> (halted: bool)
        requires
            self.wf(),
        ensures
            halted == flag_set(self.memory@, FLAG_HALTED),
    {
        self.is_flag_set(FLAG_HALTED)
    }
}

/// While the BIOS is enabled, it answers for the addresses of its span. Once
/// it is disabled, these addresses show what lies below it: the main memory as
/// far as it reaches, and zeros behind it.
pub proof fn lemma_disabled_bios_uncovers_main_memory<B: Model, I: Model>(
    bios: B,
    img: I,
    addr: usize,
)
    requires
        BIOS_START_ADDRESS <= addr < CONTROLS_ADDRESS,
    ensures
        addr < BIOS_START_ADDRESS + bios.size() ==> boot_layout(bios, img).read(addr) == bios.read(
            (addr - BIOS_START_ADDRESS) as usize,
        ),
        boot_layout(bios, img).set_enabled(2, false).read(addr) == if addr < img.size() {
            img.read(addr)
        } else {
            0
        },
{
    reveal_with_fuel(MappedModel::resolve_below, 5);
    let booted = boot_layout(bios, img);
    let uncovered = booted.set_enabled(2, false);
    assert(!booted.entries[3].serves(addr));
    assert(!uncovered.entries[3].serves(addr));
    assert(!uncovered.entries[2].serves(addr));
    assert(uncovered.entries[0].serves(addr));
}

/// In the address space of a new emulator every address up to `MAX_ADDRESS`
/// resolves, whether the BIOS is enabled or not: below all else lies the
/// `NullMemory`, and the control registers reach up to `MAX_ADDRESS`.
pub proof fn lemma_every_address_resolves<B: Model, I: Model>(
    bios: B,
    img: I,
    addr: usize,
    bios_enabled: bool,
)
    requires
        addr <= MAX_ADDRESS,
    ensures
        boot_layout(bios, img).set_enabled(2, bios_enabled).resolve(addr) is Some,
{
    reveal_with_fuel(MappedModel::resolve_below, 5);
    let layout = boot_layout(bios, img).set_enabled(2, bios_enabled);
    if addr >= CONTROLS_ADDRESS {
        assert(layout.entries[3].serves(addr));
    } else {
        assert(layout.entries[0].serves(addr));
    }
}

/// A step never enables an entry: whatever the instruction writes, and
/// whatever the BIOS-done flag is afterwards, an entry that was disabled
/// before the step is disabled after it. So the BIOS stays disabled once it
/// was disabled.
pub proof fn lemma_step_enables_nothing<S: Model>(
    mem: MappedModel<S>,
    instruction: Instruction,
    ip: usize,
    bios: int,
    index: int,
)
    requires
        instruction.executable(mem, ip),
        0 <= bios < mem.entries.len(),
        0 <= index < mem.entries.len(),
        !mem.entries[index].enabled,
    ensures
        after_boot_check(instruction.executed(mem), bios).entries.len() == mem.entries.len(),
        !after_boot_check(instruction.executed(mem), bios).entries[index].enabled,
{
    lemma_resolve_in_range(
        mem,
        address_of(instruction.operands(mem).target),
        mem.entries.len() as int,
    );
}

} // verus!
