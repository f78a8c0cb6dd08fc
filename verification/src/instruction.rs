//! osci instruction set.
//!
//! osci only has a single instruction, inspired by SUBLEQ. It has 4 operands
//! instead of 3, to separate data source and data sink, and it supports
//! indirect addressing.
//!
//! Each operand is a *signed* word of 32 bits. The operands are a set of
//! addresses called `op_a`, `op_b`, `target` and `jmp`, stored in four
//! consecutive words. If an operand is negative, it is considered indirect.
//! The execution of an instruction is described by the following pseudo-code:
//!
//! ```text
//! if(op_a < 0) op_a = *(-op_a)
//! if(op_b < 0) op_b = *(-op_b)
//! if(target < 0) target = *(-target)
//! if(jmp < 0) jmp = *(-jmp)
//!
//! *target := *op_a - *op_b
//! if (*target <= 0)
//!   GOTO jmp;
//! ```
//!
//! The difference wraps around in two's complement. Where the jump is not
//! taken, execution goes on behind the four words of the instruction.
//!
//! A word that serves as an address is widened to the width of an address, so
//! a negative one is an address at the far end of the range. Nothing is
//! mounted there in an emulator: reading or writing such an address fails, and
//! after a jump to one the next step finds no instruction.
use crate::memory::slicememory::SliceModel;
use crate::memory::{Memory, Model};
use vstd::prelude::*;

verus! {

/// Number of words that an instruction takes up.
pub const INSTRUCTION_SIZE: usize = 4;

/// Data structure for a single instruction.
pub struct Instruction {
    /// Address of operand A
    pub op_a: i32,
    /// Address of operand B
    pub op_b: i32,
    /// Address to store the result
    pub target: i32,
    /// Address to jump to when result is non-positive
    pub jmp: i32,
}

/// The four words that an instruction works on as addresses, once indirection
/// is resolved.
pub struct Operands {
    pub a: i32,
    pub b: i32,
    pub target: i32,
    pub jmp: i32,
}

/// The address that the word `word` is as a machine address: the number
/// itself, or, for a negative one, the number that the machine makes of it
/// when it widens the word to the width of an address, `word` below the end of
/// the range of `usize`.
pub open spec fn address_of(word: i32) -> usize {
    if word >= 0 {
        word as usize
    } else {
        (usize::MAX + 1 + word) as usize
    }
}

/// The word `word` as a machine address.
pub fn to_address(word: i32) -> (address: usize)
    ensures
        address == address_of(word),
{
    if word >= 0 {
        word as usize
    } else {
        usize::MAX - ((-(word as i64) - 1) as usize)
    }
}

/// Whether `operand` names an address in `mem`: it is direct, or the word
/// that it points to can be read.
pub open spec fn resolvable<S: Model>(mem: S, operand: i32) -> bool {
    operand < 0 ==> operand != i32::MIN && mem.readable((-operand) as usize)
}

/// The address that `operand` names in `mem`: the operand itself or, where it
/// is negative, the word at its negation.
pub open spec fn effective<S: Model>(mem: S, operand: i32) -> i32 {
    if operand < 0 {
        mem.read((-operand) as usize)
    } else {
        operand
    }
}

impl Instruction {
    /// Whether the four words at `addr` can be read from `mem`.
    pub open spec fn fetchable<S: Model>(mem: S, addr: usize) -> bool {
        &&& addr + 3 <= usize::MAX
        &&& mem.readable(addr)
        &&& mem.readable((addr + 1) as usize)
        &&& mem.readable((addr + 2) as usize)
        &&& mem.readable((addr + 3) as usize)
    }

    /// The instruction that the four words at `addr` hold.
    pub open spec fn decode<S: Model>(mem: S, addr: usize) -> Instruction {
        Instruction {
            op_a: mem.read(addr),
            op_b: mem.read((addr + 1) as usize),
            target: mem.read((addr + 2) as usize),
            jmp: mem.read((addr + 3) as usize),
        }
    }

    /// Whether the four words at `addr` take the instruction, one after the
    /// other.
    pub open spec fn storable<S: Model>(self, mem: S, addr: usize) -> bool {
        &&& addr + 3 <= usize::MAX
        &&& mem.writable(addr, self.op_a)
        &&& mem.writable((addr + 1) as usize, self.op_b)
        &&& mem.writable((addr + 2) as usize, self.target)
        &&& mem.writable((addr + 3) as usize, self.jmp)
    }

    /// `mem` after the instruction was written to the four words at `addr`.
    pub open spec fn stored<S: Model>(self, mem: S, addr: usize) -> S {
        mem.write(addr, self.op_a).write((addr + 1) as usize, self.op_b).write(
            (addr + 2) as usize,
            self.target,
        ).write((addr + 3) as usize, self.jmp)
    }

    /// The operands with indirection resolved, each one against `mem` as it is
    /// before the instruction runs.
    pub open spec fn operands<S: Model>(self, mem: S) -> Operands {
        Operands {
            a: effective(mem, self.op_a),
            b: effective(mem, self.op_b),
            target: effective(mem, self.target),
            jmp: effective(mem, self.jmp),
        }
    }

    /// The word that the instruction stores: the word at `a` minus the word at
    /// `b`, wrapping around.
    pub open spec fn result<S: Model>(self, mem: S) -> i32 {
        let operands = self.operands(mem);
        mem.read(address_of(operands.a)).wrapping_sub(mem.read(address_of(operands.b)))
    }

    /// Whether `mem` serves all that the instruction does when it runs at `ip`:
    /// every indirect operand can be resolved, `a` and `b` can be read and
    /// `target` written, and `ip` can advance where the jump is not taken.
    /// Where the jump is taken, any `jmp` will do: whether there is an
    /// instruction at the new `ip` is a matter of the next step.
    pub open spec fn executable<S: Model>(self, mem: S, ip: usize) -> bool {
        let operands = self.operands(mem);
        &&& resolvable(mem, self.op_a)
        &&& resolvable(mem, self.op_b)
        &&& resolvable(mem, self.target)
        &&& resolvable(mem, self.jmp)
        &&& mem.readable(address_of(operands.a))
        &&& mem.readable(address_of(operands.b))
        &&& mem.writable(address_of(operands.target), self.result(mem))
        &&& self.result(mem) > 0 ==> ip + INSTRUCTION_SIZE <= usize::MAX
    }

    /// `mem` after the instruction ran: the result stored at `target`.
    pub open spec fn executed<S: Model>(self, mem: S) -> S {
        mem.write(address_of(self.operands(mem).target), self.result(mem))
    }

    /// The instruction pointer after the instruction ran at `ip`: `jmp` where
    /// the result is not positive, else the address behind the instruction.
    pub open spec fn next_ip<S: Model>(self, mem: S, ip: usize) -> usize {
        if self.result(mem) <= 0 {
            address_of(self.operands(mem).jmp)
        } else {
            (ip + INSTRUCTION_SIZE) as usize
        }
    }

    /// Deserializes an instruction from memory at the given address.
    pub fn from_memory<M: Memory>(addr: usize, mem: &M) -> (instruction: Instruction) where
        M::V: Model,

        requires
            mem.inv(),
            Instruction::fetchable(mem@, addr),
        ensures
            instruction == Instruction::decode(mem@, addr),
    {
        Instruction {
            op_a: mem.get(addr),
            op_b: mem.get(addr + 1),
            target: mem.get(addr + 2),
            jmp: mem.get(addr + 3),
        }
    }

    /// Serializes the instruction to memory at the given address.
    pub fn serialize<M: Memory>(&self, addr: usize, mem: &mut M) where M::V: Model
        requires
            old(mem).inv(),
            self.storable(old(mem)@, addr),
        ensures
            final(mem).inv(),
            final(mem)@ == self.stored(old(mem)@, addr),
    {
        proof {
            let first = mem@.write(addr, self.op_a);
            let second = first.write((addr + 1) as usize, self.op_b);
            mem@.lemma_write_keeps_shape(addr, self.op_a);
            first.lemma_write_keeps_shape((addr + 1) as usize, self.op_b);
            second.lemma_write_keeps_shape((addr + 2) as usize, self.target);
        }
        mem.set(addr, self.op_a);
        mem.set(addr + 1, self.op_b);
        mem.set(addr + 2, self.target);
        mem.set(addr + 3, self.jmp);
    }

    /// Executes the instruction using `mem` for reads and writes and
    /// adjusting `ip` appropriately.
    pub fn execute<M: Memory>(&self, ip: &mut usize, mem: &mut M) where M::V: Model
        requires
            old(mem).inv(),
            self.executable(old(mem)@, *old(ip)),
        ensures
            final(mem).inv(),
            final(mem)@ == self.executed(old(mem)@),
            *final(ip) == self.next_ip(old(mem)@, *old(ip)),
    {
        let mut op_a = self.op_a;
        let mut op_b = self.op_b;
        let mut target = self.target;
        let mut jmp = self.jmp;

        if op_a < 0 {
            op_a = mem.get((-op_a) as usize);
        }
        if op_b < 0 {
            op_b = mem.get((-op_b) as usize);
        }
        if target < 0 {
            target = mem.get((-target) as usize);
        }
        if jmp < 0 {
            jmp = mem.get((-jmp) as usize);
        }

        let a = mem.get(to_address(op_a));
        let b = mem.get(to_address(op_b));
        let r = a.wrapping_sub(b);
        mem.set(to_address(target), r);
        *ip = if r <= 0 {
            to_address(jmp)
        } else {
            *ip + INSTRUCTION_SIZE
        }
    }

    /// Executes the instruction in memory at the given address, adjusting the
    /// `ip` appropriately.
    pub fn execute_at<M: Memory>(ip: &mut usize, mem: &mut M) where M::V: Model
        requires
            old(mem).inv(),
            Instruction::fetchable(old(mem)@, *old(ip)),
            Instruction::decode(old(mem)@, *old(ip)).executable(old(mem)@, *old(ip)),
        ensures
            final(mem).inv(),
            final(mem)@ == Instruction::decode(old(mem)@, *old(ip)).executed(old(mem)@),
            *final(ip) == Instruction::decode(old(mem)@, *old(ip)).next_ip(old(mem)@, *old(ip)),
    {
        let instr = Instruction::from_memory(*ip, mem);
        instr.execute(ip, mem);
    }
}

/// An instruction that was written to a memory of plain cells is the one that
/// is read back from there, and the cells around it are as before.
pub proof fn lemma_decode_stored(instruction: Instruction, mem: SliceModel, addr: usize, other: usize)
    requires
        instruction.storable(mem, addr),
    ensures
        Instruction::fetchable(instruction.stored(mem, addr), addr),
        Instruction::decode(instruction.stored(mem, addr), addr) == instruction,
        mem.readable(other) && (other < addr || other > addr + 3) ==> instruction.stored(
            mem,
            addr,
        ).read(other) == mem.read(other),
{
}

} // verus!
