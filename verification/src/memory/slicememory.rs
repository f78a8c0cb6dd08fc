//! Memory backed by an array of words.
use crate::memory::{Memory, Model};
use vstd::prelude::*;
use vstd::slice::slice_to_vec;

verus! {

/// Simple slice-based memory implementation.
///
/// The memory has a fixed number of cells. An access beyond them is an error
/// of the caller: `get` and `set` are only served below `size()`.
pub struct SliceMemory(pub Vec<i32>);

/// The model of a `SliceMemory`: its cells in order.
pub struct SliceModel {
    pub cells: Seq<i32>,
}

impl Model for SliceModel {
    open spec fn size(self) -> usize {
        self.cells.len() as usize
    }

    open spec fn readable(self, addr: usize) -> bool {
        addr < self.cells.len()
    }

    open spec fn read(self, addr: usize) -> i32 {
        self.cells[addr as int]
    }

    open spec fn writable(self, addr: usize, value: i32) -> bool {
        addr < self.cells.len()
    }

    open spec fn write(self, addr: usize, value: i32) -> Self {
        SliceModel { cells: self.cells.update(addr as int, value) }
    }

    proof fn lemma_write_keeps_shape(self, addr: usize, value: i32) {
    }
}

impl SliceModel {
    /// A memory of `size` cells that all hold zero.
    pub open spec fn zeroed(size: usize) -> SliceModel {
        SliceModel { cells: Seq::new(size as nat, |i: int| 0i32) }
    }
}

impl View for SliceMemory {
    type V = SliceModel;

    open spec fn view(&self) -> SliceModel {
        SliceModel { cells: self.0@ }
    }
}

impl SliceMemory {
    /// Creates a new `SliceMemory` of `size` cells, all of them zero.
    pub fn new(size: usize) -> (memory: SliceMemory)
        ensures
            memory.inv(),
            memory@ == SliceModel::zeroed(size),
    {
        let mut v: Vec<i32> = Vec::new();
        let mut i: usize = 0;
        while i < size
            invariant
                i <= size,
                v@.len() == i,
                forall|j: int| 0 <= j < i ==> v@[j] == 0,
            decreases size - i,
        {
            v.push(0);
            i += 1;
        }
        assert(v@ =~= SliceModel::zeroed(size).cells);
        SliceMemory(v)
    }

    /// Initializes the new memory with the given slice data.
    pub fn from_slice(data: Box<[i32]>) -> (memory: SliceMemory)
        ensures
            memory.inv(),
            memory@.cells == data@,
    {
        SliceMemory(slice_to_vec(&*data))
    }
}

impl Memory for SliceMemory {
    open spec fn inv(&self) -> bool {
        true
    }

    fn get(&self, addr: usize) -> (value: i32) {
        self.0[addr]
    }

    fn set(&mut self, addr: usize, value: i32) {
        self.0[addr] = value;
    }

    fn size(&self) -> (size: usize) {
        self.0.len()
    }
}

/// A cell holds what was last written to it: after `value` was written at an
/// address of the memory, a read there yields `value`, and every other cell
/// reads as before.
pub proof fn lemma_read_after_write(memory: SliceModel, addr: usize, value: i32, other: usize)
    requires
        memory.writable(addr, value),
    ensures
        memory.write(addr, value).readable(addr),
        memory.write(addr, value).read(addr) == value,
        other != addr && memory.readable(other) ==> memory.write(addr, value).read(other)
            == memory.read(other),
{
}

} // verus!
