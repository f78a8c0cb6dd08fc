//! Like `/dev/null`.
use crate::memory::{Memory, Model};
use vstd::prelude::*;

verus! {

/// A read-only memory full of zeros.
///
/// The `NullMemory` spans osci's whole address range, reads `0` everywhere and
/// discards all writes.
pub struct NullMemory;

/// The model of a `NullMemory`: there is nothing to tell one from another.
pub struct NullModel;

impl Model for NullModel {
    open spec fn size(self) -> usize {
        0x7FFF_FFFF
    }

    open spec fn readable(self, addr: usize) -> bool {
        true
    }

    open spec fn read(self, addr: usize) -> i32 {
        0
    }

    open spec fn writable(self, addr: usize, value: i32) -> bool {
        true
    }

    open spec fn write(self, addr: usize, value: i32) -> Self {
        self
    }

    proof fn lemma_write_keeps_shape(self, addr: usize, value: i32) {
    }
}

impl View for NullMemory {
    type V = NullModel;

    open spec fn view(&self) -> NullModel {
        NullModel
    }
}

impl NullMemory {
    pub fn new() -> (memory: NullMemory)
        ensures
            memory.inv(),
    {
        NullMemory
    }
}

impl Memory for NullMemory {
    open spec fn inv(&self) -> bool {
        true
    }

    #[inline]
    fn get(&self, _addr: usize) -> (value: i32) {
        0
    }

    #[inline]
    fn set(&mut self, _addr: usize, _value: i32) {
    }

    #[inline]
    fn size(&self) -> (size: usize) {
        0x7FFF_FFFF
    }
}

} // verus!
