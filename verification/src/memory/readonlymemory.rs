//! Memory that cannot be written to.
use crate::memory::{Memory, Model};
use vstd::prelude::*;

verus! {

/// Wraps another `Memory` and discards all writes.
pub struct ReadOnlyMemory<M>(M);

/// The model of a `ReadOnlyMemory`: the model of the store that it wraps.
pub struct ReadOnlyModel<S> {
    pub inner: S,
}

impl<S: Model> Model for ReadOnlyModel<S> {
    open spec fn size(self) -> usize {
        self.inner.size()
    }

    open spec fn readable(self, addr: usize) -> bool {
        self.inner.readable(addr)
    }

    open spec fn read(self, addr: usize) -> i32 {
        self.inner.read(addr)
    }

    open spec fn writable(self, addr: usize, value: i32) -> bool {
        true
    }

    open spec fn write(self, addr: usize, value: i32) -> Self {
        self
    }

    proof fn lemma_write_keeps_shape(self, addr: usize, value: i32) {
    }
}

impl<M: Memory> View for ReadOnlyMemory<M> where M::V: Model {
    type V = ReadOnlyModel<M::V>;

    closed spec fn view(&self) -> ReadOnlyModel<M::V> {
        ReadOnlyModel { inner: self.0@ }
    }
}

impl<M: Memory> ReadOnlyMemory<M> where M::V: Model {
    pub fn new(m: M) -> (memory: ReadOnlyMemory<M>)
        ensures
            memory@.inner == m@,
            memory.inv() == m.inv(),
    {
        ReadOnlyMemory(m)
    }
}

impl<M: Memory> Memory for ReadOnlyMemory<M> where M::V: Model {
    closed spec fn inv(&self) -> bool {
        self.0.inv()
    }

    fn get(&self, addr: usize) -> (value: i32) {
        self.0.get(addr)
    }

    #[inline]
    fn set(&mut self, _addr: usize, _value: i32) {
    }

    #[inline]
    fn size(&self) -> (size: usize) {
        self.0.size()
    }
}

} // verus!
