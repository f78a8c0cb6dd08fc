//! The kinds of store that one address space holds side by side.
use crate::memory::nullmemory::NullModel;
use crate::memory::readonlymemory::ReadOnlyModel;
use crate::memory::slicememory::SliceModel;
use crate::memory::{Memory, Model, NullMemory, ReadOnlyMemory, SliceMemory};
use vstd::prelude::*;

verus! {

/// A store of one of several kinds.
///
/// A `MappedMemory` holds stores of one type. With `Store` as that type it
/// holds a `NullMemory` beside a `SliceMemory`, a read-only wrapper around a
/// memory of type `R`, and a memory of any other type `O`.
pub enum Store<R, O> {
    Null(NullMemory),
    Slice(SliceMemory),
    ReadOnly(ReadOnlyMemory<R>),
    Other(O),
}

/// The model of a `Store`: the model of the store that it holds.
pub enum StoreModel<R, O> {
    Null(NullModel),
    Slice(SliceModel),
    ReadOnly(ReadOnlyModel<R>),
    Other(O),
}

impl<R: Model, O: Model> Model for StoreModel<R, O> {
    open spec fn size(self) -> usize {
        match self {
            StoreModel::Null(m) => m.size(),
            StoreModel::Slice(m) => m.size(),
            StoreModel::ReadOnly(m) => m.size(),
            StoreModel::Other(m) => m.size(),
        }
    }

    open spec fn readable(self, addr: usize) -> bool {
        match self {
            StoreModel::Null(m) => m.readable(addr),
            StoreModel::Slice(m) => m.readable(addr),
            StoreModel::ReadOnly(m) => m.readable(addr),
            StoreModel::Other(m) => m.readable(addr),
        }
    }

    open spec fn read(self, addr: usize) -> i32 {
        match self {
            StoreModel::Null(m) => m.read(addr),
            StoreModel::Slice(m) => m.read(addr),
            StoreModel::ReadOnly(m) => m.read(addr),
            StoreModel::Other(m) => m.read(addr),
        }
    }

    open spec fn writable(self, addr: usize, value: i32) -> bool {
        match self {
            StoreModel::Null(m) => m.writable(addr, value),
            StoreModel::Slice(m) => m.writable(addr, value),
            StoreModel::ReadOnly(m) => m.writable(addr, value),
            StoreModel::Other(m) => m.writable(addr, value),
        }
    }

    open spec fn write(self, addr: usize, value: i32) -> Self {
        match self {
            StoreModel::Null(m) => StoreModel::Null(m.write(addr, value)),
            StoreModel::Slice(m) => StoreModel::Slice(m.write(addr, value)),
            StoreModel::ReadOnly(m) => StoreModel::ReadOnly(m.write(addr, value)),
            StoreModel::Other(m) => StoreModel::Other(m.write(addr, value)),
        }
    }

    proof fn lemma_write_keeps_shape(self, addr: usize, value: i32) {
        match self {
            StoreModel::Null(m) => m.lemma_write_keeps_shape(addr, value),
            StoreModel::Slice(m) => m.lemma_write_keeps_shape(addr, value),
            StoreModel::ReadOnly(m) => m.lemma_write_keeps_shape(addr, value),
            StoreModel::Other(m) => m.lemma_write_keeps_shape(addr, value),
        }
    }
}

impl<R: Memory, O: Memory> View for Store<R, O> where R::V: Model, O::V: Model {
    type V = StoreModel<R::V, O::V>;

    open spec fn view(&self) -> StoreModel<R::V, O::V> {
        match self {
            Store::Null(m) => StoreModel::Null(m@),
            Store::Slice(m) => StoreModel::Slice(m@),
            Store::ReadOnly(m) => StoreModel::ReadOnly(m@),
            Store::Other(m) => StoreModel::Other(m@),
        }
    }
}

impl<R: Memory, O: Memory> Memory for Store<R, O> where R::V: Model, O::V: Model {
    open spec fn inv(&self) -> bool {
        match self {
            Store::Null(m) => m.inv(),
            Store::Slice(m) => m.inv(),
            Store::ReadOnly(m) => m.inv(),
            Store::Other(m) => m.inv(),
        }
    }

    fn get(&self, addr: usize) -> (value: i32) {
        match self {
            Store::Null(m) => m.get(addr),
            Store::Slice(m) => m.get(addr),
            Store::ReadOnly(m) => m.get(addr),
            Store::Other(m) => m.get(addr),
        }
    }

    fn set(&mut self, addr: usize, value: i32) {
        match self {
            Store::Null(m) => m.set(addr, value),
            Store::Slice(m) => m.set(addr, value),
            Store::ReadOnly(m) => m.set(addr, value),
            Store::Other(m) => m.set(addr, value),
        }
    }

    fn size(&self) -> (size: usize) {
        match self {
            Store::Null(m) => m.size(),
            Store::Slice(m) => m.size(),
            Store::ReadOnly(m) => m.size(),
            Store::Other(m) => m.size(),
        }
    }
}

} // verus!
