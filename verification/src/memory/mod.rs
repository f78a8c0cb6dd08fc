//! Composable memory behaviors.
//!
//! A store is anything with the `Memory` capability: read a word, write a
//! word, report a size. What a store does is stated over its mathematical
//! model, the store's view, which has the `Model` capability. Several kinds of
//! store are provided; `MappedMemory` overlays stores in one address space.
//!
//! ## osci's memory
//! osci's memory is a sequence of word-sized cells of 32 bits each, `2^31`
//! words of virtual memory in all. Reads from memory that nothing else backs
//! yield 0 and writes to it are discarded.
//!
//! ```text
//!   +---------------------------------------+ Address 0
//!   |                 Word 0                |
//!   |                   ...                 |
//!   +---------------------------------------+ STACK_POINTER_ADDRESS
//!   |              Stack Pointer            |
//!   +---------------------------------------+ REGISTERS_START_ADDRESS
//!   |                Register 0             |
//!   |                   ...                 |
//!   +---------------------------------------+ IVT_START_ADDRESS
//!   |               IVT Entry 0             |
//!   |                   ...                 |
//!   +---------------------------------------+ FLAGS_START_ADDRESS
//!   |              Flags Word 0             |
//!   |                   ...                 |
//!   +---------------------------------------+ MAX_ADDRESS = 2^31-1
//! ```
//!
//! At boot the BIOS is mapped at `2^30`, where it shadows the main memory, and
//! execution starts there. Setting the `bD` flag unmaps it.
use vstd::prelude::*;

pub mod address;
pub mod hookmemory;
pub mod mappedmemory;
pub mod nullmemory;
pub mod readonlymemory;
pub mod slicememory;
pub mod store;

pub use self::hookmemory::HookMemory;
pub use self::mappedmemory::MappedMemory;
pub use self::nullmemory::NullMemory;
pub use self::readonlymemory::ReadOnlyMemory;
pub use self::slicememory::SliceMemory;
pub use self::store::Store;

verus! {

/// The mathematical model of a store: what it answers, and what it becomes when
/// it is written to.
pub trait Model: Sized {
    /// The size that the store reports.
    spec fn size(self) -> usize;

    /// Whether the store serves a read at `addr`.
    spec fn readable(self, addr: usize) -> bool;

    /// The word that a read at `addr` yields.
    spec fn read(self, addr: usize) -> i32;

    /// Whether the store serves a write of `value` at `addr`.
    spec fn writable(self, addr: usize, value: i32) -> bool;

    /// The store after `value` was written at `addr`.
    spec fn write(self, addr: usize, value: i32) -> Self;

    /// A write changes neither the size of a store nor which reads and writes
    /// it serves.
    proof fn lemma_write_keeps_shape(self, addr: usize, value: i32)
        requires
            self.writable(addr, value),
        ensures
            self.write(addr, value).size() == self.size(),
            forall|a: usize| #[trigger] self.write(addr, value).readable(a) == self.readable(a),
            forall|a: usize, v: i32| #[trigger]
                self.write(addr, value).writable(a, v) == self.writable(a, v),
    ;
}

/// Access to individual memory cells.
///
/// A read or a write that the store does not serve is a fatal error of the
/// caller, so `get` and `set` ask that the store serves the access.
pub trait Memory: View where Self::V: Model {
    /// What holds of every store that is in use.
    spec fn inv(&self) -> bool;

    /// Gets the value of the memory cell at `addr`.
    fn get(&self, addr: usize) -> (value: i32)
        requires
            self.inv(),
            self@.readable(addr),
        ensures
            value == self@.read(addr),
    ;

    /// Sets the value of the memory cell at `addr`.
    fn set(&mut self, addr: usize, value: i32)
        requires
            old(self).inv(),
            old(self)@.writable(addr, value),
        ensures
            final(self).inv(),
            final(self)@ == old(self)@.write(addr, value),
    ;

    /// Returns the size of this memory in words.
    fn size(&self) -> (size: usize)
        requires
            self.inv(),
        ensures
            size == self@.size(),
    ;
}

/// Whether `store` serves every read and every write below its size.
pub open spec fn solid<S: Model>(store: S) -> bool {
    &&& forall|addr: usize| addr < store.size() ==> #[trigger] store.readable(addr)
    &&& forall|addr: usize, value: i32| addr < store.size() ==> #[trigger] store.writable(addr, value)
}

} // verus!
