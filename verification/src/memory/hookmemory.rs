//! Memory with callbacks around its reads and writes.
use crate::memory::{Memory, Model};
use vstd::prelude::*;

verus! {

/// A hook that is given one number, an address or a size, and returns the
/// number to use instead.
pub trait AddressHook {
    /// Whether the hook is fit for use.
    spec fn usable(&self) -> bool;

    /// What the hook makes of `n`.
    spec fn rewritten(&self, n: usize) -> usize;

    fn rewrite(&self, n: usize) -> (output: usize)
        requires
            self.usable(),
        ensures
            output == self.rewritten(n),
    ;
}

/// A hook that is given the address that was read and the value found there,
/// and returns the value to hand out instead.
pub trait ValueHook {
    /// Whether the hook is fit for use.
    spec fn usable(&self) -> bool;

    /// What the hook makes of `value`, read at `addr`.
    spec fn rewritten(&self, addr: usize, value: i32) -> i32;

    fn rewrite(&self, addr: usize, value: i32) -> (output: i32)
        requires
            self.usable(),
        ensures
            output == self.rewritten(addr, value),
    ;
}

/// A hook that is given the address and the value of a write, and returns the
/// address and the value to write instead.
pub trait WriteHook {
    /// Whether the hook is fit for use.
    spec fn usable(&self) -> bool;

    /// What the hook makes of `addr` and `value`.
    spec fn rewritten(&self, addr: usize, value: i32) -> (usize, i32);

    fn rewrite(&self, addr: usize, value: i32) -> (output: (usize, i32))
        requires
            self.usable(),
        ensures
            output == self.rewritten(addr, value),
    ;
}

/// A closure on one number is a hook where it can be called on every number
/// and returns the same for the same number. What it returns is known to the
/// verifier only as what a call of it ensures.
impl<F: Fn(usize) -> usize> AddressHook for F {
    open spec fn usable(&self) -> bool {
        &&& forall|n: usize| #[trigger] call_requires(*self, (n,))
        &&& forall|n: usize, first: usize, second: usize|
            #[trigger] call_ensures(*self, (n,), first) && #[trigger] call_ensures(
                *self,
                (n,),
                second,
            ) ==> first == second
    }

    open spec fn rewritten(&self, n: usize) -> usize {
        choose|output: usize| call_ensures(*self, (n,), output)
    }

    fn rewrite(&self, n: usize) -> (output: usize) {
        self(n)
    }
}

/// A closure on an address and a value that returns a value is a hook where
/// it can be called on every address and value and returns the same for the
/// same.
impl<F: Fn(usize, i32) -> i32> ValueHook for F {
    open spec fn usable(&self) -> bool {
        &&& forall|addr: usize, value: i32| #[trigger] call_requires(*self, (addr, value))
        &&& forall|addr: usize, value: i32, first: i32, second: i32|
            #[trigger] call_ensures(*self, (addr, value), first) && #[trigger] call_ensures(
                *self,
                (addr, value),
                second,
            ) ==> first == second
    }

    open spec fn rewritten(&self, addr: usize, value: i32) -> i32 {
        choose|output: i32| call_ensures(*self, (addr, value), output)
    }

    fn rewrite(&self, addr: usize, value: i32) -> (output: i32) {
        self(addr, value)
    }
}

/// A closure on an address and a value that returns an address and a value is
/// a hook where it can be called on every address and value and returns the
/// same for the same.
impl<F: Fn(usize, i32) -> (usize, i32)> WriteHook for F {
    open spec fn usable(&self) -> bool {
        &&& forall|addr: usize, value: i32| #[trigger] call_requires(*self, (addr, value))
        &&& forall|addr: usize, value: i32, first: (usize, i32), second: (usize, i32)|
            #[trigger] call_ensures(*self, (addr, value), first) && #[trigger] call_ensures(
                *self,
                (addr, value),
                second,
            ) ==> first == second
    }

    open spec fn rewritten(&self, addr: usize, value: i32) -> (usize, i32) {
        choose|output: (usize, i32)| call_ensures(*self, (addr, value), output)
    }

    fn rewrite(&self, addr: usize, value: i32) -> (output: (usize, i32)) {
        self(addr, value)
    }
}

/// Calls callbacks on reads or writes.
///
/// The `HookMemory` allows to hook into the `Memory` interface of the memory
/// that it wraps. There is up to one hook of each of four kinds:
///
/// - the hook before a read, of type `P`, is given the address and returns
///   the address that is read instead,
/// - the hook after a read, of type `Q`, is given the address that was read
///   and the value found there, and returns the value that is handed out
///   instead,
/// - the write hook, of type `W`, is given the address and the value and
///   returns the address and the value that are written instead,
/// - the size hook, of type `Z`, is given the size and returns the size that
///   is reported instead.
///
/// Without hooks a `HookMemory` behaves as the memory that it wraps.
pub struct HookMemory<T, P, Q, W, Z> {
    before_read: Option<P>,
    after_read: Option<Q>,
    on_write: Option<W>,
    on_size: Option<Z>,
    memory: T,
}

/// The model of a `HookMemory`: the model of the wrapped memory, and the
/// hooks.
pub struct HookModel<S, P, Q, W, Z> {
    pub inner: S,
    pub read_pre: Option<P>,
    pub read_post: Option<Q>,
    pub write: Option<W>,
    pub size: Option<Z>,
}

impl<S, P: AddressHook, Q: ValueHook, W: WriteHook, Z: AddressHook> HookModel<S, P, Q, W, Z> {
    /// The address that is read for `addr`.
    pub open spec fn read_address(self, addr: usize) -> usize {
        match self.read_pre {
            Some(hook) => hook.rewritten(addr),
            None => addr,
        }
    }

    /// The value that is handed out where `value` was read at `addr`.
    pub open spec fn read_value(self, addr: usize, value: i32) -> i32 {
        match self.read_post {
            Some(hook) => hook.rewritten(addr, value),
            None => value,
        }
    }

    /// The address and the value that are written for `addr` and `value`.
    pub open spec fn written(self, addr: usize, value: i32) -> (usize, i32) {
        match self.write {
            Some(hook) => hook.rewritten(addr, value),
            None => (addr, value),
        }
    }

    /// The size that is reported where the wrapped memory has size `size`.
    pub open spec fn reported_size(self, size: usize) -> usize {
        match self.size {
            Some(hook) => hook.rewritten(size),
            None => size,
        }
    }

    /// Whether each hook that there is is fit for use.
    pub open spec fn hooks_usable(self) -> bool {
        &&& self.read_pre matches Some(hook) ==> hook.usable()
        &&& self.read_post matches Some(hook) ==> hook.usable()
        &&& self.write matches Some(hook) ==> hook.usable()
        &&& self.size matches Some(hook) ==> hook.usable()
    }
}

impl<S: Model, P: AddressHook, Q: ValueHook, W: WriteHook, Z: AddressHook> Model for HookModel<
    S,
    P,
    Q,
    W,
    Z,
> {
    open spec fn size(self) -> usize {
        self.reported_size(self.inner.size())
    }

    open spec fn readable(self, addr: usize) -> bool {
        self.inner.readable(self.read_address(addr))
    }

    open spec fn read(self, addr: usize) -> i32 {
        self.read_value(self.read_address(addr), self.inner.read(self.read_address(addr)))
    }

    open spec fn writable(self, addr: usize, value: i32) -> bool {
        self.inner.writable(self.written(addr, value).0, self.written(addr, value).1)
    }

    open spec fn write(self, addr: usize, value: i32) -> Self {
        HookModel {
            inner: self.inner.write(self.written(addr, value).0, self.written(addr, value).1),
            read_pre: self.read_pre,
            read_post: self.read_post,
            write: self.write,
            size: self.size,
        }
    }

    proof fn lemma_write_keeps_shape(self, addr: usize, value: i32) {
        self.inner.lemma_write_keeps_shape(self.written(addr, value).0, self.written(addr, value).1);
    }
}

impl<T: Memory, P: AddressHook, Q: ValueHook, W: WriteHook, Z: AddressHook> View for HookMemory<
    T,
    P,
    Q,
    W,
    Z,
> where T::V: Model {
    type V = HookModel<T::V, P, Q, W, Z>;

    closed spec fn view(&self) -> HookModel<T::V, P, Q, W, Z> {
        HookModel {
            inner: self.memory@,
            read_pre: self.before_read,
            read_post: self.after_read,
            write: self.on_write,
            size: self.on_size,
        }
    }
}

impl<T: Memory, P: AddressHook, Q: ValueHook, W: WriteHook, Z: AddressHook> HookMemory<
    T,
    P,
    Q,
    W,
    Z,
> where T::V: Model {
    /// What holds of the wrapped memory.
    pub closed spec fn inner_inv(&self) -> bool {
        self.memory.inv()
    }

    pub fn new(memory: T) -> (hooked: Self)
        ensures
            hooked@ == (HookModel::<T::V, P, Q, W, Z> {
                inner: memory@,
                read_pre: None,
                read_post: None,
                write: None,
                size: None,
            }),
            hooked.inner_inv() == memory.inv(),
    {
        HookMemory {
            before_read: None,
            after_read: None,
            on_write: None,
            on_size: None,
            memory: memory,
        }
    }

    /// Sets the hook that changes the address before a value is read.
    pub fn read_prehook(&mut self, h: P)
        ensures
            final(self)@ == (HookModel::<T::V, P, Q, W, Z> { read_pre: Some(h), ..old(self)@ }),
            final(self).inner_inv() == old(self).inner_inv(),
    {
        self.before_read = Some(h);
    }

    /// Sets the hook that changes the value that is returned after being read.
    pub fn read_posthook(&mut self, h: Q)
        ensures
            final(self)@ == (HookModel::<T::V, P, Q, W, Z> { read_post: Some(h), ..old(self)@ }),
            final(self).inner_inv() == old(self).inner_inv(),
    {
        self.after_read = Some(h);
    }

    /// Sets the hook that changes both the address and the value before it is
    /// written.
    pub fn write_hook(&mut self, h: W)
        ensures
            final(self)@ == (HookModel::<T::V, P, Q, W, Z> { write: Some(h), ..old(self)@ }),
            final(self).inner_inv() == old(self).inner_inv(),
    {
        self.on_write = Some(h);
    }

    /// Sets the hook that changes the reported size.
    pub fn size_hook(&mut self, h: Z)
        ensures
            final(self)@ == (HookModel::<T::V, P, Q, W, Z> { size: Some(h), ..old(self)@ }),
            final(self).inner_inv() == old(self).inner_inv(),
    {
        self.on_size = Some(h);
    }
}

impl<T: Memory, P: AddressHook, Q: ValueHook, W: WriteHook, Z: AddressHook> Memory for HookMemory<
    T,
    P,
    Q,
    W,
    Z,
> where T::V: Model {
    open spec fn inv(&self) -> bool {
        self.inner_inv() && self@.hooks_usable()
    }

    fn get(&self, addr: usize) -> (value: i32) {
        let addr = match &self.before_read {
            Some(hook) => hook.rewrite(addr),
            None => addr,
        };
        let v = self.memory.get(addr);
        match &self.after_read {
            Some(hook) => hook.rewrite(addr, v),
            None => v,
        }
    }

    fn set(&mut self, addr: usize, value: i32) {
        let (addr, value) = match &self.on_write {
            Some(hook) => hook.rewrite(addr, value),
            None => (addr, value),
        };
        self.memory.set(addr, value);
    }

    fn size(&self) -> (size: usize) {
        let size = self.memory.size();
        match &self.on_size {
            Some(hook) => hook.rewrite(size),
            None => size,
        }
    }
}

/// Without hooks a `HookMemory` behaves as the memory that it wraps.
pub proof fn lemma_no_hooks_pass_through<
    S: Model,
    P: AddressHook,
    Q: ValueHook,
    W: WriteHook,
    Z: AddressHook,
>(memory: HookModel<S, P, Q, W, Z>, addr: usize, value: i32)
    requires
        memory.read_pre is None,
        memory.read_post is None,
        memory.write is None,
        memory.size is None,
    ensures
        memory.size() == memory.inner.size(),
        memory.readable(addr) == memory.inner.readable(addr),
        memory.read(addr) == memory.inner.read(addr),
        memory.writable(addr, value) == memory.inner.writable(addr, value),
        memory.write(addr, value).inner == memory.inner.write(addr, value),
        memory.hooks_usable(),
{
}

} // verus!
