//! Several stores in one address space.
use crate::memory::{Memory, Model};
use vstd::prelude::*;

verus! {

/// One mounted store: where it is mounted, how large it was when it was
/// mounted, whether it takes part in resolving addresses, and the store.
pub struct Entry<M> {
    pub id: usize,
    pub start_address: usize,
    pub size: usize,
    pub enabled: bool,
    pub memory: M,
}

impl<M> Entry<M> {
    /// Whether `addr` lies in the span `[start_address, start_address + size)`.
    pub open spec fn spec_contains(&self, addr: usize) -> bool {
        self.start_address <= addr < self.start_address + self.size
    }

    /// The end of the span, one past its last address.
    pub open spec fn end(&self) -> int {
        self.start_address + self.size
    }

    /// Whether the entry takes part in resolution and its span contains `addr`.
    pub open spec fn serves(&self, addr: usize) -> bool {
        self.enabled && self.spec_contains(addr)
    }

    #[verifier::when_used_as_spec(spec_contains)]
    pub fn contains(&self, addr: usize) -> (b: bool)
        ensures
            b == self.spec_contains(addr),
    {
        self.start_address <= addr && addr - self.start_address < self.size
    }
}

impl<M: View> View for Entry<M> {
    type V = Entry<M::V>;

    open spec fn view(&self) -> Entry<M::V> {
        Entry {
            id: self.id,
            start_address: self.start_address,
            size: self.size,
            enabled: self.enabled,
            memory: self.memory@,
        }
    }
}

/// The model of a `MappedMemory`: its entries in the order in which they were
/// mounted, and the id that the next mount gets.
pub struct MappedModel<S> {
    pub entries: Seq<Entry<S>>,
    pub next_id: usize,
}

impl<S> MappedModel<S> {
    /// An address space with nothing mounted.
    pub open spec fn empty() -> Self {
        MappedModel { entries: Seq::empty(), next_id: 0 }
    }

    /// Every id was handed out before, none is used twice, and every span ends
    /// at an address that the machine can hold.
    pub open spec fn wf(self) -> bool {
        &&& forall|i: int|
            0 <= i < self.entries.len() ==> (#[trigger] self.entries[i]).id < self.next_id
        &&& forall|i: int, j: int|
            0 <= i < j < self.entries.len() ==> (#[trigger] self.entries[i]).id != (
            #[trigger] self.entries[j]).id
        &&& forall|i: int|
            0 <= i < self.entries.len() ==> (#[trigger] self.entries[i]).end() <= usize::MAX
    }

    /// Whether an entry with this id is mounted.
    pub open spec fn mounted(self, id: usize) -> bool {
        exists|i: int| 0 <= i < self.entries.len() && (#[trigger] self.entries[i]).id == id
    }

    /// The position of the entry with this id.
    pub open spec fn index_of(self, id: usize) -> int {
        choose|i: int| 0 <= i < self.entries.len() && (#[trigger] self.entries[i]).id == id
    }

    /// The entry that answers for `addr` among the first `n`: the one mounted
    /// last of those that are enabled and contain `addr`.
    pub open spec fn resolve_below(self, addr: usize, n: int) -> Option<int>
        decreases n,
    {
        if n <= 0 {
            None
        } else if self.entries[n - 1].serves(addr) {
            Some(n - 1)
        } else {
            self.resolve_below(addr, n - 1)
        }
    }

    /// The entry that answers for `addr`.
    pub open spec fn resolve(self, addr: usize) -> Option<int> {
        self.resolve_below(addr, self.entries.len() as int)
    }

    /// The largest end of a span among the enabled ones of the first `n`
    /// entries, 0 if there is none.
    pub open spec fn extent_below(self, n: int) -> int
        decreases n,
    {
        if n <= 0 {
            0
        } else {
            let rest = self.extent_below(n - 1);
            let entry = self.entries[n - 1];
            if entry.enabled && entry.end() > rest {
                entry.end()
            } else {
                rest
            }
        }
    }

    /// The address space with the entry at `index` enabled or disabled.
    pub open spec fn set_enabled(self, index: int, enabled: bool) -> Self {
        MappedModel {
            entries: self.entries.update(
                index,
                Entry {
                    id: self.entries[index].id,
                    start_address: self.entries[index].start_address,
                    size: self.entries[index].size,
                    enabled: enabled,
                    memory: self.entries[index].memory,
                },
            ),
            next_id: self.next_id,
        }
    }

    /// The address space with `store` in place of the store at `index`.
    pub open spec fn set_store(self, index: int, store: S) -> Self {
        MappedModel {
            entries: self.entries.update(
                index,
                Entry {
                    id: self.entries[index].id,
                    start_address: self.entries[index].start_address,
                    size: self.entries[index].size,
                    enabled: self.entries[index].enabled,
                    memory: store,
                },
            ),
            next_id: self.next_id,
        }
    }

    /// The address space without the entry at `index`.
    pub open spec fn remove(self, index: int) -> Self {
        MappedModel { entries: self.entries.remove(index), next_id: self.next_id }
    }

    /// The address of `addr` as the store at `index` sees it.
    pub open spec fn local(self, index: int, addr: usize) -> usize {
        (addr - self.entries[index].start_address) as usize
    }
}

impl<S: Model> MappedModel<S> {
    /// The address space after `store` was mounted at `start_address`: a new
    /// entry, enabled, of the store's size, on top of all others.
    pub open spec fn mount(self, start_address: usize, store: S) -> Self {
        MappedModel {
            entries: self.entries.push(
                Entry {
                    id: self.next_id,
                    start_address: start_address,
                    size: store.size(),
                    enabled: true,
                    memory: store,
                },
            ),
            next_id: (self.next_id + 1) as usize,
        }
    }
}

impl<S: Model> MappedModel<S> {
    /// Whether the store of every entry serves every read and write in the
    /// span of the entry. In such an address space an address that resolves is
    /// served.
    pub open spec fn solid(self) -> bool {
        forall|i: int| 0 <= i < self.entries.len() ==> span_served(#[trigger] self.entries[i])
    }
}

/// Whether the store of `entry` serves every read and write below the size of
/// the entry.
pub open spec fn span_served<S: Model>(entry: Entry<S>) -> bool {
    &&& forall|addr: usize| addr < entry.size ==> #[trigger] entry.memory.readable(addr)
    &&& forall|addr: usize, value: i32|
        addr < entry.size ==> #[trigger] entry.memory.writable(addr, value)
}

impl<S: Model> Model for MappedModel<S> {
    open spec fn size(self) -> usize {
        self.extent_below(self.entries.len() as int) as usize
    }

    open spec fn readable(self, addr: usize) -> bool {
        match self.resolve(addr) {
            Some(i) => self.entries[i].memory.readable(self.local(i, addr)),
            None => false,
        }
    }

    open spec fn read(self, addr: usize) -> i32 {
        match self.resolve(addr) {
            Some(i) => self.entries[i].memory.read(self.local(i, addr)),
            None => 0,
        }
    }

    open spec fn writable(self, addr: usize, value: i32) -> bool {
        match self.resolve(addr) {
            Some(i) => self.entries[i].memory.writable(self.local(i, addr), value),
            None => false,
        }
    }

    open spec fn write(self, addr: usize, value: i32) -> Self {
        match self.resolve(addr) {
            Some(i) => self.set_store(
                i,
                self.entries[i].memory.write(self.local(i, addr), value),
            ),
            None => self,
        }
    }

    proof fn lemma_write_keeps_shape(self, addr: usize, value: i32) {
        let after = self.write(addr, value);
        let i = self.resolve(addr)->0;
        lemma_resolve_in_range(self, addr, self.entries.len() as int);
        let store = self.entries[i].memory;
        store.lemma_write_keeps_shape(self.local(i, addr), value);
        lemma_same_spans_same_extent(self, after, self.entries.len() as int);
        assert forall|a: usize| #[trigger] after.readable(a) == self.readable(a) by {
            lemma_same_spans_same_resolve(self, after, a, self.entries.len() as int);
            lemma_resolve_in_range(self, a, self.entries.len() as int);
        }
        assert forall|a: usize, v: i32| #[trigger] after.writable(a, v) == self.writable(a, v) by {
            lemma_same_spans_same_resolve(self, after, a, self.entries.len() as int);
            lemma_resolve_in_range(self, a, self.entries.len() as int);
        }
    }
}

/// Whether two address spaces have the same entries but for the stores in them.
pub open spec fn same_spans<S>(a: MappedModel<S>, b: MappedModel<S>) -> bool {
    &&& a.entries.len() == b.entries.len()
    &&& forall|i: int|
        0 <= i < a.entries.len() ==> {
            &&& (#[trigger] a.entries[i]).id == b.entries[i].id
            &&& a.entries[i].start_address == b.entries[i].start_address
            &&& a.entries[i].size == b.entries[i].size
            &&& a.entries[i].enabled == b.entries[i].enabled
        }
}

/// What resolution finds is one of the entries searched, and that entry
/// serves the address.
pub proof fn lemma_resolve_in_range<S>(m: MappedModel<S>, addr: usize, n: int)
    requires
        n <= m.entries.len(),
    ensures
        m.resolve_below(addr, n) matches Some(i) ==> 0 <= i < n && m.entries[i].serves(addr),
    decreases n,
{
    if n > 0 && !m.entries[n - 1].serves(addr) {
        lemma_resolve_in_range(m, addr, n - 1);
    }
}

/// Resolution does not look into the stores.
pub proof fn lemma_same_spans_same_resolve<S>(
    a: MappedModel<S>,
    b: MappedModel<S>,
    addr: usize,
    n: int,
)
    requires
        same_spans(a, b),
        n <= a.entries.len(),
    ensures
        a.resolve_below(addr, n) == b.resolve_below(addr, n),
    decreases n,
{
    if n > 0 {
        lemma_same_spans_same_resolve(a, b, addr, n - 1);
    }
}

/// The extent does not depend on the stores.
pub proof fn lemma_same_spans_same_extent<S>(a: MappedModel<S>, b: MappedModel<S>, n: int)
    requires
        same_spans(a, b),
        n <= a.entries.len(),
    ensures
        a.extent_below(n) == b.extent_below(n),
    decreases n,
{
    if n > 0 {
        lemma_same_spans_same_extent(a, b, n - 1);
    }
}

/// The extent is the largest end of a span among the enabled entries: no
/// enabled entry ends above it, and it is the end of an enabled entry, or 0
/// where there is none.
pub proof fn lemma_extent_is_largest_end<S>(m: MappedModel<S>, n: int)
    requires
        0 <= n <= m.entries.len(),
    ensures
        forall|i: int|
            0 <= i < n && (#[trigger] m.entries[i]).enabled ==> m.entries[i].end()
                <= m.extent_below(n),
        m.extent_below(n) == 0 || exists|i: int|
            0 <= i < n && (#[trigger] m.entries[i]).enabled && m.entries[i].end()
                == m.extent_below(n),
    decreases n,
{
    if n > 0 {
        lemma_extent_is_largest_end(m, n - 1);
        let rest = m.extent_below(n - 1);
        let entry = m.entries[n - 1];
        if entry.enabled && entry.end() > rest {
            assert(m.entries[n - 1].enabled && m.entries[n - 1].end() == m.extent_below(n));
        } else if rest != 0 {
            let i = choose|i: int|
                0 <= i < n - 1 && (#[trigger] m.entries[i]).enabled && m.entries[i].end() == rest;
            assert(m.entries[i].enabled && m.entries[i].end() == m.extent_below(n));
        }
    }
}

/// An id that is not used twice is found at one position only.
pub proof fn lemma_index_of<S>(m: MappedModel<S>, index: int)
    requires
        m.wf(),
        0 <= index < m.entries.len(),
    ensures
        m.mounted(m.entries[index].id),
        m.index_of(m.entries[index].id) == index,
{
    let id = m.entries[index].id;
    let found = m.index_of(id);
    assert(m.entries[found].id == id);
    if found < index {
        assert(m.entries[found].id != m.entries[index].id);
    } else if index < found {
        assert(m.entries[index].id != m.entries[found].id);
    }
}

/// Resolution finds the entry mounted last among those that serve the address.
pub proof fn lemma_resolve_latest<S>(m: MappedModel<S>, addr: usize, index: int)
    requires
        0 <= index < m.entries.len(),
        m.entries[index].serves(addr),
        forall|j: int| index < j < m.entries.len() ==> !(#[trigger] m.entries[j]).serves(addr),
    ensures
        m.resolve(addr) == Some(index),
{
    lemma_resolve_skips(m, addr, index + 1, m.entries.len() as int);
}

/// Where no entry serves the address, resolution finds none.
pub proof fn lemma_resolve_none<S>(m: MappedModel<S>, addr: usize)
    requires
        forall|j: int| 0 <= j < m.entries.len() ==> !(#[trigger] m.entries[j]).serves(addr),
    ensures
        m.resolve(addr) is None,
{
    lemma_resolve_skips(m, addr, 0, m.entries.len() as int);
}

/// Resolution passes over the entries that do not serve the address.
pub proof fn lemma_resolve_skips<S>(m: MappedModel<S>, addr: usize, low: int, n: int)
    requires
        0 <= low <= n <= m.entries.len(),
        forall|j: int| low <= j < n ==> !(#[trigger] m.entries[j]).serves(addr),
    ensures
        m.resolve_below(addr, n) == m.resolve_below(addr, low),
    decreases n - low,
{
    if low < n {
        assert(!m.entries[n - 1].serves(addr));
        lemma_resolve_skips(m, addr, low, n - 1);
    }
}

/// The store mounted last answers for every address of its span, whatever
/// was mounted before: where spans overlap, the later mount wins.
pub proof fn lemma_later_mount_wins<S: Model>(
    m: MappedModel<S>,
    first_address: usize,
    first: S,
    second_address: usize,
    second: S,
    addr: usize,
    value: i32,
)
    requires
        second_address <= addr < second_address + second.size(),
    ensures
        ({
            let both = m.mount(first_address, first).mount(second_address, second);
            let local = (addr - second_address) as usize;
            let top = m.entries.len() as int + 1;
            &&& both.resolve(addr) == Some(top)
            &&& both.readable(addr) == second.readable(local)
            &&& both.read(addr) == second.read(local)
            &&& both.writable(addr, value) == second.writable(local, value)
            &&& both.write(addr, value) == both.set_store(top, second.write(local, value))
        }),
{
    let both = m.mount(first_address, first).mount(second_address, second);
    assert(both.entries[m.entries.len() as int + 1].serves(addr));
}

/// Unmounting the store that was mounted last hands back that very store and
/// leaves the entries as they were before it was mounted.
pub proof fn lemma_unmount_after_mount<S: Model>(m: MappedModel<S>, start_address: usize, store: S)
    requires
        m.wf(),
    ensures
        ({
            let with_store = m.mount(start_address, store);
            let index = with_store.index_of(m.next_id);
            &&& with_store.mounted(m.next_id)
            &&& index == m.entries.len()
            &&& with_store.entries[index].memory == store
            &&& with_store.remove(index).entries == m.entries
        }),
{
    let with_store = m.mount(start_address, store);
    let last = m.entries.len() as int;
    assert(with_store.entries[last].id == m.next_id);
    let index = with_store.index_of(m.next_id);
    if index < last {
        assert(with_store.entries[index] == m.entries[index]);
        assert(m.entries[index].id < m.next_id);
    }
    assert(with_store.remove(last).entries =~= m.entries);
}

/// A disabled entry answers for no address. An address that it answered for
/// falls through to the entry that answers among those mounted before it, if
/// there is one; every other address resolves as before.
pub proof fn lemma_disable_falls_through<S>(m: MappedModel<S>, index: int, addr: usize)
    requires
        0 <= index < m.entries.len(),
    ensures
        m.set_enabled(index, false).resolve(addr) != Some(index),
        m.set_enabled(index, false).resolve(addr) == if m.resolve(addr) == Some(index) {
            m.resolve_below(addr, index)
        } else {
            m.resolve(addr)
        },
{
    let disabled = m.set_enabled(index, false);
    lemma_disable_below(m, index, addr, m.entries.len() as int);
    lemma_resolve_in_range(disabled, addr, disabled.entries.len() as int);
}

proof fn lemma_disable_below<S>(m: MappedModel<S>, index: int, addr: usize, n: int)
    requires
        0 <= index < m.entries.len(),
        0 <= n <= m.entries.len(),
    ensures
        m.set_enabled(index, false).resolve_below(addr, n) == if m.resolve_below(addr, n) == Some(
            index,
        ) {
            m.resolve_below(addr, index)
        } else {
            m.resolve_below(addr, n)
        },
    decreases n,
{
    let disabled = m.set_enabled(index, false);
    if n > 0 {
        lemma_disable_below(m, index, addr, n - 1);
        if n - 1 == index {
            lemma_resolve_in_range(m, addr, index);
        } else {
            assert(disabled.entries[n - 1] == m.entries[n - 1]);
            if !m.entries[n - 1].serves(addr) && n - 1 < index {
                lemma_resolve_in_range(m, addr, n - 1);
            }
        }
        if n <= index {
            lemma_resolve_in_range(m, addr, n);
        }
    }
}

/// Enabling an entry that was disabled restores the address space as it was
/// before the entry was disabled, and with it every resolution.
pub proof fn lemma_enable_restores<S>(m: MappedModel<S>, index: int)
    requires
        0 <= index < m.entries.len(),
        m.entries[index].enabled,
    ensures
        m.set_enabled(index, false).set_enabled(index, true) == m,
{
    assert(m.set_enabled(index, false).set_enabled(index, true).entries =~= m.entries);
}

/// Two address spaces with the same spans have the same tokens mounted, each
/// at the same position, and resolve every address alike.
pub proof fn lemma_same_spans<S>(a: MappedModel<S>, b: MappedModel<S>)
    requires
        a.wf(),
        same_spans(a, b),
        a.next_id == b.next_id,
    ensures
        b.wf(),
        forall|id: usize| #[trigger] a.mounted(id) == b.mounted(id),
        forall|id: usize| a.mounted(id) ==> #[trigger] a.index_of(id) == b.index_of(id),
        forall|addr: usize| #[trigger] a.resolve(addr) == b.resolve(addr),
{
    assert forall|i: int| 0 <= i < b.entries.len() implies (#[trigger] b.entries[i]).id
        < b.next_id && b.entries[i].end() <= usize::MAX by {
        assert(a.entries[i].id == b.entries[i].id);
    }
    assert forall|i: int, j: int| 0 <= i < j < b.entries.len() implies (#[trigger] b.entries[i]).id
        != (#[trigger] b.entries[j]).id by {
        assert(a.entries[i].id == b.entries[i].id);
        assert(a.entries[j].id == b.entries[j].id);
    }
    assert forall|id: usize| #[trigger] a.mounted(id) == b.mounted(id) by {
        if a.mounted(id) {
            assert(b.entries[a.index_of(id)].id == id);
        }
        if b.mounted(id) {
            assert(a.entries[b.index_of(id)].id == id);
        }
    }
    assert forall|id: usize| a.mounted(id) implies #[trigger] a.index_of(id) == b.index_of(id) by {
        let i = a.index_of(id);
        assert(b.entries[i].id == id);
        lemma_index_of(b, i);
    }
    assert forall|addr: usize| #[trigger] a.resolve(addr) == b.resolve(addr) by {
        lemma_same_spans_same_resolve(a, b, addr, a.entries.len() as int);
    }
}

/// Enabling or disabling an entry leaves every token mounted where it was.
pub proof fn lemma_set_enabled_keeps_mounts<S>(m: MappedModel<S>, index: int, enabled: bool)
    requires
        m.wf(),
        0 <= index < m.entries.len(),
    ensures
        m.set_enabled(index, enabled).wf(),
        forall|id: usize| #[trigger] m.mounted(id) == m.set_enabled(index, enabled).mounted(id),
        forall|id: usize|
            m.mounted(id) ==> #[trigger] m.index_of(id) == m.set_enabled(index, enabled).index_of(
                id,
            ),
{
    let after = m.set_enabled(index, enabled);
    assert forall|i: int| 0 <= i < after.entries.len() implies (#[trigger] after.entries[i]).id
        == m.entries[i].id && after.entries[i].end() == m.entries[i].end() by {}
    assert forall|i: int, j: int| 0 <= i < j < after.entries.len() implies (
    #[trigger] after.entries[i]).id != (#[trigger] after.entries[j]).id by {
        assert(m.entries[i].id != m.entries[j].id);
    }
    assert forall|id: usize| #[trigger] m.mounted(id) == after.mounted(id) by {
        if m.mounted(id) {
            assert(after.entries[m.index_of(id)].id == id);
        }
        if after.mounted(id) {
            assert(m.entries[after.index_of(id)].id == id);
        }
    }
    assert forall|id: usize| m.mounted(id) implies #[trigger] m.index_of(id) == after.index_of(
        id,
    ) by {
        let i = m.index_of(id);
        assert(after.entries[i].id == id);
        lemma_index_of(after, i);
    }
}

/// In an address space whose stores serve their spans, an address is served
/// if and only if it resolves.
pub proof fn lemma_solid_serves<S: Model>(m: MappedModel<S>, addr: usize, value: i32)
    requires
        m.solid(),
    ensures
        m.readable(addr) == m.resolve(addr).is_some(),
        m.writable(addr, value) == m.resolve(addr).is_some(),
{
    lemma_resolve_in_range(m, addr, m.entries.len() as int);
    if let Some(i) = m.resolve(addr) {
        assert(span_served(m.entries[i]));
        assert(m.local(i, addr) < m.entries[i].size);
    }
}

/// A solid store mounted in an address space whose stores serve their spans
/// leaves it such an address space.
pub proof fn lemma_mount_keeps_solid<S: Model>(m: MappedModel<S>, start_address: usize, store: S)
    requires
        m.solid(),
        crate::memory::solid(store),
    ensures
        m.mount(start_address, store).solid(),
{
    let after = m.mount(start_address, store);
    assert forall|i: int| 0 <= i < after.entries.len() implies span_served(
        #[trigger] after.entries[i],
    ) by {
        if i < m.entries.len() {
            assert(after.entries[i] == m.entries[i]);
        }
    }
}

/// A write leaves the stores serving their spans.
pub proof fn lemma_write_keeps_solid<S: Model>(m: MappedModel<S>, addr: usize, value: i32)
    requires
        m.solid(),
        m.writable(addr, value),
    ensures
        m.write(addr, value).solid(),
{
    let after = m.write(addr, value);
    let written = m.resolve(addr)->0;
    lemma_resolve_in_range(m, addr, m.entries.len() as int);
    m.entries[written].memory.lemma_write_keeps_shape(m.local(written, addr), value);
    assert forall|i: int| 0 <= i < after.entries.len() implies span_served(
        #[trigger] after.entries[i],
    ) by {
        assert(span_served(m.entries[i]));
        if i != written {
            assert(after.entries[i] == m.entries[i]);
        }
    }
}

/// Enabling or disabling an entry leaves the stores serving their spans.
pub proof fn lemma_set_enabled_keeps_solid<S: Model>(m: MappedModel<S>, index: int, enabled: bool)
    requires
        m.solid(),
        0 <= index < m.entries.len(),
    ensures
        m.set_enabled(index, enabled).solid(),
{
    let after = m.set_enabled(index, enabled);
    assert forall|i: int| 0 <= i < after.entries.len() implies span_served(
        #[trigger] after.entries[i],
    ) by {
        assert(span_served(m.entries[i]));
        if i != index {
            assert(after.entries[i] == m.entries[i]);
        }
    }
}

/// A write goes to the store that answers for the address, and to no other:
/// afterwards every address resolves as before, an address that another store
/// answers for reads as before, and an address that the same store answers for
/// reads as that store does once it was written to.
pub proof fn lemma_read_after_write<S: Model>(
    m: MappedModel<S>,
    addr: usize,
    value: i32,
    other: usize,
)
    requires
        m.writable(addr, value),
    ensures
        m.write(addr, value).resolve(other) == m.resolve(other),
        m.resolve(other) != m.resolve(addr) ==> m.write(addr, value).read(other) == m.read(other),
        m.resolve(other) == m.resolve(addr) ==> m.write(addr, value).read(other) == m.entries[m.resolve(
            addr,
        )->0].memory.write(m.local(m.resolve(addr)->0, addr), value).read(
            m.local(m.resolve(addr)->0, other),
        ),
{
    let after = m.write(addr, value);
    lemma_resolve_in_range(m, addr, m.entries.len() as int);
    lemma_resolve_in_range(m, other, m.entries.len() as int);
    lemma_same_spans_same_resolve(m, after, other, m.entries.len() as int);
}

/// Handle for one mounted store.
///
/// `mount` hands out a token for the store that it takes. The token borrows
/// the store, enables and disables it, and unmounts it again.
pub struct MemoryToken {
    id: usize,
}

impl Clone for MemoryToken {
    fn clone(&self) -> (token: MemoryToken)
        ensures
            token@ == self@,
    {
        MemoryToken { id: self.id }
    }
}

impl View for MemoryToken {
    type V = usize;

    closed spec fn view(&self) -> usize {
        self.id
    }
}

/// Maps multiple `Memory`s into a single address space.
///
/// A `Memory` is mounted at a certain address and is from then on responsible
/// for all reads and writes starting at that address (the mount point) and
/// ending where the mounted memory ends. The responsible `Memory` is given an
/// address relative to the mount point.
///
/// ```text
///                   Unmapped
///                <-------->
///       mem_a                   mem_b
/// |--------------|            |------|
///                            NullMemory
///                         |--------------
/// |------------- mapped_mem ----------->
/// |              |            |      |
/// 0            0x100        0x200  0x280
/// ```
///
/// For example: `mapped_mem.get(0x208)` yields the same value as
/// `mem_b.get(0x008)`.
///
/// Where the spans of several mounted memories overlap, the one mounted last
/// answers. A disabled memory answers nowhere, but stays in the ownership of
/// the `MappedMemory` until it is unmounted.
///
/// An address that no enabled memory answers for is not served: reading or
/// writing it is an error of the caller.
pub struct MappedMemory<M> {
    memories: Vec<Entry<M>>,
    next_id: usize,
}

impl<M: Memory> View for MappedMemory<M> where M::V: Model {
    type V = MappedModel<M::V>;

    closed spec fn view(&self) -> MappedModel<M::V> {
        MappedModel {
            entries: Seq::new(self.memories@.len(), |i: int| self.memories@[i]@),
            next_id: self.next_id,
        }
    }
}

impl<M: Memory> MappedMemory<M> where M::V: Model {
    /// What holds of the stores themselves: each one is fit for use.
    pub closed spec fn stores_inv(&self) -> bool {
        forall|i: int| 0 <= i < self.memories@.len() ==> (#[trigger] self.memories@[i]).memory.inv()
    }

    pub fn new() -> (memory: MappedMemory<M>)
        ensures
            memory.inv(),
            memory@ == MappedModel::<M::V>::empty(),
    {
        let memory = MappedMemory { memories: Vec::new(), next_id: 0 };
        assert(memory@.entries =~= Seq::empty());
        memory
    }

    /// Mounts a `Memory` at the given address, on top of all that is mounted.
    ///
    /// The span of the new entry must end at an address that `usize` holds, and
    /// the supply of ids must not be used up.
    pub fn mount(&mut self, start_address: usize, memory: M) -> (token: MemoryToken)
        requires
            old(self).inv(),
            memory.inv(),
            start_address + memory@.size() <= usize::MAX,
            old(self)@.next_id < usize::MAX,
        ensures
            final(self).inv(),
            final(self)@ == old(self)@.mount(start_address, memory@),
            token@ == old(self)@.next_id,
    {
        let size = memory.size();
        let id = self.next_id;
        let new_entry = Entry { id, start_address, size, memory, enabled: true };
        self.memories.push(new_entry);
        self.next_id = id + 1;
        assert(self@.entries =~= old(self)@.mount(start_address, memory@).entries);
        MemoryToken { id }
    }

    /// The position of the entry that `token` was handed out for, if it is
    /// still mounted.
    fn position(&self, token: &MemoryToken) -> (found: Option<usize>)
        requires
            self.inv(),
        ensures
            match found {
                Some(index) => self@.mounted(token@) && index == self@.index_of(token@) && index
                    < self.memories@.len(),
                None => !self@.mounted(token@),
            },
    {
        let mut index: usize = 0;
        while index < self.memories.len()
            invariant
                index <= self.memories@.len(),
                self.inv(),
                forall|i: int| 0 <= i < index ==> (#[trigger] self@.entries[i]).id != token@,
            decreases self.memories@.len() - index,
        {
            if self.memories[index].id == token.id {
                proof {
                    assert(self@.entries[index as int].id == token@);
                    lemma_index_of(self@, index as int);
                }
                return Some(index);
            }
            index += 1;
        }
        None
    }

    /// Unmounts a memory and hands it back.
    ///
    /// A token whose memory was unmounted before yields `None`, and nothing
    /// changes.
    pub fn unmount(&mut self, token: MemoryToken) -> (memory: Option<M>)
        requires
            old(self).inv(),
        ensures
            final(self).inv(),
            match memory {
                Some(m) => {
                    &&& old(self)@.mounted(token@)
                    &&& final(self)@ == old(self)@.remove(old(self)@.index_of(token@))
                    &&& m@ == old(self)@.entries[old(self)@.index_of(token@)].memory
                    &&& m.inv()
                },
                None => !old(self)@.mounted(token@) && final(self)@ == old(self)@,
            },
    {
        match self.position(&token) {
            Some(index) => {
                let entry = self.memories.remove(index);
                assert(self@.entries =~= old(self)@.remove(index as int).entries);
                Some(entry.memory)
            },
            None => None,
        }
    }

    pub fn is_enabled_mount(&self, token: &MemoryToken) -> (enabled: bool)
        requires
            self.inv(),
            self@.mounted(token@),
        ensures
            enabled == self@.entries[self@.index_of(token@)].enabled,
    {
        self.entry_for_token(token).enabled
    }

    /// Disables a memory. This is the same as unmounting without moving
    /// ownership.
    pub fn disable_mount(&mut self, token: &MemoryToken)
        requires
            old(self).inv(),
            old(self)@.mounted(token@),
        ensures
            final(self).inv(),
            final(self)@ == old(self)@.set_enabled(old(self)@.index_of(token@), false),
    {
        proof {
            old(self).lemma_entry_in_place(old(self)@.index_of(token@));
        }
        let entry = self.entry_for_token_mut(token);
        entry.enabled = false;
    }

    /// Enables a memory. The mount point remains unchanged.
    pub fn enable_mount(&mut self, token: &MemoryToken)
        requires
            old(self).inv(),
            old(self)@.mounted(token@),
        ensures
            final(self).inv(),
            final(self)@ == old(self)@.set_enabled(old(self)@.index_of(token@), true),
    {
        proof {
            old(self).lemma_entry_in_place(old(self)@.index_of(token@));
        }
        let entry = self.entry_for_token_mut(token);
        entry.enabled = true;
    }

    /// Borrows a memory, whether it is enabled or not.
    pub fn borrow(&self, token: &MemoryToken) -> (memory: &M)
        requires
            self.inv(),
            self@.mounted(token@),
        ensures
            memory@ == self@.entries[self@.index_of(token@)].memory,
            memory.inv(),
    {
        &self.entry_for_token(token).memory
    }

    fn entry_for_token(&self, token: &MemoryToken) -> (entry: &Entry<M>)
        requires
            self.inv(),
            self@.mounted(token@),
        ensures
            entry@ == self@.entries[self@.index_of(token@)],
            entry.memory.inv(),
    {
        let index = self.position(token).unwrap();
        &self.memories[index]
    }

    /// Mutably borrows a memory, whether it is enabled or not.
    ///
    /// The address space is fit for use again once the borrowed memory is.
    pub fn borrow_mut(&mut self, token: &MemoryToken) -> (memory: &mut M)
        requires
            old(self).inv(),
            old(self)@.mounted(token@),
        ensures
            memory@ == old(self)@.entries[old(self)@.index_of(token@)].memory,
            memory.inv(),
            final(self)@ == old(self)@.set_store(old(self)@.index_of(token@), final(memory)@),
            final(memory).inv() ==> final(self).inv(),
    {
        proof {
            old(self).lemma_entry_in_place(old(self)@.index_of(token@));
        }
        &mut self.entry_for_token_mut(token).memory
    }

    /// Whether `self` is `before` with `entry` in place of the entry at `index`.
    spec fn holds_in_place(&self, before: Self, index: int, entry: Entry<M>) -> bool {
        &&& 0 <= index < before.memories@.len()
        &&& self.memories@ == before.memories@.update(index, entry)
        &&& self.next_id == before.next_id
    }

    /// What an address space is once one of its entries was worked on in
    /// place: where the entry kept its id and its span, the model has the
    /// model of the entry in that place and is else the same, and the address
    /// space is fit for use if the store of the entry is.
    proof fn lemma_entry_in_place(&self, index: int)
        requires
            self.inv(),
            0 <= index < self.memories@.len(),
        ensures
            forall|after: MappedMemory<M>, entry: Entry<M>| #[trigger]
                after.holds_in_place(*self, index, entry) && entry.id == self.memories@[index].id
                    && entry.start_address == self.memories@[index].start_address && entry.size
                    == self.memories@[index].size ==> {
                    &&& after@ == MappedModel::<M::V> {
                        entries: self@.entries.update(index, entry@),
                        next_id: self@.next_id,
                    }
                    &&& entry.memory.inv() ==> after.inv()
                },
    {
        assert forall|after: MappedMemory<M>, entry: Entry<M>| #[trigger]
            after.holds_in_place(*self, index, entry) && entry.id == self.memories@[index].id
                && entry.start_address == self.memories@[index].start_address && entry.size
                == self.memories@[index].size implies {
            &&& after@ == MappedModel::<M::V> {
                entries: self@.entries.update(index, entry@),
                next_id: self@.next_id,
            }
            &&& entry.memory.inv() ==> after.inv()
        } by {
            assert(after@.entries =~= self@.entries.update(index, entry@));
            assert forall|i: int| 0 <= i < after@.entries.len() implies (
            #[trigger] after@.entries[i]).id == self@.entries[i].id && after@.entries[i].end()
                == self@.entries[i].end() by {}
        }
    }

    fn entry_for_token_mut(&mut self, token: &MemoryToken) -> (entry: &mut Entry<M>)
        requires
            old(self).inv(),
            old(self)@.mounted(token@),
        ensures
            *entry == old(self).memories@[old(self)@.index_of(token@)],
            entry.memory.inv(),
            final(self).holds_in_place(*old(self), old(self)@.index_of(token@), *final(entry)),
    {
        let index = self.position(token).unwrap();
        &mut self.memories[index]
    }

    fn enabled_entry_at_addr(&self, addr: usize) -> (entry: Option<&Entry<M>>)
        requires
            self.inv(),
        ensures
            match entry {
                Some(e) => self@.resolve(addr) matches Some(i) && e@ == self@.entries[i]
                    && e.memory.inv(),
                None => self@.resolve(addr) is None,
            },
    {
        match self.resolve_index(addr) {
            Some(index) => Some(&self.memories[index]),
            None => None,
        }
    }

    fn enabled_entry_at_addr_mut(&mut self, addr: usize) -> (entry: Option<&mut Entry<M>>)
        requires
            old(self).inv(),
        ensures
            match entry {
                Some(e) => old(self)@.resolve(addr) matches Some(i) && *e == old(self).memories@[i]
                    && e.memory.inv() && final(self).holds_in_place(*old(self), i, *final(e)),
                None => old(self)@.resolve(addr) is None && *final(self) == *old(self),
            },
    {
        match self.resolve_index(addr) {
            Some(index) => Some(&mut self.memories[index]),
            None => None,
        }
    }

    /// Whether an enabled entry answers for `addr`.
    pub fn resolves(&self, addr: usize) -> (found: bool)
        requires
            self.inv(),
        ensures
            found == self@.resolve(addr).is_some(),
    {
        self.enabled_entry_at_addr(addr).is_some()
    }

    /// The position of the entry that answers for `addr`: the last mounted of
    /// the enabled entries whose span contains it.
    fn resolve_index(&self, addr: usize) -> (found: Option<usize>)
        requires
            self.inv(),
        ensures
            match found {
                Some(index) => self@.resolve(addr) == Some(index as int) && index
                    < self.memories@.len(),
                None => self@.resolve(addr) is None,
            },
    {
        let mut n: usize = self.memories.len();
        while n > 0
            invariant
                n <= self.memories@.len(),
                self@.entries.len() == self.memories@.len(),
                self@.resolve(addr) == self@.resolve_below(addr, n as int),
            decreases n,
        {
            let entry = &self.memories[n - 1];
            assert(entry@ == self@.entries[n - 1]);
            if entry.enabled && entry.contains(addr) {
                return Some(n - 1);
            }
            n -= 1;
        }
        None
    }
}

impl<M: Memory> Memory for MappedMemory<M> where M::V: Model {
    open spec fn inv(&self) -> bool {
        self@.wf() && self.stores_inv()
    }

    fn get(&self, addr: usize) -> (value: i32) {
        let entry = self.enabled_entry_at_addr(addr).unwrap();
        proof {
            lemma_resolve_in_range(self@, addr, self@.entries.len() as int);
        }
        entry.memory.get(addr - entry.start_address)
    }

    fn set(&mut self, addr: usize, value: i32) {
        proof {
            lemma_resolve_in_range(self@, addr, self@.entries.len() as int);
            old(self).lemma_entry_in_place(old(self)@.resolve(addr)->0);
        }
        let entry = self.enabled_entry_at_addr_mut(addr).unwrap();
        entry.memory.set(addr - entry.start_address, value);
    }

    fn size(&self) -> (size: usize) {
        let mut max: usize = 0;
        let mut n: usize = 0;
        while n < self.memories.len()
            invariant
                n <= self.memories@.len(),
                self@.entries.len() == self.memories@.len(),
                self@.wf(),
                max == self@.extent_below(n as int),
            decreases self.memories@.len() - n,
        {
            let entry = &self.memories[n];
            assert(entry@ == self@.entries[n as int]);
            if entry.enabled {
                let end = entry.start_address + entry.size;
                if end > max {
                    max = end;
                }
            }
            n += 1;
        }
        max
    }
}

} // verus!
