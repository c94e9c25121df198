//! One plugin instance: its linear memory, the allocator over that memory,
//! and its place in the lifecycle.
//!
//! An instance owns one contiguous byte space. Addresses are offsets into it.
//! The allocator hands out regions from the end of that space and keeps no
//! record of them at run time: the host remembers each address with its size
//! and presents both again on release. Which regions are live is ghost state,
//! so that the contracts can say who owns what.

use vstd::multiset::*;
use vstd::prelude::*;

verus! {

broadcast use group_multiset_axioms;

/// The largest extent that the linear memory can reach: addresses and sizes
/// are exchanged with the host as `i32`.
pub const ADDRESS_LIMIT: i32 = 0x7fff_ffff;

/// A region handed out by the allocator: its starting address and its size in
/// bytes. It has no identity beyond those two values.
pub struct Allocation {
    pub address: int,
    pub size: int,
}

impl Allocation {
    /// The first address behind the region.
    pub open spec fn end(self) -> int {
        self.address + self.size
    }

    /// Two regions share no byte.
    pub open spec fn disjoint_from(self, other: Allocation) -> bool {
        self.end() <= other.address || other.end() <= self.address
    }
}

/// Where an instance stands in its lifecycle. It starts unloaded, is loaded by
/// the host before use, and is unloaded again before it is destroyed.
#[derive(Clone, Copy, Debug, PartialEq, Eq, Structural)]
pub enum Lifecycle {
    Unloaded,
    Loaded,
}

/// What an instance is at one moment: the bytes of its linear memory, the
/// regions that are allocated and not yet released, and its place in the
/// lifecycle.
pub struct InstanceState {
    pub memory: Seq<u8>,
    pub live: Multiset<Allocation>,
    pub lifecycle: Lifecycle,
}

impl InstanceState {
    /// The extent of the linear memory, which is also the address that the
    /// next allocation gets.
    pub open spec fn top(self) -> int {
        self.memory.len() as int
    }

    /// The allocator's invariant: the memory stays within the address space,
    /// every live region lies inside the memory, a live region that holds
    /// bytes is live once, and two different live regions share no byte.
    pub open spec fn wf(self) -> bool {
        &&& self.top() <= ADDRESS_LIMIT
        &&& forall|a: Allocation| #[trigger]
            self.live.contains(a) ==> 0 <= a.address && 0 <= a.size && a.end() <= self.top()
        &&& forall|a: Allocation| #[trigger]
            self.live.contains(a) && a.size > 0 ==> self.live.count(a) == 1
        &&& forall|a: Allocation, b: Allocation|
            #[trigger] self.live.contains(a) && #[trigger] self.live.contains(b) && a != b
                ==> a.disjoint_from(b)
    }

    /// The memory can grow by `size` bytes.
    pub open spec fn can_grow(self, size: int) -> bool {
        0 <= size && self.top() + size <= ADDRESS_LIMIT
    }

    /// The `len` bytes from `address` on lie inside the memory.
    pub open spec fn in_bounds(self, address: int, len: int) -> bool {
        0 <= address && 0 <= len && address + len <= self.top()
    }

    /// The `len` bytes from `address` on.
    pub open spec fn region(self, address: int, len: int) -> Seq<u8>
        recommends
            self.in_bounds(address, len),
    {
        self.memory.subrange(address, address + len)
    }

    /// The region of `size` bytes at `address` is allocated and not released.
    pub open spec fn is_live(self, address: int, size: int) -> bool {
        self.live.contains(Allocation { address, size })
    }

    /// `next` is this state after an allocation of `size` bytes that returned
    /// `address`: the memory has grown by `size` bytes at its end, what it
    /// held before is unchanged, and the new region is live. Nothing is said
    /// of what the new bytes hold.
    pub open spec fn allocated(self, size: int, next: InstanceState, address: int) -> bool {
        &&& address == self.top()
        &&& next.top() == self.top() + size
        &&& next.memory.subrange(0, self.top()) == self.memory
        &&& next.live == self.live.insert(Allocation { address, size })
        &&& next.lifecycle == self.lifecycle
    }

    /// This state after the region of `size` bytes at `address` is released:
    /// the region is live once less, and no byte changes.
    pub open spec fn released(self, address: int, size: int) -> InstanceState {
        InstanceState { live: self.live.remove(Allocation { address, size }), ..self }
    }

    /// This state after `data` is written at `address`.
    pub open spec fn stored(self, address: int, data: Seq<u8>) -> InstanceState
        recommends
            self.in_bounds(address, data.len() as int),
    {
        InstanceState {
            memory: Seq::new(
                self.memory.len(),
                |i: int|
                    if address <= i < address + data.len() {
                        data[i - address]
                    } else {
                        self.memory[i]
                    },
            ),
            ..self
        }
    }
}

/// One plugin instance: its linear memory and its place in the lifecycle.
pub struct Instance {
    memory: Vec<u8>,
    live: Ghost<Multiset<Allocation>>,
    lifecycle: Lifecycle,
}

impl View for Instance {
    type V = InstanceState;

    closed spec fn view(&self) -> InstanceState {
        InstanceState { memory: self.memory@, live: self.live@, lifecycle: self.lifecycle }
    }
}

impl Instance {
    /// A fresh instance: empty memory, nothing allocated, unloaded.
    pub fn new() -> (inst: Instance)
        ensures
            inst@.wf(),
            inst@.memory == Seq::<u8>::empty(),
            inst@.live == Multiset::<Allocation>::empty(),
            inst@.lifecycle == Lifecycle::Unloaded,
    {
        Instance {
            memory: Vec::new(),
            live: Ghost(Multiset::empty()),
            lifecycle: Lifecycle::Unloaded,
        }
    }

    /// The extent of the linear memory in bytes.
    pub fn memory_size(&self) -> (size: i32)
        requires
            self@.wf(),
        ensures
            size == self@.top(),
    {
        self.memory.len() as i32
    }

    /// Where the instance stands in its lifecycle.
    pub fn lifecycle(&self) -> (lifecycle: Lifecycle)
        ensures
            lifecycle == self@.lifecycle,
    {
        self.lifecycle
    }

    /// Whether the memory can grow by `size` bytes.
    pub fn has_room(&self, size: i32) -> (room: bool)
        requires
            self@.wf(),
        ensures
            room == self@.can_grow(size as int),
    {
        let top: i32 = self.memory.len() as i32;
        size >= 0 && size <= ADDRESS_LIMIT - top
    }

    /// Whether the `len` bytes from `address` on lie inside the memory.
    pub fn holds(&self, address: i32, len: i32) -> (inside: bool)
        requires
            self@.wf(),
        ensures
            inside == self@.in_bounds(address as int, len as int),
    {
        let top: i32 = self.memory.len() as i32;
        address >= 0 && len >= 0 && len <= top && address <= top - len
    }

    /// Copies `data` into the memory at `address`, as the host does with an
    /// input buffer. No other byte changes, and no allocation.
    pub fn write(&mut self, address: i32, data: &[u8])
        requires
            old(self)@.wf(),
            old(self)@.in_bounds(address as int, data@.len() as int),
        ensures
            final(self)@ == old(self)@.stored(address as int, data@),
            final(self)@.wf(),
    {
        let base: usize = address as usize;
        let mut i: usize = 0;
        while i < data.len()
            invariant
                i <= data@.len(),
                base == address,
                base + data@.len() <= self.memory@.len() <= ADDRESS_LIMIT,
                self.memory@.len() == old(self).memory@.len(),
                self.live == old(self).live,
                self.lifecycle == old(self).lifecycle,
                forall|k: int|
                    0 <= k < self.memory@.len() ==> #[trigger] self.memory@[k] == (
                    if base <= k < base + i {
                        data@[k - base]
                    } else {
                        old(self).memory@[k]
                    }),
            decreases data@.len() - i,
        {
            self.memory[base + i] = data[i];
            i += 1;
        }
        assert(self@.memory =~= old(self)@.stored(address as int, data@).memory);
    }

    /// Copies the `len` bytes from `address` on out of the memory, as the host
    /// does with a result.
    pub fn read(&self, address: i32, len: i32) -> (data: Vec<u8>)
        requires
            self@.wf(),
            self@.in_bounds(address as int, len as int),
        ensures
            data@ == self@.region(address as int, len as int),
    {
        let base: usize = address as usize;
        let count: usize = len as usize;
        let mut data: Vec<u8> = Vec::new();
        let mut i: usize = 0;
        while i < count
            invariant
                i <= count,
                base + count <= self.memory@.len() <= ADDRESS_LIMIT,
                data@ == self.memory@.subrange(base as int, base + i),
            decreases count - i,
        {
            data.push(self.memory[base + i]);
            i += 1;
            assert(data@ =~= self.memory@.subrange(base as int, base + i));
        }
        data
    }
}

/// Reserves `size` bytes at the end of the linear memory and returns their
/// address. The region is live until it is released with the same size.
pub fn plugin_alloc(inst: &mut Instance, size: i32) -> (address: i32)
    requires
        old(inst)@.wf(),
        old(inst)@.can_grow(size as int),
    ensures
        old(inst)@.allocated(size as int, final(inst)@, address as int),
        final(inst)@.wf(),
{
    let address: i32 = inst.memory.len() as i32;
    let extent: usize = inst.memory.len() + (size as usize);
    inst.memory.resize(extent, 0u8);
    assert(inst.memory@.subrange(0, old(inst).memory@.len() as int) =~= old(inst).memory@);
    inst.live = Ghost(inst.live@.insert(Allocation { address: address as int, size: size as int }));
    proof {
        lemma_allocation_keeps_wf(old(inst)@, size as int, inst@, address as int);
    }
    address
}

/// Returns the region of `size` bytes at `ptr` to the allocator. The region
/// must be live with exactly this size: the allocator keeps no record by
/// which it could tell. No byte changes.
pub fn plugin_dealloc(inst: &mut Instance, ptr: i32, size: i32)
    requires
        old(inst)@.wf(),
        old(inst)@.is_live(ptr as int, size as int),
    ensures
        final(inst)@ == old(inst)@.released(ptr as int, size as int),
        final(inst)@.wf(),
{
    inst.live = Ghost(inst.live@.remove(Allocation { address: ptr as int, size: size as int }));
    proof {
        lemma_release_keeps_wf(old(inst)@, ptr as int, size as int);
    }
}

/// Loads the instance. The host calls this once, before it asks for
/// anything. Nothing in the memory changes.
pub fn on_load(inst: &mut Instance)
    ensures
        final(inst)@ == (InstanceState { lifecycle: Lifecycle::Loaded, ..old(inst)@ }),
{
    inst.lifecycle = Lifecycle::Loaded;
}

/// Unloads the instance. The host calls this on a loaded instance, before it
/// destroys it. Nothing in the memory changes.
pub fn on_unload(inst: &mut Instance)
    ensures
        final(inst)@ == (InstanceState { lifecycle: Lifecycle::Unloaded, ..old(inst)@ }),
{
    inst.lifecycle = Lifecycle::Unloaded;
}

/// An allocation keeps the allocator's invariant, and the new region shares
/// no byte with a region that was live before.
pub proof fn lemma_allocation_keeps_wf(
    state: InstanceState,
    size: int,
    next: InstanceState,
    address: int,
)
    requires
        state.wf(),
        state.can_grow(size),
        state.allocated(size, next, address),
    ensures
        next.wf(),
        forall|a: Allocation| #[trigger]
            state.live.contains(a) ==> a.disjoint_from(Allocation { address, size }),
{
    let fresh = Allocation { address, size };
    assert(state.live.contains(fresh) ==> fresh.end() <= state.top());
    assert forall|a: Allocation|
        next.live.count(a) == state.live.count(a) + (if a == fresh { 1int } else { 0int }) by {}
    assert forall|a: Allocation| #[trigger] next.live.contains(a) implies a == fresh
        || state.live.contains(a) by {}
    assert forall|a: Allocation| #[trigger] next.live.contains(a) && a.size > 0 implies
        next.live.count(a) == 1 by {
        if a != fresh {
            assert(state.live.contains(a));
        }
    }
    assert forall|a: Allocation, b: Allocation|
        #[trigger] next.live.contains(a) && #[trigger] next.live.contains(b) && a != b implies
        a.disjoint_from(b) by {
        if a != fresh {
            assert(state.live.contains(a));
        }
        if b != fresh {
            assert(state.live.contains(b));
        }
    }
}

/// A release keeps the allocator's invariant.
pub proof fn lemma_release_keeps_wf(state: InstanceState, address: int, size: int)
    requires
        state.wf(),
        state.is_live(address, size),
    ensures
        state.released(address, size).wf(),
{
    let next = state.released(address, size);
    assert forall|a: Allocation| #[trigger] next.live.contains(a) implies state.live.contains(
        a,
    ) by {}
}

/// Releasing a region right after it was allocated, with the size it was
/// allocated with, leaves exactly the regions live that were live before,
/// keeps the invariant, and changes no byte that the memory held before.
pub proof fn law_release_undoes_allocation(
    state: InstanceState,
    size: int,
    next: InstanceState,
    address: int,
)
    requires
        state.wf(),
        state.can_grow(size),
        state.allocated(size, next, address),
    ensures
        next.is_live(address, size),
        next.released(address, size).wf(),
        next.released(address, size).live == state.live,
        next.released(address, size).memory.subrange(0, state.top()) == state.memory,
        next.released(address, size).lifecycle == state.lifecycle,
{
    lemma_allocation_keeps_wf(state, size, next, address);
    lemma_release_keeps_wf(next, address, size);
    assert(next.released(address, size).live =~= state.live);
}

/// An allocation of no bytes followed by its release leaves the instance
/// exactly as it was.
pub proof fn law_empty_allocation_is_harmless(
    state: InstanceState,
    next: InstanceState,
    address: int,
)
    requires
        state.wf(),
        state.allocated(0, next, address),
    ensures
        next.released(address, 0) == state,
{
    law_release_undoes_allocation(state, 0, next, address);
    assert(next.memory =~= next.memory.subrange(0, state.top()));
}

} // verus!
