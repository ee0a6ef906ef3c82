//! GPU memory model: byte alignment, buffers, a bump allocator for
//! GPU-resident allocations, and descriptor-heap handle placement.

use vstd::prelude::*;

verus! {

/// `value` rounded up to the next multiple of `alignment`.
pub open spec fn spec_align_to(alignment: int, value: int) -> int {
    if value % alignment == 0 {
        value
    } else {
        value + alignment - value % alignment
    }
}

/// What rounding up to an alignment guarantees: the result is a multiple of
/// the alignment and the nearest one at or above `value`.
pub proof fn lemma_align_to_properties(alignment: int, value: int)
    requires
        alignment >= 1,
        value >= 0,
    ensures
        value <= spec_align_to(alignment, value) <= value + alignment - 1,
        spec_align_to(alignment, value) % alignment == 0,
{
    let q = value / alignment;
    let r = value % alignment;
    vstd::arithmetic::div_mod::lemma_fundamental_div_mod(value, alignment);
    vstd::arithmetic::div_mod::lemma_mod_bound(value, alignment);
    if r != 0 {
        assert(value + alignment - r == (q + 1) * alignment) by {
            vstd::arithmetic::mul::lemma_mul_is_distributive_add_other_way(alignment, q, 1);
            vstd::arithmetic::mul::lemma_mul_is_commutative(alignment, q);
            vstd::arithmetic::mul::lemma_mul_basics(alignment);
        }
        vstd::arithmetic::div_mod::lemma_mod_multiples_basic(q + 1, alignment);
    }
}

/// Exec counterpart of [`spec_align_to`].
pub fn align_to(alignment: u64, value: u64) -> (r: u64)
    requires
        alignment >= 1,
        value + alignment - 1 <= u64::MAX,
    ensures
        r == spec_align_to(alignment as int, value as int),
        value <= r <= value + alignment - 1,
        r % alignment == 0,
{
    proof {
        lemma_align_to_properties(alignment as int, value as int);
    }
    let rem = value % alignment;
    if rem == 0 {
        value
    } else {
        value + (alignment - rem)
    }
}

/// A GPU-resident allocation: its virtual address and its size in bytes.
#[derive(Clone, Copy, Debug, PartialEq, Eq, Structural)]
pub struct Buffer {
    pub addr: u64,
    pub size: u64,
}

/// Hands out non-overlapping GPU address ranges in increasing order.
///
/// Committed-resource creation on the device is an external concern; what the
/// rest of the crate needs from it is exactly this: each allocation gets a
/// fresh, aligned, correctly sized address range.
#[derive(Clone, Copy, Debug, PartialEq, Eq, Structural)]
pub struct GpuAllocator {
    /// First address not handed out yet.
    pub next: u64,
}

impl GpuAllocator {
    pub fn new(base: u64) -> (a: GpuAllocator)
        ensures
            a.next == base,
    {
        GpuAllocator { next: base }
    }

    /// Allocates `size` bytes at the next `alignment`-aligned address.
    pub fn allocate(&mut self, size: u64, alignment: u64) -> (b: Buffer)
        requires
            size >= 1,
            alignment >= 1,
            old(self).next + alignment + size <= u64::MAX,
        ensures
            b.size == size,
            b.addr == spec_align_to(alignment as int, old(self).next as int),
            b.addr % alignment == 0,
            old(self).next <= b.addr <= old(self).next + alignment - 1,
            final(self).next == b.addr + size,
    {
        let addr = align_to(alignment, self.next);
        self.next = addr + size;
        Buffer { addr, size }
    }
}

/// Placement of descriptors within one descriptor heap.
///
/// The raw heap is allocated by an external collaborator; this tracks which
/// slots have been handed out and where each slot's handle points.
#[derive(Clone, Copy, Debug, PartialEq, Eq, Structural)]
pub struct DescriptorHeap {
    /// Handle of slot 0 on the CPU side.
    pub cpu_start: u64,
    /// Handle of slot 0 on the GPU side (0 when not shader-visible).
    pub gpu_start: u64,
    /// Distance between consecutive slots, in handle units.
    pub increment: u64,
    /// Number of slots the heap was created with.
    pub capacity: u64,
    /// Number of slots handed out so far.
    pub used: u64,
}

impl DescriptorHeap {
    pub open spec fn wf(self) -> bool {
        &&& self.used <= self.capacity
        &&& self.increment >= 1
        &&& self.cpu_start + self.capacity * self.increment <= u64::MAX
        &&& self.gpu_start + self.capacity * self.increment <= u64::MAX
    }

    /// CPU handle of slot `index`.
    pub fn cpu_handle(&self, index: u64) -> (h: u64)
        requires
            self.wf(),
            index < self.capacity,
        ensures
            h == self.cpu_start + index * self.increment,
    {
        proof {
            vstd::arithmetic::mul::lemma_mul_inequality(
                index as int + 1,
                self.capacity as int,
                self.increment as int,
            );
            vstd::arithmetic::mul::lemma_mul_is_distributive_add_other_way(
                self.increment as int,
                index as int,
                1,
            );
        }
        self.cpu_start + index * self.increment
    }

    /// GPU handle of slot `index`.
    pub fn gpu_handle(&self, index: u64) -> (h: u64)
        requires
            self.wf(),
            index < self.capacity,
        ensures
            h == self.gpu_start + index * self.increment,
    {
        proof {
            vstd::arithmetic::mul::lemma_mul_inequality(
                index as int + 1,
                self.capacity as int,
                self.increment as int,
            );
            vstd::arithmetic::mul::lemma_mul_is_distributive_add_other_way(
                self.increment as int,
                index as int,
                1,
            );
        }
        self.gpu_start + index * self.increment
    }

    /// Hands out the next free slot, as the render-target-view and
    /// shader-resource-view setup paths do.
    pub fn allocate_slot(&mut self) -> (h: u64)
        requires
            old(self).wf(),
            old(self).used < old(self).capacity,
        ensures
            final(self).wf(),
            h == old(self).cpu_start + old(self).used * old(self).increment,
            final(self).used == old(self).used + 1,
            final(self).cpu_start == old(self).cpu_start,
            final(self).gpu_start == old(self).gpu_start,
            final(self).increment == old(self).increment,
            final(self).capacity == old(self).capacity,
    {
        let h = self.cpu_handle(self.used);
        self.used = self.used + 1;
        h
    }
}

} // verus!
