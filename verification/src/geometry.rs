//! GPU-resident vertex data for one mesh.

use vstd::prelude::*;
use crate::memory::Buffer;
use crate::memory::GpuAllocator;

verus! {

/// A vertex buffer: `vertex_count` vertices of `vertex_stride` bytes each.
/// The vertex contents themselves (positions) are written by the caller
/// through the upload path; the acceleration-structure build consumes only
/// the address, count and stride recorded here.
#[derive(Clone, Copy, Debug, PartialEq, Eq, Structural)]
pub struct GeometryBuffer {
    pub buffer: Buffer,
    pub vertex_count: u32,
    pub vertex_stride: u64,
}

impl GeometryBuffer {
    pub open spec fn wf(self) -> bool {
        &&& self.vertex_count >= 1
        &&& self.vertex_stride >= 1
        &&& self.buffer.size == self.vertex_count * self.vertex_stride
    }

    /// Allocates a buffer exactly large enough for the mesh's vertices.
    pub fn create(
        allocator: &mut GpuAllocator,
        vertex_count: u32,
        vertex_stride: u64,
        buffer_alignment: u64,
    ) -> (g: GeometryBuffer)
        requires
            vertex_count >= 1,
            vertex_stride >= 1,
            buffer_alignment >= 1,
            old(allocator).next + buffer_alignment + vertex_count * vertex_stride <= u64::MAX,
        ensures
            g.wf(),
            g.vertex_count == vertex_count,
            g.vertex_stride == vertex_stride,
            g.buffer.size == vertex_count * vertex_stride,
            g.buffer.addr == crate::memory::spec_align_to(
                buffer_alignment as int,
                old(allocator).next as int,
            ),
            final(allocator).next == g.buffer.addr + g.buffer.size,
    {
        proof {
            assert(vertex_count * vertex_stride >= 1) by (nonlinear_arith)
                requires
                    vertex_count >= 1,
                    vertex_stride >= 1,
            ;
        }
        let size = (vertex_count as u64) * vertex_stride;
        let buffer = allocator.allocate(size, buffer_alignment);
        GeometryBuffer { buffer, vertex_count, vertex_stride }
    }
}

} // verus!
