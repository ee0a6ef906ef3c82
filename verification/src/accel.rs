//! Bottom- and top-level acceleration structures.
//!
//! A bottom-level structure is built once over one or more geometries and is
//! immutable afterwards.  The top-level structure is built once and then
//! refitted in place every frame: the refit rewrites every
//! instance-description record and re-issues the build with the
//! update-in-place flag, source buffer equal to destination buffer, under an
//! explicit hazard barrier.

use vstd::prelude::*;
use crate::bytes::lemma_words_le_len;
use crate::bytes::lemma_words_le_push;
use crate::bytes::push_u32_le;
use crate::bytes::push_u64_le;
use crate::bytes::spec_u32_le;
use crate::bytes::spec_u64_le;
use crate::bytes::words_le;
use crate::command::Cmd;
use crate::command::CmdList;
use crate::geometry::GeometryBuffer;
use crate::memory::spec_align_to;
use crate::memory::Buffer;
use crate::memory::GpuAllocator;

verus! {

/// Size of one instance-description record: 48 bytes of transform, two
/// packed 32-bit fields, and the 64-bit structure address.
pub const INSTANCE_DESC_BYTES: u64 = 64;

/// Scratch and result sizes the device reports for a requested build.
#[derive(Clone, Copy, Debug, PartialEq, Eq, Structural)]
pub struct PrebuildInfo {
    pub scratch_size: u64,
    pub result_size: u64,
}

/// A zero-sized prebuild estimate: the hardware cannot represent the
/// requested structure.  Fatal and non-recoverable.
#[derive(Clone, Copy, Debug, PartialEq, Eq, Structural)]
pub enum BuildError {
    ZeroSizedEstimate,
}

/// A bottom-level structure: its transient scratch buffer and its persistent
/// result buffer (read-only after the build).
#[derive(Clone, Copy, Debug, PartialEq, Eq, Structural)]
pub struct Blas {
    pub scratch: Buffer,
    pub result: Buffer,
}

/// One scene instance as the caller describes it: a 3x4 row-major transform
/// (twelve 32-bit words), the 24-bit instance id, the 8-bit mask, the 24-bit
/// shader-binding-table contribution, 8 bits of flags, and the index of the
/// bottom-level structure the instance places (several instances may share
/// one).
#[derive(Clone, Debug, PartialEq, Eq)]
pub struct InstanceInput {
    pub transform: Vec<u32>,
    pub instance_id: u32,
    pub mask: u32,
    pub sbt_offset: u32,
    pub flags: u32,
    pub blas_index: usize,
}

impl InstanceInput {
    pub open spec fn wf(self, blas_count: int) -> bool {
        &&& self.transform@.len() == 12
        &&& self.instance_id < 0x1000000
        &&& self.mask < 0x100
        &&& self.sbt_offset < 0x1000000
        &&& self.flags < 0x100
        &&& self.blas_index < blas_count
    }
}

/// One record of the instance-description buffer: the instance's current
/// transform and fields, with the bottom-level index resolved to that
/// structure's result-buffer address.
#[derive(Clone, Debug, PartialEq, Eq)]
pub struct InstanceDesc {
    pub transform: Vec<u32>,
    pub instance_id: u32,
    pub mask: u32,
    pub sbt_offset: u32,
    pub flags: u32,
    pub blas_address: u64,
}

/// Record `d` carries instance `inp`'s current transform and fields and its
/// assigned bottom-level structure's result-buffer address.
pub open spec fn desc_matches(d: InstanceDesc, inp: InstanceInput, blas: Seq<Blas>) -> bool {
    &&& d.transform@ == inp.transform@
    &&& d.instance_id == inp.instance_id
    &&& d.mask == inp.mask
    &&& d.sbt_offset == inp.sbt_offset
    &&& d.flags == inp.flags
    &&& d.blas_address == blas[inp.blas_index as int].result.addr
}

/// The top-level structure: scratch, result and instance-description
/// buffers, plus the records currently written into the latter.
#[derive(Clone, Debug, PartialEq, Eq)]
pub struct Tlas {
    pub scratch: Buffer,
    pub result: Buffer,
    pub instance_buffer: Buffer,
    pub instance_descs: Vec<InstanceDesc>,
}

impl Tlas {
    pub open spec fn wf(self) -> bool {
        &&& self.instance_descs@.len() >= 1
        &&& self.instance_buffer.size == INSTANCE_DESC_BYTES * self.instance_descs@.len()
    }
}

fn copy_words(v: &Vec<u32>) -> (r: Vec<u32>)
    ensures
        r@ == v@,
{
    let mut r: Vec<u32> = Vec::new();
    let mut i: usize = 0;
    while i < v.len()
        invariant
            i <= v.len(),
            r@ == v@.take(i as int),
        decreases v.len() - i,
    {
        r.push(v[i]);
        proof {
            assert(v@.take(i as int).push(v@[i as int]) =~= v@.take(i as int + 1));
        }
        i = i + 1;
    }
    proof {
        assert(v@.take(v@.len() as int) =~= v@);
    }
    r
}

/// Rewrites the instance-description records: record `i` gets instance `i`'s
/// current transform and its bottom-level structure's address.
fn write_instance_descs(blas: &Vec<Blas>, instances: &Vec<InstanceInput>) -> (descs: Vec<
    InstanceDesc,
>)
    requires
        forall|i: int| 0 <= i < instances@.len() ==> (#[trigger] instances@[i]).wf(
            blas@.len() as int,
        ),
    ensures
        descs@.len() == instances@.len(),
        forall|i: int| 0 <= i < descs@.len() ==> desc_matches(
            #[trigger] descs@[i],
            instances@[i],
            blas@,
        ),
        forall|i: int| 0 <= i < descs@.len() ==> (#[trigger] descs@[i]).wf(),
{
    let mut descs: Vec<InstanceDesc> = Vec::new();
    let mut i: usize = 0;
    while i < instances.len()
        invariant
            i <= instances.len(),
            descs@.len() == i,
            forall|k: int| 0 <= k < i ==> desc_matches(#[trigger] descs@[k], instances@[k], blas@),
            forall|k: int| 0 <= k < i ==> (#[trigger] descs@[k]).wf(),
            forall|k: int| 0 <= k < instances@.len() ==> (#[trigger] instances@[k]).wf(
                blas@.len() as int,
            ),
        decreases instances.len() - i,
    {
        let inp = &instances[i];
        let d = InstanceDesc {
            transform: copy_words(&inp.transform),
            instance_id: inp.instance_id,
            mask: inp.mask,
            sbt_offset: inp.sbt_offset,
            flags: inp.flags,
            blas_address: blas[inp.blas_index].result.addr,
        };
        descs.push(d);
        i = i + 1;
    }
    descs
}

impl InstanceDesc {
    /// Field ranges of a well-formed record: twelve transform words, 24-bit
    /// id and contribution, 8-bit mask and flags.
    pub open spec fn wf(self) -> bool {
        &&& self.transform@.len() == 12
        &&& self.instance_id < 0x1000000
        &&& self.mask < 0x100
        &&& self.sbt_offset < 0x1000000
        &&& self.flags < 0x100
    }
}

/// The record's first packed field: the 24-bit instance id in the low bits,
/// the 8-bit mask above it.
pub open spec fn spec_id_mask(d: InstanceDesc) -> u32 {
    (d.mask * 0x1000000 + d.instance_id) as u32
}

/// The record's second packed field: the 24-bit shader-binding-table
/// contribution in the low bits, the 8-bit flags above it.
pub open spec fn spec_offset_flags(d: InstanceDesc) -> u32 {
    (d.flags * 0x1000000 + d.sbt_offset) as u32
}

/// Packs a 24-bit value and an 8-bit value into one 32-bit field.
pub fn pack_24_8(low: u32, high: u32) -> (r: u32)
    requires
        low < 0x1000000,
        high < 0x100,
    ensures
        r == high * 0x1000000 + low,
{
    high * 0x1000000 + low
}

/// One 64-byte instance-description record: the twelve transform words,
/// the two packed fields, then the structure address.
pub open spec fn spec_instance_record(d: InstanceDesc) -> Seq<u8> {
    words_le(d.transform@) + spec_u32_le(spec_id_mask(d)) + spec_u32_le(spec_offset_flags(d))
        + spec_u64_le(d.blas_address)
}

/// The instance-description buffer's contents: the records back to back.
pub open spec fn spec_instance_buffer(ds: Seq<InstanceDesc>) -> Seq<u8>
    decreases ds.len(),
{
    if ds.len() == 0 {
        Seq::empty()
    } else {
        spec_instance_buffer(ds.drop_last()) + spec_instance_record(ds.last())
    }
}

proof fn lemma_instance_buffer_push(ds: Seq<InstanceDesc>, d: InstanceDesc)
    ensures
        spec_instance_buffer(ds.push(d)) == spec_instance_buffer(ds) + spec_instance_record(d),
{
    assert(ds.push(d).drop_last() =~= ds);
    assert(ds.push(d).last() == d);
}

pub proof fn lemma_instance_buffer_len(ds: Seq<InstanceDesc>)
    requires
        forall|i: int| 0 <= i < ds.len() ==> (#[trigger] ds[i]).wf(),
    ensures
        spec_instance_buffer(ds).len() == INSTANCE_DESC_BYTES * ds.len(),
    decreases ds.len(),
{
    if ds.len() > 0 {
        assert forall|i: int| 0 <= i < ds.drop_last().len() implies (
        #[trigger] ds.drop_last()[i]).wf() by {
            assert(ds.drop_last()[i] == ds[i]);
        }
        lemma_instance_buffer_len(ds.drop_last());
        lemma_words_le_len(ds.last().transform@);
    }
}

/// Serializes the instance-description records into the bytes the upload
/// path hands to the GPU-visible buffer.
pub fn encode_instance_descs(descs: &Vec<InstanceDesc>) -> (buf: Vec<u8>)
    requires
        forall|i: int| 0 <= i < descs@.len() ==> (#[trigger] descs@[i]).wf(),
        INSTANCE_DESC_BYTES * descs@.len() <= usize::MAX,
    ensures
        buf@ == spec_instance_buffer(descs@),
        buf@.len() == INSTANCE_DESC_BYTES * descs@.len(),
{
    let mut buf: Vec<u8> = Vec::new();
    proof {
        assert(buf@ =~= spec_instance_buffer(descs@.take(0)));
    }
    let mut i: usize = 0;
    while i < descs.len()
        invariant
            i <= descs@.len(),
            forall|k: int| 0 <= k < descs@.len() ==> (#[trigger] descs@[k]).wf(),
            buf@ == spec_instance_buffer(descs@.take(i as int)),
        decreases descs@.len() - i,
    {
        let d = &descs[i];
        let ghost before = buf@;
        let mut w: usize = 0;
        while w < d.transform.len()
            invariant
                w <= d.transform@.len(),
                buf@ == before + words_le(d.transform@.take(w as int)),
            decreases d.transform@.len() - w,
        {
            push_u32_le(&mut buf, d.transform[w]);
            proof {
                lemma_words_le_push(d.transform@.take(w as int), d.transform@[w as int]);
                assert(d.transform@.take(w as int).push(d.transform@[w as int])
                    =~= d.transform@.take(w as int + 1));
            }
            w = w + 1;
        }
        proof {
            assert(d.transform@.take(d.transform@.len() as int) =~= d.transform@);
        }
        push_u32_le(&mut buf, pack_24_8(d.instance_id, d.mask));
        push_u32_le(&mut buf, pack_24_8(d.sbt_offset, d.flags));
        push_u64_le(&mut buf, d.blas_address);
        proof {
            assert(buf@ =~= before + spec_instance_record(descs@[i as int]));
            lemma_instance_buffer_push(descs@.take(i as int), descs@[i as int]);
            assert(descs@.take(i as int).push(descs@[i as int]) =~= descs@.take(i as int + 1));
        }
        i = i + 1;
    }
    proof {
        assert(descs@.take(descs@.len() as int) =~= descs@);
        lemma_instance_buffer_len(descs@);
    }
    buf
}

/// Builds a bottom-level structure over `geometry`.
///
/// Allocates the scratch and result buffers at the device-reported sizes,
/// records the build command, and records a read/write hazard barrier on the
/// result buffer so that subsequent consumers (the top-level build, tracing)
/// are ordered after the write.  Fails, leaving allocator and command list
/// untouched, exactly when the device reported a zero-sized estimate.
pub fn build_bottom_level(
    allocator: &mut GpuAllocator,
    list: &mut CmdList,
    geometry: &Vec<GeometryBuffer>,
    prebuild: PrebuildInfo,
    buffer_alignment: u64,
) -> (r: Result<Blas, BuildError>)
    requires
        geometry@.len() >= 1,
        forall|i: int| 0 <= i < geometry@.len() ==> (#[trigger] geometry@[i]).wf(),
        buffer_alignment >= 1,
        old(allocator).next + 2 * buffer_alignment + prebuild.scratch_size + prebuild.result_size
            <= u64::MAX,
    ensures
        r is Ok <==> (prebuild.scratch_size >= 1 && prebuild.result_size >= 1),
        r is Err ==> r == Err::<Blas, BuildError>(BuildError::ZeroSizedEstimate)
            && *final(allocator) == *old(allocator) && final(list).cmds@ == old(list).cmds@,
        r matches Ok(b) ==> {
            &&& b.scratch.size == prebuild.scratch_size
            &&& b.result.size == prebuild.result_size
            &&& b.scratch.addr == spec_align_to(
                buffer_alignment as int,
                old(allocator).next as int,
            )
            &&& b.result.addr == spec_align_to(
                buffer_alignment as int,
                b.scratch.addr + b.scratch.size,
            )
            &&& final(allocator).next == b.result.addr + b.result.size
            &&& final(list).cmds@ == old(list).cmds@ + seq![
                Cmd::BuildAccelerationStructure {
                    dest: b.result.addr,
                    scratch: b.scratch.addr,
                    refit_source: None,
                    update: false,
                },
                Cmd::UavBarrier { resource: b.result.addr },
            ]
        },
{
    if prebuild.scratch_size == 0 || prebuild.result_size == 0 {
        return Err(BuildError::ZeroSizedEstimate);
    }
    let scratch = allocator.allocate(prebuild.scratch_size, buffer_alignment);
    let result = allocator.allocate(prebuild.result_size, buffer_alignment);
    list.record(
        Cmd::BuildAccelerationStructure {
            dest: result.addr,
            scratch: scratch.addr,
            refit_source: None,
            update: false,
        },
    );
    list.uav_barrier(result.addr);
    proof {
        assert(list.cmds@ =~= old(list).cmds@ + seq![
            Cmd::BuildAccelerationStructure {
                dest: result.addr,
                scratch: scratch.addr,
                refit_source: None,
                update: false,
            },
            Cmd::UavBarrier { resource: result.addr },
        ]);
    }
    Ok(Blas { scratch, result })
}

/// Builds the top-level structure over `instances`.
///
/// Allocates scratch, result and instance-description buffers, writes one
/// record per instance, records the build (no source, update flag clear) and
/// the hazard barrier on the result buffer.  Fails, leaving allocator and
/// command list untouched, exactly when the device reported a zero-sized
/// estimate.
pub fn build_top_level(
    allocator: &mut GpuAllocator,
    list: &mut CmdList,
    blas: &Vec<Blas>,
    instances: &Vec<InstanceInput>,
    prebuild: PrebuildInfo,
    buffer_alignment: u64,
) -> (r: Result<Tlas, BuildError>)
    requires
        instances@.len() >= 1,
        forall|i: int| 0 <= i < instances@.len() ==> (#[trigger] instances@[i]).wf(
            blas@.len() as int,
        ),
        buffer_alignment >= 1,
        old(allocator).next + 3 * buffer_alignment + prebuild.scratch_size + prebuild.result_size
            + INSTANCE_DESC_BYTES * instances@.len() <= u64::MAX,
    ensures
        r is Ok <==> (prebuild.scratch_size >= 1 && prebuild.result_size >= 1),
        r is Err ==> r == Err::<Tlas, BuildError>(BuildError::ZeroSizedEstimate)
            && *final(allocator) == *old(allocator) && final(list).cmds@ == old(list).cmds@,
        r matches Ok(t) ==> {
            &&& t.wf()
            &&& t.scratch.size == prebuild.scratch_size
            &&& t.result.size == prebuild.result_size
            &&& t.scratch.addr == spec_align_to(
                buffer_alignment as int,
                old(allocator).next as int,
            )
            &&& t.result.addr == spec_align_to(
                buffer_alignment as int,
                t.scratch.addr + t.scratch.size,
            )
            &&& t.instance_buffer.addr == spec_align_to(
                buffer_alignment as int,
                t.result.addr + t.result.size,
            )
            &&& t.instance_buffer.size == INSTANCE_DESC_BYTES * instances@.len()
            &&& t.instance_descs@.len() == instances@.len()
            &&& forall|i: int| 0 <= i < instances@.len() ==> desc_matches(
                #[trigger] t.instance_descs@[i],
                instances@[i],
                blas@,
            )
            &&& forall|i: int| 0 <= i < instances@.len() ==> (
                #[trigger] t.instance_descs@[i]).wf()
            &&& old(allocator).next <= t.result.addr
            &&& final(list).cmds@ == old(list).cmds@ + seq![
                Cmd::BuildAccelerationStructure {
                    dest: t.result.addr,
                    scratch: t.scratch.addr,
                    refit_source: None,
                    update: false,
                },
                Cmd::UavBarrier { resource: t.result.addr },
            ]
        },
{
    if prebuild.scratch_size == 0 || prebuild.result_size == 0 {
        return Err(BuildError::ZeroSizedEstimate);
    }
    let scratch = allocator.allocate(prebuild.scratch_size, buffer_alignment);
    let result = allocator.allocate(prebuild.result_size, buffer_alignment);
    let instance_buffer = allocator.allocate(
        INSTANCE_DESC_BYTES * (instances.len() as u64),
        buffer_alignment,
    );
    let instance_descs = write_instance_descs(blas, instances);
    list.record(
        Cmd::BuildAccelerationStructure {
            dest: result.addr,
            scratch: scratch.addr,
            refit_source: None,
            update: false,
        },
    );
    list.uav_barrier(result.addr);
    proof {
        assert(list.cmds@ =~= old(list).cmds@ + seq![
            Cmd::BuildAccelerationStructure {
                dest: result.addr,
                scratch: scratch.addr,
                refit_source: None,
                update: false,
            },
            Cmd::UavBarrier { resource: result.addr },
        ]);
    }
    Ok(Tlas { scratch, result, instance_buffer, instance_descs })
}

/// Refits the top-level structure in place.
///
/// All three buffers are reused — in particular the result buffer keeps its
/// address.  Every instance-description record is rewritten with the
/// instance's current transform and its structure's address; a hazard
/// barrier ordered before the build lets any prior read of the structure
/// finish, then the build is recorded with the update flag set and source
/// equal to destination, followed by the barrier that orders the consumers
/// of the refitted structure after it.
pub fn refit_top_level(
    tlas: &mut Tlas,
    list: &mut CmdList,
    blas: &Vec<Blas>,
    instances: &Vec<InstanceInput>,
)
    requires
        old(tlas).wf(),
        instances@.len() == old(tlas).instance_descs@.len(),
        forall|i: int| 0 <= i < instances@.len() ==> (#[trigger] instances@[i]).wf(
            blas@.len() as int,
        ),
    ensures
        final(tlas).wf(),
        final(tlas).scratch == old(tlas).scratch,
        final(tlas).result == old(tlas).result,
        final(tlas).instance_buffer == old(tlas).instance_buffer,
        final(tlas).instance_descs@.len() == instances@.len(),
        forall|i: int| 0 <= i < instances@.len() ==> desc_matches(
            #[trigger] final(tlas).instance_descs@[i],
            instances@[i],
            blas@,
        ),
        forall|i: int| 0 <= i < instances@.len() ==> (
            #[trigger] final(tlas).instance_descs@[i]).wf(),
        final(list).cmds@ == old(list).cmds@ + seq![
            Cmd::UavBarrier { resource: old(tlas).result.addr },
            Cmd::BuildAccelerationStructure {
                dest: old(tlas).result.addr,
                scratch: old(tlas).scratch.addr,
                refit_source: Some(old(tlas).result.addr),
                update: true,
            },
            Cmd::UavBarrier { resource: old(tlas).result.addr },
        ],
{
    list.uav_barrier(tlas.result.addr);
    let instance_descs = write_instance_descs(blas, instances);
    tlas.instance_descs = instance_descs;
    list.record(
        Cmd::BuildAccelerationStructure {
            dest: tlas.result.addr,
            scratch: tlas.scratch.addr,
            refit_source: Some(tlas.result.addr),
            update: true,
        },
    );
    list.uav_barrier(tlas.result.addr);
    proof {
        assert(list.cmds@ =~= old(list).cmds@ + seq![
            Cmd::UavBarrier { resource: old(tlas).result.addr },
            Cmd::BuildAccelerationStructure {
                dest: old(tlas).result.addr,
                scratch: old(tlas).scratch.addr,
                refit_source: Some(old(tlas).result.addr),
                update: true,
            },
            Cmd::UavBarrier { resource: old(tlas).result.addr },
        ]);
    }
}

} // verus!
