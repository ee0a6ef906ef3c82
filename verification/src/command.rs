//! Command recording model.
//!
//! GPU work in this design is a sequence of recorded commands; hazard
//! ordering (a build finishing before its consumers start, a copy waiting on
//! the dispatch that produced its source) is expressed by the order of the
//! commands and the barriers between them.  Submission and execution of the
//! recorded sequence belong to external collaborators; the crate proves what
//! the recorded sequence is.

use vstd::prelude::*;

verus! {

/// The resource states a transition barrier moves between.
#[derive(Clone, Copy, Debug, PartialEq, Eq, Structural)]
pub enum ResourceState {
    Present,
    RenderTarget,
    CopyDest,
    CopySource,
    UnorderedAccess,
    GenericRead,
    AccelerationStructure,
}

/// Geometry of a ray dispatch: where each shader-table region starts, how
/// large it is, and the grid size.
#[derive(Clone, Copy, Debug, PartialEq, Eq, Structural)]
pub struct DispatchDesc {
    pub raygen_start: u64,
    pub raygen_size: u64,
    pub miss_start: u64,
    pub miss_size: u64,
    pub miss_stride: u64,
    pub hit_start: u64,
    pub hit_size: u64,
    pub hit_stride: u64,
    pub width: u32,
    pub height: u32,
    pub depth: u32,
}

/// One recorded command.  Resources are named by their GPU addresses.
#[derive(Clone, Debug, PartialEq, Eq)]
pub enum Cmd {
    /// Build or refit an acceleration structure into `dest`; `refit_source` is
    /// the structure being updated when `update` is set.
    BuildAccelerationStructure { dest: u64, scratch: u64, refit_source: Option<u64>, update: bool },
    /// Read/write hazard barrier: work recorded after it sees the writes that
    /// work recorded before it made to `resource`.
    UavBarrier { resource: u64 },
    /// State transition barrier on `resource`.
    Transition { resource: u64, before: ResourceState, after: ResourceState },
    /// Bind the shader-visible descriptor heap that starts at `heap_gpu_start`.
    SetDescriptorHeap { heap_gpu_start: u64 },
    /// Bind the pipeline-wide (global) root signature.
    SetGlobalRootSignature,
    /// Bind the ray-tracing pipeline state object.
    SetPipelineState,
    /// Trace rays as described by `desc`.
    DispatchRays { desc: DispatchDesc },
    /// Copy the whole of `source` into `dest`.
    CopyResource { dest: u64, source: u64 },
}

/// The commands recorded since the list was last reset, oldest first.
#[derive(Debug)]
pub struct CmdList {
    pub cmds: Vec<Cmd>,
}

impl CmdList {
    pub fn new() -> (l: CmdList)
        ensures
            l.cmds@ == Seq::<Cmd>::empty(),
    {
        CmdList { cmds: Vec::new() }
    }

    /// Drops the recorded commands, as re-opening the list on a reclaimed
    /// allocator does.
    pub fn reset(&mut self)
        ensures
            final(self).cmds@ == Seq::<Cmd>::empty(),
    {
        self.cmds.clear();
    }

    pub fn record(&mut self, cmd: Cmd)
        ensures
            final(self).cmds@ == old(self).cmds@.push(cmd),
    {
        self.cmds.push(cmd);
    }

    /// Records a state transition barrier on `resource`.
    pub fn transition(&mut self, resource: u64, before: ResourceState, after: ResourceState)
        ensures
            final(self).cmds@ == old(self).cmds@.push(
                Cmd::Transition { resource, before, after },
            ),
    {
        self.record(Cmd::Transition { resource, before, after });
    }

    /// Records a read/write hazard barrier on `resource`.
    pub fn uav_barrier(&mut self, resource: u64)
        ensures
            final(self).cmds@ == old(self).cmds@.push(Cmd::UavBarrier { resource }),
    {
        self.record(Cmd::UavBarrier { resource });
    }
}

} // verus!
