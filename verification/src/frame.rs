//! The per-frame state machine: round-robin surface buffers, submission
//! markers, and fence-gated reuse of each buffer's recording allocator.
//!
//! One value per buffered frame remembers the completion marker submitted at
//! that buffer's last use.  The GPU's completion counter is reported back
//! through [`FrameScheduler::observe_completion`]; a buffer's allocator is
//! reclaimed only once the counter has reached the buffer's recorded marker.
//! The blocking waits themselves (fence events) are the caller's: the
//! scheduler says what to wait for and refuses to move on before the wait
//! has been confirmed.

use vstd::prelude::*;
use crate::accel::Blas;
use crate::accel::InstanceInput;
use crate::accel::Tlas;
use crate::accel::desc_matches;
use crate::accel::refit_top_level;
use crate::command::Cmd;
use crate::command::CmdList;
use crate::command::DispatchDesc;
use crate::command::ResourceState;

verus! {

/// Rotates `slot_count` buffered frames; tracks the monotonically
/// increasing submission counter, the highest completion value the GPU has
/// been observed to reach, and the marker recorded at each slot's last use.
#[derive(Clone, Debug, PartialEq, Eq)]
pub struct FrameScheduler {
    pub slot_count: usize,
    pub slot_fence: Vec<u64>,
    pub fence_value: u64,
    pub completed: u64,
    pub current: usize,
    pub recording: bool,
}

impl FrameScheduler {
    pub open spec fn wf(self) -> bool {
        &&& self.slot_count >= 1
        &&& self.slot_fence@.len() == self.slot_count
        &&& self.current < self.slot_count
        &&& self.completed <= self.fence_value
        &&& forall|s: int|
            0 <= s < self.slot_fence@.len() ==> #[trigger] self.slot_fence@[s]
                <= self.fence_value
    }

    /// Slot `slot`'s allocator may be reused: the GPU has been observed to
    /// reach the completion value recorded at the slot's last use.
    pub open spec fn can_reuse(self, slot: int) -> bool {
        self.completed >= self.slot_fence@[slot]
    }

    /// No submitted work is still in flight.
    pub open spec fn drained(self) -> bool {
        self.completed >= self.fence_value
    }

    pub fn new(slot_count: usize) -> (s: FrameScheduler)
        requires
            slot_count >= 1,
        ensures
            s.wf(),
            s.slot_count == slot_count,
            s.fence_value == 0,
            s.completed == 0,
            s.current == 0,
            s.recording,
            forall|k: int| 0 <= k < slot_count ==> #[trigger] s.slot_fence@[k] == 0,
    {
        let mut slot_fence: Vec<u64> = Vec::new();
        let mut k: usize = 0;
        while k < slot_count
            invariant
                k <= slot_count,
                slot_fence@.len() == k,
                forall|j: int| 0 <= j < k ==> #[trigger] slot_fence@[j] == 0,
            decreases slot_count - k,
        {
            slot_fence.push(0);
            k = k + 1;
        }
        FrameScheduler {
            slot_count,
            slot_fence,
            fence_value: 0,
            completed: 0,
            current: 0,
            recording: true,
        }
    }

    /// The slot whose surface buffer and allocator the frame being recorded
    /// uses.
    pub fn begin_frame(&self) -> (slot: usize)
        requires
            self.wf(),
            self.recording,
        ensures
            slot == self.current,
    {
        self.current
    }

    /// Closes the recording, submits it, and advances the completion
    /// counter: the new marker is associated with the submitting slot.
    pub fn submit(&mut self) -> (marker: u64)
        requires
            old(self).wf(),
            old(self).recording,
            old(self).fence_value < u64::MAX,
        ensures
            final(self).wf(),
            marker == old(self).fence_value + 1,
            final(self).fence_value == marker,
            final(self).slot_fence@ == old(self).slot_fence@.update(
                old(self).current as int,
                marker,
            ),
            final(self).completed == old(self).completed,
            final(self).current == old(self).current,
            final(self).slot_count == old(self).slot_count,
            !final(self).recording,
    {
        self.fence_value = self.fence_value + 1;
        let marker = self.fence_value;
        self.slot_fence.set(self.current, marker);
        self.recording = false;
        marker
    }

    /// Submits the recorded frame, presents, and moves to the next slot
    /// round-robin.  Returns the completion value recorded at the next
    /// slot's previous use: the caller must wait until the GPU reaches it
    /// (and report so through [`Self::observe_completion`]) before that
    /// slot's allocator can be reclaimed.
    pub fn end_frame(&mut self) -> (target: u64)
        requires
            old(self).wf(),
            old(self).recording,
            old(self).fence_value < u64::MAX,
        ensures
            final(self).wf(),
            final(self).fence_value == old(self).fence_value + 1,
            final(self).slot_fence@ == old(self).slot_fence@.update(
                old(self).current as int,
                (old(self).fence_value + 1) as u64,
            ),
            final(self).current as int == (old(self).current + 1) % (old(self).slot_count as int),
            final(self).completed == old(self).completed,
            final(self).slot_count == old(self).slot_count,
            !final(self).recording,
            target == final(self).slot_fence@[final(self).current as int],
    {
        self.submit();
        self.current = (self.current + 1) % self.slot_count;
        self.slot_fence[self.current]
    }

    /// Reports that the GPU's fence has been seen at `value`.  The counter
    /// only ever rises, and never past the last submitted marker.
    pub fn observe_completion(&mut self, value: u64)
        requires
            old(self).wf(),
            value <= old(self).fence_value,
        ensures
            final(self).wf(),
            final(self).completed == if value > old(self).completed {
                value
            } else {
                old(self).completed
            },
            final(self).slot_fence@ == old(self).slot_fence@,
            final(self).fence_value == old(self).fence_value,
            final(self).current == old(self).current,
            final(self).slot_count == old(self).slot_count,
            final(self).recording == old(self).recording,
    {
        if value > self.completed {
            self.completed = value;
        }
    }

    /// The state after an attempted reclaim of the current slot's
    /// allocator: recording reopens exactly when the slot's recorded
    /// completion value has been reached; otherwise nothing changes.
    pub open spec fn spec_try_reclaim(self) -> (FrameScheduler, bool) {
        if self.can_reuse(self.current as int) {
            (FrameScheduler { recording: true, ..self }, true)
        } else {
            (self, false)
        }
    }

    /// Reclaims the current slot's recording allocator, but only once the
    /// completion value recorded at the slot's previous use has been
    /// reached; before that it refuses and changes nothing.
    pub fn try_reclaim(&mut self) -> (r: bool)
        requires
            old(self).wf(),
            !old(self).recording,
        ensures
            final(self).wf(),
            r == old(self).can_reuse(old(self).current as int),
            (*final(self), r) == old(self).spec_try_reclaim(),
    {
        if self.completed >= self.slot_fence[self.current] {
            self.recording = true;
            true
        } else {
            false
        }
    }

    /// Submits a final marker; once the caller has waited for it and
    /// reported so, no GPU work remains in flight.
    pub fn shutdown_marker(&mut self) -> (target: u64)
        requires
            old(self).wf(),
            old(self).fence_value < u64::MAX,
        ensures
            final(self).wf(),
            target == old(self).fence_value + 1,
            final(self).fence_value == target,
            final(self).completed == old(self).completed,
            final(self).slot_fence@ == old(self).slot_fence@,
            final(self).current == old(self).current,
            final(self).slot_count == old(self).slot_count,
            final(self).recording == old(self).recording,
    {
        self.fence_value = self.fence_value + 1;
        self.fence_value
    }
}

/// The allocator of the slot about to be reused is never reset before the
/// completion value recorded at that slot's previous use has been reached:
/// while the counter is short of the recorded value, an attempted reclaim
/// changes nothing.
pub proof fn lemma_no_premature_reclaim(s: FrameScheduler)
    requires
        s.wf(),
        s.completed < s.slot_fence@[s.current as int],
    ensures
        s.spec_try_reclaim().0 == s,
        !s.spec_try_reclaim().1,
{
}

/// Once the scheduler is drained, every slot's allocator may be reclaimed.
pub proof fn lemma_drained_allows_reuse(s: FrameScheduler)
    requires
        s.wf(),
        s.drained(),
    ensures
        forall|slot: int| 0 <= slot < s.slot_fence@.len() ==> s.can_reuse(slot),
{
}

/// Records one frame's command sequence, in order: bind the shader-visible
/// descriptor heap; refit the top-level structure in place (under its
/// hazard barriers); make the off-screen output image writable; bind the
/// global root signature and the pipeline; dispatch the rays; return the
/// output image to a copy source, bring the surface buffer to a copy
/// destination, and copy the image into it.
pub fn record_frame(
    list: &mut CmdList,
    tlas: &mut Tlas,
    blas: &Vec<Blas>,
    instances: &Vec<InstanceInput>,
    dispatch: DispatchDesc,
    output_resource: u64,
    back_buffer: u64,
    heap_gpu_start: u64,
)
    requires
        old(tlas).wf(),
        instances@.len() == old(tlas).instance_descs@.len(),
        forall|i: int| 0 <= i < instances@.len() ==> (#[trigger] instances@[i]).wf(
            blas@.len() as int,
        ),
    ensures
        final(tlas).wf(),
        final(tlas).scratch == old(tlas).scratch,
        final(tlas).result == old(tlas).result,
        final(tlas).instance_buffer == old(tlas).instance_buffer,
        final(tlas).instance_descs@.len() == instances@.len(),
        forall|i: int| 0 <= i < instances@.len() ==> desc_matches(
            #[trigger] final(tlas).instance_descs@[i],
            instances@[i],
            blas@,
        ),
        final(list).cmds@ == old(list).cmds@ + seq![
            Cmd::SetDescriptorHeap { heap_gpu_start },
            Cmd::UavBarrier { resource: old(tlas).result.addr },
            Cmd::BuildAccelerationStructure {
                dest: old(tlas).result.addr,
                scratch: old(tlas).scratch.addr,
                refit_source: Some(old(tlas).result.addr),
                update: true,
            },
            Cmd::UavBarrier { resource: old(tlas).result.addr },
            Cmd::Transition {
                resource: output_resource,
                before: ResourceState::CopySource,
                after: ResourceState::UnorderedAccess,
            },
            Cmd::SetGlobalRootSignature,
            Cmd::SetPipelineState,
            Cmd::DispatchRays { desc: dispatch },
            Cmd::Transition {
                resource: output_resource,
                before: ResourceState::UnorderedAccess,
                after: ResourceState::CopySource,
            },
            Cmd::Transition {
                resource: back_buffer,
                before: ResourceState::Present,
                after: ResourceState::CopyDest,
            },
            Cmd::CopyResource { dest: back_buffer, source: output_resource },
        ],
{
    list.record(Cmd::SetDescriptorHeap { heap_gpu_start });
    refit_top_level(tlas, list, blas, instances);
    list.transition(
        output_resource,
        ResourceState::CopySource,
        ResourceState::UnorderedAccess,
    );
    list.record(Cmd::SetGlobalRootSignature);
    list.record(Cmd::SetPipelineState);
    list.record(Cmd::DispatchRays { desc: dispatch });
    list.transition(
        output_resource,
        ResourceState::UnorderedAccess,
        ResourceState::CopySource,
    );
    list.transition(back_buffer, ResourceState::Present, ResourceState::CopyDest);
    list.record(Cmd::CopyResource { dest: back_buffer, source: output_resource });
    proof {
        assert(list.cmds@ =~= old(list).cmds@ + seq![
            Cmd::SetDescriptorHeap { heap_gpu_start },
            Cmd::UavBarrier { resource: old(tlas).result.addr },
            Cmd::BuildAccelerationStructure {
                dest: old(tlas).result.addr,
                scratch: old(tlas).scratch.addr,
                refit_source: Some(old(tlas).result.addr),
                update: true,
            },
            Cmd::UavBarrier { resource: old(tlas).result.addr },
            Cmd::Transition {
                resource: output_resource,
                before: ResourceState::CopySource,
                after: ResourceState::UnorderedAccess,
            },
            Cmd::SetGlobalRootSignature,
            Cmd::SetPipelineState,
            Cmd::DispatchRays { desc: dispatch },
            Cmd::Transition {
                resource: output_resource,
                before: ResourceState::UnorderedAccess,
                after: ResourceState::CopySource,
            },
            Cmd::Transition {
                resource: back_buffer,
                before: ResourceState::Present,
                after: ResourceState::CopyDest,
            },
            Cmd::CopyResource { dest: back_buffer, source: output_resource },
        ]);
    }
}

} // verus!
