use raytrace_core::accel::Blas;
use raytrace_core::accel::InstanceInput;
use raytrace_core::accel::Tlas;
use raytrace_core::command::Cmd;
use raytrace_core::command::CmdList;
use raytrace_core::command::DispatchDesc;
use raytrace_core::command::ResourceState;
use raytrace_core::frame::record_frame;
use raytrace_core::frame::FrameScheduler;
use raytrace_core::memory::Buffer;

/// A mock GPU completion clock: it "reaches" markers only when told to.
struct MockClock {
    reached: u64,
}

impl MockClock {
    fn advance_to(&mut self, value: u64) {
        if value > self.reached {
            self.reached = value;
        }
    }
}

#[test]
fn scheduler_round_robin_and_markers() {
    let mut s = FrameScheduler::new(3);
    assert!(s.recording);
    assert_eq!(s.begin_frame(), 0);
    let target = s.end_frame();
    assert_eq!(s.fence_value, 1);
    assert_eq!(s.slot_fence, vec![1, 0, 0]);
    assert_eq!(s.current, 1);
    // Slot 1 was never used, so nothing has to be waited for.
    assert_eq!(target, 0);
}

#[test]
fn allocator_reset_waits_for_completion() {
    // Three buffered frames; the GPU clock lags.  The scheduler must not
    // reclaim slot 0's allocator for its second use until the completion
    // value recorded at its first use (marker 1) has been reached.
    let mut s = FrameScheduler::new(3);
    let mut gpu = MockClock { reached: 0 };

    // Slots 1 and 2 were never used; wrapping back to slot 0 requires its
    // first-use marker (1) to have been reached.
    for expected_target in [0u64, 0, 1] {
        let target = s.end_frame();
        assert_eq!(target, expected_target);
        gpu.advance_to(target);
        s.observe_completion(gpu.reached);
        assert!(s.try_reclaim());
    }
    // Fourth frame, recorded on slot 0: moving on to slot 1 requires its
    // previous marker (2), which the mock clock has not reached yet.
    let target = s.end_frame();
    assert_eq!(s.current, 1);
    assert_eq!(target, 2);
    assert_eq!(s.completed, 1);
    let before = s.clone();
    assert!(!s.try_reclaim());
    assert_eq!(s, before); // refused: nothing was reset
    s.observe_completion(1);
    assert!(!s.try_reclaim()); // marker 2 still outstanding
    gpu.advance_to(2);
    s.observe_completion(gpu.reached);
    assert!(s.try_reclaim());
    assert!(s.recording);
}

#[test]
fn completion_counter_is_monotonic() {
    let mut s = FrameScheduler::new(2);
    s.end_frame();
    s.observe_completion(1);
    assert_eq!(s.completed, 1);
    s.observe_completion(0); // stale report: the counter keeps its value
    assert_eq!(s.completed, 1);
}

#[test]
fn shutdown_drains_all_work() {
    let mut s = FrameScheduler::new(3);
    for _ in 0..3 {
        let target = s.end_frame();
        s.observe_completion(target);
        assert!(s.try_reclaim());
    }
    let marker = s.shutdown_marker();
    assert_eq!(marker, s.fence_value);
    s.observe_completion(marker);
    // Drained: the completion counter has caught up with every submission.
    assert_eq!(s.completed, s.fence_value);
}

#[test]
fn frame_command_sequence() {
    let mut list = CmdList::new();
    let blas = vec![Blas {
        scratch: Buffer { addr: 0x100, size: 64 },
        result: Buffer { addr: 0x4000, size: 128 },
    }];
    let instances = vec![InstanceInput {
        transform: vec![9u32; 12],
        instance_id: 0,
        mask: 0xFF,
        sbt_offset: 0,
        flags: 0,
        blas_index: 0,
    }];
    let mut tlas = Tlas {
        scratch: Buffer { addr: 0x8000, size: 32 },
        result: Buffer { addr: 0x9000, size: 64 },
        instance_buffer: Buffer { addr: 0xA000, size: 64 },
        instance_descs: vec![raytrace_core::accel::InstanceDesc {
            transform: vec![0u32; 12],
            instance_id: 0,
            mask: 0xFF,
            sbt_offset: 0,
            flags: 0,
            blas_address: 0x4000,
        }],
    };
    let dispatch = DispatchDesc {
        raygen_start: 0x20000,
        raygen_size: 64,
        miss_start: 0x20040,
        miss_size: 128,
        miss_stride: 64,
        hit_start: 0x200C0,
        hit_size: 64,
        hit_stride: 64,
        width: 640,
        height: 360,
        depth: 1,
    };
    record_frame(
        &mut list,
        &mut tlas,
        &blas,
        &instances,
        dispatch,
        0xB000, // off-screen output image
        0xC000, // surface back buffer
        0xD000, // shader-visible descriptor heap
    );
    let tlas_addr = 0x9000;
    let expected = vec![
        Cmd::SetDescriptorHeap { heap_gpu_start: 0xD000 },
        Cmd::UavBarrier { resource: tlas_addr },
        Cmd::BuildAccelerationStructure {
            dest: tlas_addr,
            scratch: 0x8000,
            refit_source: Some(tlas_addr),
            update: true,
        },
        Cmd::UavBarrier { resource: tlas_addr },
        Cmd::Transition {
            resource: 0xB000,
            before: ResourceState::CopySource,
            after: ResourceState::UnorderedAccess,
        },
        Cmd::SetGlobalRootSignature,
        Cmd::SetPipelineState,
        Cmd::DispatchRays { desc: dispatch },
        Cmd::Transition {
            resource: 0xB000,
            before: ResourceState::UnorderedAccess,
            after: ResourceState::CopySource,
        },
        Cmd::Transition {
            resource: 0xC000,
            before: ResourceState::Present,
            after: ResourceState::CopyDest,
        },
        Cmd::CopyResource { dest: 0xC000, source: 0xB000 },
    ];
    assert_eq!(list.cmds, expected);
    // The refit rewrote the record with the new transform.
    assert_eq!(tlas.instance_descs[0].transform, vec![9u32; 12]);
    assert_eq!(tlas.result.addr, tlas_addr);
}
