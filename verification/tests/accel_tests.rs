use raytrace_core::accel::build_bottom_level;
use raytrace_core::accel::build_top_level;
use raytrace_core::accel::encode_instance_descs;
use raytrace_core::accel::refit_top_level;
use raytrace_core::accel::Blas;
use raytrace_core::accel::BuildError;
use raytrace_core::accel::InstanceDesc;
use raytrace_core::accel::InstanceInput;
use raytrace_core::accel::PrebuildInfo;
use raytrace_core::command::Cmd;
use raytrace_core::command::CmdList;
use raytrace_core::geometry::GeometryBuffer;
use raytrace_core::memory::Buffer;
use raytrace_core::memory::GpuAllocator;

const ALIGN: u64 = 256;

fn instance(words: u32, id: u32, sbt_offset: u32, blas_index: usize) -> InstanceInput {
    InstanceInput {
        transform: vec![words; 12],
        instance_id: id,
        mask: 0xFF,
        sbt_offset,
        flags: 0,
        blas_index,
    }
}

#[test]
fn geometry_buffer_size() {
    let mut allocator = GpuAllocator::new(0);
    let g = GeometryBuffer::create(&mut allocator, 3, 12, ALIGN);
    assert_eq!(g.vertex_count, 3);
    assert_eq!(g.vertex_stride, 12);
    assert_eq!(g.buffer.size, 36);
}

#[test]
fn blas_build_records_build_and_barrier() {
    let mut allocator = GpuAllocator::new(0);
    let mut list = CmdList::new();
    let geometry = vec![GeometryBuffer::create(&mut allocator, 3, 12, ALIGN)];
    let prebuild = PrebuildInfo { scratch_size: 100, result_size: 200 };
    let blas = build_bottom_level(&mut allocator, &mut list, &geometry, prebuild, ALIGN).unwrap();
    assert_eq!(blas.scratch.size, 100);
    assert_eq!(blas.result.size, 200);
    assert_eq!(list.cmds.len(), 2);
    assert_eq!(
        list.cmds[0],
        Cmd::BuildAccelerationStructure {
            dest: blas.result.addr,
            scratch: blas.scratch.addr,
            refit_source: None,
            update: false,
        }
    );
    assert_eq!(list.cmds[1], Cmd::UavBarrier { resource: blas.result.addr });
}

#[test]
fn blas_zero_estimate_is_fatal() {
    let mut allocator = GpuAllocator::new(0);
    let mut list = CmdList::new();
    let geometry = vec![GeometryBuffer::create(&mut allocator, 3, 12, ALIGN)];
    let before = allocator;
    let r = build_bottom_level(
        &mut allocator,
        &mut list,
        &geometry,
        PrebuildInfo { scratch_size: 0, result_size: 200 },
        ALIGN,
    );
    assert_eq!(r, Err(BuildError::ZeroSizedEstimate));
    assert_eq!(allocator, before);
    assert_eq!(list.cmds.len(), 0);
    let r2 = build_bottom_level(
        &mut allocator,
        &mut list,
        &geometry,
        PrebuildInfo { scratch_size: 100, result_size: 0 },
        ALIGN,
    );
    assert_eq!(r2, Err(BuildError::ZeroSizedEstimate));
}

#[test]
fn tlas_records_follow_instances() {
    // Five instances over two bottom-level structures: every record must
    // carry its instance's transform and its structure's result address.
    let mut allocator = GpuAllocator::new(0x1000);
    let mut list = CmdList::new();
    let geometry = vec![GeometryBuffer::create(&mut allocator, 3, 12, ALIGN)];
    let blas = vec![
        build_bottom_level(
            &mut allocator,
            &mut list,
            &geometry,
            PrebuildInfo { scratch_size: 64, result_size: 128 },
            ALIGN,
        )
        .unwrap(),
        build_bottom_level(
            &mut allocator,
            &mut list,
            &geometry,
            PrebuildInfo { scratch_size: 64, result_size: 96 },
            ALIGN,
        )
        .unwrap(),
    ];
    let instances = vec![
        instance(10, 0, 0, 0),
        instance(11, 1, 2, 1),
        instance(12, 2, 4, 1),
        instance(13, 3, 6, 0),
        instance(14, 4, 8, 1),
    ];
    let t = build_top_level(
        &mut allocator,
        &mut list,
        &blas,
        &instances,
        PrebuildInfo { scratch_size: 64, result_size: 256 },
        ALIGN,
    )
    .unwrap();
    assert_eq!(t.instance_descs.len(), 5);
    for (i, d) in t.instance_descs.iter().enumerate() {
        assert_eq!(d.transform, instances[i].transform);
        assert_eq!(d.instance_id, instances[i].instance_id);
        assert_eq!(d.sbt_offset, instances[i].sbt_offset);
        assert_eq!(d.blas_address, blas[instances[i].blas_index].result.addr);
    }
    assert_eq!(t.instance_buffer.size, 64 * 5);
}

#[test]
fn tlas_zero_estimate_is_fatal() {
    let mut allocator = GpuAllocator::new(0);
    let mut list = CmdList::new();
    let blas = vec![Blas {
        scratch: Buffer { addr: 0, size: 64 },
        result: Buffer { addr: 0x2000, size: 128 },
    }];
    let instances = vec![instance(1, 0, 0, 0)];
    let r = build_top_level(
        &mut allocator,
        &mut list,
        &blas,
        &instances,
        PrebuildInfo { scratch_size: 0, result_size: 0 },
        ALIGN,
    );
    assert_eq!(r, Err(BuildError::ZeroSizedEstimate));
}

#[test]
fn refit_preserves_result_buffer_address() {
    // A refit reuses all three buffers; only the records change.  Two
    // refits with different animation parameters must leave the result
    // buffer in place while the stored transforms differ visibly.
    let mut allocator = GpuAllocator::new(0);
    let mut list = CmdList::new();
    let blas = vec![Blas {
        scratch: Buffer { addr: 0, size: 64 },
        result: Buffer { addr: 0x4000, size: 128 },
    }];
    let start = vec![instance(100, 0, 0, 0), instance(100, 1, 2, 0)];
    let mut t = build_top_level(
        &mut allocator,
        &mut list,
        &blas,
        &start,
        PrebuildInfo { scratch_size: 32, result_size: 64 },
        ALIGN,
    )
    .unwrap();
    let result_before = t.result;
    let instance_buffer_before = t.instance_buffer;

    let rotated_once = vec![instance(200, 0, 0, 0), instance(201, 1, 2, 0)];
    refit_top_level(&mut t, &mut list, &blas, &rotated_once);
    assert_eq!(t.result, result_before);
    assert_eq!(t.instance_buffer, instance_buffer_before);
    let after_first: Vec<Vec<u32>> =
        t.instance_descs.iter().map(|d| d.transform.clone()).collect();

    let rotated_twice = vec![instance(300, 0, 0, 0), instance(301, 1, 2, 0)];
    refit_top_level(&mut t, &mut list, &blas, &rotated_twice);
    assert_eq!(t.result, result_before);
    let after_second: Vec<Vec<u32>> =
        t.instance_descs.iter().map(|d| d.transform.clone()).collect();

    assert_ne!(after_first, after_second);
    assert_eq!(after_second[0], vec![300u32; 12]);
    assert_eq!(after_second[1], vec![301u32; 12]);

    // The refit was recorded in place, under its hazard barriers.
    let n = list.cmds.len();
    assert_eq!(list.cmds[n - 3], Cmd::UavBarrier { resource: result_before.addr });
    assert_eq!(
        list.cmds[n - 2],
        Cmd::BuildAccelerationStructure {
            dest: result_before.addr,
            scratch: t.scratch.addr,
            refit_source: Some(result_before.addr),
            update: true,
        }
    );
    assert_eq!(list.cmds[n - 1], Cmd::UavBarrier { resource: result_before.addr });
}

#[test]
fn instance_record_encoding() {
    let desc = InstanceDesc {
        transform: (0..12u32).collect(),
        instance_id: 1,
        mask: 0xFF,
        sbt_offset: 2,
        flags: 0,
        blas_address: 0x1122334455667788,
    };
    let buf = encode_instance_descs(&vec![desc]);
    assert_eq!(buf.len(), 64);
    for w in 0..12usize {
        assert_eq!(&buf[4 * w..4 * w + 4], &[w as u8, 0, 0, 0]);
    }
    // InstanceID 1 in the low 24 bits, mask 0xFF above.
    assert_eq!(&buf[48..52], &[0x01, 0x00, 0x00, 0xFF]);
    // Contribution 2 in the low 24 bits, flags 0 above.
    assert_eq!(&buf[52..56], &[0x02, 0x00, 0x00, 0x00]);
    // Structure address, little endian.
    assert_eq!(&buf[56..64], &[0x88, 0x77, 0x66, 0x55, 0x44, 0x33, 0x22, 0x11]);
}

#[test]
fn word_encoding_little_endian() {
    let words = vec![0x11223344u32, 1];
    let bytes = raytrace_core::bytes::encode_words(&words);
    assert_eq!(bytes, vec![0x44, 0x33, 0x22, 0x11, 1, 0, 0, 0]);
}
