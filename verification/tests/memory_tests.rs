use raytrace_core::adapter::select_adapter;
use raytrace_core::adapter::AdapterInfo;
use raytrace_core::adapter::FatalStartup;
use raytrace_core::memory::DescriptorHeap;
use raytrace_core::memory::GpuAllocator;

#[test]
fn allocator_hands_out_disjoint_aligned_ranges() {
    let mut a = GpuAllocator::new(0);
    let first = a.allocate(100, 256);
    assert_eq!(first.addr, 0);
    assert_eq!(first.size, 100);
    let second = a.allocate(50, 256);
    assert_eq!(second.addr, 256); // next 256-aligned address past 0..100
    let third = a.allocate(1, 256);
    assert_eq!(third.addr, 512);
    assert!(first.addr + first.size <= second.addr);
    assert!(second.addr + second.size <= third.addr);
}

#[test]
fn descriptor_heap_slot_placement() {
    let mut heap = DescriptorHeap {
        cpu_start: 1000,
        gpu_start: 5000,
        increment: 32,
        capacity: 3,
        used: 0,
    };
    assert_eq!(heap.allocate_slot(), 1000);
    assert_eq!(heap.allocate_slot(), 1032);
    assert_eq!(heap.allocate_slot(), 1064);
    assert_eq!(heap.used, 3);
    assert_eq!(heap.gpu_handle(1), 5032);
}

#[test]
fn adapter_selection_skips_software() {
    let adapters = vec![
        AdapterInfo { is_software: true, raytracing_supported: true },
        AdapterInfo { is_software: false, raytracing_supported: false },
        AdapterInfo { is_software: false, raytracing_supported: true },
        AdapterInfo { is_software: false, raytracing_supported: true },
    ];
    assert_eq!(select_adapter(&adapters), Ok(2));
}

#[test]
fn adapter_selection_absence_is_fatal() {
    let adapters = vec![
        AdapterInfo { is_software: true, raytracing_supported: true },
        AdapterInfo { is_software: false, raytracing_supported: false },
    ];
    assert_eq!(select_adapter(&adapters), Err(FatalStartup::NoRaytracingDevice));
    assert_eq!(select_adapter(&Vec::new()), Err(FatalStartup::NoRaytracingDevice));
}
