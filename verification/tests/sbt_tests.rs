use raytrace_core::command::DispatchDesc;
use raytrace_core::memory::align_to;
use raytrace_core::sbt::dispatch_desc;
use raytrace_core::sbt::layout;
use raytrace_core::sbt::sbt_contribution;
use raytrace_core::sbt::write_table;
use raytrace_core::sbt::SbtEntry;

fn ident(size: usize, tag: u8) -> Vec<u8> {
    let mut v = vec![0u8; size];
    v[0] = tag;
    v
}

fn entry(size: usize, tag: u8, argument: Option<u64>) -> SbtEntry {
    SbtEntry { identifier: ident(size, tag), argument }
}

#[test]
fn align_to_exact_values() {
    assert_eq!(align_to(64, 40), 64);
    assert_eq!(align_to(8, 16), 16);
    assert_eq!(align_to(1, 7), 7);
    assert_eq!(align_to(256, 0), 0);
    assert_eq!(align_to(32, 33), 64);
}

#[test]
fn layout_region_offsets() {
    // Two miss ray types, two hit entries per instance over three
    // instances: 1 + 2 + 6 = 9 entries, miss region at one stride, hit
    // region at three strides.
    let raygen = entry(32, 1, Some(0xAA00));
    let miss = vec![entry(32, 2, None), entry(32, 3, None)];
    let mut hit = Vec::new();
    for k in 0..6u8 {
        let arg = if k % 2 == 0 { Some(0x2000 + k as u64) } else { None };
        hit.push(entry(32, 10 + k, arg));
    }
    let l = layout(32, 64, &raygen, &miss, &hit);
    assert_eq!(l.stride, 64); // align(32 + 8, 64)
    assert_eq!(l.entry_count, 9);
    assert_eq!(l.raygen_offset, 0);
    assert_eq!(l.miss_offset, l.stride);
    assert_eq!(l.hit_offset, l.stride * 3);
    assert_eq!(l.total_size, l.stride * 9);
}

#[test]
fn layout_idempotent_on_identical_entries() {
    let raygen = entry(32, 1, Some(7));
    let miss = vec![entry(32, 2, None)];
    let hit = vec![entry(32, 3, Some(9)), entry(32, 4, None)];
    let first = layout(32, 64, &raygen, &miss, &hit);
    let second = layout(32, 64, &raygen, &miss, &hit);
    assert_eq!(first, second);
    assert_eq!(first.stride, second.stride);
    assert_eq!(first.total_size, second.total_size);
}

#[test]
fn end_to_end_table_size() {
    // One triangle instance, one miss export, one hit-group export,
    // identifier size I, trailing argument 8 bytes, alignment A:
    // the table size is align(I + 8, A) * 3.
    let raygen = entry(32, 1, Some(0x1000));
    let miss = vec![entry(32, 2, None)];
    let hit = vec![entry(32, 3, Some(0x2000))];
    let l = layout(32, 64, &raygen, &miss, &hit);
    assert_eq!(l.total_size, align_to(64, 32 + 8) * 3);
    assert_eq!(l.total_size, 192);

    let tight = layout(32, 8, &raygen, &miss, &hit);
    assert_eq!(tight.total_size, align_to(8, 32 + 8) * 3);
    assert_eq!(tight.total_size, 120);
}

#[test]
fn write_table_exact_bytes() {
    let raygen = SbtEntry {
        identifier: vec![1, 2, 3, 4],
        argument: Some(0x0807060504030201),
    };
    let miss = vec![SbtEntry { identifier: vec![5, 6, 7, 8], argument: None }];
    let hit: Vec<SbtEntry> = Vec::new();
    let l = layout(4, 8, &raygen, &miss, &hit);
    assert_eq!(l.stride, 16); // align(4 + 8, 8)
    let buf = write_table(&l, &raygen, &miss, &hit);
    let expected: Vec<u8> = vec![
        // Ray-generation record: identifier, argument, padding.
        1, 2, 3, 4, 0x01, 0x02, 0x03, 0x04, 0x05, 0x06, 0x07, 0x08, 0, 0, 0, 0,
        // Miss record: identifier only, padded.
        5, 6, 7, 8, 0, 0, 0, 0, 0, 0, 0, 0, 0, 0, 0, 0,
    ];
    assert_eq!(buf, expected);
}

#[test]
fn dispatch_desc_addresses() {
    let raygen = entry(32, 1, Some(1));
    let miss = vec![entry(32, 2, None), entry(32, 3, None)];
    let hit = vec![entry(32, 4, None)];
    let l = layout(32, 64, &raygen, &miss, &hit);
    let d: DispatchDesc = dispatch_desc(&l, 0x10000, 640, 360);
    assert_eq!(d.raygen_start, 0x10000);
    assert_eq!(d.raygen_size, 64);
    assert_eq!(d.miss_start, 0x10000 + 64);
    assert_eq!(d.miss_size, 128);
    assert_eq!(d.miss_stride, 64);
    assert_eq!(d.hit_start, 0x10000 + 3 * 64);
    assert_eq!(d.hit_size, 64);
    assert_eq!(d.hit_stride, 64);
    assert_eq!(d.width, 640);
    assert_eq!(d.height, 360);
    assert_eq!(d.depth, 1);
}

#[test]
fn contribution_matches_instance_major_order() {
    // With two ray types (primary, shadow), instance i contributes at
    // slot 2 * i, and its ray-type-r entry lands at 2 * i + r.
    assert_eq!(sbt_contribution(0, 2), 0);
    assert_eq!(sbt_contribution(1, 2), 2);
    assert_eq!(sbt_contribution(2, 2), 4);
    let mut slots = Vec::new();
    for instance in 0..3u32 {
        for ray_type in 0..2u32 {
            slots.push(sbt_contribution(instance, 2) + ray_type);
        }
    }
    assert_eq!(slots, vec![0, 1, 2, 3, 4, 5]);
}
