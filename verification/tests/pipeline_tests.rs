use raytrace_core::pipeline::assemble;
use raytrace_core::pipeline::AssembleError;
use raytrace_core::pipeline::CompiledLibrary;
use raytrace_core::pipeline::HitGroup;
use raytrace_core::pipeline::LocalRootSignature;
use raytrace_core::pipeline::RangeKind;
use raytrace_core::pipeline::RootParam;
use raytrace_core::pipeline::RootSignatureDesc;
use raytrace_core::pipeline::ShaderConfig;
use raytrace_core::pipeline::Subobject;

fn s(x: &str) -> String {
    x.to_string()
}

fn demo_library() -> CompiledLibrary {
    CompiledLibrary {
        bytecode_size: 4096,
        exports: vec![
            s("rayGen"),
            s("miss"),
            s("planeChs"),
            s("triangleChs"),
            s("shadowChs"),
            s("shadowMiss"),
        ],
    }
}

fn demo_hit_groups() -> Vec<HitGroup> {
    vec![
        HitGroup { name: s("TriHitGroup"), any_hit: None, closest_hit: Some(s("triangleChs")) },
        HitGroup { name: s("PlaneHitGroup"), any_hit: None, closest_hit: Some(s("planeChs")) },
        HitGroup { name: s("ShadowHitGroup"), any_hit: None, closest_hit: Some(s("shadowChs")) },
    ]
}

fn demo_locals() -> Vec<LocalRootSignature> {
    vec![
        LocalRootSignature {
            desc: RootSignatureDesc::ray_gen_root_signature_desc(),
            exports: vec![s("rayGen")],
        },
        LocalRootSignature {
            desc: RootSignatureDesc::triangle_hit_root_desc(),
            exports: vec![s("triangleChs")],
        },
        LocalRootSignature {
            desc: RootSignatureDesc::plane_hit_root_desc(),
            exports: vec![s("planeChs")],
        },
        LocalRootSignature {
            desc: RootSignatureDesc::empty(),
            exports: vec![s("shadowChs"), s("shadowMiss"), s("miss")],
        },
    ]
}

fn demo_config() -> ShaderConfig {
    ShaderConfig { max_payload_bytes: 12, max_attribute_bytes: 8 }
}

#[test]
fn assemble_demo_scene_structure() {
    let pso = assemble(
        &demo_library(),
        &demo_hit_groups(),
        &demo_locals(),
        RootSignatureDesc::empty(),
        demo_config(),
        2,
    )
    .unwrap();
    // 1 library + 3 hit groups + 4 * (signature, association) + shader
    // config + its association + pipeline config + global root signature.
    assert_eq!(pso.subobjects.len(), 16);
    assert!(matches!(pso.subobjects[0], Subobject::DxilLibrary { .. }));
    for h in 1..4 {
        assert!(matches!(pso.subobjects[h], Subobject::HitGroup { .. }));
    }
    for l in 0..4 {
        let sig = 4 + 2 * l;
        assert!(matches!(pso.subobjects[sig], Subobject::LocalRootSignature { .. }));
        match &pso.subobjects[sig + 1] {
            Subobject::Association { target, .. } => assert_eq!(*target, sig),
            other => panic!("expected an association, found {:?}", other),
        }
    }
    assert!(matches!(pso.subobjects[12], Subobject::ShaderConfig { .. }));
    match &pso.subobjects[13] {
        Subobject::Association { exports, target } => {
            assert_eq!(*target, 12);
            // Covers every export ever dispatched.
            assert_eq!(exports.len(), 6);
        },
        other => panic!("expected an association, found {:?}", other),
    }
    assert!(matches!(
        pso.subobjects[14],
        Subobject::PipelineConfig { max_recursion_depth: 2 }
    ));
    assert!(matches!(pso.subobjects[15], Subobject::GlobalRootSignature { .. }));
}

#[test]
fn assemble_rejects_unknown_export() {
    let mut locals = demo_locals();
    locals.push(LocalRootSignature {
        desc: RootSignatureDesc::empty(),
        exports: vec![s("missingExport")],
    });
    let r = assemble(
        &demo_library(),
        &demo_hit_groups(),
        &locals,
        RootSignatureDesc::empty(),
        demo_config(),
        2,
    );
    match r {
        Err(AssembleError::UnknownExport { export }) => assert_eq!(export, "missingExport"),
        other => panic!("expected an unknown-export failure, found {:?}", other),
    }
}

#[test]
fn assemble_rejects_duplicate_claim() {
    let mut locals = demo_locals();
    locals.push(LocalRootSignature {
        desc: RootSignatureDesc::empty(),
        exports: vec![s("miss")],
    });
    let r = assemble(
        &demo_library(),
        &demo_hit_groups(),
        &locals,
        RootSignatureDesc::empty(),
        demo_config(),
        2,
    );
    match r {
        Err(AssembleError::DuplicateAssociation { export }) => assert_eq!(export, "miss"),
        other => panic!("expected a duplicate-association failure, found {:?}", other),
    }
}

#[test]
fn program_identifiers_post_assembly() {
    let pso = assemble(
        &demo_library(),
        &demo_hit_groups(),
        &demo_locals(),
        RootSignatureDesc::empty(),
        demo_config(),
        2,
    )
    .unwrap();
    let raygen = pso.program_identifier(&s("rayGen")).unwrap();
    assert_eq!(raygen.len(), 32);
    assert_eq!(raygen[0], 0);
    let miss = pso.program_identifier(&s("miss")).unwrap();
    assert_eq!(miss[0], 1);
    // Hit groups follow the six exports in the combined name list.
    let tri = pso.program_identifier(&s("TriHitGroup")).unwrap();
    assert_eq!(tri[0], 6);
    let shadow = pso.program_identifier(&s("ShadowHitGroup")).unwrap();
    assert_eq!(shadow[0], 8);
    assert_ne!(raygen, miss);
    assert_ne!(tri, shadow);
    assert!(pso.program_identifier(&s("nosuch")).is_none());
}

#[test]
fn scene_root_signatures() {
    let raygen = RootSignatureDesc::ray_gen_root_signature_desc();
    assert_eq!(raygen.ranges.len(), 2);
    assert_eq!(raygen.ranges[0].kind, RangeKind::UnorderedAccess);
    assert_eq!(raygen.ranges[0].offset_from_table_start, 0);
    assert_eq!(raygen.ranges[1].kind, RangeKind::ShaderResource);
    assert_eq!(raygen.ranges[1].offset_from_table_start, 1);
    assert_eq!(
        raygen.params,
        vec![RootParam::DescriptorTable { range_start: 0, range_count: 2 }]
    );

    let plane = RootSignatureDesc::plane_hit_root_desc();
    assert_eq!(plane.ranges.len(), 1);
    assert_eq!(plane.ranges[0].kind, RangeKind::ShaderResource);
    assert_eq!(
        plane.params,
        vec![RootParam::DescriptorTable { range_start: 0, range_count: 1 }]
    );

    let tri = RootSignatureDesc::triangle_hit_root_desc();
    assert!(tri.ranges.is_empty());
    assert_eq!(
        tri.params,
        vec![RootParam::ConstantBufferView { shader_register: 0, register_space: 0 }]
    );

    let empty = RootSignatureDesc::empty();
    assert!(empty.ranges.is_empty());
    assert!(empty.params.is_empty());
}
