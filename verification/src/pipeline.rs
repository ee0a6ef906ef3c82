//! Assembly of the ray-tracing pipeline state object.
//!
//! The pipeline description is an ordered collection of sub-descriptors
//! forming a dependency graph.  An association binds a set of export names
//! to the descriptor that immediately precedes it, so descriptor order is
//! load-bearing; associations are kept as indices into the collection (an
//! arena), never as addresses into a growing buffer.

use vstd::prelude::*;
use crate::bytes::push_u32_le;
use crate::bytes::spec_u32_le;

verus! {

/// Width of a program identifier in bytes.
pub const PROGRAM_IDENTIFIER_SIZE: u64 = 32;

/// A compiled shader library, produced by the external compiler: the
/// bytecode blob's size and the entry points it exports.
#[derive(Debug, PartialEq, Eq)]
pub struct CompiledLibrary {
    pub bytecode_size: u64,
    pub exports: Vec<String>,
}

/// A shader-source failure reported by the external compiler; aborts
/// startup before any pipeline object is created.
#[derive(Debug, PartialEq, Eq)]
pub struct CompileError {
    pub diagnostics: String,
}

/// What a descriptor range binds.
#[derive(Clone, Copy, Debug, PartialEq, Eq, Structural)]
pub enum RangeKind {
    ShaderResource,
    UnorderedAccess,
    ConstantBuffer,
}

/// One range of a descriptor table.
#[derive(Clone, Copy, Debug, PartialEq, Eq, Structural)]
pub struct DescriptorRange {
    pub kind: RangeKind,
    pub descriptor_count: u32,
    pub base_shader_register: u32,
    pub register_space: u32,
    pub offset_from_table_start: u32,
}

/// One root parameter.  A descriptor table refers to its ranges by position
/// in the owning signature's range list.
#[derive(Clone, Copy, Debug, PartialEq, Eq, Structural)]
pub enum RootParam {
    DescriptorTable { range_start: usize, range_count: usize },
    ConstantBufferView { shader_register: u32, register_space: u32 },
}

/// The binding layout a program (local) or the whole pipeline (global) uses
/// to access resources.
#[derive(Debug, PartialEq, Eq)]
pub struct RootSignatureDesc {
    pub ranges: Vec<DescriptorRange>,
    pub params: Vec<RootParam>,
}

/// Structural equality of two signature descriptions.
pub open spec fn sig_matches(a: RootSignatureDesc, b: RootSignatureDesc) -> bool {
    a.ranges@ == b.ranges@ && a.params@ == b.params@
}

impl RootSignatureDesc {
    /// Every descriptor table stays within the range list.
    pub open spec fn wf(self) -> bool {
        forall|i: int|
            0 <= i < self.params@.len() ==> ((#[trigger] self.params@[i]) matches
                RootParam::DescriptorTable { range_start, range_count } ==> range_start
                + range_count <= self.ranges@.len())
    }

    /// A signature with no parameters at all (bound as a local signature to
    /// programs that need nothing, and as the pipeline's global signature).
    pub fn empty() -> (r: RootSignatureDesc)
        ensures
            r.ranges@ == Seq::<DescriptorRange>::empty(),
            r.params@ == Seq::<RootParam>::empty(),
            r.wf(),
    {
        RootSignatureDesc { ranges: Vec::new(), params: Vec::new() }
    }

    /// The ray-generation signature: one descriptor table with the output
    /// image's unordered-access view at table offset 0 and the scene's
    /// shader-resource view at table offset 1.
    pub fn ray_gen_root_signature_desc() -> (r: RootSignatureDesc)
        ensures
            r.ranges@ == seq![
                DescriptorRange {
                    kind: RangeKind::UnorderedAccess,
                    descriptor_count: 1,
                    base_shader_register: 0,
                    register_space: 0,
                    offset_from_table_start: 0,
                },
                DescriptorRange {
                    kind: RangeKind::ShaderResource,
                    descriptor_count: 1,
                    base_shader_register: 0,
                    register_space: 0,
                    offset_from_table_start: 1,
                },
            ],
            r.params@ == seq![(RootParam::DescriptorTable { range_start: 0, range_count: 2 })],
            r.wf(),
    {
        let mut ranges: Vec<DescriptorRange> = Vec::new();
        ranges.push(
            DescriptorRange {
                kind: RangeKind::UnorderedAccess,
                descriptor_count: 1,
                base_shader_register: 0,
                register_space: 0,
                offset_from_table_start: 0,
            },
        );
        ranges.push(
            DescriptorRange {
                kind: RangeKind::ShaderResource,
                descriptor_count: 1,
                base_shader_register: 0,
                register_space: 0,
                offset_from_table_start: 1,
            },
        );
        let mut params: Vec<RootParam> = Vec::new();
        params.push(RootParam::DescriptorTable { range_start: 0, range_count: 2 });
        proof {
            assert(ranges@ =~= seq![
                DescriptorRange {
                    kind: RangeKind::UnorderedAccess,
                    descriptor_count: 1,
                    base_shader_register: 0,
                    register_space: 0,
                    offset_from_table_start: 0,
                },
                DescriptorRange {
                    kind: RangeKind::ShaderResource,
                    descriptor_count: 1,
                    base_shader_register: 0,
                    register_space: 0,
                    offset_from_table_start: 1,
                },
            ]);
            assert(params@ =~= seq![
                (RootParam::DescriptorTable { range_start: 0, range_count: 2 }),
            ]);
        }
        RootSignatureDesc { ranges, params }
    }

    /// The plane hit-group signature: one descriptor table holding the
    /// scene's shader-resource view.
    pub fn plane_hit_root_desc() -> (r: RootSignatureDesc)
        ensures
            r.ranges@ == seq![
                DescriptorRange {
                    kind: RangeKind::ShaderResource,
                    descriptor_count: 1,
                    base_shader_register: 0,
                    register_space: 0,
                    offset_from_table_start: 0,
                },
            ],
            r.params@ == seq![(RootParam::DescriptorTable { range_start: 0, range_count: 1 })],
            r.wf(),
    {
        let mut ranges: Vec<DescriptorRange> = Vec::new();
        ranges.push(
            DescriptorRange {
                kind: RangeKind::ShaderResource,
                descriptor_count: 1,
                base_shader_register: 0,
                register_space: 0,
                offset_from_table_start: 0,
            },
        );
        let mut params: Vec<RootParam> = Vec::new();
        params.push(RootParam::DescriptorTable { range_start: 0, range_count: 1 });
        proof {
            assert(ranges@ =~= seq![
                DescriptorRange {
                    kind: RangeKind::ShaderResource,
                    descriptor_count: 1,
                    base_shader_register: 0,
                    register_space: 0,
                    offset_from_table_start: 0,
                },
            ]);
            assert(params@ =~= seq![
                (RootParam::DescriptorTable { range_start: 0, range_count: 1 }),
            ]);
        }
        RootSignatureDesc { ranges, params }
    }

    /// The triangle hit-group signature: one root constant-buffer view.
    pub fn triangle_hit_root_desc() -> (r: RootSignatureDesc)
        ensures
            r.ranges@ == Seq::<DescriptorRange>::empty(),
            r.params@ == seq![
                (RootParam::ConstantBufferView { shader_register: 0, register_space: 0 }),
            ],
            r.wf(),
    {
        let mut params: Vec<RootParam> = Vec::new();
        params.push(RootParam::ConstantBufferView { shader_register: 0, register_space: 0 });
        proof {
            assert(params@ =~= seq![
                (RootParam::ConstantBufferView { shader_register: 0, register_space: 0 }),
            ]);
        }
        RootSignatureDesc { ranges: Vec::new(), params }
    }
}

/// A local root signature together with the exports it is associated with.
#[derive(Debug, PartialEq, Eq)]
pub struct LocalRootSignature {
    pub desc: RootSignatureDesc,
    pub exports: Vec<String>,
}

/// A hit group: its own export name and the optional any-hit and closest-hit
/// shader exports it bundles.
#[derive(Debug, PartialEq, Eq)]
pub struct HitGroup {
    pub name: String,
    pub any_hit: Option<String>,
    pub closest_hit: Option<String>,
}

pub open spec fn opt_name_matches(a: Option<String>, b: Option<String>) -> bool {
    match (a, b) {
        (Some(x), Some(y)) => x@ == y@,
        (None, None) => true,
        _ => false,
    }
}

pub open spec fn hit_group_matches(a: HitGroup, b: HitGroup) -> bool {
    &&& a.name@ == b.name@
    &&& opt_name_matches(a.any_hit, b.any_hit)
    &&& opt_name_matches(a.closest_hit, b.closest_hit)
}

/// The payload and attribute budget shared by all programs of the pipeline.
#[derive(Clone, Copy, Debug, PartialEq, Eq, Structural)]
pub struct ShaderConfig {
    pub max_payload_bytes: u32,
    pub max_attribute_bytes: u32,
}

/// One sub-descriptor of the pipeline description.
#[derive(Debug, PartialEq, Eq)]
pub enum Subobject {
    /// The compiled library and the entry points it exports.
    DxilLibrary { exports: Vec<String> },
    /// One hit-group descriptor.
    HitGroup { group: HitGroup },
    /// A local root signature; its association follows immediately.
    LocalRootSignature { desc: RootSignatureDesc },
    /// Binds `exports` to the descriptor at index `target`, always the
    /// immediately preceding one.
    Association { exports: Vec<String>, target: usize },
    /// The shared shader config; its association follows immediately.
    ShaderConfig { config: ShaderConfig },
    /// Maximum trace recursion depth; exactly one per pipeline.
    PipelineConfig { max_recursion_depth: u32 },
    /// The pipeline-wide root signature; exactly one, bound at dispatch.
    GlobalRootSignature { desc: RootSignatureDesc },
}

/// `name` occurs in `names`.
pub open spec fn has_export(names: Seq<String>, name: Seq<char>) -> bool {
    exists|k: int| 0 <= k < names.len() && names[k]@ == name
}

/// Same name lists, compared by contents.
pub open spec fn same_names(a: Seq<String>, b: Seq<String>) -> bool {
    a.len() == b.len() && forall|i: int| 0 <= i < a.len() ==> a[i]@ == b[i]@
}

/// Some local root signature claims an export the library does not export.
pub open spec fn unknown_export_exists(
    locals: Seq<LocalRootSignature>,
    exports: Seq<String>,
) -> bool {
    exists|l: int, i: int|
        0 <= l < locals.len() && 0 <= i < locals[l].exports@.len() && !has_export(
            exports,
            locals[l].exports@[i]@,
        )
}

/// Two local-root-signature associations both claim the same export.
pub open spec fn duplicate_claim_exists(locals: Seq<LocalRootSignature>) -> bool {
    exists|l1: int, l2: int, i1: int, i2: int|
        0 <= l1 < l2 < locals.len() && 0 <= i1 < locals[l1].exports@.len() && 0 <= i2
            < locals[l2].exports@.len() && locals[l1].exports@[i1]@ == locals[l2].exports@[i2]@
}

/// Assembly failure: the pipeline object is not created.
#[derive(Debug, PartialEq, Eq)]
pub enum AssembleError {
    /// An association names an export absent from the compiled library.
    UnknownExport { export: String },
    /// Two local-root-signature associations both claim the same export.
    DuplicateAssociation { export: String },
}

/// The immutable pipeline state object: the ordered sub-descriptor
/// collection, plus the names program identifiers can be asked for.
#[derive(Debug, PartialEq, Eq)]
pub struct PipelineStateObject {
    pub subobjects: Vec<Subobject>,
    pub export_names: Vec<String>,
    pub hit_group_names: Vec<String>,
}

/// No name occurs in both lists.
pub open spec fn no_common_name(a: Seq<String>, b: Seq<String>) -> bool {
    forall|j1: int, j2: int|
        0 <= j1 < a.len() && 0 <= j2 < b.len() ==> (#[trigger] a[j1])@ != (#[trigger] b[j2])@
}

/// Every name of `lib` occurs in `assoc`.
pub open spec fn covers_all(assoc: Seq<String>, lib: Seq<String>) -> bool {
    forall|k: int| 0 <= k < lib.len() ==> has_export(assoc, (#[trigger] lib[k])@)
}

/// Index `i` holds an association bound to a local root signature.
pub open spec fn is_local_assoc(subs: Seq<Subobject>, i: int) -> bool {
    &&& 1 <= i < subs.len()
    &&& subs[i] is Association
    &&& subs[i - 1] is LocalRootSignature
}

pub open spec fn assoc_exports(subs: Seq<Subobject>, i: int) -> Seq<String> {
    subs[i]->Association_exports@
}

impl PipelineStateObject {
    /// The entry points the library sub-descriptor exports.
    pub open spec fn spec_library_exports(self) -> Seq<String> {
        self.subobjects@[0]->DxilLibrary_exports@
    }

    pub open spec fn assoc_wf(self, i: int) -> bool {
        let subs = self.subobjects@;
        subs[i] matches Subobject::Association { exports, target } ==> {
            &&& target == i - 1
            &&& (subs[i - 1] is LocalRootSignature || subs[i - 1] is ShaderConfig)
            &&& forall|j: int|
                0 <= j < exports@.len() ==> has_export(
                    self.spec_library_exports(),
                    (#[trigger] exports@[j])@,
                )
        }
    }

    /// The pipeline-object invariant.
    ///
    /// The collection starts with the library descriptor; every association
    /// references exactly the descriptor that immediately precedes it (a
    /// local root signature or the shared shader config) and names only
    /// exports the library exports; no export is claimed by two
    /// local-root-signature associations; the shader-config association
    /// covers every export; there is exactly one pipeline-config descriptor
    /// (second to last) and exactly one global root signature (last).
    pub open spec fn wf(self) -> bool {
        let subs = self.subobjects@;
        &&& subs.len() >= 5
        &&& subs[0] is DxilLibrary
        &&& forall|i: int|
            0 <= i < subs.len() ==> ((#[trigger] subs[i]) is PipelineConfig <==> i == subs.len()
                - 2)
        &&& forall|i: int|
            0 <= i < subs.len() ==> ((#[trigger] subs[i]) is GlobalRootSignature <==> i
                == subs.len() - 1)
        &&& forall|i: int|
            0 <= i < subs.len() && (#[trigger] subs[i]) is Association ==> self.assoc_wf(i)
        &&& forall|i1: int, i2: int|
            0 <= i1 < i2 < subs.len() && #[trigger] is_local_assoc(subs, i1)
                && #[trigger] is_local_assoc(subs, i2) ==> no_common_name(
                assoc_exports(subs, i1),
                assoc_exports(subs, i2),
            )
        &&& forall|i: int|
            1 <= i < subs.len() && (#[trigger] subs[i]) is Association && subs[i - 1]
                is ShaderConfig ==> covers_all(assoc_exports(subs, i), self.spec_library_exports())
    }
}

fn clone_string(s: &String) -> (r: String)
    ensures
        r@ == s@,
{
    s.clone()
}

fn clone_names(v: &Vec<String>) -> (r: Vec<String>)
    ensures
        same_names(r@, v@),
        r@.len() == v@.len(),
{
    let mut r: Vec<String> = Vec::new();
    let mut i: usize = 0;
    while i < v.len()
        invariant
            i <= v.len(),
            r@.len() == i,
            forall|k: int| 0 <= k < i ==> (#[trigger] r@[k])@ == v@[k]@,
        decreases v.len() - i,
    {
        r.push(clone_string(&v[i]));
        i = i + 1;
    }
    r
}

fn copy_ranges(v: &Vec<DescriptorRange>) -> (r: Vec<DescriptorRange>)
    ensures
        r@ == v@,
{
    let mut r: Vec<DescriptorRange> = Vec::new();
    let mut i: usize = 0;
    while i < v.len()
        invariant
            i <= v.len(),
            r@ == v@.take(i as int),
        decreases v.len() - i,
    {
        r.push(v[i]);
        proof {
            assert(v@.take(i as int).push(v@[i as int]) =~= v@.take(i as int + 1));
        }
        i = i + 1;
    }
    proof {
        assert(v@.take(v@.len() as int) =~= v@);
    }
    r
}

fn copy_params(v: &Vec<RootParam>) -> (r: Vec<RootParam>)
    ensures
        r@ == v@,
{
    let mut r: Vec<RootParam> = Vec::new();
    let mut i: usize = 0;
    while i < v.len()
        invariant
            i <= v.len(),
            r@ == v@.take(i as int),
        decreases v.len() - i,
    {
        r.push(v[i]);
        proof {
            assert(v@.take(i as int).push(v@[i as int]) =~= v@.take(i as int + 1));
        }
        i = i + 1;
    }
    proof {
        assert(v@.take(v@.len() as int) =~= v@);
    }
    r
}

fn clone_sig(s: &RootSignatureDesc) -> (r: RootSignatureDesc)
    ensures
        sig_matches(r, *s),
{
    RootSignatureDesc { ranges: copy_ranges(&s.ranges), params: copy_params(&s.params) }
}

fn clone_opt_name(o: &Option<String>) -> (r: Option<String>)
    ensures
        opt_name_matches(r, *o),
{
    match o {
        Some(s) => Some(clone_string(s)),
        None => None,
    }
}

fn clone_hit_group(h: &HitGroup) -> (r: HitGroup)
    ensures
        hit_group_matches(r, *h),
{
    HitGroup {
        name: clone_string(&h.name),
        any_hit: clone_opt_name(&h.any_hit),
        closest_hit: clone_opt_name(&h.closest_hit),
    }
}

/// First position of `name` in `names`, if any.
fn find_first(names: &Vec<String>, name: &String) -> (r: Option<usize>)
    ensures
        r is Some <==> has_export(names@, name@),
        r matches Some(i) ==> i < names@.len() && names@[i as int]@ == name@ && forall|j: int|
            0 <= j < i ==> (#[trigger] names@[j])@ != name@,
{
    let mut i: usize = 0;
    while i < names.len()
        invariant
            i <= names.len(),
            forall|j: int| 0 <= j < i ==> (#[trigger] names@[j])@ != name@,
        decreases names.len() - i,
    {
        if names[i] == *name {
            return Some(i);
        }
        i = i + 1;
    }
    None
}

fn contains_name(names: &Vec<String>, name: &String) -> (r: bool)
    ensures
        r == has_export(names@, name@),
{
    find_first(names, name).is_some()
}

/// Occurrence transfers between name lists with the same contents.
proof fn lemma_has_export_same(a: Seq<String>, b: Seq<String>, n: Seq<char>)
    requires
        same_names(a, b),
    ensures
        has_export(a, n) == has_export(b, n),
{
    if has_export(a, n) {
        let k = choose|k: int| 0 <= k < a.len() && a[k]@ == n;
        assert(b[k]@ == n);
    }
    if has_export(b, n) {
        let k = choose|k: int| 0 <= k < b.len() && b[k]@ == n;
        assert(a[k]@ == n);
    }
}

/// Some export of `locals[0 .. upto]` has the same name as `name`.
fn claimed_earlier(locals: &Vec<LocalRootSignature>, upto: usize, name: &String) -> (r: bool)
    requires
        upto <= locals@.len(),
    ensures
        r == exists|l: int, i: int|
            0 <= l < upto && 0 <= i < locals@[l].exports@.len() && locals@[l].exports@[i]@
                == name@,
{
    let mut l: usize = 0;
    while l < upto
        invariant
            l <= upto <= locals@.len(),
            forall|l1: int, i1: int|
                0 <= l1 < l && 0 <= i1 < locals@[l1].exports@.len() ==> (
                #[trigger] locals@[l1].exports@[i1])@ != name@,
        decreases upto - l,
    {
        if contains_name(&locals[l].exports, name) {
            proof {
                let i = choose|i: int|
                    0 <= i < locals@[l as int].exports@.len() && locals@[l as int].exports@[i]@
                        == name@;
                assert(locals@[l as int].exports@[i]@ == name@);
            }
            return true;
        }
        l = l + 1;
    }
    false
}

/// The fixed structure `assemble` produces, in order: the library
/// descriptor; one hit-group descriptor per group; for each local root
/// signature, the signature immediately followed by its association; the
/// shared shader config followed by one association covering every export;
/// exactly one pipeline-config descriptor; and exactly one global root
/// signature, last.
pub open spec fn assembled_correctly(
    pso: PipelineStateObject,
    library: CompiledLibrary,
    hit_groups: Seq<HitGroup>,
    locals: Seq<LocalRootSignature>,
    global_sig: RootSignatureDesc,
    config: ShaderConfig,
    max_recursion_depth: u32,
) -> bool {
    let subs = pso.subobjects@;
    let nh = hit_groups.len() as int;
    let nl = locals.len() as int;
    &&& subs.len() == 5 + nh + 2 * nl
    &&& (subs[0] matches Subobject::DxilLibrary { exports } && same_names(
        exports@,
        library.exports@,
    ))
    &&& forall|h: int|
        0 <= h < nh ==> ((#[trigger] subs[1 + h]) matches Subobject::HitGroup { group }
            && hit_group_matches(group, hit_groups[h]))
    &&& forall|l: int|
        0 <= l < nl ==> ((#[trigger] subs[1 + nh + 2 * l]) matches
            Subobject::LocalRootSignature { desc } && sig_matches(desc, locals[l].desc))
    &&& forall|l: int|
        0 <= l < nl ==> ((#[trigger] subs[2 + nh + 2 * l]) matches
            Subobject::Association { exports, target } && same_names(exports@, locals[l].exports@)
            && target == 1 + nh + 2 * l)
    &&& (subs[1 + nh + 2 * nl] matches Subobject::ShaderConfig { config: c } && c == config)
    &&& (subs[2 + nh + 2 * nl] matches Subobject::Association { exports, target } && same_names(
        exports@,
        library.exports@,
    ) && target == 1 + nh + 2 * nl)
    &&& (subs[3 + nh + 2 * nl] matches Subobject::PipelineConfig { max_recursion_depth: d } && d
        == max_recursion_depth)
    &&& (subs[4 + nh + 2 * nl] matches Subobject::GlobalRootSignature { desc } && sig_matches(
        desc,
        global_sig,
    ))
    &&& same_names(pso.export_names@, library.exports@)
    &&& pso.hit_group_names@.len() == nh
    &&& forall|h: int|
        0 <= h < nh ==> (#[trigger] pso.hit_group_names@[h])@ == hit_groups[h].name@
}

/// An assembled pipeline whose inputs passed validation satisfies the
/// pipeline-object invariant.
proof fn lemma_assembled_wf(
    pso: PipelineStateObject,
    library: CompiledLibrary,
    hit_groups: Seq<HitGroup>,
    locals: Seq<LocalRootSignature>,
    global_sig: RootSignatureDesc,
    config: ShaderConfig,
    max_recursion_depth: u32,
)
    requires
        assembled_correctly(pso, library, hit_groups, locals, global_sig, config,
            max_recursion_depth),
        !unknown_export_exists(locals, library.exports@),
        !duplicate_claim_exists(locals),
    ensures
        pso.wf(),
{
    let subs = pso.subobjects@;
    let nh = hit_groups.len() as int;
    let nl = locals.len() as int;
    // PipelineConfig appears exactly once, second to last.
    assert forall|i: int| 0 <= i < subs.len() implies ((subs[i] is PipelineConfig) <==> i
        == subs.len() - 2) by {
        if i < 1 + nh + 2 * nl {
            if 1 <= i < 1 + nh {
                assert(subs[1 + (i - 1)] is HitGroup);
            }
            if 1 + nh <= i {
                lemma_pair_region(pso, library, hit_groups, locals, global_sig, config,
                    max_recursion_depth, i);
            }
            assert(!(subs[i] is PipelineConfig));
        }
    }
    // GlobalRootSignature appears exactly once, last.
    assert forall|i: int| 0 <= i < subs.len() implies ((subs[i] is GlobalRootSignature) <==> i
        == subs.len() - 1) by {
        if i < 1 + nh + 2 * nl {
            if 1 <= i < 1 + nh {
                assert(subs[1 + (i - 1)] is HitGroup);
            }
            if 1 + nh <= i {
                lemma_pair_region(pso, library, hit_groups, locals, global_sig, config,
                    max_recursion_depth, i);
            }
            assert(!(subs[i] is GlobalRootSignature));
        }
    }
    // Every association points at its immediate predecessor and names known
    // exports.
    assert forall|i: int| 0 <= i < subs.len() && subs[i] is Association implies pso.assoc_wf(
        i,
    ) by {
        if 1 <= i < 1 + nh {
            assert(subs[1 + (i - 1)] is HitGroup);
        }
        if 1 + nh <= i < 1 + nh + 2 * nl {
            lemma_pair_region(pso, library, hit_groups, locals, global_sig, config,
                max_recursion_depth, i);
            let k = i - 1 - nh;
            let l = k / 2;
            if k % 2 == 0 {
                assert(subs[i] is LocalRootSignature);
            } else {
                assert(i == 2 + nh + 2 * l);
                assert(subs[1 + nh + 2 * l] is LocalRootSignature);
                let aex = subs[i]->Association_exports;
                assert(same_names(aex@, locals[l].exports@));
                assert forall|j: int| 0 <= j < aex@.len() implies has_export(
                    pso.spec_library_exports(),
                    (#[trigger] aex@[j])@,
                ) by {
                    assert(aex@[j]@ == locals[l].exports@[j]@);
                    assert(has_export(library.exports@, locals[l].exports@[j]@));
                    lemma_has_export_same(
                        pso.spec_library_exports(),
                        library.exports@,
                        locals[l].exports@[j]@,
                    );
                }
            }
        }
        if i == 2 + nh + 2 * nl {
            let aex = subs[i]->Association_exports;
            assert(same_names(aex@, library.exports@));
            assert forall|j: int| 0 <= j < aex@.len() implies has_export(
                pso.spec_library_exports(),
                (#[trigger] aex@[j])@,
            ) by {
                assert(aex@[j]@ == library.exports@[j]@);
                assert(has_export(library.exports@, library.exports@[j]@));
                lemma_has_export_same(
                    pso.spec_library_exports(),
                    library.exports@,
                    library.exports@[j]@,
                );
            }
        }
    }
    // No export is claimed by two local-root-signature associations.
    assert forall|i1: int, i2: int|
        0 <= i1 < i2 < subs.len() && #[trigger] is_local_assoc(subs, i1)
            && #[trigger] is_local_assoc(subs, i2) implies no_common_name(
        assoc_exports(subs, i1),
        assoc_exports(subs, i2),
    ) by {
        lemma_local_assoc_index(pso, library, hit_groups, locals, global_sig, config,
            max_recursion_depth, i1);
        lemma_local_assoc_index(pso, library, hit_groups, locals, global_sig, config,
            max_recursion_depth, i2);
        let l1 = (i1 - 2 - nh) / 2;
        let l2 = (i2 - 2 - nh) / 2;
        assert(l1 < l2);
        let a1 = assoc_exports(subs, i1);
        let a2 = assoc_exports(subs, i2);
        assert forall|j1: int, j2: int|
            0 <= j1 < a1.len() && 0 <= j2 < a2.len() implies (#[trigger] a1[j1])@ != (
        #[trigger] a2[j2])@ by {
            assert(a1[j1]@ == locals[l1].exports@[j1]@);
            assert(a2[j2]@ == locals[l2].exports@[j2]@);
        }
    }
    // The shader-config association covers every export.
    assert forall|i: int|
        1 <= i < subs.len() && (#[trigger] subs[i]) is Association && subs[i - 1]
            is ShaderConfig implies covers_all(
        assoc_exports(subs, i),
        pso.spec_library_exports(),
    ) by {
        // Only index 1 + nh + 2*nl holds the shader config.
        if i - 1 < 1 + nh + 2 * nl {
            if 1 <= i - 1 < 1 + nh {
                assert(subs[1 + (i - 2)] is HitGroup);
            }
            if 1 + nh <= i - 1 {
                lemma_pair_region(pso, library, hit_groups, locals, global_sig, config,
                    max_recursion_depth, i - 1);
            }
            assert(!(subs[i - 1] is ShaderConfig));
        }
        assert(i == 2 + nh + 2 * nl);
        let aex = assoc_exports(subs, i);
        assert(same_names(aex, library.exports@));
        let lib = pso.spec_library_exports();
        assert(same_names(lib, library.exports@));
        assert forall|k: int| 0 <= k < lib.len() implies has_export(
            aex,
            (#[trigger] lib[k])@,
        ) by {
            assert(lib[k]@ == library.exports@[k]@);
            assert(aex[k]@ == library.exports@[k]@);
        }
    }
}

/// In an assembled pipeline, an association whose predecessor is a local
/// root signature stands at an odd offset of the pair region and mirrors
/// that local signature's export list.
proof fn lemma_local_assoc_index(
    pso: PipelineStateObject,
    library: CompiledLibrary,
    hit_groups: Seq<HitGroup>,
    locals: Seq<LocalRootSignature>,
    global_sig: RootSignatureDesc,
    config: ShaderConfig,
    max_recursion_depth: u32,
    i: int,
)
    requires
        assembled_correctly(pso, library, hit_groups, locals, global_sig, config,
            max_recursion_depth),
        is_local_assoc(pso.subobjects@, i),
    ensures
        0 <= (i - 2 - hit_groups.len()) / 2 < locals.len(),
        i == 2 + hit_groups.len() + 2 * ((i - 2 - hit_groups.len()) / 2),
        same_names(
            assoc_exports(pso.subobjects@, i),
            locals[(i - 2 - hit_groups.len()) / 2].exports@,
        ),
{
    let subs = pso.subobjects@;
    let nh = hit_groups.len() as int;
    let nl = locals.len() as int;
    if 1 <= i < 1 + nh {
        assert(subs[1 + (i - 1)] is HitGroup);
    }
    if 1 <= i - 1 < 1 + nh {
        assert(subs[1 + (i - 2)] is HitGroup);
    }
    assert(1 + nh <= i);
    if i >= 1 + nh + 2 * nl {
        assert(!(subs[i] is Association && subs[i - 1] is LocalRootSignature));
    }
    assert(i < 1 + nh + 2 * nl);
    lemma_pair_region(pso, library, hit_groups, locals, global_sig, config, max_recursion_depth,
        i);
    let k = i - 1 - nh;
    let l = k / 2;
    if k % 2 == 0 {
        assert(subs[i] is LocalRootSignature);
        assert(false);
    }
    assert(i == 2 + nh + 2 * l);
    // The predecessor index has even offset, so l is also (i - 2 - nh) / 2.
    assert((i - 2 - nh) == 2 * l);
    assert((2 * l) / 2 == l) by {
        vstd::arithmetic::div_mod::lemma_fundamental_div_mod_converse(2 * l, 2, l, 0);
    }
}

/// Parity classification of the pair region: even offsets hold the local
/// root signatures, odd offsets their associations.
proof fn lemma_pair_region(
    pso: PipelineStateObject,
    library: CompiledLibrary,
    hit_groups: Seq<HitGroup>,
    locals: Seq<LocalRootSignature>,
    global_sig: RootSignatureDesc,
    config: ShaderConfig,
    max_recursion_depth: u32,
    i: int,
)
    requires
        assembled_correctly(pso, library, hit_groups, locals, global_sig, config,
            max_recursion_depth),
        1 + hit_groups.len() <= i < 1 + hit_groups.len() + 2 * locals.len(),
    ensures
        ({
            let k = i - 1 - hit_groups.len();
            let l = k / 2;
            &&& 0 <= l < locals.len()
            &&& 0 <= k % 2 <= 1
            &&& (k % 2 == 0 ==> i == 1 + hit_groups.len() + 2 * l && pso.subobjects@[i]
                is LocalRootSignature)
            &&& (k % 2 == 1 ==> i == 2 + hit_groups.len() + 2 * l && pso.subobjects@[i]
                is Association)
        }),
{
    let subs = pso.subobjects@;
    let nh = hit_groups.len() as int;
    let nl = locals.len() as int;
    let k = i - 1 - nh;
    vstd::arithmetic::div_mod::lemma_fundamental_div_mod(k, 2);
    vstd::arithmetic::div_mod::lemma_mod_bound(k, 2);
    let l = k / 2;
    assert(k == 2 * l + k % 2);
    assert(0 <= l < nl) by (nonlinear_arith)
        requires
            0 <= k < 2 * nl,
            k == 2 * l + k % 2,
            0 <= k % 2 <= 1,
    ;
    assert(subs[1 + nh + 2 * l] is LocalRootSignature);
    assert(subs[2 + nh + 2 * l] is Association);
}

/// Assembles the ray-tracing pipeline state object.
///
/// The sub-descriptors are emitted in the fixed order that
/// [`assembled_correctly`] describes; each association is stored as the
/// index of the descriptor that immediately precedes it.  Assembly fails,
/// and no pipeline object is created, exactly when a local root signature
/// claims an export absent from the compiled library's export list, or two
/// local root signatures claim the same export.
pub fn assemble(
    library: &CompiledLibrary,
    hit_groups: &Vec<HitGroup>,
    local_root_signatures: &Vec<LocalRootSignature>,
    global_root_signature: RootSignatureDesc,
    shader_config: ShaderConfig,
    max_recursion_depth: u32,
) -> (r: Result<PipelineStateObject, AssembleError>)
    requires
        5 + hit_groups@.len() + 2 * local_root_signatures@.len() <= usize::MAX,
    ensures
        r is Ok <==> (!unknown_export_exists(local_root_signatures@, library.exports@)
            && !duplicate_claim_exists(local_root_signatures@)),
        unknown_export_exists(local_root_signatures@, library.exports@) ==> (r matches Err(e)
            && e is UnknownExport),
        (!unknown_export_exists(local_root_signatures@, library.exports@)
            && duplicate_claim_exists(local_root_signatures@)) ==> (r matches Err(e)
            && e is DuplicateAssociation),
        r matches Err(AssembleError::UnknownExport { export }) ==> !has_export(
            library.exports@,
            export@,
        ) && (exists|l: int, i: int|
            0 <= l < local_root_signatures@.len() && 0 <= i
                < local_root_signatures@[l].exports@.len()
                && local_root_signatures@[l].exports@[i]@ == export@),
        r matches Err(AssembleError::DuplicateAssociation { export }) ==> (exists|
            l1: int,
            l2: int,
            i1: int,
            i2: int,
        |
            0 <= l1 < l2 < local_root_signatures@.len() && 0 <= i1
                < local_root_signatures@[l1].exports@.len() && 0 <= i2
                < local_root_signatures@[l2].exports@.len()
                && local_root_signatures@[l1].exports@[i1]@ == export@
                && local_root_signatures@[l2].exports@[i2]@ == export@),
        r matches Ok(pso) ==> assembled_correctly(
            pso,
            *library,
            hit_groups@,
            local_root_signatures@,
            global_root_signature,
            shader_config,
            max_recursion_depth,
        ) && pso.wf(),
{
    let ghost locals_g = local_root_signatures@;
    // Every claimed export must come from the compiled library.
    let mut l: usize = 0;
    while l < local_root_signatures.len()
        invariant
            l <= locals_g.len(),
            locals_g == local_root_signatures@,
            forall|l2: int, i2: int|
                0 <= l2 < l && 0 <= i2 < locals_g[l2].exports@.len() ==> has_export(
                    library.exports@,
                    (#[trigger] locals_g[l2].exports@[i2])@,
                ),
        decreases locals_g.len() - l,
    {
        let mut i: usize = 0;
        while i < local_root_signatures[l].exports.len()
            invariant
                l < locals_g.len(),
                i <= locals_g[l as int].exports@.len(),
                locals_g == local_root_signatures@,
                forall|l2: int, i2: int|
                    0 <= l2 < l && 0 <= i2 < locals_g[l2].exports@.len() ==> has_export(
                        library.exports@,
                        (#[trigger] locals_g[l2].exports@[i2])@,
                    ),
                forall|i2: int|
                    0 <= i2 < i ==> has_export(
                        library.exports@,
                        (#[trigger] locals_g[l as int].exports@[i2])@,
                    ),
            decreases locals_g[l as int].exports@.len() - i,
        {
            if !contains_name(&library.exports, &local_root_signatures[l].exports[i]) {
                return Err(
                    AssembleError::UnknownExport {
                        export: clone_string(&local_root_signatures[l].exports[i]),
                    },
                );
            }
            i = i + 1;
        }
        l = l + 1;
    }
    assert(!unknown_export_exists(locals_g, library.exports@));
    // No export may be claimed by two local root signatures.
    let mut l2: usize = 0;
    while l2 < local_root_signatures.len()
        invariant
            l2 <= locals_g.len(),
            locals_g == local_root_signatures@,
            !unknown_export_exists(locals_g, library.exports@),
            !duplicate_claim_exists(locals_g.take(l2 as int)),
        decreases locals_g.len() - l2,
    {
        let mut i2: usize = 0;
        while i2 < local_root_signatures[l2].exports.len()
            invariant
                l2 < locals_g.len(),
                i2 <= locals_g[l2 as int].exports@.len(),
                locals_g == local_root_signatures@,
                !unknown_export_exists(locals_g, library.exports@),
                !duplicate_claim_exists(locals_g.take(l2 as int)),
                forall|l1: int, i1: int|
                    0 <= l1 < l2 && 0 <= i1 < locals_g[l1].exports@.len() ==> forall|ix: int|
                        0 <= ix < i2 ==> (#[trigger] locals_g[l1].exports@[i1])@ != (
                        #[trigger] locals_g[l2 as int].exports@[ix])@,
            decreases locals_g[l2 as int].exports@.len() - i2,
        {
            if claimed_earlier(local_root_signatures, l2, &local_root_signatures[l2].exports[i2]) {
                return Err(
                    AssembleError::DuplicateAssociation {
                        export: clone_string(&local_root_signatures[l2].exports[i2]),
                    },
                );
            }
            i2 = i2 + 1;
        }
        proof {
            lemma_no_dup_extend(locals_g, l2 as int);
        }
        l2 = l2 + 1;
    }
    proof {
        assert(locals_g.take(locals_g.len() as int) =~= locals_g);
    }
    assert(!duplicate_claim_exists(locals_g));
    // Build the descriptor collection in its fixed order.
    let nh = hit_groups.len();
    let nl = local_root_signatures.len();
    let mut subs: Vec<Subobject> = Vec::new();
    subs.push(Subobject::DxilLibrary { exports: clone_names(&library.exports) });
    let mut h: usize = 0;
    while h < nh
        invariant
            h <= nh,
            nh == hit_groups@.len(),
            subs@.len() == 1 + h,
            subs@[0] matches Subobject::DxilLibrary { exports } && same_names(
                exports@,
                library.exports@,
            ),
            forall|k: int|
                0 <= k < h ==> ((#[trigger] subs@[1 + k]) matches Subobject::HitGroup { group }
                    && hit_group_matches(group, hit_groups@[k])),
        decreases nh - h,
    {
        subs.push(Subobject::HitGroup { group: clone_hit_group(&hit_groups[h]) });
        h = h + 1;
    }
    let mut l3: usize = 0;
    while l3 < nl
        invariant
            l3 <= nl,
            nh == hit_groups@.len(),
            nl == locals_g.len(),
            locals_g == local_root_signatures@,
            subs@.len() == 1 + nh + 2 * l3,
            5 + nh + 2 * nl <= usize::MAX,
            subs@[0] matches Subobject::DxilLibrary { exports } && same_names(
                exports@,
                library.exports@,
            ),
            forall|k: int|
                0 <= k < nh ==> ((#[trigger] subs@[1 + k]) matches Subobject::HitGroup { group }
                    && hit_group_matches(group, hit_groups@[k])),
            forall|k: int|
                0 <= k < l3 ==> ((#[trigger] subs@[1 + nh + 2 * k]) matches
                    Subobject::LocalRootSignature { desc } && sig_matches(desc, locals_g[k].desc)),
            forall|k: int|
                0 <= k < l3 ==> ((#[trigger] subs@[2 + nh + 2 * k]) matches
                    Subobject::Association { exports, target } && same_names(
                    exports@,
                    locals_g[k].exports@,
                ) && target == 1 + nh + 2 * k),
        decreases nl - l3,
    {
        subs.push(
            Subobject::LocalRootSignature {
                desc: clone_sig(&local_root_signatures[l3].desc),
            },
        );
        let t = subs.len() - 1;
        subs.push(
            Subobject::Association {
                exports: clone_names(&local_root_signatures[l3].exports),
                target: t,
            },
        );
        l3 = l3 + 1;
    }
    subs.push(Subobject::ShaderConfig { config: shader_config });
    let t = subs.len() - 1;
    subs.push(Subobject::Association { exports: clone_names(&library.exports), target: t });
    subs.push(Subobject::PipelineConfig { max_recursion_depth });
    subs.push(Subobject::GlobalRootSignature { desc: global_root_signature });
    let export_names = clone_names(&library.exports);
    let mut hit_group_names: Vec<String> = Vec::new();
    let mut h2: usize = 0;
    while h2 < nh
        invariant
            h2 <= nh,
            nh == hit_groups@.len(),
            hit_group_names@.len() == h2,
            forall|k: int|
                0 <= k < h2 ==> (#[trigger] hit_group_names@[k])@ == hit_groups@[k].name@,
        decreases nh - h2,
    {
        hit_group_names.push(clone_string(&hit_groups[h2].name));
        h2 = h2 + 1;
    }
    let pso = PipelineStateObject { subobjects: subs, export_names, hit_group_names };
    proof {
        lemma_assembled_wf(
            pso,
            *library,
            hit_groups@,
            locals_g,
            global_root_signature,
            shader_config,
            max_recursion_depth,
        );
    }
    Ok(pso)
}

/// The identifier token for the program at position `index` of the combined
/// name list: the index in little-endian bytes, zero-padded to the fixed
/// identifier width.
pub open spec fn spec_identifier_bytes(index: u32) -> Seq<u8> {
    spec_u32_le(index) + Seq::<u8>::new((PROGRAM_IDENTIFIER_SIZE - 4) as nat, |i: int| 0u8)
}

fn make_identifier(index: u32) -> (r: Vec<u8>)
    ensures
        r@ == spec_identifier_bytes(index),
        r@.len() == PROGRAM_IDENTIFIER_SIZE,
{
    let mut r: Vec<u8> = Vec::new();
    push_u32_le(&mut r, index);
    proof {
        assert(r@ =~= spec_u32_le(index) + Seq::<u8>::new(0, |i: int| 0u8));
    }
    let mut k: usize = 0;
    while k < 28
        invariant
            k <= 28,
            r@ == spec_u32_le(index) + Seq::<u8>::new(k as nat, |i: int| 0u8),
        decreases 28 - k,
    {
        r.push(0);
        proof {
            assert((spec_u32_le(index) + Seq::<u8>::new(k as nat, |i: int| 0u8)).push(0u8)
                =~= spec_u32_le(index) + Seq::<u8>::new((k + 1) as nat, |i: int| 0u8));
        }
        k = k + 1;
    }
    proof {
        assert(Seq::<u8>::new(28, |i: int| 0u8) =~= Seq::<u8>::new(
            (PROGRAM_IDENTIFIER_SIZE - 4) as nat,
            |i: int| 0u8,
        ));
    }
    r
}

/// Distinct positions in the combined name list get distinct identifier
/// tokens, so distinct names are never confused at trace time.
pub proof fn lemma_identifiers_distinct(i1: u32, i2: u32)
    requires
        i1 != i2,
    ensures
        spec_identifier_bytes(i1) != spec_identifier_bytes(i2),
{
    if spec_identifier_bytes(i1) == spec_identifier_bytes(i2) {
        assert(spec_u32_le(i1) =~= spec_u32_le(i2)) by {
            assert forall|j: int| 0 <= j < 4 implies spec_u32_le(i1)[j] == spec_u32_le(i2)[j] by {
                assert(spec_identifier_bytes(i1)[j] == spec_u32_le(i1)[j]);
                assert(spec_identifier_bytes(i2)[j] == spec_u32_le(i2)[j]);
            }
        }
        crate::bytes::lemma_u32_le_injective(i1, i2);
    }
}

impl PipelineStateObject {
    /// All names an identifier can be asked for: the library's exports
    /// followed by the hit-group names.
    pub open spec fn all_names(self) -> Seq<String> {
        self.export_names@ + self.hit_group_names@
    }

    pub open spec fn known_name(self, name: Seq<char>) -> bool {
        has_export(self.all_names(), name)
    }

    /// The opaque fixed-width program identifier for `name`, valid only
    /// post-assembly.  Returns a token exactly when the name is one of the
    /// library's exports or one of the hit groups; distinct names get
    /// distinct tokens, each determined by the name's first position in the
    /// combined name list.
    pub fn program_identifier(&self, name: &String) -> (r: Option<Vec<u8>>)
        requires
            self.export_names@.len() + self.hit_group_names@.len() <= u32::MAX,
        ensures
            r is Some <==> self.known_name(name@),
            r matches Some(id) ==> id@.len() == PROGRAM_IDENTIFIER_SIZE && exists|k: int|
                0 <= k < self.all_names().len() && #[trigger] self.all_names()[k]@ == name@ && (
                forall|j: int| 0 <= j < k ==> self.all_names()[j]@ != name@) && id@
                == spec_identifier_bytes(k as u32),
    {
        let ghost all = self.all_names();
        match find_first(&self.export_names, name) {
            Some(i) => {
                proof {
                    assert(all[i as int] == self.export_names@[i as int]);
                    assert forall|j: int| 0 <= j < i implies all[j]@ != name@ by {
                        assert(all[j] == self.export_names@[j]);
                    }
                }
                Some(make_identifier(i as u32))
            },
            None => {
                match find_first(&self.hit_group_names, name) {
                    Some(i) => {
                        let ne = self.export_names.len();
                        let ghost k = ne + i;
                        proof {
                            assert(all[k as int] == self.hit_group_names@[i as int]);
                            assert forall|j: int| 0 <= j < k implies all[j]@ != name@ by {
                                if j < ne {
                                    assert(all[j] == self.export_names@[j]);
                                } else {
                                    assert(all[j] == self.hit_group_names@[j - ne]);
                                }
                            }
                        }
                        Some(make_identifier((ne + i) as u32))
                    },
                    None => {
                        proof {
                            if self.known_name(name@) {
                                let k = choose|k: int|
                                    0 <= k < all.len() && all[k]@ == name@;
                                if k < self.export_names@.len() {
                                    assert(all[k] == self.export_names@[k]);
                                } else {
                                    assert(all[k] == self.hit_group_names@[k
                                        - self.export_names@.len()]);
                                }
                                assert(false);
                            }
                        }
                        None
                    },
                }
            },
        }
    }
}

/// A prefix with no duplicate claims stays duplicate-free when the next
/// signature shares no export name with any earlier one.
proof fn lemma_no_dup_extend(locals: Seq<LocalRootSignature>, n: int)
    requires
        0 <= n < locals.len(),
        !duplicate_claim_exists(locals.take(n)),
        forall|l1: int, i1: int|
            0 <= l1 < n && 0 <= i1 < locals[l1].exports@.len() ==> forall|ix: int|
                0 <= ix < locals[n].exports@.len() ==> (#[trigger] locals[l1].exports@[i1])@ != (
                #[trigger] locals[n].exports@[ix])@,
    ensures
        !duplicate_claim_exists(locals.take(n + 1)),
{
    let pre = locals.take(n + 1);
    if duplicate_claim_exists(pre) {
        let (l1, l2, i1, i2) = choose|l1: int, l2: int, i1: int, i2: int|
            0 <= l1 < l2 < pre.len() && 0 <= i1 < pre[l1].exports@.len() && 0 <= i2
                < pre[l2].exports@.len() && pre[l1].exports@[i1]@ == pre[l2].exports@[i2]@;
        assert(pre[l1] == locals[l1]);
        assert(pre[l2] == locals[l2]);
        if l2 < n {
            assert(locals.take(n)[l1] == locals[l1]);
            assert(locals.take(n)[l2] == locals[l2]);
            assert(duplicate_claim_exists(locals.take(n)));
        } else {
            assert(l2 == n);
            assert(locals[l1].exports@[i1]@ != locals[n].exports@[i2]@);
        }
        assert(false);
    }
}

} // verus!
