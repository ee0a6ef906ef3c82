//! Shader binding table: layout and population.
//!
//! The table is a fixed-stride array of records.  Region 0 holds the single
//! ray-generation entry, region 1 one entry per miss ray type, region 2 the
//! hit-group entries in instance-major, ray-type-minor order.  Every record
//! is an opaque program identifier, an optional 8-byte trailing argument
//! (descriptor-table pointer or raw GPU address), and zero padding up to the
//! common stride.

use vstd::prelude::*;
use crate::bytes::push_u64_le;
use crate::bytes::spec_u64_le;
use crate::command::DispatchDesc;
use crate::memory::align_to;
use crate::memory::spec_align_to;

verus! {

/// One table entry as requested by the caller: the program identifier to
/// write and, optionally, the trailing argument.
#[derive(Clone, Debug, PartialEq, Eq)]
pub struct SbtEntry {
    pub identifier: Vec<u8>,
    pub argument: Option<u64>,
}

/// Every identifier in the table must have the platform's fixed width.
pub open spec fn entry_wf(e: SbtEntry, identifier_size: int) -> bool {
    e.identifier@.len() == identifier_size
}

pub open spec fn entries_wf(
    raygen: SbtEntry,
    miss: Seq<SbtEntry>,
    hit: Seq<SbtEntry>,
    identifier_size: int,
) -> bool {
    &&& entry_wf(raygen, identifier_size)
    &&& forall|i: int| 0 <= i < miss.len() ==> entry_wf(#[trigger] miss[i], identifier_size)
    &&& forall|i: int| 0 <= i < hit.len() ==> entry_wf(#[trigger] hit[i], identifier_size)
}

/// Bytes an entry occupies before padding: the identifier plus its trailing
/// argument, if any.
pub open spec fn spec_entry_size(identifier_size: int, e: SbtEntry) -> int {
    identifier_size + if e.argument is Some {
        8int
    } else {
        0int
    }
}

/// All entries of the table in region order: ray generation, then miss, then
/// hit groups.
pub open spec fn all_entries(raygen: SbtEntry, miss: Seq<SbtEntry>, hit: Seq<SbtEntry>) -> Seq<
    SbtEntry,
> {
    seq![raygen] + miss + hit
}

/// The largest unpadded entry size over `es` (at least the identifier size).
pub open spec fn spec_max_entry_size(identifier_size: int, es: Seq<SbtEntry>) -> int
    decreases es.len(),
{
    if es.len() == 0 {
        identifier_size
    } else {
        let rest = spec_max_entry_size(identifier_size, es.drop_last());
        let last = spec_entry_size(identifier_size, es.last());
        if last >= rest {
            last
        } else {
            rest
        }
    }
}

/// Which entries carry a trailing argument; the layout depends on the entry
/// set only through this and the counts.
pub open spec fn arg_shape(es: Seq<SbtEntry>) -> Seq<bool> {
    es.map_values(|e: SbtEntry| e.argument is Some)
}

proof fn lemma_max_entry_size_push(identifier_size: int, es: Seq<SbtEntry>, e: SbtEntry)
    ensures
        spec_max_entry_size(identifier_size, es.push(e)) == if spec_entry_size(identifier_size, e)
            >= spec_max_entry_size(identifier_size, es) {
            spec_entry_size(identifier_size, e)
        } else {
            spec_max_entry_size(identifier_size, es)
        },
{
    assert(es.push(e).drop_last() =~= es);
    assert(es.push(e).last() == e);
}

proof fn lemma_max_entry_size_bounds(identifier_size: int, es: Seq<SbtEntry>)
    ensures
        identifier_size <= spec_max_entry_size(identifier_size, es) <= identifier_size + 8,
    decreases es.len(),
{
    if es.len() > 0 {
        lemma_max_entry_size_bounds(identifier_size, es.drop_last());
    }
}

/// The layout `layout` computes: the common record stride, the regions'
/// offsets from the start of the table, and the table's total size.
#[derive(Clone, Copy, Debug, PartialEq, Eq, Structural)]
pub struct SbtLayout {
    pub identifier_size: u64,
    pub stride: u64,
    pub miss_count: u64,
    pub hit_count: u64,
    pub raygen_offset: u64,
    pub miss_offset: u64,
    pub hit_offset: u64,
    pub entry_count: u64,
    pub total_size: u64,
}

impl SbtLayout {
    /// Internal consistency of a layout with respect to the entries it was
    /// computed from.
    pub open spec fn wf_for(
        self,
        raygen: SbtEntry,
        miss: Seq<SbtEntry>,
        hit: Seq<SbtEntry>,
    ) -> bool {
        &&& self.identifier_size >= 1
        &&& entries_wf(raygen, miss, hit, self.identifier_size as int)
        &&& self.miss_count == miss.len()
        &&& self.hit_count == hit.len()
        &&& self.entry_count == 1 + miss.len() + hit.len()
        &&& spec_max_entry_size(self.identifier_size as int, all_entries(raygen, miss, hit))
            <= self.stride
        &&& self.raygen_offset == 0
        &&& self.miss_offset == self.stride
        &&& self.hit_offset == self.stride * (1 + miss.len())
        &&& self.total_size == self.stride * self.entry_count
    }
}

/// Computes the uniform record stride and the region offsets.
///
/// The stride is the maximum over all entries of identifier size plus that
/// entry's trailing-argument size, rounded up to the record alignment; it is
/// derived from every known entry before anything is written.  The regions
/// follow each other without gaps: ray generation at 0, miss at `stride`,
/// hit groups at `stride * (1 + missCount)`.
pub fn layout(
    identifier_size: u64,
    record_alignment: u64,
    raygen: &SbtEntry,
    miss: &Vec<SbtEntry>,
    hit: &Vec<SbtEntry>,
) -> (l: SbtLayout)
    requires
        identifier_size >= 1,
        record_alignment >= 1,
        entries_wf(*raygen, miss@, hit@, identifier_size as int),
        identifier_size + 8 + record_alignment <= u64::MAX,
        (identifier_size + 8 + record_alignment) * (1 + miss@.len() + hit@.len()) <= u64::MAX,
    ensures
        l.wf_for(*raygen, miss@, hit@),
        l.identifier_size == identifier_size,
        l.stride == spec_align_to(
            record_alignment as int,
            spec_max_entry_size(identifier_size as int, all_entries(*raygen, miss@, hit@)),
        ),
        l.stride % record_alignment == 0,
{
    let ghost all = all_entries(*raygen, miss@, hit@);
    let mut max_size: u64 = if raygen.argument.is_some() {
        identifier_size + 8
    } else {
        identifier_size
    };
    proof {
        assert(seq![*raygen].drop_last() =~= Seq::<SbtEntry>::empty());
        assert(seq![*raygen].last() == *raygen);
        assert(seq![*raygen] + miss@.take(0) =~= seq![*raygen]);
        assert(spec_max_entry_size(identifier_size as int, Seq::<SbtEntry>::empty())
            == identifier_size as int);
    }
    let mut i: usize = 0;
    while i < miss.len()
        invariant
            i <= miss.len(),
            identifier_size >= 1,
            max_size == spec_max_entry_size(
                identifier_size as int,
                seq![*raygen] + miss@.take(i as int),
            ),
            identifier_size <= max_size <= identifier_size + 8,
            identifier_size + 8 <= u64::MAX,
            entries_wf(*raygen, miss@, hit@, identifier_size as int),
        decreases miss.len() - i,
    {
        let sz = if miss[i].argument.is_some() {
            identifier_size + 8
        } else {
            identifier_size
        };
        if sz > max_size {
            max_size = sz;
        }
        proof {
            lemma_max_entry_size_push(
                identifier_size as int,
                seq![*raygen] + miss@.take(i as int),
                miss@[i as int],
            );
            assert((seq![*raygen] + miss@.take(i as int)).push(miss@[i as int]) =~= seq![*raygen]
                + miss@.take(i as int + 1));
        }
        i = i + 1;
    }
    proof {
        assert(miss@.take(miss@.len() as int) =~= miss@);
    }
    let mut j: usize = 0;
    while j < hit.len()
        invariant
            j <= hit.len(),
            identifier_size >= 1,
            max_size == spec_max_entry_size(
                identifier_size as int,
                seq![*raygen] + miss@ + hit@.take(j as int),
            ),
            identifier_size <= max_size <= identifier_size + 8,
            identifier_size + 8 <= u64::MAX,
            entries_wf(*raygen, miss@, hit@, identifier_size as int),
        decreases hit.len() - j,
    {
        let sz = if hit[j].argument.is_some() {
            identifier_size + 8
        } else {
            identifier_size
        };
        if sz > max_size {
            max_size = sz;
        }
        proof {
            lemma_max_entry_size_push(
                identifier_size as int,
                seq![*raygen] + miss@ + hit@.take(j as int),
                hit@[j as int],
            );
            assert((seq![*raygen] + miss@ + hit@.take(j as int)).push(hit@[j as int])
                =~= seq![*raygen] + miss@ + hit@.take(j as int + 1));
        }
        j = j + 1;
    }
    proof {
        assert(hit@.take(hit@.len() as int) =~= hit@);
        assert(seq![*raygen] + miss@ + hit@ =~= all);
    }
    let stride = align_to(record_alignment, max_size);
    let miss_count = miss.len() as u64;
    let hit_count = hit.len() as u64;
    proof {
        let aa = identifier_size as int + 8 + record_alignment as int;
        assert(1 + miss_count + hit_count <= u64::MAX) by (nonlinear_arith)
            requires
                aa >= 1,
                miss_count >= 0,
                hit_count >= 0,
                aa * (1 + miss_count + hit_count) <= u64::MAX,
        ;
    }
    let entry_count = 1 + miss_count + hit_count;
    proof {
        let aa = identifier_size as int + 8 + record_alignment as int;
        assert(stride * (1 + miss_count) <= u64::MAX && stride * entry_count <= u64::MAX
            && stride * (1 + miss_count) <= stride * entry_count) by (nonlinear_arith)
            requires
                stride < aa,
                0 < stride || 0 == stride,
                0 <= stride,
                1 + miss_count <= entry_count,
                1 <= entry_count,
                aa * entry_count <= u64::MAX,
                aa >= 1,
        ;
    }
    let miss_offset = stride;
    let hit_offset = stride * (1 + miss_count);
    let total_size = stride * entry_count;
    SbtLayout {
        identifier_size,
        stride,
        miss_count,
        hit_count,
        raygen_offset: 0,
        miss_offset,
        hit_offset,
        entry_count,
        total_size,
    }
}

/// The layout is a pure function of the identifier size, the record
/// alignment, the entry counts and the entries' argument shapes: identical
/// entry sets yield identical stride and total size on repeated calls.
pub proof fn lemma_layout_idempotent(
    identifier_size: int,
    record_alignment: int,
    es1: Seq<SbtEntry>,
    es2: Seq<SbtEntry>,
)
    requires
        arg_shape(es1) == arg_shape(es2),
    ensures
        es1.len() == es2.len(),
        spec_max_entry_size(identifier_size, es1) == spec_max_entry_size(identifier_size, es2),
        spec_align_to(record_alignment, spec_max_entry_size(identifier_size, es1))
            == spec_align_to(record_alignment, spec_max_entry_size(identifier_size, es2)),
        spec_align_to(record_alignment, spec_max_entry_size(identifier_size, es1)) * es1.len()
            == spec_align_to(record_alignment, spec_max_entry_size(identifier_size, es2))
            * es2.len(),
    decreases es1.len(),
{
    assert(arg_shape(es1).len() == es1.len());
    assert(arg_shape(es2).len() == es2.len());
    if es1.len() > 0 {
        assert(arg_shape(es1.drop_last()) =~= arg_shape(es1).drop_last());
        assert(arg_shape(es2.drop_last()) =~= arg_shape(es2).drop_last());
        lemma_layout_idempotent(
            identifier_size,
            record_alignment,
            es1.drop_last(),
            es2.drop_last(),
        );
        assert(arg_shape(es1)[es1.len() - 1] == (es1.last().argument is Some));
        assert(arg_shape(es2)[es2.len() - 1] == (es2.last().argument is Some));
    }
}

/// Index of the hit-group entry for (`instance`, `ray_type`) in the
/// instance-major, ray-type-minor order.
pub open spec fn spec_hit_entry_index(instance: int, ray_type: int, ray_type_count: int) -> int {
    instance * ray_type_count + ray_type
}

/// The shader-binding-table contribution written into instance `instance`'s
/// acceleration-structure record when every instance is hit by
/// `ray_type_count` ray types.
pub open spec fn spec_sbt_contribution(instance: int, ray_type_count: int) -> int {
    instance * ray_type_count
}

/// Exec counterpart of [`spec_sbt_contribution`].  The result must fit the
/// 24-bit contribution field of an instance record.
pub fn sbt_contribution(instance: u32, ray_type_count: u32) -> (r: u32)
    requires
        instance * ray_type_count < 0x1000000,
    ensures
        r == spec_sbt_contribution(instance as int, ray_type_count as int),
        r < 0x1000000,
{
    instance * ray_type_count
}

/// At trace time the hardware consults hit-group slot `contribution +
/// ray_type`.  With contributions assigned by [`sbt_contribution`], that is
/// exactly the slot where the instance-major, ray-type-minor order placed the
/// entry for (`instance`, `ray_type`) — the orderings match.
pub proof fn lemma_contribution_matches_hit_order(instance: int, ray_type: int, ray_type_count: int)
    requires
        0 <= ray_type < ray_type_count,
    ensures
        spec_sbt_contribution(instance, ray_type_count) + ray_type == spec_hit_entry_index(
            instance,
            ray_type,
            ray_type_count,
        ),
{
}

/// Distinct (instance, ray type) pairs land in distinct hit-group slots, and
/// every slot of an instance in range stays in range: the instance-major,
/// ray-type-minor order is a bijection onto `0 .. instance_count *
/// ray_type_count`.
pub proof fn lemma_hit_order_injective(
    i1: int,
    r1: int,
    i2: int,
    r2: int,
    ray_type_count: int,
)
    requires
        0 <= r1 < ray_type_count,
        0 <= r2 < ray_type_count,
        0 <= i1,
        0 <= i2,
        spec_hit_entry_index(i1, r1, ray_type_count) == spec_hit_entry_index(
            i2,
            r2,
            ray_type_count,
        ),
    ensures
        i1 == i2 && r1 == r2,
{
    let x = spec_hit_entry_index(i1, r1, ray_type_count);
    vstd::arithmetic::div_mod::lemma_fundamental_div_mod_converse(x, ray_type_count, i1, r1);
    vstd::arithmetic::div_mod::lemma_fundamental_div_mod_converse(x, ray_type_count, i2, r2);
}

/// `n` zero bytes of padding.
pub open spec fn zero_bytes(n: int) -> Seq<u8> {
    Seq::new(n as nat, |i: int| 0u8)
}

/// An entry's bytes before padding: the identifier, then the trailing
/// argument in little-endian order if the entry carries one.
pub open spec fn spec_entry_body(e: SbtEntry) -> Seq<u8> {
    e.identifier@ + match e.argument {
        Some(a) => spec_u64_le(a),
        None => Seq::<u8>::empty(),
    }
}

/// An entry's full stride-wide record: body, then zero padding.
pub open spec fn spec_entry_bytes(e: SbtEntry, stride: int) -> Seq<u8> {
    spec_entry_body(e) + zero_bytes(stride - spec_entry_body(e).len())
}

/// The whole table: every entry's record, in region order, back to back.
pub open spec fn spec_table_bytes(es: Seq<SbtEntry>, stride: int) -> Seq<u8>
    decreases es.len(),
{
    if es.len() == 0 {
        Seq::empty()
    } else {
        spec_table_bytes(es.drop_last(), stride) + spec_entry_bytes(es.last(), stride)
    }
}

/// Length of the assembled table.
pub proof fn lemma_table_bytes_len(es: Seq<SbtEntry>, stride: int, identifier_size: int)
    requires
        identifier_size >= 0,
        stride >= identifier_size + 8,
        forall|i: int| 0 <= i < es.len() ==> entry_wf(#[trigger] es[i], identifier_size),
    ensures
        spec_table_bytes(es, stride).len() == es.len() * stride,
    decreases es.len(),
{
    if es.len() > 0 {
        lemma_table_bytes_len(es.drop_last(), stride, identifier_size);
        assert(es.drop_last().len() * stride + stride == es.len() * stride) by (nonlinear_arith)
            requires
                es.drop_last().len() == es.len() - 1,
        ;
    }
}

/// What the table holds at slot `k`: the identifier at the slot's start,
/// the argument (if any) right after it, and zero padding up to the stride.
pub proof fn lemma_table_slot(es: Seq<SbtEntry>, stride: int, identifier_size: int, k: int)
    requires
        identifier_size >= 0,
        stride >= identifier_size + 8,
        forall|i: int| 0 <= i < es.len() ==> entry_wf(#[trigger] es[i], identifier_size),
        0 <= k < es.len(),
    ensures
        spec_table_bytes(es, stride).len() == es.len() * stride,
        spec_table_bytes(es, stride).subrange(
            k * stride,
            k * stride + identifier_size,
        ) == es[k].identifier@,
        es[k].argument matches Some(a) ==> spec_table_bytes(es, stride).subrange(
            k * stride + identifier_size,
            k * stride + identifier_size + 8,
        ) == spec_u64_le(a),
    decreases es.len(),
{
    lemma_table_bytes_len(es, stride, identifier_size);
    let t = spec_table_bytes(es, stride);
    let prefix = spec_table_bytes(es.drop_last(), stride);
    lemma_table_bytes_len(es.drop_last(), stride, identifier_size);
    if k == es.len() - 1 {
        let e = es.last();
        let body = spec_entry_body(e);
        assert(t == prefix + spec_entry_bytes(e, stride));
        assert(prefix.len() == k * stride) by (nonlinear_arith)
            requires
                prefix.len() == (es.len() - 1) * stride,
                k == es.len() - 1,
        ;
        assert(t.subrange(k * stride, k * stride + identifier_size) =~= e.identifier@);
        if e.argument is Some {
            let a = e.argument->0;
            assert(t.subrange(k * stride + identifier_size, k * stride + identifier_size + 8)
                =~= spec_u64_le(a));
        }
    } else {
        lemma_table_slot(es.drop_last(), stride, identifier_size, k);
        assert(es.drop_last()[k] == es[k]);
        assert((k + 1) * stride <= (es.len() - 1) * stride) by (nonlinear_arith)
            requires
                k + 1 <= es.len() - 1,
                stride >= 0,
        ;
        assert(k * stride + identifier_size + 8 <= (k + 1) * stride) by (nonlinear_arith)
            requires
                stride >= identifier_size + 8,
        ;
        assert(t.subrange(k * stride, k * stride + identifier_size) =~= prefix.subrange(
            k * stride,
            k * stride + identifier_size,
        ));
        if es[k].argument is Some {
            assert(t.subrange(k * stride + identifier_size, k * stride + identifier_size + 8)
                =~= prefix.subrange(
                k * stride + identifier_size,
                k * stride + identifier_size + 8,
            ));
        }
    }
}

/// Appends one stride-wide record: identifier, optional argument, padding.
fn append_entry(buf: &mut Vec<u8>, e: &SbtEntry, stride: u64)
    requires
        spec_entry_body(*e).len() <= stride,
        old(buf)@.len() + stride <= usize::MAX,
    ensures
        final(buf)@ == old(buf)@ + spec_entry_bytes(*e, stride as int),
        final(buf)@.len() == old(buf)@.len() + stride,
{
    let start = buf.len();
    let mut j: usize = 0;
    while j < e.identifier.len()
        invariant
            j <= e.identifier@.len(),
            buf@ == old(buf)@ + e.identifier@.take(j as int),
        decreases e.identifier@.len() - j,
    {
        buf.push(e.identifier[j]);
        proof {
            assert((old(buf)@ + e.identifier@.take(j as int)).push(e.identifier@[j as int])
                =~= old(buf)@ + e.identifier@.take(j as int + 1));
        }
        j = j + 1;
    }
    proof {
        assert(e.identifier@.take(e.identifier@.len() as int) =~= e.identifier@);
    }
    match &e.argument {
        Some(a) => {
            push_u64_le(buf, *a);
        },
        None => {},
    }
    proof {
        assert(buf@ =~= old(buf)@ + spec_entry_body(*e));
    }
    let target = start + (stride as usize);
    while buf.len() < target
        invariant
            buf@.len() <= target,
            target == old(buf)@.len() + stride,
            spec_entry_body(*e).len() <= stride,
            buf@ == old(buf)@ + spec_entry_body(*e) + zero_bytes(
                buf@.len() - old(buf)@.len() - spec_entry_body(*e).len(),
            ),
        decreases target - buf@.len(),
    {
        let ghost n = buf@.len() - old(buf)@.len() - spec_entry_body(*e).len();
        buf.push(0);
        proof {
            assert((old(buf)@ + spec_entry_body(*e) + zero_bytes(n)).push(0u8) =~= old(buf)@
                + spec_entry_body(*e) + zero_bytes(n + 1));
        }
    }
    proof {
        assert(buf@ =~= old(buf)@ + spec_entry_bytes(*e, stride as int));
    }
}

/// Writes every entry into its stride-aligned slot: each slot is the
/// entry's identifier, then its trailing argument if supplied (unsupplied
/// slots are identifier-only), then zero padding.  The stride was derived
/// from the maximum over all entries before anything is written, so every
/// entry fits its slot.
pub fn write_table(
    l: &SbtLayout,
    raygen: &SbtEntry,
    miss: &Vec<SbtEntry>,
    hit: &Vec<SbtEntry>,
) -> (buf: Vec<u8>)
    requires
        l.wf_for(*raygen, miss@, hit@),
        l.identifier_size + 8 <= l.stride,
        l.total_size <= usize::MAX,
    ensures
        buf@ == spec_table_bytes(all_entries(*raygen, miss@, hit@), l.stride as int),
        buf@.len() == l.total_size,
{
    let ghost all = all_entries(*raygen, miss@, hit@);
    proof {
        assert forall|i: int| 0 <= i < all.len() implies entry_wf(
            #[trigger] all[i],
            l.identifier_size as int,
        ) by {
            if i == 0 {
                assert(all[0] == *raygen);
            } else if i < 1 + miss@.len() {
                assert(all[i] == miss@[i - 1]);
            } else {
                assert(all[i] == hit@[i - 1 - miss@.len()]);
            }
        }
        lemma_table_bytes_len(all, l.stride as int, l.identifier_size as int);
        lemma_max_entry_size_bounds(l.identifier_size as int, all);
        assert(all.len() * l.stride <= usize::MAX) by (nonlinear_arith)
            requires
                all.len() == l.entry_count,
                l.stride * l.entry_count == l.total_size,
                l.total_size <= usize::MAX,
        ;
    }
    let mut buf: Vec<u8> = Vec::new();
    let ghost done: Seq<SbtEntry> = Seq::empty();
    proof {
        assert(buf@ =~= spec_table_bytes(Seq::<SbtEntry>::empty(), l.stride as int));
        assert(seq![*raygen].take(0) =~= Seq::<SbtEntry>::empty());
    }
    append_entry_checked(&mut buf, raygen, l, Ghost(all), Ghost(0));
    let mut i: usize = 0;
    while i < miss.len()
        invariant
            i <= miss@.len(),
            l.wf_for(*raygen, miss@, hit@),
            l.identifier_size + 8 <= l.stride,
            l.total_size <= usize::MAX,
            all == all_entries(*raygen, miss@, hit@),
            all.len() * l.stride <= usize::MAX,
            buf@ == spec_table_bytes(all.take(1 + i as int), l.stride as int),
            buf@.len() == (1 + i) * l.stride,
        decreases miss@.len() - i,
    {
        proof {
            assert(all[1 + i as int] == miss@[i as int]);
        }
        append_entry_checked(&mut buf, &miss[i], l, Ghost(all), Ghost(1 + i as int));
        i = i + 1;
    }
    let mut j: usize = 0;
    while j < hit.len()
        invariant
            j <= hit@.len(),
            l.wf_for(*raygen, miss@, hit@),
            l.identifier_size + 8 <= l.stride,
            l.total_size <= usize::MAX,
            all == all_entries(*raygen, miss@, hit@),
            all.len() * l.stride <= usize::MAX,
            buf@ == spec_table_bytes(all.take(1 + miss@.len() + j as int), l.stride as int),
            buf@.len() == (1 + miss@.len() + j) * l.stride,
        decreases hit@.len() - j,
    {
        proof {
            assert(all[1 + miss@.len() as int + j as int] == hit@[j as int]);
        }
        append_entry_checked(&mut buf, &hit[j], l, Ghost(all), Ghost(
            1 + miss@.len() as int + j as int,
        ));
        j = j + 1;
    }
    proof {
        assert(all.take(all.len() as int) =~= all);
        assert(buf@.len() == l.stride * l.entry_count) by (nonlinear_arith)
            requires
                buf@.len() == all.len() * l.stride,
                all.len() == l.entry_count,
        ;
    }
    buf
}

/// One step of `write_table`: appends entry `all[k]`, keeping the buffer
/// equal to the table prefix.
fn append_entry_checked(
    buf: &mut Vec<u8>,
    e: &SbtEntry,
    l: &SbtLayout,
    Ghost(all): Ghost<Seq<SbtEntry>>,
    Ghost(k): Ghost<int>,
)
    requires
        0 <= k < all.len(),
        all[k] == *e,
        entry_wf(*e, l.identifier_size as int),
        l.identifier_size + 8 <= l.stride,
        old(buf)@ == spec_table_bytes(all.take(k), l.stride as int),
        old(buf)@.len() == k * l.stride,
        all.len() * l.stride <= usize::MAX,
        forall|i: int| 0 <= i < all.len() ==> entry_wf(#[trigger] all[i], l.identifier_size as int),
    ensures
        final(buf)@ == spec_table_bytes(all.take(k + 1), l.stride as int),
        final(buf)@.len() == (k + 1) * l.stride,
{
    proof {
        assert(spec_entry_body(*e).len() <= l.stride);
        assert((k + 1) * l.stride <= all.len() * l.stride && k * l.stride + l.stride == (k + 1)
            * l.stride) by (nonlinear_arith)
            requires
                k + 1 <= all.len(),
                l.stride >= 0,
        ;
    }
    append_entry(buf, e, l.stride);
    proof {
        assert(all.take(k + 1).drop_last() =~= all.take(k));
        assert(all.take(k + 1).last() == all[k]);
    }
}

/// The hit-group region order and the per-instance contribution values
/// agree, record for record.
///
/// At trace time the hardware consults the hit-group region at slot
/// `contribution + ray type`.  With contributions assigned instance-major
/// ([`spec_sbt_contribution`]) and the hit entries emitted in the same
/// instance-major, ray-type-minor order, the identifier stored in the
/// written table at that slot is exactly the identifier supplied for
/// (`instance`, `ray_type`).  A mismatch here would be a silent
/// wrong-program lookup, not a detectable error, which is why it is proved.
pub proof fn lemma_trace_reads_matching_entry(
    l: SbtLayout,
    raygen: SbtEntry,
    miss: Seq<SbtEntry>,
    hit: Seq<SbtEntry>,
    instance: int,
    ray_type: int,
    ray_type_count: int,
)
    requires
        l.wf_for(raygen, miss, hit),
        l.identifier_size + 8 <= l.stride,
        0 <= instance,
        0 <= ray_type < ray_type_count,
        (instance + 1) * ray_type_count <= hit.len(),
    ensures
        ({
            let slot = spec_sbt_contribution(instance, ray_type_count) + ray_type;
            let table = spec_table_bytes(all_entries(raygen, miss, hit), l.stride as int);
            &&& 0 <= spec_hit_entry_index(instance, ray_type, ray_type_count) < hit.len()
            &&& slot == spec_hit_entry_index(instance, ray_type, ray_type_count)
            &&& table.subrange(
                l.hit_offset + slot * l.stride,
                l.hit_offset + slot * l.stride + l.identifier_size,
            ) == hit[spec_hit_entry_index(instance, ray_type, ray_type_count)].identifier@
        }),
{
    let all = all_entries(raygen, miss, hit);
    let slot = instance * ray_type_count + ray_type;
    assert(0 <= slot && slot + 1 <= (instance + 1) * ray_type_count) by (nonlinear_arith)
        requires
            0 <= instance,
            0 <= ray_type < ray_type_count,
            slot == instance * ray_type_count + ray_type,
    ;
    let k = 1 + miss.len() as int + slot;
    assert(all[k] == hit[slot]);
    assert forall|i: int| 0 <= i < all.len() implies entry_wf(
        #[trigger] all[i],
        l.identifier_size as int,
    ) by {
        if i == 0 {
            assert(all[0] == raygen);
        } else if i < 1 + miss.len() {
            assert(all[i] == miss[i - 1]);
        } else {
            assert(all[i] == hit[i - 1 - miss.len()]);
        }
    }
    lemma_table_slot(all, l.stride as int, l.identifier_size as int, k);
    assert(k * l.stride == l.hit_offset + slot * l.stride) by (nonlinear_arith)
        requires
            k == 1 + miss.len() + slot,
            l.hit_offset == l.stride * (1 + miss.len()),
    ;
}

/// Translates a layout and the table's GPU address into the dispatch
/// description: each region's start address, size and stride.
pub fn dispatch_desc(l: &SbtLayout, table_addr: u64, width: u32, height: u32) -> (d: DispatchDesc)
    requires
        l.entry_count == 1 + l.miss_count + l.hit_count,
        l.miss_offset == l.stride,
        l.hit_offset == l.stride * (1 + l.miss_count),
        l.total_size == l.stride * l.entry_count,
        table_addr + l.total_size <= u64::MAX,
    ensures
        d.raygen_start == table_addr,
        d.raygen_size == l.stride,
        d.miss_start == table_addr + l.miss_offset,
        d.miss_size == l.stride * l.miss_count,
        d.miss_stride == l.stride,
        d.hit_start == table_addr + l.hit_offset,
        d.hit_size == l.stride * l.hit_count,
        d.hit_stride == l.stride,
        d.width == width,
        d.height == height,
        d.depth == 1,
{
    proof {
        assert(l.stride * l.miss_count <= l.stride * l.entry_count && l.stride * l.hit_count
            <= l.stride * l.entry_count && l.stride * (1 + l.miss_count) <= l.stride
            * l.entry_count && l.stride <= l.stride * l.entry_count) by (nonlinear_arith)
            requires
                0 <= l.stride,
                l.miss_count <= l.entry_count,
                l.hit_count <= l.entry_count,
                1 + l.miss_count <= l.entry_count,
                1 <= l.entry_count,
        ;
    }
    DispatchDesc {
        raygen_start: table_addr,
        raygen_size: l.stride,
        miss_start: table_addr + l.miss_offset,
        miss_size: l.stride * l.miss_count,
        miss_stride: l.stride,
        hit_start: table_addr + l.hit_offset,
        hit_size: l.stride * l.hit_count,
        hit_stride: l.stride,
        width,
        height,
        depth: 1,
    }
}

} // verus!
