//! Regions of (space × historical time) with additive fingerprints.
//!
//! A region is a rectangle of space quanta × time quanta.  Its data —
//! op count, total size, XOR of the ops' hash cores — is additive:
//! XOR for hashes, addition for counts and sizes, so the data of a
//! region is the sum of the data of any partition of it.  Two peers
//! diff their op sets by exchanging fingerprints and descending only
//! where they differ.  Ops younger than the recent cutoff are excluded:
//! their fingerprint is unstable, and recency gossip handles them.

use vstd::prelude::*;
use crate::arq::Arq;
use crate::chain::copy_bytes;
use crate::ops::ChainOp;
use crate::spacetime::{spec_space_quantum, Topology, SPACE_QUANTA_COUNT, SPACE_QUANTUM};
use crate::store::{spec_integrated, OpRecordView, OpStore, ValidationStage};

verus! {

/// A rectangle of the quantized space-time: `space_len` space quanta
/// starting (with ring wraparound) at `space_start`, times `time_len`
/// time quanta starting at `time_start`.
#[derive(Clone, Copy, Debug, PartialEq, Eq, Structural)]
pub struct RegionCoords {
    /// First covered space quantum.
    pub space_start: u32,
    /// Number of covered space quanta.
    pub space_len: u32,
    /// First covered time quantum.
    pub time_start: u32,
    /// Number of covered time quanta.
    pub time_len: u32,
}

impl RegionCoords {
    /// The space start names a quantum on the ring.
    pub open spec fn wf(self) -> bool {
        self.space_start < SPACE_QUANTA_COUNT
    }
}

/// A region's fingerprint: how many ops it holds, their total size,
/// and the XOR of their hash cores.
#[derive(Clone, Debug, PartialEq, Eq)]
pub struct RegionData {
    /// Number of ops in the region.
    pub count: u64,
    /// Total size of those ops, in bytes.
    pub size: u64,
    /// XOR over the 32-byte cores of the ops' hashes.
    pub hash: Vec<u8>,
}

/// The mathematical value of a region fingerprint, with unbounded
/// integers.
pub struct RegionDataModel {
    /// Number of ops in the region.
    pub count: int,
    /// Total size of those ops.
    pub size: int,
    /// XOR over the 32-byte cores of the ops' hashes.
    pub hash: Seq<u8>,
}

impl View for RegionData {
    type V = RegionDataModel;

    open spec fn view(&self) -> RegionDataModel {
        RegionDataModel { count: self.count as int, size: self.size as int, hash: self.hash@ }
    }
}

/// A region: its coordinates and its fingerprint.
#[derive(Clone, Debug)]
pub struct Region {
    /// Where the region sits.
    pub coords: RegionCoords,
    /// What it holds.
    pub data: RegionData,
}

/// The region set an authority answers a gossip round with: leaves
/// that partition its arc × the historical time window.
#[derive(Debug)]
pub struct RegionSet {
    /// The leaf regions, one per historical time quantum.
    pub regions: Vec<Region>,
}

/// What the region fingerprints read of a stored op: its hash, basis
/// location, authored timestamp and size.
pub struct RegionOpView {
    /// The op's 39-byte hash.
    pub hash: Seq<u8>,
    /// The ring location of the op's basis.
    pub basis_loc: u32,
    /// The authored timestamp, microseconds.
    pub timestamp: i64,
    /// The op's size in bytes.
    pub size: u32,
}

/// The region projection of a stored record.
pub open spec fn rec_item(rec: OpRecordView) -> RegionOpView {
    RegionOpView {
        hash: rec.hash,
        basis_loc: rec.basis_loc,
        timestamp: rec.timestamp,
        size: rec.size,
    }
}

/// The integrated ops of a store, as the region fingerprints see them.
pub open spec fn store_items(v: Seq<OpRecordView>) -> Seq<RegionOpView> {
    spec_integrated(v).map_values(|rec: OpRecordView| rec_item(rec))
}

/// Whether an op falls in a region: its basis location's space quantum
/// lies in the region's ring interval, and its timestamp's quantum in
/// the region's time interval.
pub open spec fn op_in_region(topo: Topology, r: RegionCoords, op: RegionOpView) -> bool {
    let sq = spec_space_quantum(op.basis_loc) as int;
    let tq = (op.timestamp - topo.time_origin_us) / (topo.time_quantum_us as int);
    &&& ((sq - r.space_start) % (SPACE_QUANTA_COUNT as int)) < r.space_len
    &&& r.time_start <= tq < r.time_start + r.time_len
}

/// The 32-byte core a region hash reads from an op hash.
pub open spec fn op_hash_core(h: Seq<u8>) -> Seq<u8> {
    Seq::new(32, |i: int| h[i + 3])
}

/// The all-zero hash.
pub open spec fn zero_hash() -> Seq<u8> {
    Seq::new(32, |i: int| 0u8)
}

/// Pointwise XOR of two 32-byte hashes.
pub open spec fn xor32(a: Seq<u8>, b: Seq<u8>) -> Seq<u8> {
    Seq::new(32, |i: int| a[i] ^ b[i])
}

/// The empty fingerprint.
pub open spec fn zero_data() -> RegionDataModel {
    RegionDataModel { count: 0, size: 0, hash: zero_hash() }
}

/// The fingerprint of one op.
pub open spec fn op_data(op: RegionOpView) -> RegionDataModel {
    RegionDataModel { count: 1, size: op.size as int, hash: op_hash_core(op.hash) }
}

/// The sum of two fingerprints: addition on counts and sizes, XOR on
/// hashes.
pub open spec fn combine(a: RegionDataModel, b: RegionDataModel) -> RegionDataModel {
    RegionDataModel { count: a.count + b.count, size: a.size + b.size, hash: xor32(a.hash, b.hash) }
}

/// The fingerprint of a region over a set of ops: the sum of the data
/// of the ops that fall in it.
pub open spec fn region_sum(topo: Topology, ops: Seq<RegionOpView>, r: RegionCoords)
    -> RegionDataModel
    decreases ops.len(),
{
    if ops.len() == 0 {
        zero_data()
    } else {
        if op_in_region(topo, r, ops[0]) {
            combine(op_data(ops[0]), region_sum(topo, ops.drop_first(), r))
        } else {
            region_sum(topo, ops.drop_first(), r)
        }
    }
}

/// The sum of the fingerprints of a sequence of regions.
pub open spec fn leaves_sum(topo: Topology, ops: Seq<RegionOpView>, coords: Seq<RegionCoords>)
    -> RegionDataModel
    decreases coords.len(),
{
    if coords.len() == 0 {
        zero_data()
    } else {
        combine(region_sum(topo, ops, coords[0]), leaves_sum(topo, ops, coords.drop_first()))
    }
}

/// XOR with the zero hash changes nothing.
proof fn lemma_xor32_zero(a: Seq<u8>)
    requires
        a.len() == 32,
    ensures
        xor32(zero_hash(), a) == a,
        xor32(a, zero_hash()) == a,
{
    assert forall|i: int| 0 <= i < 32 implies xor32(zero_hash(), a)[i] == a[i] && xor32(
        a,
        zero_hash(),
    )[i] == a[i] by {
        let x = a[i];
        assert(0u8 ^ x == x) by (bit_vector);
        assert(x ^ 0u8 == x) by (bit_vector);
    }
    assert(xor32(zero_hash(), a) =~= a);
    assert(xor32(a, zero_hash()) =~= a);
}

/// XOR of hashes commutes.
proof fn lemma_xor32_comm(a: Seq<u8>, b: Seq<u8>)
    ensures
        xor32(a, b) == xor32(b, a),
{
    assert forall|i: int| 0 <= i < 32 implies xor32(a, b)[i] == xor32(b, a)[i] by {
        let x = a[i];
        let y = b[i];
        assert(x ^ y == y ^ x) by (bit_vector);
    }
    assert(xor32(a, b) =~= xor32(b, a));
}

/// XOR of hashes associates.
proof fn lemma_xor32_assoc(a: Seq<u8>, b: Seq<u8>, c: Seq<u8>)
    ensures
        xor32(xor32(a, b), c) == xor32(a, xor32(b, c)),
{
    assert forall|i: int| 0 <= i < 32 implies xor32(xor32(a, b), c)[i] == xor32(
        a,
        xor32(b, c),
    )[i] by {
        let x = a[i];
        let y = b[i];
        let z = c[i];
        assert((x ^ y) ^ z == x ^ (y ^ z)) by (bit_vector);
    }
    assert(xor32(xor32(a, b), c) =~= xor32(a, xor32(b, c)));
}

/// A fingerprint whose hash has the right length.
pub open spec fn data_wf(d: RegionDataModel) -> bool {
    d.hash.len() == 32
}

/// Region sums always carry a 32-byte hash.
proof fn lemma_region_sum_wf(topo: Topology, ops: Seq<RegionOpView>, r: RegionCoords)
    ensures
        data_wf(region_sum(topo, ops, r)),
    decreases ops.len(),
{
    if ops.len() > 0 {
        lemma_region_sum_wf(topo, ops.drop_first(), r);
    }
}

/// Adding the empty fingerprint changes nothing.
proof fn lemma_combine_zero(a: RegionDataModel)
    requires
        data_wf(a),
    ensures
        combine(zero_data(), a) == a,
        combine(a, zero_data()) == a,
{
    lemma_xor32_zero(a.hash);
}

/// Fingerprint addition commutes.
proof fn lemma_combine_comm(a: RegionDataModel, b: RegionDataModel)
    ensures
        combine(a, b) == combine(b, a),
{
    lemma_xor32_comm(a.hash, b.hash);
}

/// Fingerprint addition associates.
proof fn lemma_combine_assoc(a: RegionDataModel, b: RegionDataModel, c: RegionDataModel)
    ensures
        combine(combine(a, b), c) == combine(a, combine(b, c)),
{
    lemma_xor32_assoc(a.hash, b.hash, c.hash);
}

/// Fingerprint additivity over a two-way partition: when membership in
/// `r` splits exactly into disjoint membership in `r1` and `r2`, the
/// fingerprint of `r` is the sum of the children's fingerprints.  The
/// leaves of the region tree can therefore be summed to yield the
/// fingerprint of any interior region.
pub proof fn lemma_region_split(
    topo: Topology,
    ops: Seq<RegionOpView>,
    r: RegionCoords,
    r1: RegionCoords,
    r2: RegionCoords,
)
    requires
        forall|i: int|
            0 <= i < ops.len() ==> (op_in_region(topo, r, #[trigger] ops[i]) <==> (op_in_region(
                topo,
                r1,
                ops[i],
            ) || op_in_region(topo, r2, ops[i]))),
        forall|i: int|
            0 <= i < ops.len() ==> !(op_in_region(topo, r1, #[trigger] ops[i]) && op_in_region(
                topo,
                r2,
                ops[i],
            )),
    ensures
        region_sum(topo, ops, r) == combine(
            region_sum(topo, ops, r1),
            region_sum(topo, ops, r2),
        ),
    decreases ops.len(),
{
    if ops.len() == 0 {
        lemma_combine_zero(zero_data());
    } else {
        let o = ops[0];
        let rest = ops.drop_first();
        lemma_region_split(topo, rest, r, r1, r2);
        let s1 = region_sum(topo, rest, r1);
        let s2 = region_sum(topo, rest, r2);
        lemma_region_sum_wf(topo, rest, r1);
        lemma_region_sum_wf(topo, rest, r2);
        if op_in_region(topo, r, o) {
            if op_in_region(topo, r1, o) {
                lemma_combine_assoc(op_data(o), s1, s2);
            } else {
                lemma_combine_assoc(op_data(o), s1, s2);
                lemma_combine_comm(op_data(o), s1);
                lemma_combine_assoc(s1, op_data(o), s2);
            }
        }
    }
}

/// The region covering a whole arc over the first `horizon` time
/// quanta.
pub open spec fn domain_coords(space_start: u32, space_len: u32, horizon: u32) -> RegionCoords {
    RegionCoords { space_start, space_len, time_start: 0, time_len: horizon }
}

/// The leaf grid: one region per time quantum below the horizon, each
/// covering the whole arc.
pub open spec fn grid_coords(space_start: u32, space_len: u32, horizon: u32) -> Seq<RegionCoords> {
    Seq::new(
        horizon as nat,
        |j: int|
            RegionCoords {
                space_start,
                space_len,
                time_start: j as u32,
                time_len: 1,
            },
    )
}

/// Appending a region to a sequence adds its fingerprint to the sum.
proof fn lemma_leaves_sum_push(
    topo: Topology,
    ops: Seq<RegionOpView>,
    coords: Seq<RegionCoords>,
    c: RegionCoords,
)
    ensures
        leaves_sum(topo, ops, coords.push(c)) == combine(
            leaves_sum(topo, ops, coords),
            region_sum(topo, ops, c),
        ),
    decreases coords.len(),
{
    if coords.len() == 0 {
        let s = region_sum(topo, ops, c);
        lemma_region_sum_wf(topo, ops, c);
        assert(coords.push(c)[0] == c);
        assert(coords.push(c).drop_first() =~= Seq::<RegionCoords>::empty());
        lemma_combine_zero(s);
        lemma_combine_comm(s, zero_data());
        assert(coords.push(c).drop_first() == Seq::<RegionCoords>::empty());
        assert(leaves_sum(topo, ops, Seq::<RegionCoords>::empty()) == zero_data());
        assert(leaves_sum(topo, ops, coords.push(c)) == combine(
            region_sum(topo, ops, coords.push(c)[0]),
            leaves_sum(topo, ops, coords.push(c).drop_first()),
        ));
        assert(leaves_sum(topo, ops, coords.push(c)) == combine(s, zero_data()));
        assert(leaves_sum(topo, ops, coords) == zero_data());
        assert(combine(leaves_sum(topo, ops, coords), s) == combine(zero_data(), s));
    } else {
        assert(coords.push(c)[0] == coords[0]);
        assert(coords.push(c).drop_first() =~= coords.drop_first().push(c));
        lemma_leaves_sum_push(topo, ops, coords.drop_first(), c);
        lemma_combine_assoc(
            region_sum(topo, ops, coords[0]),
            leaves_sum(topo, ops, coords.drop_first()),
            region_sum(topo, ops, c),
        );
        assert(leaves_sum(topo, ops, coords.push(c)) == combine(
            region_sum(topo, ops, coords[0]),
            leaves_sum(topo, ops, coords.drop_first().push(c)),
        ));
        assert(leaves_sum(topo, ops, coords) == combine(
            region_sum(topo, ops, coords[0]),
            leaves_sum(topo, ops, coords.drop_first()),
        ));
    }
}

/// Region coverage, fingerprint side: the leaf grid partitions the
/// domain, so the sum of the leaves' fingerprints is the fingerprint
/// of the whole arc × window region.
pub proof fn lemma_grid_sum(
    topo: Topology,
    ops: Seq<RegionOpView>,
    space_start: u32,
    space_len: u32,
    horizon: u32,
)
    ensures
        leaves_sum(topo, ops, grid_coords(space_start, space_len, horizon)) == region_sum(
            topo,
            ops,
            domain_coords(space_start, space_len, horizon),
        ),
    decreases horizon,
{
    if horizon == 0 {
        assert(grid_coords(space_start, space_len, 0) =~= Seq::<RegionCoords>::empty());
        assert forall|i: int| 0 <= i < ops.len() implies !op_in_region(
            topo,
            domain_coords(space_start, space_len, 0),
            #[trigger] ops[i],
        ) by {}
        lemma_region_sum_empty(topo, ops, domain_coords(space_start, space_len, 0));
    } else {
        let h1 = (horizon - 1) as u32;
        lemma_grid_sum(topo, ops, space_start, space_len, h1);
        let leaf = RegionCoords { space_start, space_len, time_start: h1, time_len: 1 };
        assert(grid_coords(space_start, space_len, horizon) =~= grid_coords(
            space_start,
            space_len,
            h1,
        ).push(leaf));
        lemma_leaves_sum_push(topo, ops, grid_coords(space_start, space_len, h1), leaf);
        lemma_region_split(
            topo,
            ops,
            domain_coords(space_start, space_len, horizon),
            domain_coords(space_start, space_len, h1),
            leaf,
        );
    }
}

/// A region no op falls in has the empty fingerprint.
proof fn lemma_region_sum_empty(topo: Topology, ops: Seq<RegionOpView>, r: RegionCoords)
    requires
        forall|i: int| 0 <= i < ops.len() ==> !op_in_region(topo, r, #[trigger] ops[i]),
    ensures
        region_sum(topo, ops, r) == zero_data(),
    decreases ops.len(),
{
    if ops.len() > 0 {
        lemma_region_sum_empty(topo, ops.drop_first(), r);
    }
}

/// Membership in some grid leaf is exactly membership in the domain.
pub proof fn lemma_grid_covers(
    topo: Topology,
    space_start: u32,
    space_len: u32,
    horizon: u32,
    op: RegionOpView,
)
    ensures
        (exists|j: int|
            0 <= j < horizon && op_in_region(
                topo,
                #[trigger] grid_coords(space_start, space_len, horizon)[j],
                op,
            )) <==> op_in_region(topo, domain_coords(space_start, space_len, horizon), op),
{
    let tq = (op.timestamp - topo.time_origin_us) / (topo.time_quantum_us as int);
    if op_in_region(topo, domain_coords(space_start, space_len, horizon), op) {
        assert(0 <= tq < horizon);
        assert(op_in_region(topo, grid_coords(space_start, space_len, horizon)[tq], op));
    }
}

/// The count of a region's fingerprint is the number of ops that fall
/// in it.
pub proof fn lemma_region_sum_count(topo: Topology, ops: Seq<RegionOpView>, r: RegionCoords)
    ensures
        region_sum(topo, ops, r).count == ops.filter(
            |o: RegionOpView| op_in_region(topo, r, o),
        ).len(),
    decreases ops.len(),
{
    reveal(Seq::filter);
    if ops.len() == 0 {
    } else {
        lemma_region_sum_count(topo, ops.drop_first(), r);
        lemma_filter_first(ops, |o: RegionOpView| op_in_region(topo, r, o));
    }
}

/// Filtering a nonempty sequence: the head is kept iff it satisfies
/// the predicate.
proof fn lemma_filter_first<A>(v: Seq<A>, pred: spec_fn(A) -> bool)
    requires
        v.len() > 0,
    ensures
        v.filter(pred) == if pred(v[0]) {
            seq![v[0]] + v.drop_first().filter(pred)
        } else {
            v.drop_first().filter(pred)
        },
    decreases v.len(),
{
    reveal(Seq::filter);
    if v.len() == 1 {
        assert(v.drop_last() =~= Seq::<A>::empty());
        assert(v.drop_first() =~= Seq::<A>::empty());
        if pred(v[0]) {
            assert(v.filter(pred) =~= seq![v[0]] + v.drop_first().filter(pred));
        }
    } else {
        let w = v.drop_last();
        lemma_filter_first(w, pred);
        assert(v.drop_first().drop_last() =~= w.drop_first());
        lemma_filter_first_helper(v, pred);
    }
}

/// Unfolds the filter of `v` as the filter of its prefix plus its last
/// element, on both decompositions of `v`.
proof fn lemma_filter_first_helper<A>(v: Seq<A>, pred: spec_fn(A) -> bool)
    requires
        v.len() >= 2,
        v.drop_last().filter(pred) == (if pred(v.drop_last()[0]) {
            seq![v.drop_last()[0]] + v.drop_last().drop_first().filter(pred)
        } else {
            v.drop_last().drop_first().filter(pred)
        }),
    ensures
        v.filter(pred) == if pred(v[0]) {
            seq![v[0]] + v.drop_first().filter(pred)
        } else {
            v.drop_first().filter(pred)
        },
{
    reveal(Seq::filter);
    let w = v.drop_last();
    let t = v.drop_first();
    assert(v[0] == w[0]);
    assert(t.drop_last() =~= w.drop_first());
    assert(t.filter(pred) == if pred(t.last()) {
        t.drop_last().filter(pred).push(t.last())
    } else {
        t.drop_last().filter(pred)
    });
    assert(v.filter(pred) == if pred(v.last()) {
        w.filter(pred).push(v.last())
    } else {
        w.filter(pred)
    });
    assert(t.last() == v.last());
    if pred(v[0]) {
        if pred(v.last()) {
            assert(v.filter(pred) =~= seq![v[0]] + t.filter(pred));
        } else {
            assert(v.filter(pred) =~= seq![v[0]] + t.filter(pred));
        }
    }
}

/// An op as the exec region scans read it.
#[derive(Clone, Debug)]
pub struct RegionOpItem {
    /// The op's 39-byte hash.
    pub hash: Vec<u8>,
    /// The ring location of the op's basis.
    pub basis_loc: u32,
    /// The authored timestamp, microseconds.
    pub timestamp: i64,
    /// The op's size in bytes.
    pub size: u32,
}

impl View for RegionOpItem {
    type V = RegionOpView;

    open spec fn view(&self) -> RegionOpView {
        RegionOpView {
            hash: self.hash@,
            basis_loc: self.basis_loc,
            timestamp: self.timestamp,
            size: self.size,
        }
    }
}

/// The integrated ops of the store, as region items.
pub fn integrated_items(store: &OpStore) -> (r: Vec<RegionOpItem>)
    ensures
        r@.len() == store_items(store@).len(),
        forall|i: int| 0 <= i < r@.len() ==> (#[trigger] r@[i])@ == store_items(store@)[i],
{
    let raw = store.integrated();
    let n = raw.len();
    let mut out: Vec<RegionOpItem> = Vec::new();
    let mut i: usize = 0;
    while i < n
        invariant
            n == raw@.len(),
            i <= n,
            raw@.len() == spec_integrated(store@).len(),
            forall|k: int|
                0 <= k < raw@.len() ==> {
                    let rec = spec_integrated(store@)[k];
                    &&& (#[trigger] raw@[k]).0@ == rec.hash
                    &&& raw@[k].1 == rec.basis_loc
                    &&& raw@[k].2 == rec.timestamp
                    &&& raw@[k].3 == rec.size
                },
            out@.len() == i,
            forall|k: int| 0 <= k < i ==> (#[trigger] out@[k])@ == store_items(store@)[k],
        decreases n - i,
    {
        let entry = &raw[i];
        let item = RegionOpItem {
            hash: copy_bytes(&entry.0),
            basis_loc: entry.1,
            timestamp: entry.2,
            size: entry.3,
        };
        proof {
            assert(store_items(store@)[i as int] == rec_item(spec_integrated(store@)[i as int]));
        }
        out.push(item);
        i = i + 1;
    }
    out
}

/// Whether an op falls in a region.
pub fn op_in_region_exec(topo: &Topology, r: &RegionCoords, item: &RegionOpItem) -> (b: bool)
    requires
        topo.wf(),
        r.wf(),
    ensures
        b == op_in_region(*topo, *r, item@),
{
    let sq: u32 = item.basis_loc / SPACE_QUANTUM;
    proof {
        let l = item.basis_loc;
        assert(l / 0x100000u32 < 4096) by (bit_vector);
    }
    let offset: u32 = (sq + SPACE_QUANTA_COUNT - r.space_start) % SPACE_QUANTA_COUNT;
    proof {
        crate::arq::lemma_space_offset(sq as int, r.space_start as int, offset as int);
    }
    if !(offset < r.space_len) {
        return false;
    }
    let delta: i128 = (item.timestamp as i128) - (topo.time_origin_us as i128);
    if delta < 0 {
        proof {
            let q = topo.time_quantum_us as int;
            assert((-1int) / q == -1) by {
                vstd::arithmetic::div_mod::lemma_fundamental_div_mod_converse(
                    -1int,
                    q,
                    -1int,
                    q - 1,
                );
            }
            vstd::arithmetic::div_mod::lemma_div_is_ordered(
                item.timestamp - topo.time_origin_us,
                -1int,
                q,
            );
        }
        return false;
    }
    let tq: i128 = delta / (topo.time_quantum_us as i128);
    tq >= r.time_start as i128 && tq < r.time_start as i128 + r.time_len as i128
}

/// XOR an op-hash core into a 32-byte accumulator.
fn xor_core_into(acc: &mut Vec<u8>, h: &Vec<u8>)
    requires
        old(acc)@.len() == 32,
        h@.len() >= 35,
    ensures
        final(acc)@ == xor32(old(acc)@, op_hash_core(h@)),
{
    let mut fresh: Vec<u8> = Vec::new();
    let mut j: usize = 0;
    while j < 32
        invariant
            acc@.len() == 32,
            h@.len() >= 35,
            acc@ == old(acc)@,
            j <= 32,
            fresh@.len() == j,
            forall|k: int| 0 <= k < j ==> (#[trigger] fresh@[k]) == (acc@[k] ^ h@[k + 3]),
        decreases 32 - j,
    {
        fresh.push(acc[j] ^ h[j + 3]);
        j = j + 1;
    }
    *acc = fresh;
    proof {
        assert(acc@ =~= xor32(old(acc)@, op_hash_core(h@)));
    }
}

/// The fingerprint of one region over the given items.
pub fn region_data_of(topo: &Topology, items: &Vec<RegionOpItem>, r: &RegionCoords) -> (d:
    RegionData)
    requires
        topo.wf(),
        r.wf(),
        items@.len() <= 0x100000000,
        forall|i: int| 0 <= i < items@.len() ==> (#[trigger] items@[i])@.hash.len() >= 35,
    ensures
        d@ == region_sum(*topo, Seq::new(items@.len(), |i: int| items@[i]@), *r),
        d.hash@.len() == 32,
{
    let ghost opsv = Seq::new(items@.len(), |i: int| items@[i]@);
    let n = items.len();
    let mut count: u64 = 0;
    let mut size: u64 = 0;
    let mut hash: Vec<u8> = Vec::new();
    let mut j: usize = 0;
    while j < 32
        invariant
            j <= 32,
            hash@.len() == j,
            forall|k: int| 0 <= k < j ==> (#[trigger] hash@[k]) == 0u8,
        decreases 32 - j,
    {
        hash.push(0u8);
        j = j + 1;
    }
    proof {
        assert(hash@ =~= zero_hash());
        assert(opsv.skip(0) =~= opsv);
        lemma_region_sum_wf(*topo, opsv, *r);
        lemma_combine_zero(region_sum(*topo, opsv, *r));
    }
    let mut i: usize = 0;
    while i < n
        invariant
            topo.wf(),
            r.wf(),
            n == items@.len(),
            n <= 0x100000000,
            i <= n,
            forall|k: int| 0 <= k < items@.len() ==> (#[trigger] items@[k])@.hash.len() >= 35,
            opsv == Seq::new(items@.len(), |k: int| items@[k]@),
            hash@.len() == 32,
            count <= i,
            size <= (i as int) * 0xffffffff,
            region_sum(*topo, opsv, *r) == combine(
                RegionDataModel { count: count as int, size: size as int, hash: hash@ },
                region_sum(*topo, opsv.skip(i as int), *r),
            ),
        decreases n - i,
    {
        let ghost accv = RegionDataModel { count: count as int, size: size as int, hash: hash@ };
        let ghost rest = opsv.skip(i as int);
        proof {
            assert(rest[0] == opsv[i as int]);
            assert(rest.drop_first() =~= opsv.skip(i as int + 1));
            lemma_region_sum_wf(*topo, rest.drop_first(), *r);
        }
        let item = &items[i];
        if op_in_region_exec(topo, r, item) {
            count = count + 1;
            size = size + item.size as u64;
            xor_core_into(&mut hash, &item.hash);
            proof {
                let o = op_data(opsv[i as int]);
                let s2 = region_sum(*topo, opsv.skip(i as int + 1), *r);
                lemma_combine_assoc(accv, o, s2);
                lemma_combine_comm(accv, o);
                lemma_combine_assoc(o, accv, s2);
                assert(RegionDataModel { count: count as int, size: size as int, hash: hash@ }
                    == combine(accv, o));
            }
        }
        i = i + 1;
    }
    proof {
        assert(opsv.skip(n as int) =~= Seq::<RegionOpView>::empty());
        lemma_combine_zero(RegionDataModel { count: count as int, size: size as int, hash: hash@ });
    }
    RegionData { count, size, hash }
}

/// Answer a region-set query: one leaf per historical time quantum,
/// each covering the arc, each carrying the fingerprint of the
/// integrated ops that fall in it.  The recent window — the last
/// `recent_cutoff_quanta` quanta before `now_us` — is excluded.
pub fn query_region_set(topo: &Topology, arq: &Arq, now_us: i64, store: &OpStore) -> (r: RegionSet)
    requires
        topo.wf(),
        arq.wf(),
        store@.len() <= 0x100000000,
        topo.spec_time_quantum(now_us) <= 0x100000,
        forall|i: int| 0 <= i < store@.len() ==> (#[trigger] store@[i]).hash.len() >= 35,
    ensures
        ({
            let (start, len) = (arq.spec_start_quantum(), arq.spec_length());
            let horizon = spec_horizon(*topo, now_us);
            let grid = grid_coords(start as u32, len as u32, horizon);
            &&& r.regions@.len() == horizon
            &&& forall|i: int|
                0 <= i < r.regions@.len() ==> (#[trigger] r.regions@[i]).coords == grid[i]
                    && r.regions@[i].data@ == region_sum(*topo, store_items(store@), grid[i])
        }),
{
    let items = integrated_items(store);
    proof {
        lemma_filter_len_le(store@, |rec: OpRecordView| rec.stage == ValidationStage::Integrated);
        assert(Seq::new(items@.len(), |i: int| items@[i]@) =~= store_items(store@));
        lemma_integrated_hash_len(store@);
        assert forall|i: int| 0 <= i < items@.len() implies (#[trigger] items@[i])@.hash.len()
            >= 35 by {
            assert(items@[i]@ == store_items(store@)[i]);
            assert(store_items(store@)[i] == rec_item(spec_integrated(store@)[i]));
        }
    }
    let (space_start, space_len) = arq.span();
    let horizon: u32 = horizon_of(topo, now_us);
    let mut regions: Vec<Region> = Vec::new();
    let mut t: u32 = 0;
    while t < horizon
        invariant
            topo.wf(),
            arq.wf(),
            items@.len() <= 0x100000000,
            forall|i: int| 0 <= i < items@.len() ==> (#[trigger] items@[i])@.hash.len() >= 35,
            Seq::new(items@.len(), |i: int| items@[i]@) == store_items(store@),
            space_start as int == arq.spec_start_quantum(),
            space_len as int == arq.spec_length(),
            space_start < SPACE_QUANTA_COUNT,
            horizon == spec_horizon(*topo, now_us),
            t <= horizon,
            regions@.len() == t,
            forall|i: int|
                0 <= i < t ==> (#[trigger] regions@[i]).coords == grid_coords(
                    space_start,
                    space_len,
                    horizon,
                )[i] && regions@[i].data@ == region_sum(
                    *topo,
                    store_items(store@),
                    grid_coords(space_start, space_len, horizon)[i],
                ),
        decreases horizon - t,
    {
        let coords = RegionCoords { space_start, space_len, time_start: t, time_len: 1 };
        let data = region_data_of(topo, &items, &coords);
        regions.push(Region { coords, data });
        t = t + 1;
    }
    RegionSet { regions }
}

/// The number of historical time quanta below `now_us`: everything up
/// to the recent cutoff.
pub open spec fn spec_horizon(topo: Topology, now_us: i64) -> u32 {
    let q = (now_us - topo.time_origin_us) / (topo.time_quantum_us as int);
    if q >= topo.recent_cutoff_quanta {
        (q - topo.recent_cutoff_quanta) as u32
    } else {
        0u32
    }
}

/// The number of historical time quanta below `now_us`.
fn horizon_of(topo: &Topology, now_us: i64) -> (r: u32)
    requires
        topo.wf(),
        topo.spec_time_quantum(now_us) <= 0x100000,
    ensures
        r == spec_horizon(*topo, now_us),
{
    let delta: i128 = (now_us as i128) - (topo.time_origin_us as i128);
    if delta < 0 {
        proof {
            let q = topo.time_quantum_us as int;
            assert((-1int) / q == -1) by {
                vstd::arithmetic::div_mod::lemma_fundamental_div_mod_converse(
                    -1int,
                    q,
                    -1int,
                    q - 1,
                );
            }
            vstd::arithmetic::div_mod::lemma_div_is_ordered(
                now_us - topo.time_origin_us,
                -1int,
                q,
            );
        }
        return 0;
    }
    let q: i128 = delta / (topo.time_quantum_us as i128);
    if q >= topo.recent_cutoff_quanta as i128 {
        (q - topo.recent_cutoff_quanta as i128) as u32
    } else {
        0
    }
}

/// Integrated records inherit the store's hash-length bound.
proof fn lemma_integrated_hash_len(v: Seq<OpRecordView>)
    requires
        forall|i: int| 0 <= i < v.len() ==> (#[trigger] v[i]).hash.len() >= 35,
    ensures
        forall|i: int|
            0 <= i < spec_integrated(v).len() ==> (#[trigger] spec_integrated(v)[i]).hash.len()
                >= 35,
    decreases v.len(),
{
    reveal(Seq::filter);
    if v.len() > 0 {
        let dl = v.drop_last();
        assert(forall|i: int| 0 <= i < dl.len() ==> (#[trigger] dl[i]).hash.len() >= 35);
        lemma_integrated_hash_len(dl);
        assert(v =~= dl.push(v.last()));
        lemma_filter_push_region(
            dl,
            v.last(),
            |rec: OpRecordView| rec.stage == ValidationStage::Integrated,
        );
    }
}

/// Filtering never lengthens a sequence.
proof fn lemma_filter_len_le<A>(v: Seq<A>, pred: spec_fn(A) -> bool)
    ensures
        v.filter(pred).len() <= v.len(),
    decreases v.len(),
{
    reveal(Seq::filter);
    if v.len() > 0 {
        lemma_filter_len_le(v.drop_last(), pred);
    }
}

/// Whether an op falls in any of the given regions.
pub open spec fn member_any(topo: Topology, coords: Seq<RegionCoords>, op: RegionOpView) -> bool {
    exists|j: int| 0 <= j < coords.len() && op_in_region(topo, #[trigger] coords[j], op)
}

/// The records a fetch by regions returns: integrated, and in one of
/// the requested regions.
pub open spec fn fetch_filter(topo: Topology, coords: Seq<RegionCoords>, v: Seq<OpRecordView>)
    -> Seq<OpRecordView> {
    v.filter(
        |rec: OpRecordView|
            rec.stage == ValidationStage::Integrated && member_any(topo, coords, rec_item(rec)),
    )
}

/// Whether an op falls in any of the given regions.
fn in_any_region(topo: &Topology, coords: &Vec<RegionCoords>, item: &RegionOpItem) -> (b: bool)
    requires
        topo.wf(),
        forall|j: int| 0 <= j < coords@.len() ==> (#[trigger] coords@[j]).wf(),
    ensures
        b == member_any(*topo, coords@, item@),
{
    let n = coords.len();
    let mut j: usize = 0;
    while j < n
        invariant
            topo.wf(),
            n == coords@.len(),
            j <= n,
            forall|k: int| 0 <= k < coords@.len() ==> (#[trigger] coords@[k]).wf(),
            forall|k: int| 0 <= k < j ==> !op_in_region(*topo, #[trigger] coords@[k], item@),
        decreases n - j,
    {
        if op_in_region_exec(topo, &coords[j], item) {
            return true;
        }
        j = j + 1;
    }
    false
}

/// Materialize the ops of the requested regions: every integrated op
/// whose basis and timestamp fall in one of them, with its hash.
pub fn fetch_ops_by_regions(topo: &Topology, coords: &Vec<RegionCoords>, store: &OpStore) -> (r:
    Vec<(Vec<u8>, ChainOp)>)
    requires
        topo.wf(),
        forall|j: int| 0 <= j < coords@.len() ==> (#[trigger] coords@[j]).wf(),
    ensures
        r@.len() == fetch_filter(*topo, coords@, store@).len(),
        forall|i: int|
            0 <= i < r@.len() ==> (#[trigger] r@[i]).0@ == fetch_filter(
                *topo,
                coords@,
                store@,
            )[i].hash && r@[i].1@ == fetch_filter(*topo, coords@, store@)[i].op,
{
    let ghost pred = |rec: OpRecordView|
        rec.stage == ValidationStage::Integrated && member_any(*topo, coords@, rec_item(rec));
    let records = store.records();
    let n = records.len();
    let mut out: Vec<(Vec<u8>, ChainOp)> = Vec::new();
    let mut i: usize = 0;
    proof {
        assert(store@.take(0) =~= Seq::<OpRecordView>::empty());
    }
    while i < n
        invariant
            topo.wf(),
            forall|j: int| 0 <= j < coords@.len() ==> (#[trigger] coords@[j]).wf(),
            n == store@.len(),
            records@.len() == store@.len(),
            forall|k: int| 0 <= k < records@.len() ==> (#[trigger] records@[k])@ == store@[k],
            i <= n,
            pred == (|rec: OpRecordView|
                rec.stage == ValidationStage::Integrated && member_any(
                    *topo,
                    coords@,
                    rec_item(rec),
                )),
            out@.len() == store@.take(i as int).filter(pred).len(),
            forall|k: int|
                0 <= k < out@.len() ==> (#[trigger] out@[k]).0@ == store@.take(i as int).filter(
                    pred,
                )[k].hash && out@[k].1@ == store@.take(i as int).filter(pred)[k].op,
        decreases n - i,
    {
        let ghost pre = store@.take(i as int);
        proof {
            assert(store@.take(i as int + 1) =~= pre.push(store@[i as int]));
            lemma_filter_push_region(pre, store@[i as int], pred);
        }
        let rec = &records[i];
        let integrated: bool = matches!(rec.stage, ValidationStage::Integrated);
        if integrated {
            let item = RegionOpItem {
                hash: copy_bytes(&rec.hash),
                basis_loc: rec.basis_loc,
                timestamp: rec.timestamp,
                size: rec.size,
            };
            if in_any_region(topo, coords, &item) {
                out.push((item.hash, crate::ops::clone_chain_op(&rec.op)));
            }
        }
        i = i + 1;
    }
    proof {
        assert(store@.take(n as int) =~= store@);
    }
    out
}

/// Filtering distributes over push.
proof fn lemma_filter_push_region<A>(v: Seq<A>, x: A, pred: spec_fn(A) -> bool)
    ensures
        v.push(x).filter(pred) == if pred(x) {
            v.filter(pred).push(x)
        } else {
            v.filter(pred)
        },
{
    reveal(Seq::filter);
    assert(v.push(x).drop_last() =~= v);
}

/// Region coverage, op side: for the leaf grid over an arc and
/// horizon, the fetched records are exactly the integrated ops of the
/// whole arc × window domain — no op is missed and none is double
/// counted, since the leaves partition the domain.
pub proof fn lemma_fetch_is_domain_items(
    topo: Topology,
    space_start: u32,
    space_len: u32,
    horizon: u32,
    v: Seq<OpRecordView>,
)
    ensures
        fetch_filter(topo, grid_coords(space_start, space_len, horizon), v).map_values(
            |rec: OpRecordView| rec_item(rec),
        ) == store_items(v).filter(
            |o: RegionOpView| op_in_region(topo, domain_coords(space_start, space_len, horizon), o),
        ),
    decreases v.len(),
{
    reveal(Seq::filter);
    let grid = grid_coords(space_start, space_len, horizon);
    let domain = domain_coords(space_start, space_len, horizon);
    let gpred = |rec: OpRecordView|
        rec.stage == ValidationStage::Integrated && member_any(topo, grid, rec_item(rec));
    let dpred = |o: RegionOpView| op_in_region(topo, domain, o);
    let ipred = |rec: OpRecordView| rec.stage == ValidationStage::Integrated;
    if v.len() == 0 {
        assert(fetch_filter(topo, grid, v).map_values(|rec: OpRecordView| rec_item(rec)) =~= Seq::<
            RegionOpView,
        >::empty());
        assert(store_items(v) =~= Seq::<RegionOpView>::empty());
        assert(store_items(v).filter(dpred) =~= Seq::<RegionOpView>::empty());
    } else {
        let dl = v.drop_last();
        let last = v.last();
        lemma_fetch_is_domain_items(topo, space_start, space_len, horizon, dl);
        lemma_grid_covers(topo, space_start, space_len, horizon, rec_item(last));
        // Unfold each of the three layers over drop_last/push.
        assert(v =~= dl.push(last));
        lemma_filter_push_region(dl, last, gpred);
        lemma_filter_push_region(dl, last, ipred);
        assert(spec_integrated(v) == if ipred(last) {
            spec_integrated(dl).push(last)
        } else {
            spec_integrated(dl)
        });
        if ipred(last) {
            assert(store_items(v) =~= store_items(dl).push(rec_item(last)));
            lemma_filter_push_region(store_items(dl), rec_item(last), dpred);
        } else {
            assert(store_items(v) =~= store_items(dl));
        }
        if gpred(last) {
            assert(fetch_filter(topo, grid, v) =~= fetch_filter(topo, grid, dl).push(last));
            assert(fetch_filter(topo, grid, v).map_values(|rec: OpRecordView| rec_item(rec))
                =~= fetch_filter(topo, grid, dl).map_values(
                |rec: OpRecordView| rec_item(rec),
            ).push(rec_item(last)));
        } else {
            assert(fetch_filter(topo, grid, v) =~= fetch_filter(topo, grid, dl));
        }
        assert(fetch_filter(topo, grid, v).map_values(|rec: OpRecordView| rec_item(rec))
            =~= store_items(v).filter(dpred));
    }
}

/// Region coverage, count side: the summed counts of the leaf grid
/// equal the number of integrated ops in the arc × window domain.
pub proof fn lemma_region_coverage_count(
    topo: Topology,
    space_start: u32,
    space_len: u32,
    horizon: u32,
    v: Seq<OpRecordView>,
)
    ensures
        leaves_sum(topo, store_items(v), grid_coords(space_start, space_len, horizon)).count
            == store_items(v).filter(
            |o: RegionOpView| op_in_region(topo, domain_coords(space_start, space_len, horizon), o),
        ).len(),
{
    lemma_grid_sum(topo, store_items(v), space_start, space_len, horizon);
    lemma_region_sum_count(
        topo,
        store_items(v),
        domain_coords(space_start, space_len, horizon),
    );
}


/// Whether two fingerprints are the same.
pub fn region_data_eq(a: &RegionData, b: &RegionData) -> (r: bool)
    ensures
        r == (a@ == b@),
{
    let same = a.count == b.count && a.size == b.size && crate::bytes::bytes_eq(
        a.hash.as_slice(),
        b.hash.as_slice(),
    );
    proof {
        if same {
            assert(a@ =~= b@);
        }
    }
    same
}

/// The coordinates, in leaf order, whose fingerprints differ between
/// two positionally aligned region sets.
pub open spec fn spec_mismatches(a: Seq<Region>, b: Seq<Region>) -> Seq<RegionCoords>
    decreases a.len(),
{
    if a.len() == 0 || b.len() == 0 {
        Seq::empty()
    } else {
        let rest = spec_mismatches(a.drop_last(), b.drop_last());
        if a.last().data@ != b.last().data@ {
            rest.push(a.last().coords)
        } else {
            rest
        }
    }
}

/// One round of the historical diff: compare two region sets leaf by
/// leaf and return the coordinates whose fingerprints differ — the
/// only regions worth descending into or fetching.  Leaves are
/// compared positionally: both sides answer over the common arc and
/// window, so leaf `i` covers the same rectangle on both sides.
pub fn region_set_mismatches(mine: &RegionSet, theirs: &RegionSet) -> (r: Vec<RegionCoords>)
    requires
        mine.regions@.len() == theirs.regions@.len(),
    ensures
        r@ == spec_mismatches(mine.regions@, theirs.regions@),
{
    let n = mine.regions.len();
    let mut out: Vec<RegionCoords> = Vec::new();
    let mut i: usize = 0;
    proof {
        assert(mine.regions@.take(0) =~= Seq::<Region>::empty());
        assert(out@ =~= spec_mismatches(mine.regions@.take(0), theirs.regions@.take(0)));
    }
    while i < n
        invariant
            n == mine.regions@.len(),
            n == theirs.regions@.len(),
            i <= n,
            out@ == spec_mismatches(mine.regions@.take(i as int), theirs.regions@.take(i as int)),
        decreases n - i,
    {
        let ghost pre = out@;
        proof {
            assert(mine.regions@.take(i as int + 1).drop_last() =~= mine.regions@.take(i as int));
            assert(theirs.regions@.take(i as int + 1).drop_last() =~= theirs.regions@.take(
                i as int,
            ));
            assert(mine.regions@.take(i as int + 1).last() == mine.regions@[i as int]);
            assert(theirs.regions@.take(i as int + 1).last() == theirs.regions@[i as int]);
        }
        let a = &mine.regions[i];
        let b = &theirs.regions[i];
        if !region_data_eq(&a.data, &b.data) {
            out.push(a.coords);
            proof {
                assert(out@ =~= pre.push(mine.regions@[i as int].coords));
            }
        }
        i = i + 1;
    }
    proof {
        assert(mine.regions@.take(n as int) =~= mine.regions@);
        assert(theirs.regions@.take(n as int) =~= theirs.regions@);
    }
    out
}

/// Whether an op's timestamp falls in the recent window: at or past
/// the historical horizon.
pub open spec fn op_is_recent(topo: Topology, now_us: i64, op: RegionOpView) -> bool {
    let tq = (op.timestamp - topo.time_origin_us) / (topo.time_quantum_us as int);
    tq >= spec_horizon(topo, now_us)
}

/// The hashes of the integrated ops in the recent window: the ops the
/// recency lane of gossip exchanges directly, because their region
/// fingerprints are still unstable.
pub fn recent_op_hashes(topo: &Topology, now_us: i64, store: &OpStore) -> (r: Vec<Vec<u8>>)
    requires
        topo.wf(),
        topo.spec_time_quantum(now_us) <= 0x100000,
    ensures
        ({
            let recent = store_items(store@).filter(
                |o: RegionOpView| op_is_recent(*topo, now_us, o),
            );
            &&& r@.len() == recent.len()
            &&& forall|i: int| 0 <= i < r@.len() ==> (#[trigger] r@[i])@ == recent[i].hash
        }),
{
    let ghost pred = |o: RegionOpView| op_is_recent(*topo, now_us, o);
    let items = integrated_items(store);
    let ghost itemsv = Seq::new(items@.len(), |i: int| items@[i]@);
    proof {
        assert(itemsv =~= store_items(store@));
        assert(itemsv.take(0) =~= Seq::<RegionOpView>::empty());
    }
    let horizon = horizon_of(topo, now_us);
    let n = items.len();
    let mut out: Vec<Vec<u8>> = Vec::new();
    let mut i: usize = 0;
    while i < n
        invariant
            topo.wf(),
            topo.spec_time_quantum(now_us) <= 0x100000,
            n == items@.len(),
            i <= n,
            horizon == spec_horizon(*topo, now_us),
            itemsv == Seq::new(items@.len(), |k: int| items@[k]@),
            itemsv == store_items(store@),
            pred == (|o: RegionOpView| op_is_recent(*topo, now_us, o)),
            out@.len() == itemsv.take(i as int).filter(pred).len(),
            forall|k: int|
                0 <= k < out@.len() ==> (#[trigger] out@[k])@ == itemsv.take(i as int).filter(
                    pred,
                )[k].hash,
        decreases n - i,
    {
        let ghost pre = itemsv.take(i as int);
        proof {
            assert(itemsv.take(i as int + 1) =~= pre.push(itemsv[i as int]));
            lemma_filter_push_region(pre, itemsv[i as int], pred);
        }
        let item = &items[i];
        if is_recent(topo, now_us, horizon, item) {
            out.push(copy_bytes(&item.hash));
        }
        i = i + 1;
    }
    proof {
        assert(itemsv.take(n as int) =~= itemsv);
    }
    out
}

/// Whether an item's timestamp is at or past the horizon.
fn is_recent(topo: &Topology, now_us: i64, horizon: u32, item: &RegionOpItem) -> (b: bool)
    requires
        topo.wf(),
        horizon == spec_horizon(*topo, now_us),
    ensures
        b == op_is_recent(*topo, now_us, item@),
{
    let delta: i128 = (item.timestamp as i128) - (topo.time_origin_us as i128);
    if delta < 0 {
        proof {
            let q = topo.time_quantum_us as int;
            assert((-1int) / q == -1) by {
                vstd::arithmetic::div_mod::lemma_fundamental_div_mod_converse(
                    -1int,
                    q,
                    -1int,
                    q - 1,
                );
            }
            vstd::arithmetic::div_mod::lemma_div_is_ordered(
                item.timestamp - topo.time_origin_us,
                -1int,
                q,
            );
        }
        return false;
    }
    let tq: i128 = delta / (topo.time_quantum_us as i128);
    tq >= horizon as i128
}

/// The hashes a peer holds that this node does not: what the recency
/// lane fetches after an exchange of recent hash lists.
pub fn missing_hashes(mine: &Vec<Vec<u8>>, theirs: &Vec<Vec<u8>>) -> (r: Vec<Vec<u8>>)
    ensures
        ({
            let minev = Seq::new(mine@.len(), |i: int| mine@[i]@);
            let theirsv = Seq::new(theirs@.len(), |i: int| theirs@[i]@);
            let missing = theirsv.filter(
                |h: Seq<u8>| !exists|j: int| 0 <= j < minev.len() && minev[j] == h,
            );
            &&& r@.len() == missing.len()
            &&& forall|i: int| 0 <= i < r@.len() ==> (#[trigger] r@[i])@ == missing[i]
        }),
{
    let ghost minev = Seq::new(mine@.len(), |i: int| mine@[i]@);
    let ghost theirsv = Seq::new(theirs@.len(), |i: int| theirs@[i]@);
    let ghost pred = |h: Seq<u8>| !exists|j: int| 0 <= j < minev.len() && minev[j] == h;
    let n = theirs.len();
    let mut out: Vec<Vec<u8>> = Vec::new();
    let mut i: usize = 0;
    proof {
        assert(theirsv.take(0) =~= Seq::<Seq<u8>>::empty());
    }
    while i < n
        invariant
            n == theirs@.len(),
            i <= n,
            minev == Seq::new(mine@.len(), |k: int| mine@[k]@),
            theirsv == Seq::new(theirs@.len(), |k: int| theirs@[k]@),
            pred == (|h: Seq<u8>| !exists|j: int| 0 <= j < minev.len() && minev[j] == h),
            out@.len() == theirsv.take(i as int).filter(pred).len(),
            forall|k: int|
                0 <= k < out@.len() ==> (#[trigger] out@[k])@ == theirsv.take(i as int).filter(
                    pred,
                )[k],
        decreases n - i,
    {
        let ghost pre = theirsv.take(i as int);
        proof {
            assert(theirsv.take(i as int + 1) =~= pre.push(theirsv[i as int]));
            lemma_filter_push_region(pre, theirsv[i as int], pred);
        }
        let h = &theirs[i];
        let already_held = contains_hash(mine, h);
        proof {
            assert(theirsv[i as int] == h@);
            if already_held {
                let j = choose|j: int| 0 <= j < mine@.len() && (#[trigger] mine@[j])@ == h@;
                assert(minev[j] == theirsv[i as int]);
                assert(!pred(theirsv[i as int]));
            } else {
                assert forall|j: int| 0 <= j < minev.len() implies minev[j] != theirsv[i as int]
                    by {
                    assert(mine@[j]@ != h@);
                }
                assert(pred(theirsv[i as int]));
            }
        }
        if !already_held {
            out.push(copy_bytes(h));
        }
        i = i + 1;
    }
    proof {
        assert(theirsv.take(n as int) =~= theirsv);
    }
    out
}

/// Whether a hash occurs in a list.
fn contains_hash(list: &Vec<Vec<u8>>, h: &Vec<u8>) -> (b: bool)
    ensures
        b == exists|j: int|
            0 <= j < list@.len() && (#[trigger] list@[j])@ == h@,
{
    let n = list.len();
    let mut i: usize = 0;
    while i < n
        invariant
            n == list@.len(),
            i <= n,
            forall|j: int| 0 <= j < i ==> (#[trigger] list@[j])@ != h@,
        decreases n - i,
    {
        if crate::bytes::bytes_eq(list[i].as_slice(), h.as_slice()) {
            return true;
        }
        i = i + 1;
    }
    false
}

} // verus!
