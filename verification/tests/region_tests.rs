//! Region queries: fingerprints describe the integrated op set, and
//! fetching by regions returns exactly that set.

use holo_dht::action::{Action, Dna};
use holo_dht::arq::Arq;
use holo_dht::ops::{ChainOp, ChainOpType};
use holo_dht::region::{fetch_ops_by_regions, query_region_set, RegionCoords};
use holo_dht::spacetime::{Topology, STANDARD_TIME_QUANTUM_US};
use holo_dht::store::{OpRecord, OpStore, ValidationStage};

const NUM_OPS: usize = 100;

/// A tiny deterministic generator, so the op spread needs no clock and
/// no randomness source.
struct Lcg(u64);

impl Lcg {
    fn next(&mut self) -> u64 {
        self.0 = self
            .0
            .wrapping_mul(6364136223846793005)
            .wrapping_add(1442695040888963407);
        self.0 >> 16
    }
}

fn full_arc() -> Arq {
    Arq {
        center: 0,
        power: 12,
        count: 1,
    }
}

fn op_record(seed: u64, timestamp: i64, stage: ValidationStage) -> OpRecord {
    // A distinct 39-byte hash per seed.
    let mut hash = vec![0u8; 39];
    for i in 0..8 {
        hash[3 + i] = (seed >> (8 * i)) as u8;
    }
    hash[12] = 0xa5;
    let basis_loc = (seed.wrapping_mul(0x9e3779b9) & 0xffff_ffff) as u32;
    let op = ChainOp {
        op_type: ChainOpType::StoreRecord,
        signature: vec![1u8; 64],
        action: Action::Dna(Dna {
            author: vec![0x84u8; 39],
            timestamp,
            hash: vec![2u8; 39],
        }),
        entry: None,
    };
    OpRecord {
        hash,
        op,
        basis_loc,
        timestamp,
        size: 100 + (seed % 50) as u32,
        stage,
        when_integrated: Some(timestamp),
    }
}

/// Insert 100 integrated ops spread across the four historical quanta
/// and 100 more in the recent window.  The region set over the full
/// arc must count exactly the 100 historical ops, its XOR-hash must be
/// the XOR of their hash cores, and fetching the regions must return
/// exactly those ops.
#[test]
fn test_region_queries() {
    let q = STANDARD_TIME_QUANTUM_US as i64;
    // The origin lies six quanta before "now"; with a recent cutoff of
    // two quanta the historical window spans quanta 0 through 3.
    let origin: i64 = 1_000_000;
    let now: i64 = origin + 6 * q;
    let topo = Topology::standard(origin);
    assert_eq!(topo.recent_cutoff_quanta, 2);

    let mut store = OpStore::new();
    let mut rng = Lcg(0xdecafbad);
    let mut expected_hashes: Vec<Vec<u8>> = Vec::new();
    let mut expected_sizes: u64 = 0;
    let mut expected_xor = vec![0u8; 32];

    // Before anything is inserted the region set is empty of ops.
    let empty_set = query_region_set(&topo, &full_arc(), now, &store);
    let total: u64 = empty_set.regions.iter().map(|r| r.data.count).sum();
    assert_eq!(total, 0);

    for i in 0..NUM_OPS {
        // Historical: timestamp within quanta 0..4.
        let ts = origin + (rng.next() % (4 * q as u64)) as i64;
        let rec = op_record(1_000 + i as u64, ts, ValidationStage::Integrated);
        expected_hashes.push(rec.hash.clone());
        expected_sizes += rec.size as u64;
        for j in 0..32 {
            expected_xor[j] ^= rec.hash[3 + j];
        }
        assert!(store.insert(rec));

        // Recent: timestamp within quanta 4..6; excluded from regions.
        let ts2 = origin + 4 * q + (rng.next() % (2 * q as u64)) as i64;
        let rec2 = op_record(2_000_000 + i as u64, ts2, ValidationStage::Integrated);
        assert!(store.insert(rec2));
    }

    let set = query_region_set(&topo, &full_arc(), now, &store);
    // One leaf per historical quantum.
    assert_eq!(set.regions.len(), 4);

    let total: u64 = set.regions.iter().map(|r| r.data.count).sum();
    assert_eq!(total as usize, NUM_OPS);
    let size_sum: u64 = set.regions.iter().map(|r| r.data.size).sum();
    assert_eq!(size_sum, expected_sizes);

    let mut xor_sum = vec![0u8; 32];
    for region in &set.regions {
        for j in 0..32 {
            xor_sum[j] ^= region.data.hash[j];
        }
    }
    assert_eq!(xor_sum, expected_xor);

    // Fetching the leaves materializes exactly the historical ops.
    let coords: Vec<RegionCoords> = set.regions.iter().map(|r| r.coords).collect();
    let mut fetched: Vec<Vec<u8>> = fetch_ops_by_regions(&topo, &coords, &store)
        .into_iter()
        .map(|(hash, _)| hash)
        .collect();
    fetched.sort();
    let mut inserted = expected_hashes.clone();
    inserted.sort();
    assert_eq!(fetched.len(), NUM_OPS);
    assert_eq!(fetched, inserted);
}

/// The sum of children's fingerprints equals the parent's: compute the
/// whole-window region both as one region-set over a coarse query and
/// as the sum of the per-quantum leaves.
#[test]
fn region_fingerprints_are_additive() {
    let q = STANDARD_TIME_QUANTUM_US as i64;
    let origin: i64 = 0;
    let now = origin + 5 * q;
    let topo = Topology::standard(origin);
    let mut store = OpStore::new();
    let mut rng = Lcg(42);
    for i in 0..40u64 {
        let ts = origin + (rng.next() % (3 * q as u64)) as i64;
        let rec = op_record(i, ts, ValidationStage::Integrated);
        store.insert(rec);
    }
    let set = query_region_set(&topo, &full_arc(), now, &store);
    assert_eq!(set.regions.len(), 3);

    // Summing the three leaves gives the fingerprint of the whole
    // domain, which a single fetch over one covering region confirms:
    // the count over the union equals the summed counts.
    let total: u64 = set.regions.iter().map(|r| r.data.count).sum();
    let whole = RegionCoords {
        space_start: 0,
        space_len: 4096,
        time_start: 0,
        time_len: 3,
    };
    let fetched = fetch_ops_by_regions(&topo, &vec![whole], &store);
    assert_eq!(fetched.len() as u64, total);
}

/// Ops that are not yet integrated are invisible to region queries.
#[test]
fn pending_ops_are_not_counted() {
    let q = STANDARD_TIME_QUANTUM_US as i64;
    let topo = Topology::standard(0);
    let now = 5 * q;
    let mut store = OpStore::new();
    store.insert(op_record(1, 1000, ValidationStage::Pending));
    store.insert(op_record(2, 1000, ValidationStage::Integrated));
    let set = query_region_set(&topo, &full_arc(), now, &store);
    let total: u64 = set.regions.iter().map(|r| r.data.count).sum();
    assert_eq!(total, 1);
}

/// The historical diff: two authorities that differ in one op find
/// exactly the leaves whose fingerprints differ, and fetching those
/// regions yields the op that heals the difference.
#[test]
fn region_diff_finds_the_difference() {
    let q = STANDARD_TIME_QUANTUM_US as i64;
    let origin: i64 = 0;
    let now = 6 * q;
    let topo = Topology::standard(origin);

    let mut ours = OpStore::new();
    let mut theirs = OpStore::new();
    // Both hold two ops in quantum 0; we alone hold one in quantum 2.
    for seed in [1u64, 2] {
        ours.insert(op_record(seed, 100, ValidationStage::Integrated));
        theirs.insert(op_record(seed, 100, ValidationStage::Integrated));
    }
    let extra = op_record(77, origin + 2 * q + 5, ValidationStage::Integrated);
    let extra_hash = extra.hash.clone();
    ours.insert(extra);

    let our_set = query_region_set(&topo, &full_arc(), now, &ours);
    let their_set = query_region_set(&topo, &full_arc(), now, &theirs);
    let mismatches = holo_dht::region::region_set_mismatches(&our_set, &their_set);
    // Exactly the quantum-2 leaf differs.
    assert_eq!(mismatches.len(), 1);
    assert_eq!(mismatches[0].time_start, 2);

    // Fetching the differing region from our store yields the op the
    // other side is missing.
    let fetched = fetch_ops_by_regions(&topo, &mismatches, &ours);
    assert_eq!(fetched.len(), 1);
    assert_eq!(fetched[0].0, extra_hash);
}

/// The recency lane: ops younger than the cutoff are exchanged by
/// hash, and the difference of two hash lists is what one side fetches.
#[test]
fn recent_hashes_and_difference() {
    let q = STANDARD_TIME_QUANTUM_US as i64;
    let topo = Topology::standard(0);
    let now = 6 * q;
    let mut store = OpStore::new();
    // One historical (quantum 1), two recent (quanta 4 and 5).
    store.insert(op_record(1, q + 5, ValidationStage::Integrated));
    store.insert(op_record(2, 4 * q + 5, ValidationStage::Integrated));
    store.insert(op_record(3, 5 * q + 5, ValidationStage::Integrated));
    // A pending recent op stays invisible.
    store.insert(op_record(4, 5 * q + 6, ValidationStage::Pending));

    let recent = holo_dht::region::recent_op_hashes(&topo, now, &store);
    assert_eq!(recent.len(), 2);
    assert_eq!(recent[0], op_record(2, 0, ValidationStage::Pending).hash);
    assert_eq!(recent[1], op_record(3, 0, ValidationStage::Pending).hash);

    // The other side has one of ours and one of its own.
    let their_extra = op_record(9, 0, ValidationStage::Pending).hash;
    let theirs = vec![recent[0].clone(), their_extra.clone()];
    let missing = holo_dht::region::missing_hashes(&recent, &theirs);
    assert_eq!(missing, vec![their_extra]);
}
