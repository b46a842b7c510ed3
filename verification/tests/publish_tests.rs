//! Publish: authority selection by basis location, and acceptance only
//! within the local arcs.

use holo_dht::action::{Action, Dna};
use holo_dht::arq::Arq;
use holo_dht::ops::{ChainOp, ChainOpType};
use holo_dht::publish::{any_arc_covers, handle_publish, select_authorities, PeerArq};
use holo_dht::store::{OpStore, OpRecord, ValidationStage};

fn op_record(hash_byte: u8, basis_loc: u32) -> OpRecord {
    OpRecord {
        hash: vec![hash_byte; 39],
        op: ChainOp {
            op_type: ChainOpType::StoreRecord,
            signature: vec![1u8; 64],
            action: Action::Dna(Dna {
                author: vec![0x84u8; 39],
                timestamp: 100,
                hash: vec![2u8; 39],
            }),
            entry: None,
        },
        basis_loc,
        timestamp: 100,
        size: 10,
        stage: ValidationStage::Pending,
        when_integrated: None,
    }
}

/// An arc over the first sixteen space quanta (locations below 2^24).
fn low_arc() -> Arq {
    Arq {
        center: 8 * 0x100000,
        power: 2,
        count: 4,
    }
}

#[test]
fn authorities_are_peers_covering_the_basis() {
    let peers = vec![
        PeerArq {
            agent: vec![0x01; 39],
            arq: low_arc(),
        },
        PeerArq {
            agent: vec![0x02; 39],
            arq: Arq {
                center: 0x8000_0000,
                power: 2,
                count: 4,
            },
        },
        PeerArq {
            agent: vec![0x03; 39],
            arq: Arq {
                center: 0,
                power: 12,
                count: 1,
            },
        },
    ];
    // A basis in the low arc: peers 1 and 3 cover it.
    let chosen = select_authorities(&peers, 8 * 0x100000);
    assert_eq!(chosen.len(), 2);
    assert_eq!(chosen[0], vec![0x01; 39]);
    assert_eq!(chosen[1], vec![0x03; 39]);
    // A basis in the middle of the ring: peers 2 and 3.
    let chosen = select_authorities(&peers, 0x8000_0000);
    assert_eq!(chosen.len(), 2);
    assert_eq!(chosen[0], vec![0x02; 39]);
}

/// An op whose basis lies outside all local arcs is not accepted; one
/// within the local arc is accepted and, after the pipeline, becomes
/// visible to gets.
#[test]
fn publish_respects_local_arcs() {
    let mut store = OpStore::new();
    let arcs = vec![low_arc()];

    // Outside: dropped, nothing stored, never integrated.
    let outside = op_record(0x10, 0x8000_0000);
    assert!(!any_arc_covers(&arcs, outside.basis_loc));
    let accepted = handle_publish(&mut store, &arcs, outside);
    assert!(!accepted);
    assert!(store.get(&vec![0x10u8; 39]).is_none());

    // Inside: accepted as pending, then integrated and visible.
    let inside = op_record(0x11, 8 * 0x100000);
    assert!(any_arc_covers(&arcs, inside.basis_loc));
    let accepted = handle_publish(&mut store, &arcs, inside);
    assert!(accepted);
    let hash = vec![0x11u8; 39];
    assert_eq!(store.get(&hash).unwrap().stage, ValidationStage::Pending);
    store.set_stage(&hash, ValidationStage::SysValidated, 1);
    store.set_stage(&hash, ValidationStage::AppValidated, 2);
    store.set_stage(&hash, ValidationStage::Integrated, 3);
    let rec = store.get(&hash).unwrap();
    assert_eq!(rec.stage, ValidationStage::Integrated);

    // A duplicate publish of the same op hash is a no-op.
    let dup = op_record(0x11, 8 * 0x100000);
    assert!(!handle_publish(&mut store, &arcs, dup));
    assert_eq!(
        store.get(&hash).unwrap().stage,
        ValidationStage::Integrated
    );
}
