//! The validation pipeline: sys checks, app verdicts, parking, and
//! the monotonic stage machine.

use holo_dht::action::{
    entry_hash, Action, Create, Delete, Dna, Entry, EntryType, Update, AppEntryType,
    EntryVisibility,
};
use holo_dht::ops::{ChainOp, ChainOpType};
use holo_dht::store::{OpRecord, OpStore, ValidationStage};
use holo_dht::validation::{
    app_validation_consumer_step, op_dependency, sys_validate, AppValidationOutcome,
    SysValidationOutcome, ValidationDependencies,
};

fn author() -> Vec<u8> {
    vec![0x84u8; 39]
}

fn dna_op() -> ChainOp {
    ChainOp {
        op_type: ChainOpType::StoreRecord,
        signature: vec![1u8; 64],
        action: Action::Dna(Dna {
            author: author(),
            timestamp: 100,
            hash: vec![2u8; 39],
        }),
        entry: None,
    }
}

fn create_op(entry: &Entry) -> ChainOp {
    ChainOp {
        op_type: ChainOpType::StoreEntry,
        signature: vec![1u8; 64],
        action: Action::Create(Create {
            author: author(),
            timestamp: 100,
            action_seq: 4,
            prev_action: vec![3u8; 39],
            entry_type: EntryType::App(AppEntryType {
                entry_index: 0,
                zome_index: 0,
                visibility: EntryVisibility::Public,
            }),
            entry_hash: entry_hash(entry),
        }),
        entry: Some(entry.clone_entry()),
    }
}

fn update_op(original: Vec<u8>) -> ChainOp {
    ChainOp {
        op_type: ChainOpType::RegisterUpdate,
        signature: vec![1u8; 64],
        action: Action::Update(Update {
            author: author(),
            timestamp: 100,
            action_seq: 5,
            prev_action: vec![3u8; 39],
            original_action_address: original,
            original_entry_address: vec![5u8; 39],
            entry_type: EntryType::CapGrant,
            entry_hash: vec![6u8; 39],
        }),
        entry: None,
    }
}

fn record(hash_byte: u8, op: ChainOp, stage: ValidationStage) -> OpRecord {
    OpRecord {
        hash: vec![hash_byte; 39],
        op,
        basis_loc: 0,
        timestamp: 100,
        size: 10,
        stage,
        when_integrated: None,
    }
}

#[test]
fn sys_validation_rejects_bad_signature_and_structure() {
    let store = OpStore::new();
    let op = dna_op();
    assert_eq!(
        sys_validate(&op, false, &store),
        SysValidationOutcome::Rejected
    );
    assert_eq!(
        sys_validate(&op, true, &store),
        SysValidationOutcome::Accepted
    );

    // A non-genesis action with sequence number zero is malformed.
    let entry = Entry::App(vec![1, 2]);
    let mut bad = create_op(&entry);
    if let Action::Create(ref mut c) = bad.action {
        c.action_seq = 0;
    }
    assert_eq!(
        sys_validate(&bad, true, &store),
        SysValidationOutcome::Rejected
    );

    // An entry that does not match the declared hash is malformed.
    let mut mismatched = create_op(&entry);
    mismatched.entry = Some(Entry::App(vec![9, 9, 9]));
    assert_eq!(
        sys_validate(&mismatched, true, &store),
        SysValidationOutcome::Rejected
    );
}

#[test]
fn missing_dependency_parks_instead_of_failing() {
    let mut store = OpStore::new();
    let dep_hash = vec![0x55u8; 39];
    let op = update_op(dep_hash.clone());
    assert_eq!(op_dependency(&op), Some(&dep_hash));

    // The referenced action is not held: the op awaits it.
    match sys_validate(&op, true, &store) {
        SysValidationOutcome::AwaitingDependency(h) => assert_eq!(h, dep_hash),
        other => panic!("expected AwaitingDependency, got {:?}", other),
    }

    // Once the dependency is stored, the op is accepted.
    store.insert(record(0x55, dna_op(), ValidationStage::Integrated));
    assert_eq!(
        sys_validate(&op, true, &store),
        SysValidationOutcome::Accepted
    );
}

#[test]
fn app_verdicts_drive_the_stage_machine() {
    let mut store = OpStore::new();
    let mut deps = ValidationDependencies::new();
    let hash = vec![0x42u8; 39];
    store.insert(OpRecord {
        hash: hash.clone(),
        op: dna_op(),
        basis_loc: 0,
        timestamp: 100,
        size: 10,
        stage: ValidationStage::SysValidated,
        when_integrated: None,
    });

    // Valid: advance and trigger integration.
    let trigger = app_validation_consumer_step(
        &mut store,
        &mut deps,
        &hash,
        AppValidationOutcome::Valid,
        500,
    );
    assert!(trigger);
    assert_eq!(store.get(&hash).unwrap().stage, ValidationStage::AppValidated);

    // Integration is a further advance.
    assert!(store.set_stage(&hash, ValidationStage::Integrated, 600));
    let rec = store.get(&hash).unwrap();
    assert_eq!(rec.stage, ValidationStage::Integrated);
    assert_eq!(rec.when_integrated, Some(600));
}

#[test]
fn invalid_verdict_is_terminal() {
    let mut store = OpStore::new();
    let mut deps = ValidationDependencies::new();
    let hash = vec![0x43u8; 39];
    store.insert(record(0x43, dna_op(), ValidationStage::SysValidated));
    let trigger = app_validation_consumer_step(
        &mut store,
        &mut deps,
        &hash,
        AppValidationOutcome::Invalid,
        500,
    );
    assert!(!trigger);
    assert_eq!(store.get(&hash).unwrap().stage, ValidationStage::Rejected);
    // Rejected is terminal: nothing moves it.
    assert!(!store.set_stage(&hash, ValidationStage::Integrated, 600));
    assert_eq!(store.get(&hash).unwrap().stage, ValidationStage::Rejected);
}

/// Once an op reaches Integrated, it never regresses.
#[test]
fn integrated_never_regresses() {
    let mut store = OpStore::new();
    let hash = vec![0x44u8; 39];
    store.insert(record(0x44, dna_op(), ValidationStage::Pending));
    assert!(store.set_stage(&hash, ValidationStage::SysValidated, 1));
    assert!(store.set_stage(&hash, ValidationStage::AppValidated, 2));
    assert!(store.set_stage(&hash, ValidationStage::Integrated, 3));
    // No request moves an integrated op.
    assert!(!store.set_stage(&hash, ValidationStage::Pending, 4));
    assert!(!store.set_stage(&hash, ValidationStage::SysValidated, 4));
    assert!(!store.set_stage(&hash, ValidationStage::Rejected, 4));
    assert_eq!(store.get(&hash).unwrap().stage, ValidationStage::Integrated);
    assert_eq!(store.get(&hash).unwrap().when_integrated, Some(3));
    // Skipping backward is also refused on the way up.
    let hash2 = vec![0x45u8; 39];
    store.insert(record(0x45, dna_op(), ValidationStage::AppValidated));
    assert!(!store.set_stage(&hash2, ValidationStage::Pending, 5));
    assert_eq!(
        store.get(&hash2).unwrap().stage,
        ValidationStage::AppValidated
    );
}

#[test]
fn unresolved_dependencies_park_and_release() {
    let mut store = OpStore::new();
    let mut deps = ValidationDependencies::new();
    let hash = vec![0x46u8; 39];
    store.insert(record(0x46, dna_op(), ValidationStage::SysValidated));

    let missing = vec![vec![0xaau8; 39], vec![0xbbu8; 39]];
    let trigger = app_validation_consumer_step(
        &mut store,
        &mut deps,
        &hash,
        AppValidationOutcome::UnresolvedDependencies(missing),
        500,
    );
    assert!(!trigger);
    // The stage did not move.
    assert_eq!(
        store.get(&hash).unwrap().stage,
        ValidationStage::SysValidated
    );
    // Resolving one dependency releases the parked op under it.
    let released = deps.resolve(&vec![0xaau8; 39]);
    assert_eq!(released, vec![hash.clone()]);
    // Resolving it again releases nothing.
    let released = deps.resolve(&vec![0xaau8; 39]);
    assert!(released.is_empty());
    // The other parking entry is still there.
    let released = deps.resolve(&vec![0xbbu8; 39]);
    assert_eq!(released, vec![hash]);
}

/// When the previous action is held locally, sys validation checks the
/// linkage against it: sequence number one higher, timestamp not
/// lower.
#[test]
fn prev_linkage_checked_when_held() {
    let entry = Entry::App(vec![1, 2]);
    let op = create_op(&entry);
    // The op's action has seq 4, timestamp 100, prev hash 0x03...;
    // a held predecessor with seq 3 and an earlier timestamp passes.
    let good_prev = ChainOp {
        op_type: ChainOpType::RegisterAgentActivity,
        signature: vec![1u8; 64],
        action: Action::Create(Create {
            author: author(),
            timestamp: 50,
            action_seq: 3,
            prev_action: vec![9u8; 39],
            entry_type: EntryType::CapClaim,
            entry_hash: vec![8u8; 39],
        }),
        entry: None,
    };
    let mut store = OpStore::new();
    store.insert(OpRecord {
        hash: vec![3u8; 39],
        op: good_prev,
        basis_loc: 0,
        timestamp: 50,
        size: 10,
        stage: ValidationStage::Integrated,
        when_integrated: None,
    });
    assert_eq!(
        sys_validate(&op, true, &store),
        SysValidationOutcome::Accepted
    );

    // A predecessor with the wrong sequence number rejects the op.
    let mut store = OpStore::new();
    let mut bad_seq = create_op(&entry);
    if let Action::Create(ref mut c) = bad_seq.action {
        c.action_seq = 7;
    }
    store.insert(record(0x03, bad_seq, ValidationStage::Integrated));
    assert_eq!(
        sys_validate(&op, true, &store),
        SysValidationOutcome::Rejected
    );

    // A predecessor with a later timestamp rejects the op.
    let mut store = OpStore::new();
    let late_prev = ChainOp {
        op_type: ChainOpType::RegisterAgentActivity,
        signature: vec![1u8; 64],
        action: Action::Create(Create {
            author: author(),
            timestamp: 999,
            action_seq: 3,
            prev_action: vec![9u8; 39],
            entry_type: EntryType::CapClaim,
            entry_hash: vec![8u8; 39],
        }),
        entry: None,
    };
    store.insert(OpRecord {
        hash: vec![3u8; 39],
        op: late_prev,
        basis_loc: 0,
        timestamp: 999,
        size: 10,
        stage: ValidationStage::Integrated,
        when_integrated: None,
    });
    assert_eq!(
        sys_validate(&op, true, &store),
        SysValidationOutcome::Rejected
    );

    // With the predecessor not held, the linkage waits for the chain
    // authority: the op is accepted on its own shape.
    let store = OpStore::new();
    assert_eq!(
        sys_validate(&op, true, &store),
        SysValidationOutcome::Accepted
    );
}
