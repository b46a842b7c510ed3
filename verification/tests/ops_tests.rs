//! Op derivation: the table of ops per action, and determinism.

use holo_dht::action::{
    action_canonical_bytes, action_hash, entry_hash, Action, AppEntryType, Create, CreateLink,
    Delete, DeleteLink, Entry, EntryType, EntryVisibility, SignedAction, Update,
};
use holo_dht::ops::{
    basis_loc, derive_ops, op_for_validation, ChainOpType, EntryCreationAction, Op,
    WrongActionError,
};

fn author() -> Vec<u8> {
    vec![0x84u8; 39]
}

fn app_type() -> EntryType {
    EntryType::App(AppEntryType {
        entry_index: 1,
        zome_index: 2,
        visibility: EntryVisibility::Public,
    })
}

fn create(entry: &Entry) -> Create {
    Create {
        author: author(),
        timestamp: 1000,
        action_seq: 5,
        prev_action: vec![2u8; 39],
        entry_type: app_type(),
        entry_hash: entry_hash(entry),
    }
}

fn update(entry: &Entry) -> Update {
    Update {
        author: author(),
        timestamp: 2000,
        action_seq: 6,
        prev_action: vec![3u8; 39],
        original_action_address: vec![4u8; 39],
        original_entry_address: vec![5u8; 39],
        entry_type: app_type(),
        entry_hash: entry_hash(entry),
    }
}

fn signed(action: Action) -> SignedAction {
    SignedAction {
        action,
        signature: vec![9u8; 64],
    }
}

#[test]
fn create_derives_three_ops() {
    let entry = Entry::App(vec![1, 2, 3]);
    let sa = signed(Action::Create(create(&entry)));
    let ops = derive_ops(&sa, Some(&entry));
    assert_eq!(ops.len(), 3);
    assert!(matches!(ops[0].op.op_type, ChainOpType::StoreRecord));
    assert_eq!(ops[0].basis, action_hash(&sa.action));
    assert!(matches!(
        ops[1].op.op_type,
        ChainOpType::RegisterAgentActivity
    ));
    assert_eq!(ops[1].basis, author());
    assert!(matches!(ops[2].op.op_type, ChainOpType::StoreEntry));
    assert_eq!(ops[2].basis, entry_hash(&entry));
    // The record op carries the entry; the activity op does not.
    assert!(ops[0].op.entry.is_some());
    assert!(ops[1].op.entry.is_none());
}

#[test]
fn update_derives_four_ops() {
    let entry = Entry::App(vec![4, 5]);
    let u = update(&entry);
    let sa = signed(Action::Update(u.clone()));
    let ops = derive_ops(&sa, Some(&entry));
    assert_eq!(ops.len(), 4);
    assert!(matches!(ops[2].op.op_type, ChainOpType::StoreEntry));
    assert_eq!(ops[2].basis, entry_hash(&entry));
    assert!(matches!(ops[3].op.op_type, ChainOpType::RegisterUpdate));
    assert_eq!(ops[3].basis, u.original_entry_address);
}

#[test]
fn delete_and_links_have_their_bases() {
    let d = Action::Delete(Delete {
        author: author(),
        timestamp: 1,
        action_seq: 7,
        prev_action: vec![1u8; 39],
        deletes_address: vec![6u8; 39],
        deletes_entry_address: vec![7u8; 39],
    });
    let ops = derive_ops(&signed(d), None);
    assert_eq!(ops.len(), 3);
    assert!(matches!(ops[2].op.op_type, ChainOpType::RegisterDelete));
    assert_eq!(ops[2].basis, vec![7u8; 39]);

    let cl = Action::CreateLink(CreateLink {
        author: author(),
        timestamp: 1,
        action_seq: 8,
        prev_action: vec![1u8; 39],
        base_address: vec![8u8; 39],
        target_address: vec![9u8; 39],
        link_type: 0,
        tag: vec![1, 2],
    });
    let ops = derive_ops(&signed(cl), None);
    assert!(matches!(ops[2].op.op_type, ChainOpType::RegisterCreateLink));
    assert_eq!(ops[2].basis, vec![8u8; 39]);

    let dl = Action::DeleteLink(DeleteLink {
        author: author(),
        timestamp: 1,
        action_seq: 9,
        prev_action: vec![1u8; 39],
        base_address: vec![8u8; 39],
        link_add_address: vec![10u8; 39],
    });
    let ops = derive_ops(&signed(dl), None);
    assert!(matches!(ops[2].op.op_type, ChainOpType::RegisterDeleteLink));
    assert_eq!(ops[2].basis, vec![8u8; 39]);
}

/// Two nodes given the same action and entry derive identical op
/// sequences.
#[test]
fn derivation_is_deterministic() {
    let entry = Entry::App(vec![1, 2, 3, 4]);
    let sa = signed(Action::Create(create(&entry)));
    let a = derive_ops(&sa, Some(&entry));
    let b = derive_ops(&sa, Some(&entry));
    assert_eq!(a.len(), b.len());
    for i in 0..a.len() {
        assert_eq!(a[i].basis, b[i].basis);
        assert_eq!(a[i].op.op_type, b[i].op.op_type);
        assert_eq!(a[i].op.signature, b[i].op.signature);
        assert_eq!(
            action_canonical_bytes(&a[i].op.action),
            action_canonical_bytes(&b[i].op.action)
        );
    }
}

#[test]
fn basis_loc_reads_checksum_bytes() {
    let mut basis = vec![0u8; 39];
    basis[35] = 0x78;
    basis[36] = 0x56;
    basis[37] = 0x34;
    basis[38] = 0x12;
    assert_eq!(basis_loc(&basis), 0x12345678);
}

#[test]
fn entry_creation_action_accessors() {
    let entry = Entry::App(vec![1]);
    let c = create(&entry);
    let eca = EntryCreationAction::from_create(c.clone());
    assert_eq!(eca.author(), &author());
    assert_eq!(eca.timestamp(), 1000);
    assert_eq!(eca.action_seq(), 5);
    assert_eq!(eca.prev_action(), &vec![2u8; 39]);
    assert_eq!(eca.entry_hash(), &entry_hash(&entry));
    assert!(matches!(eca.entry_type(), EntryType::App(_)));
    assert!(eca.app_entry_type().is_some());
    assert!(!eca.is_agent_entry_type());
    assert!(!eca.is_cap_claim_entry_type());
    assert!(!eca.is_cap_grant_entry_type());

    // The projection hashes the same bytes as the equivalent action.
    let as_action = Action::Create(c);
    assert_eq!(eca.hashable_content(), action_canonical_bytes(&as_action));
    assert_eq!(eca.hash_type(), vec![0x84u8, 0x29, 0x24]);

    // Conversion round trip and failure.
    let u = update(&entry);
    let eca2 = EntryCreationAction::try_from_action(Action::Update(u)).unwrap();
    assert!(matches!(eca2, EntryCreationAction::Update(_)));
    let not_creation = Action::Delete(Delete {
        author: author(),
        timestamp: 1,
        action_seq: 7,
        prev_action: vec![1u8; 39],
        deletes_address: vec![6u8; 39],
        deletes_entry_address: vec![7u8; 39],
    });
    assert_eq!(
        EntryCreationAction::try_from_action(not_creation).unwrap_err(),
        WrongActionError
    );
}

#[test]
fn validation_view_of_each_op() {
    let entry = Entry::App(vec![1, 2, 3]);
    let sa = signed(Action::Create(create(&entry)));
    let ops = derive_ops(&sa, Some(&entry));

    // StoreRecord carries the full record.
    match op_for_validation(&ops[0].op).unwrap() {
        Op::StoreRecord(sr) => {
            assert_eq!(sr.record.signed_action.action.action_seq(), 5);
            assert!(sr.record.entry.is_some());
        }
        other => panic!("expected StoreRecord, got {:?}", other),
    }

    // RegisterAgentActivity carries the signed action alone.
    match op_for_validation(&ops[1].op).unwrap() {
        Op::RegisterAgentActivity(ra) => {
            assert_eq!(ra.action.signature, vec![9u8; 64]);
        }
        other => panic!("expected RegisterAgentActivity, got {:?}", other),
    }

    // StoreEntry projects the action into an entry-creating one.
    match op_for_validation(&ops[2].op).unwrap() {
        Op::StoreEntry(se) => {
            assert!(matches!(se.action.action, EntryCreationAction::Create(_)));
            assert!(matches!(se.entry, Entry::App(_)));
        }
        other => panic!("expected StoreEntry, got {:?}", other),
    }

    // A StoreEntry whose entry is missing cannot be validated.
    let mut bad = ops[2].op.clone();
    bad.entry = None;
    assert!(op_for_validation(&bad).is_err());
}
