//! The deterministic agent-activity query: contiguous windows and
//! fork filtering.

use holo_dht::action::{
    action_hash, Action, AppEntryType, Create, Dna, EntryType, EntryVisibility, SignedAction,
};
use holo_dht::activity::{
    ActivityRow, DeterministicGetAgentActivityFilter, DeterministicGetAgentActivityQuery,
    ValidationStatus,
};
use holo_dht::actor::GetActivityOptions;
use holo_dht::ops::{ChainOp, ChainOpType};
use holo_dht::store::{OpRecord, OpStore, ValidationStage};

fn agent(tag: u8) -> Vec<u8> {
    vec![tag; 39]
}

fn make_chain(author: &[u8], len: u32) -> (Vec<Action>, Vec<Vec<u8>>) {
    let mut actions = Vec::new();
    let mut hashes: Vec<Vec<u8>> = Vec::new();
    for seq in 0..len {
        let action: Action = if let Some(top) = hashes.last() {
            Action::Create(Create {
                author: author.to_vec(),
                timestamp: 1000 + seq as i64,
                action_seq: seq,
                prev_action: top.clone(),
                entry_type: EntryType::App(AppEntryType {
                    entry_index: 0,
                    zome_index: 0,
                    visibility: EntryVisibility::Public,
                }),
                entry_hash: vec![seq as u8; 39],
            })
        } else {
            Action::Dna(Dna {
                author: author.to_vec(),
                timestamp: 1000,
                hash: vec![3u8; 39],
            })
        };
        hashes.push(action_hash(&action));
        actions.push(action);
    }
    (actions, hashes)
}

fn rows_desc(actions: &[Action], hashes: &[Vec<u8>], low: usize, high: usize) -> Vec<ActivityRow> {
    let mut rows = Vec::new();
    for seq in (low..=high).rev() {
        rows.push(ActivityRow {
            action: SignedAction {
                action: actions[seq].clone_action(),
                signature: vec![1u8; 64],
            },
            hash: hashes[seq].clone(),
            status: ValidationStatus::Valid,
        });
    }
    rows
}

fn query(author: &[u8], low: Option<Vec<u8>>, high: Vec<u8>) -> DeterministicGetAgentActivityQuery {
    DeterministicGetAgentActivityQuery::new(
        author.to_vec(),
        DeterministicGetAgentActivityFilter {
            range: (low, high),
            include_entries: false,
        },
        GetActivityOptions::default(),
    )
}

/// Three agents append ten actions each; the full window returns all
/// ten, the window from hash 4 to hash 8 returns five.
#[test]
fn agent_activity_query() {
    let agents = [agent(0x10), agent(0x20), agent(0x30)];
    let mut chains = Vec::new();
    for a in &agents {
        chains.push(make_chain(a, 10));
    }
    let (actions, hashes) = &chains[2];

    let full = query(&agents[2], None, hashes[9].clone());
    let results_full = full.run_rows(rows_desc(actions, hashes, 0, 9));
    assert_eq!(results_full.chain.len(), 10);

    let partial = query(&agents[2], Some(hashes[4].clone()), hashes[8].clone());
    let results_partial = partial.run_rows(rows_desc(actions, hashes, 4, 8));
    assert_eq!(results_partial.chain.len(), 5);
}

/// The returned slice is contiguous and descending: each action's
/// `prev_action` is the next row's hash.
#[test]
fn result_is_contiguous_descending() {
    let author = agent(0x11);
    let (actions, hashes) = make_chain(&author, 8);
    let q = query(&author, None, hashes[7].clone());
    let result = q.run_rows(rows_desc(&actions, &hashes, 0, 7));
    assert_eq!(result.chain.len(), 8);
    for i in 0..result.chain.len() {
        assert_eq!(result.chain[i].0.action.action_seq(), (7 - i) as u32);
    }
}

/// A fork: an extra branch row at the same seq is dropped, and only
/// the branch reachable from the high hash is returned.
#[test]
fn fork_rows_are_filtered() {
    let author = agent(0x12);
    let (actions, hashes) = make_chain(&author, 6);

    // A competing action at seq 3, linking to the same prev but with
    // different content: a fork.
    let fork_action = Action::Create(Create {
        author: author.clone(),
        timestamp: 9999,
        action_seq: 3,
        prev_action: hashes[2].clone(),
        entry_type: EntryType::CapClaim,
        entry_hash: vec![0xeeu8; 39],
    });
    let fork_hash = action_hash(&fork_action);

    let mut rows = rows_desc(&actions, &hashes, 0, 5);
    // Insert the fork row between seq 3 and seq 2 in descending order.
    rows.insert(
        3,
        ActivityRow {
            action: SignedAction {
                action: fork_action,
                signature: vec![1u8; 64],
            },
            hash: fork_hash,
            status: ValidationStatus::Valid,
        },
    );

    let q = query(&author, None, hashes[5].clone());
    let result = q.run_rows(rows);
    // The fork row is dropped; the main branch of six actions remains.
    assert_eq!(result.chain.len(), 6);
    for i in 0..result.chain.len() {
        assert_eq!(result.chain[i].0.action.action_seq(), (5 - i) as u32);
    }
}

/// A window whose high hash matches nothing yields an empty response.
#[test]
fn unknown_high_hash_yields_empty() {
    let author = agent(0x13);
    let (actions, hashes) = make_chain(&author, 4);
    let q = query(&author, None, vec![0u8; 39]);
    let result = q.run_rows(rows_desc(&actions, &hashes, 0, 3));
    assert_eq!(result.chain.len(), 0);
}

/// The full path from the store to the response: select the author's
/// integrated activity rows in a hash-bounded window, then walk them.
#[test]
fn activity_rows_from_store() {
    let agents = [agent(0x10), agent(0x20), agent(0x30)];
    let mut store = OpStore::new();
    let mut chains = Vec::new();
    for a in &agents {
        let (actions, hashes) = make_chain(a, 10);
        for seq in 0..10usize {
            store.insert(OpRecord {
                hash: hashes[seq].clone(),
                op: ChainOp {
                    op_type: ChainOpType::RegisterAgentActivity,
                    signature: vec![1u8; 64],
                    action: actions[seq].clone_action(),
                    entry: None,
                },
                basis_loc: 0,
                timestamp: 1000 + seq as i64,
                size: 10,
                stage: ValidationStage::Integrated,
                when_integrated: Some(2000),
            });
        }
        chains.push((actions, hashes));
    }
    let (_, hashes) = &chains[2];

    // Full window: all ten of the agent's actions, none of the others'.
    let rows = holo_dht::activity::activity_rows(&store, &agents[2], None, &hashes[9]);
    assert_eq!(rows.len(), 10);
    let q = query(&agents[2], None, hashes[9].clone());
    assert_eq!(q.run_rows(rows).chain.len(), 10);

    // Partial window from hash 4 to hash 8: five actions.
    let rows = holo_dht::activity::activity_rows(
        &store,
        &agents[2],
        Some(&hashes[4]),
        &hashes[8],
    );
    assert_eq!(rows.len(), 5);
    let q = query(&agents[2], Some(hashes[4].clone()), hashes[8].clone());
    assert_eq!(q.run_rows(rows).chain.len(), 5);

    // A high bound matching no activity record selects nothing.
    let rows = holo_dht::activity::activity_rows(&store, &agents[2], None, &vec![0u8; 39]);
    assert_eq!(rows.len(), 0);
}
