//! Chain linearity: genesis shape, linkage, conflicts.

use holo_dht::action::{
    action_hash, entry_hash, Action, AgentValidationPkg, AppEntryType, Create, Dna, Entry,
    EntryType, EntryVisibility, SignedAction,
};
use holo_dht::chain::{ChainError, SourceChain};

fn agent_key() -> Vec<u8> {
    vec![0x84u8; 39]
}

fn signed(action: Action) -> SignedAction {
    SignedAction {
        action,
        signature: vec![7u8; 64],
    }
}

fn dna_action(author: &[u8], ts: i64) -> Action {
    Action::Dna(Dna {
        author: author.to_vec(),
        timestamp: ts,
        hash: vec![1u8; 39],
    })
}

fn avp_action(author: &[u8], ts: i64, prev: Vec<u8>) -> Action {
    Action::AgentValidationPkg(AgentValidationPkg {
        author: author.to_vec(),
        timestamp: ts,
        action_seq: 1,
        prev_action: prev,
        membrane_proof: None,
    })
}

fn create_action(
    author: &[u8],
    ts: i64,
    seq: u32,
    prev: Vec<u8>,
    entry_type: EntryType,
    entry: &Entry,
) -> Action {
    Action::Create(Create {
        author: author.to_vec(),
        timestamp: ts,
        action_seq: seq,
        prev_action: prev,
        entry_type,
        entry_hash: entry_hash(entry),
    })
}

fn app_entry_type() -> EntryType {
    EntryType::App(AppEntryType {
        entry_index: 0,
        zome_index: 0,
        visibility: EntryVisibility::Public,
    })
}

/// Build a genesis chain and append a few creates; every link and
/// sequence number must hold.
#[test]
fn genesis_and_appends() {
    let author = agent_key();
    let mut chain = SourceChain::new();

    let h0 = chain
        .append(signed(dna_action(&author, 100)), None, None, true)
        .unwrap();
    assert_eq!(h0.seq, 0);

    let h1 = chain
        .append(
            signed(avp_action(&author, 200, h0.hash.clone())),
            None,
            Some(&h0.hash),
            true,
        )
        .unwrap();
    assert_eq!(h1.seq, 1);

    let agent_entry = Entry::Agent(author.clone());
    let h2 = chain
        .append(
            signed(create_action(
                &author,
                300,
                2,
                h1.hash.clone(),
                EntryType::AgentPubKey,
                &agent_entry,
            )),
            Some(agent_entry),
            Some(&h1.hash),
            true,
        )
        .unwrap();
    assert_eq!(h2.seq, 2);

    let mut head = h2;
    for i in 3..10u32 {
        let entry = Entry::App(vec![i as u8; 8]);
        let act = create_action(
            &author,
            300 + i as i64,
            i,
            head.hash.clone(),
            app_entry_type(),
            &entry,
        );
        let expected_hash = action_hash(&act);
        head = chain
            .append(signed(act), Some(entry), Some(&head.hash), true)
            .unwrap();
        assert_eq!(head.seq, i);
        assert_eq!(head.hash, expected_hash);
    }
    assert_eq!(chain.len(), 10);
    let top = chain.top().unwrap();
    assert_eq!(top.seq, 9);
    assert_eq!(top.hash, head.hash);

    // Every stored action is reachable by its hash.
    let got = chain.get_by_hash(&head.hash).unwrap();
    assert_eq!(got.action.action_seq(), 9);

    // The suffix from 7 has three actions in order.
    let tail = chain.iter_from(7);
    assert_eq!(tail.len(), 3);
    assert_eq!(tail[0].action.action_seq(), 7);
    assert_eq!(tail[2].action.action_seq(), 9);
}

#[test]
fn head_conflict_is_reported() {
    let author = agent_key();
    let mut chain = SourceChain::new();
    let h0 = chain
        .append(signed(dna_action(&author, 100)), None, None, true)
        .unwrap();
    // A second append that still believes the chain is empty loses.
    let r = chain.append(signed(dna_action(&author, 100)), None, None, true);
    assert_eq!(r.unwrap_err(), ChainError::HeadConflict);
    // A stale head hash loses too.
    let wrong = vec![0u8; 39];
    let r = chain.append(
        signed(avp_action(&author, 200, h0.hash.clone())),
        None,
        Some(&wrong),
        true,
    );
    assert_eq!(r.unwrap_err(), ChainError::HeadConflict);
}

#[test]
fn bad_signature_is_reported() {
    let author = agent_key();
    let mut chain = SourceChain::new();
    let r = chain.append(signed(dna_action(&author, 100)), None, None, false);
    assert_eq!(r.unwrap_err(), ChainError::BadSignature);
    assert_eq!(chain.len(), 0);
}

#[test]
fn invalid_structure_is_reported() {
    let author = agent_key();
    let mut chain = SourceChain::new();
    let h0 = chain
        .append(signed(dna_action(&author, 100)), None, None, true)
        .unwrap();

    // Position 1 must be AgentValidationPkg, not a create.
    let entry = Entry::App(vec![1, 2, 3]);
    let r = chain.append(
        signed(create_action(
            &author,
            200,
            1,
            h0.hash.clone(),
            app_entry_type(),
            &entry,
        )),
        Some(entry),
        Some(&h0.hash),
        true,
    );
    assert_eq!(r.unwrap_err(), ChainError::InvalidStructure);

    // A decreasing timestamp is refused.
    let r = chain.append(
        signed(avp_action(&author, 50, h0.hash.clone())),
        None,
        Some(&h0.hash),
        true,
    );
    assert_eq!(r.unwrap_err(), ChainError::InvalidStructure);

    // A wrong sequence number is refused.
    let mut bad = avp_action(&author, 200, h0.hash.clone());
    if let Action::AgentValidationPkg(ref mut a) = bad {
        a.action_seq = 5;
    }
    let r = chain.append(signed(bad), None, Some(&h0.hash), true);
    assert_eq!(r.unwrap_err(), ChainError::InvalidStructure);

    // An entry that does not hash to the action's entry hash is
    // refused.
    let good_avp = avp_action(&author, 200, h0.hash.clone());
    let h1 = chain
        .append(signed(good_avp), None, Some(&h0.hash), true)
        .unwrap();
    let agent_entry = Entry::Agent(author.clone());
    let other_entry = Entry::Agent(vec![9u8; 39]);
    let r = chain.append(
        signed(create_action(
            &author,
            300,
            2,
            h1.hash.clone(),
            EntryType::AgentPubKey,
            &agent_entry,
        )),
        Some(other_entry),
        Some(&h1.hash),
        true,
    );
    assert_eq!(r.unwrap_err(), ChainError::InvalidStructure);
}
