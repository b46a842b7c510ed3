//! The bootstrap rendezvous: put validity and storage.

use holo_dht::bootstrap::{valid, AgentInfoSigned, BootstrapStore, PutRejection};

fn info(sig_len: usize, expires_at_ms: u64) -> AgentInfoSigned {
    AgentInfoSigned {
        space: vec![1u8; 36],
        agent: vec![2u8; 36],
        signature: vec![7u8; sig_len],
        expires_at_ms,
    }
}

const NOW_MS: u64 = 1_700_000_000_000;

/// A 64-byte signature expiring a minute from now is stored; a 63-byte
/// signature is rejected; an already-expired info is rejected.
#[test]
fn test_put() {
    let mut store = BootstrapStore::new();

    let good = info(64, NOW_MS + 60_000_000);
    assert!(valid(&good, NOW_MS));
    let r = store.handle_put(Some(good.clone()), NOW_MS);
    assert_eq!(r, Ok(()));
    let stored = store.get(&good.space, &good.agent).unwrap();
    assert_eq!(stored.signature, good.signature);
    assert_eq!(stored.expires_at_ms, good.expires_at_ms);

    let short_sig = info(63, NOW_MS + 60_000_000);
    assert!(!valid(&short_sig, NOW_MS));
    assert_eq!(
        store.handle_put(Some(short_sig), NOW_MS),
        Err(PutRejection::Invalid)
    );

    let expired = info(64, NOW_MS - 1);
    assert!(!valid(&expired, NOW_MS));
    assert_eq!(
        store.handle_put(Some(expired), NOW_MS),
        Err(PutRejection::Invalid)
    );
}

#[test]
fn undecodable_body_is_rejected() {
    let mut store = BootstrapStore::new();
    assert_eq!(
        store.handle_put(None, NOW_MS),
        Err(PutRejection::BadDecode)
    );
    assert!(store.get(&vec![1u8; 36], &vec![2u8; 36]).is_none());
}

/// Expiry is strict: an info expiring exactly now is invalid.
#[test]
fn expiry_is_strict() {
    assert!(!valid(&info(64, NOW_MS), NOW_MS));
    assert!(valid(&info(64, NOW_MS + 1), NOW_MS));
}

/// A later put for the same (space, agent) pair wins.
#[test]
fn latest_put_wins() {
    let mut store = BootstrapStore::new();
    let first = info(64, NOW_MS + 10);
    let mut second = info(64, NOW_MS + 99);
    second.signature = vec![8u8; 64];
    store.handle_put(Some(first), NOW_MS).unwrap();
    store.handle_put(Some(second.clone()), NOW_MS).unwrap();
    let got = store.get(&second.space, &second.agent).unwrap();
    assert_eq!(got.expires_at_ms, NOW_MS + 99);
    assert_eq!(got.signature, vec![8u8; 64]);
}
