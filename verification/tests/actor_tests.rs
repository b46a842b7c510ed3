//! Network facade options and fetch-context flags.

use holo_dht::actor::{
    race_decision, AggregationDecision, FetchContext, FetchContextExt, GetActivityOptions,
    GetLinksOptions, GetMetaOptions, GetOptions, GetRequest, GetStrategy, HolochainP2pRef,
    HolochainP2pRefToDna,
};

#[test]
fn get_options_defaults() {
    let o = GetOptions::default();
    assert_eq!(o.remote_agent_count, None);
    assert_eq!(o.timeout_ms, None);
    assert!(o.as_race);
    assert_eq!(o.race_timeout_ms, None);
    assert!(o.follow_redirects);
    assert!(!o.all_live_actions_with_metadata);
    assert_eq!(o.request_type, GetRequest::All);
}

/// must_get pins the options that would undermine determinism: no
/// redirects, and the pending request type.
#[test]
fn must_get_options_pin_determinism() {
    let o = GetOptions::must_get_options();
    assert!(!o.follow_redirects);
    assert_eq!(o.request_type, GetRequest::Pending);
    assert_eq!(o.remote_agent_count, None);
    assert!(o.as_race);
}

#[test]
fn meta_links_activity_defaults() {
    let m = GetMetaOptions::default();
    assert!(m.as_race);
    assert!(m.metadata_request.all_valid_actions);

    let l = GetLinksOptions::default();
    assert_eq!(l.timeout_ms, None);
    assert_eq!(l.get_options, GetStrategy::Network);

    let a = GetActivityOptions::default();
    assert_eq!(a.retry_gets, 0);
    assert!(a.include_valid_activity);
    assert!(!a.include_rejected_activity);
    assert!(!a.include_full_actions);
}

#[test]
fn fetch_context_flags() {
    let ctx = FetchContext(0);
    assert!(!ctx.has_request_validation_receipt());
    assert!(!ctx.has_countersigning_session());

    // Applying with `false` leaves the flags unchanged.
    let same = ctx
        .with_request_validation_receipt(false)
        .with_countersigning_session(false);
    assert_eq!(same, ctx);

    let with_receipt = ctx.with_request_validation_receipt(true);
    assert!(with_receipt.has_request_validation_receipt());
    assert!(!with_receipt.has_countersigning_session());

    let with_both = with_receipt.with_countersigning_session(true);
    assert!(with_both.has_request_validation_receipt());
    assert!(with_both.has_countersigning_session());

    // Setting a flag twice is idempotent.
    assert_eq!(
        with_both.with_countersigning_session(true),
        with_both
    );
}

#[test]
fn binding_a_handle_to_a_dna() {
    let sender = HolochainP2pRef { id: 7 };
    let dna_hash = vec![0x84u8, 0x2d, 0x24];
    let bound = sender.to_dna(dna_hash.clone());
    assert_eq!(bound.sender, sender);
    assert_eq!(bound.dna_hash, dna_hash);
    let owned = sender.into_dna(vec![1, 2, 3]);
    assert_eq!(owned.dna_hash, vec![1, 2, 3]);
}

#[test]
fn race_decision_returns_first_result_after_race_window() {
    let mut o = GetOptions::default();
    o.race_timeout_ms = Some(100);
    o.timeout_ms = Some(1000);

    // Nothing arrived: keep waiting until the overall timeout.
    assert_eq!(
        race_decision(&o, 150, 0, 100, 1000),
        AggregationDecision::KeepWaiting
    );
    // A result in hand past the race window returns at once.
    assert_eq!(
        race_decision(&o, 150, 1, 100, 1000),
        AggregationDecision::ReturnNow
    );
    // Within the race window, keep aggregating even with results.
    assert_eq!(
        race_decision(&o, 50, 3, 100, 1000),
        AggregationDecision::KeepWaiting
    );
    // The overall timeout always returns, even empty-handed.
    assert_eq!(
        race_decision(&o, 1000, 0, 100, 1000),
        AggregationDecision::ReturnNow
    );
    // With racing off, only the overall timeout returns.
    o.as_race = false;
    assert_eq!(
        race_decision(&o, 500, 5, 100, 1000),
        AggregationDecision::KeepWaiting
    );
}
