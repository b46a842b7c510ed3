//! Request options of the network facade.
//!
//! Every request/response operation is fan-out aware: the options say
//! how many remote agents to ask, how long to wait, whether to race for
//! the first answer, and what the remote end should include.  The
//! `must_get` variants pin the options that would otherwise introduce
//! nondeterminism, so that validation sees one possible answer only.

use vstd::prelude::*;

verus! {

/// The kind of data a get request requires.
#[derive(Clone, Copy, Debug, PartialEq, Eq, Structural)]
pub enum GetRequest {
    /// Get the entry and all its metadata.
    All,
    /// Get just the content.
    Content,
    /// Get just the metadata.
    Metadata,
    /// Get content whether or not it is integrated yet.
    Pending,
}

impl Default for GetRequest {
    /// Everything: content and metadata.
    fn default() -> (r: Self)
        ensures
            r == GetRequest::All,
    {
        GetRequest::All
    }
}

/// Options controlling how a `get` is processed, at the network level
/// and at the remote end.
#[derive(Clone, Copy, Debug, PartialEq, Eq, Structural)]
pub struct GetOptions {
    /// How many remote nodes to ask and aggregate; `None` for a
    /// best-effort default.
    pub remote_agent_count: Option<u8>,
    /// Timeout to await responses; if every request times out the
    /// result is empty, not an error.
    pub timeout_ms: Option<u64>,
    /// Race for speed: return whatever arrived when `race_timeout_ms`
    /// expires, and the first result after it.
    pub as_race: bool,
    /// The race window; `None` for a best-effort default.
    pub race_timeout_ms: Option<u64>,
    /// Whether the remote end follows redirects or returns the entry
    /// as addressed.
    pub follow_redirects: bool,
    /// Return all live actions even if there are deletes.
    pub all_live_actions_with_metadata: bool,
    /// The kind of data this request requires.
    pub request_type: GetRequest,
}

impl Default for GetOptions {
    /// Best-effort defaults: race, follow redirects, ask for
    /// everything.
    fn default() -> (r: Self)
        ensures
            r.remote_agent_count is None,
            r.timeout_ms is None,
            r.as_race,
            r.race_timeout_ms is None,
            r.follow_redirects,
            !r.all_live_actions_with_metadata,
            r.request_type == GetRequest::All,
    {
        GetOptions {
            remote_agent_count: Option::None,
            timeout_ms: Option::None,
            as_race: true,
            race_timeout_ms: Option::None,
            follow_redirects: true,
            all_live_actions_with_metadata: false,
            request_type: GetRequest::All,
        }
    }
}

impl GetOptions {
    /// Options for a `must_get`: defaults are dangerous there, as they
    /// can undermine determinism.  Redirects are never followed, so the
    /// returned value always matches the requested hash, and the
    /// request type is pinned to `Pending`.
    pub fn must_get_options() -> (r: Self)
        ensures
            r.remote_agent_count is None,
            r.timeout_ms is None,
            r.as_race,
            r.race_timeout_ms is None,
            !r.follow_redirects,
            !r.all_live_actions_with_metadata,
            r.request_type == GetRequest::Pending,
    {
        GetOptions {
            remote_agent_count: Option::None,
            timeout_ms: Option::None,
            as_race: true,
            race_timeout_ms: Option::None,
            follow_redirects: false,
            all_live_actions_with_metadata: false,
            request_type: GetRequest::Pending,
        }
    }
}

/// Which metadata a `get_meta` should return.
#[derive(Clone, Copy, Debug, PartialEq, Eq, Structural)]
pub struct MetadataRequest {
    /// Include all actions on the entry.
    pub all_valid_actions: bool,
    /// Include deletes.
    pub all_deletes: bool,
}

impl Default for MetadataRequest {
    /// Actions and deletes both included.
    fn default() -> (r: Self)
        ensures
            r.all_valid_actions,
            r.all_deletes,
    {
        MetadataRequest { all_valid_actions: true, all_deletes: true }
    }
}

/// Options controlling how a `get_meta` is processed.
#[derive(Clone, Copy, Debug, PartialEq, Eq, Structural)]
pub struct GetMetaOptions {
    /// How many remote nodes to ask and aggregate; `None` for a
    /// best-effort default.
    pub remote_agent_count: Option<u8>,
    /// Timeout to await responses; all requests timing out yields an
    /// empty result, not an error.
    pub timeout_ms: Option<u64>,
    /// Race for speed, as in [`GetOptions`].
    pub as_race: bool,
    /// The race window.
    pub race_timeout_ms: Option<u64>,
    /// Which metadata the remote end should return.
    pub metadata_request: MetadataRequest,
}

impl Default for GetMetaOptions {
    /// Best-effort defaults.
    fn default() -> (r: Self)
        ensures
            r.remote_agent_count is None,
            r.timeout_ms is None,
            r.as_race,
            r.race_timeout_ms is None,
            r.metadata_request.all_valid_actions,
            r.metadata_request.all_deletes,
    {
        GetMetaOptions {
            remote_agent_count: Option::None,
            timeout_ms: Option::None,
            as_race: true,
            race_timeout_ms: Option::None,
            metadata_request: MetadataRequest { all_valid_actions: true, all_deletes: true },
        }
    }
}

/// Whether a request may go to the network or must be served from the
/// local store alone.
#[derive(Clone, Copy, Debug, PartialEq, Eq, Structural)]
pub enum GetStrategy {
    /// Fetch from the network when not held locally.
    Network,
    /// Serve from local data only.
    Local,
}

/// Options controlling how a `get_links` is processed.
#[derive(Clone, Copy, Debug, PartialEq, Eq, Structural)]
pub struct GetLinksOptions {
    /// Timeout to await responses; all requests timing out yields an
    /// empty result, not an error.
    pub timeout_ms: Option<u64>,
    /// Whether to fetch links from the network or only return locally
    /// available ones.
    pub get_options: GetStrategy,
}

impl Default for GetLinksOptions {
    /// Best-effort defaults: go to the network.
    fn default() -> (r: Self)
        ensures
            r.timeout_ms is None,
            r.get_options == GetStrategy::Network,
    {
        GetLinksOptions { timeout_ms: Option::None, get_options: GetStrategy::Network }
    }
}

/// Options controlling how a `get_agent_activity` is processed.
#[derive(Clone, Copy, Debug, PartialEq, Eq, Structural)]
pub struct GetActivityOptions {
    /// Timeout to await responses; all requests timing out yields an
    /// empty result, not an error.
    pub timeout_ms: Option<u64>,
    /// Number of times to retry getting records in parallel.
    pub retry_gets: u8,
    /// Include all valid activity actions in the response; when false
    /// the call is a lightweight status query.
    pub include_valid_activity: bool,
    /// Include rejected actions in the response.
    pub include_rejected_activity: bool,
    /// Include full signed actions instead of just hashes.
    pub include_full_actions: bool,
}

impl Default for GetActivityOptions {
    /// Valid activity included, nothing else.
    fn default() -> (r: Self)
        ensures
            r.timeout_ms is None,
            r.retry_gets == 0,
            r.include_valid_activity,
            !r.include_rejected_activity,
            !r.include_full_actions,
    {
        GetActivityOptions {
            timeout_ms: Option::None,
            retry_gets: 0,
            include_valid_activity: true,
            include_rejected_activity: false,
            include_full_actions: false,
        }
    }
}

/// The flag set a fetch request carries through the fetch pool, packed
/// into one word.
#[derive(Clone, Copy, Debug, PartialEq, Eq, Structural)]
pub struct FetchContext(pub u32);

/// The flag bit asking the receiving authority for a validation
/// receipt.
pub const FLAG_REQ_VAL_RCPT: u32 = 1;

/// The flag bit marking an op of a countersigning session.
pub const FLAG_CNTR_SSN: u32 = 2;

/// Flag accessors of the fetch context.
pub trait FetchContextExt: Sized {
    /// Applies the "request_validation_receipt" flag if the parameter
    /// is true, otherwise leaves the flags unchanged.
    fn with_request_validation_receipt(&self, request_validation_receipt: bool) -> Self;

    /// Whether the "request_validation_receipt" flag is set.
    fn has_request_validation_receipt(&self) -> bool;

    /// Applies the "countersigning_session" flag if the parameter is
    /// true, otherwise leaves the flags unchanged.
    fn with_countersigning_session(&self, countersigning_session: bool) -> Self;

    /// Whether the "countersigning_session" flag is set.
    fn has_countersigning_session(&self) -> bool;
}

impl FetchContextExt for FetchContext {
    fn with_request_validation_receipt(&self, request_validation_receipt: bool) -> (r: Self)
        ensures
            r.0 == if request_validation_receipt {
                self.0 | FLAG_REQ_VAL_RCPT
            } else {
                self.0
            },
    {
        if request_validation_receipt {
            FetchContext(self.0 | FLAG_REQ_VAL_RCPT)
        } else {
            *self
        }
    }

    fn has_request_validation_receipt(&self) -> (r: bool)
        ensures
            r == (self.0 & FLAG_REQ_VAL_RCPT > 0),
    {
        self.0 & FLAG_REQ_VAL_RCPT > 0
    }

    fn with_countersigning_session(&self, countersigning_session: bool) -> (r: Self)
        ensures
            r.0 == if countersigning_session {
                self.0 | FLAG_CNTR_SSN
            } else {
                self.0
            },
    {
        if countersigning_session {
            FetchContext(self.0 | FLAG_CNTR_SSN)
        } else {
            *self
        }
    }

    fn has_countersigning_session(&self) -> (r: bool)
        ensures
            r == (self.0 & FLAG_CNTR_SSN > 0),
    {
        self.0 & FLAG_CNTR_SSN > 0
    }
}

/// Setting a flag makes its accessor true and leaves the other flag
/// alone.
pub proof fn lemma_fetch_context_flags(x: u32, b: bool)
    ensures
        b ==> ((x | FLAG_REQ_VAL_RCPT) & FLAG_REQ_VAL_RCPT) > 0,
        ((x | FLAG_REQ_VAL_RCPT) & FLAG_CNTR_SSN) == (x & FLAG_CNTR_SSN),
        b ==> ((x | FLAG_CNTR_SSN) & FLAG_CNTR_SSN) > 0,
        ((x | FLAG_CNTR_SSN) & FLAG_REQ_VAL_RCPT) == (x & FLAG_REQ_VAL_RCPT),
{
    assert(((x | 1u32) & 1u32) > 0) by (bit_vector);
    assert(((x | 1u32) & 2u32) == (x & 2u32)) by (bit_vector);
    assert(((x | 2u32) & 2u32) > 0) by (bit_vector);
    assert(((x | 2u32) & 1u32) == (x & 1u32)) by (bit_vector);
}

/// A handle on the running p2p actor.
#[derive(Clone, Copy, Debug, PartialEq, Eq, Structural)]
pub struct HolochainP2pRef {
    /// An opaque handle identifier.
    pub id: u64,
}

/// A p2p handle bound to one DNA.
#[derive(Clone, Debug)]
pub struct HolochainP2pDna {
    /// The underlying handle.
    pub sender: HolochainP2pRef,
    /// The DNA this handle is bound to.
    pub dna_hash: Vec<u8>,
}

/// Binding a p2p handle to a DNA context.
pub trait HolochainP2pRefToDna {
    /// Bind this sender to a specific DNA context.
    fn into_dna(self, dna_hash: Vec<u8>) -> HolochainP2pDna;

    /// Clone and bind this sender to a specific DNA context.
    fn to_dna(&self, dna_hash: Vec<u8>) -> HolochainP2pDna;
}

impl HolochainP2pRefToDna for HolochainP2pRef {
    fn into_dna(self, dna_hash: Vec<u8>) -> (r: HolochainP2pDna)
        ensures
            r.sender == self,
            r.dna_hash@ == dna_hash@,
    {
        HolochainP2pDna { sender: self, dna_hash }
    }

    fn to_dna(&self, dna_hash: Vec<u8>) -> (r: HolochainP2pDna)
        ensures
            r.sender == *self,
            r.dna_hash@ == dna_hash@,
    {
        (*self).into_dna(dna_hash)
    }
}

/// What a fan-out request does after a response lands or a timer
/// fires.
#[derive(Clone, Copy, Debug, PartialEq, Eq, Structural)]
pub enum AggregationDecision {
    /// Return what has arrived; an empty result set is returned as
    /// such, never as an error.
    ReturnNow,
    /// Keep aggregating.
    KeepWaiting,
}

/// Decide whether a racing get returns: always once the overall
/// timeout has passed — with whatever arrived, possibly nothing — and,
/// when racing, as soon as any result is in hand past the race window.
/// Unset timeouts fall back to the caller's best-effort defaults.
pub fn race_decision(
    options: &GetOptions,
    elapsed_ms: u64,
    responses: u64,
    default_race_timeout_ms: u64,
    default_timeout_ms: u64,
) -> (r: AggregationDecision)
    ensures
        ({
            let timeout = spec_or_default(options.timeout_ms, default_timeout_ms);
            let race_timeout = spec_or_default(options.race_timeout_ms, default_race_timeout_ms);
            r == AggregationDecision::ReturnNow <==> (elapsed_ms >= timeout || (options.as_race
                && responses >= 1 && elapsed_ms >= race_timeout))
        }),
{
    let timeout = match options.timeout_ms {
        Option::Some(t) => t,
        Option::None => default_timeout_ms,
    };
    if elapsed_ms >= timeout {
        return AggregationDecision::ReturnNow;
    }
    let race_timeout = match options.race_timeout_ms {
        Option::Some(t) => t,
        Option::None => default_race_timeout_ms,
    };
    if options.as_race && responses >= 1 && elapsed_ms >= race_timeout {
        AggregationDecision::ReturnNow
    } else {
        AggregationDecision::KeepWaiting
    }
}

/// A configured value, or the caller's default where unset.
pub open spec fn spec_or_default(v: Option<u64>, d: u64) -> u64 {
    match v {
        Option::Some(t) => t,
        Option::None => d,
    }
}

} // verus!
