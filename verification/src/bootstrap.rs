//! The bootstrap rendezvous: storing signed agent infos.
//!
//! A `put` request carries a msgpack-encoded signed agent info; the
//! HTTP framing and the decoding live at the edge, and hand this module
//! the decode outcome and the current wall-clock milliseconds.  An info
//! is stored iff its signature is 64 bytes long and it has not expired;
//! everything else is rejected.

use vstd::prelude::*;

verus! {

/// A signed agent info: which agent claims which space, under what
/// signature, and until when the claim lasts.
#[derive(Clone, Debug)]
pub struct AgentInfoSigned {
    /// The space (DNA) the agent participates in.
    pub space: Vec<u8>,
    /// The agent's public key.
    pub agent: Vec<u8>,
    /// The signature over the encoded info.
    pub signature: Vec<u8>,
    /// Expiry, in milliseconds since the epoch.
    pub expires_at_ms: u64,
}

/// The mathematical value of an [`AgentInfoSigned`].
pub struct AgentInfoView {
    /// The space the agent participates in.
    pub space: Seq<u8>,
    /// The agent's public key.
    pub agent: Seq<u8>,
    /// The signature bytes.
    pub signature: Seq<u8>,
    /// Expiry, in milliseconds since the epoch.
    pub expires_at_ms: u64,
}

impl View for AgentInfoSigned {
    type V = AgentInfoView;

    open spec fn view(&self) -> AgentInfoView {
        AgentInfoView {
            space: self.space@,
            agent: self.agent@,
            signature: self.signature@,
            expires_at_ms: self.expires_at_ms,
        }
    }
}

/// Why a `put` was refused.
#[derive(Clone, Copy, Debug, PartialEq, Eq, Structural)]
pub enum PutRejection {
    /// The body did not decode as a signed agent info.
    BadDecode,
    /// The info decoded but is not valid: wrong signature length or
    /// already expired.
    Invalid,
}

/// Validity of a signed agent info at a given time: the signature is
/// exactly 64 bytes and the expiry lies strictly in the future.
pub open spec fn spec_valid(peer: AgentInfoView, now_ms: u64) -> bool {
    &&& peer.signature.len() == 64
    &&& peer.expires_at_ms > now_ms
}

/// Check a signed agent info: signature length and expiry.
pub fn valid(peer: &AgentInfoSigned, now_ms: u64) -> (r: bool)
    ensures
        r == spec_valid(peer@, now_ms),
{
    if peer.signature.len() != 64 {
        return false;
    }
    peer.expires_at_ms > now_ms
}

/// The rendezvous store: the signed infos in order of arrival, and a
/// count of accepted puts.  A later put for the same `(space, agent)`
/// pair wins: lookups read from the most recent entry backward.
pub struct BootstrapStore {
    infos: Vec<AgentInfoSigned>,
    put_count: u64,
}

impl View for BootstrapStore {
    type V = Seq<AgentInfoView>;

    closed spec fn view(&self) -> Seq<AgentInfoView> {
        Seq::new(self.infos@.len(), |i: int| self.infos@[i]@)
    }
}

/// Whether an entry is the latest one stored for a `(space, agent)`
/// pair.
pub open spec fn latest_match(
    v: Seq<AgentInfoView>,
    space: Seq<u8>,
    agent: Seq<u8>,
    i: int,
) -> bool {
    &&& 0 <= i < v.len()
    &&& v[i].space == space
    &&& v[i].agent == agent
    &&& forall|j: int|
        i < j < v.len() ==> !((#[trigger] v[j]).space == space && v[j].agent == agent)
}

impl BootstrapStore {
    /// Number of accepted puts so far.
    pub closed spec fn spec_put_count(&self) -> u64 {
        self.put_count
    }

    /// An empty store.
    pub fn new() -> (r: BootstrapStore)
        ensures
            r@.len() == 0,
            r.spec_put_count() == 0,
    {
        let r = BootstrapStore { infos: Vec::new(), put_count: 0 };
        proof {
            assert(r@ =~= Seq::<AgentInfoView>::empty());
        }
        r
    }

    /// The most recently stored info for a `(space, agent)` pair.
    pub fn get(&self, space: &Vec<u8>, agent: &Vec<u8>) -> (r: Option<&AgentInfoSigned>)
        ensures
            match r {
                Option::Some(info) => exists|i: int|
                    #[trigger] latest_match(self@, space@, agent@, i) && self@[i] == info@,
                Option::None => forall|i: int|
                    0 <= i < self@.len() ==> !((#[trigger] self@[i]).space == space@
                        && self@[i].agent == agent@),
            },
    {
        let n = self.infos.len();
        let mut k: usize = 0;
        while k < n
            invariant
                n == self@.len(),
                k <= n,
                self@.len() == self.infos@.len(),
                forall|m: int| 0 <= m < n ==> #[trigger] self@[m] == self.infos@[m]@,
                forall|j: int|
                    (n - k) as int <= j < n ==> !((#[trigger] self@[j]).space == space@
                        && self@[j].agent == agent@),
            decreases n - k,
        {
            let i = n - 1 - k;
            let entry = &self.infos[i];
            if crate::bytes::bytes_eq(entry.space.as_slice(), space.as_slice())
                && crate::bytes::bytes_eq(entry.agent.as_slice(), agent.as_slice()) {
                proof {
                    assert(self@[i as int] == entry@);
                    assert(latest_match(self@, space@, agent@, i as int));
                }
                return Option::Some(entry);
            }
            k = k + 1;
        }
        Option::None
    }

    /// Store an info; it becomes the latest entry for its
    /// `(space, agent)` pair.
    pub fn put(&mut self, peer: AgentInfoSigned)
        ensures
            final(self)@ == old(self)@.push(peer@),
            final(self).spec_put_count() == if old(self).spec_put_count() < u64::MAX {
                (old(self).spec_put_count() + 1) as u64
            } else {
                old(self).spec_put_count()
            },
    {
        let ghost oldv = self@;
        let n = self.infos.len();
        self.infos.push(peer);
        if self.put_count < u64::MAX {
            self.put_count = self.put_count + 1;
        }
        proof {
            assert(self@ =~= oldv.push(self.infos@[n as int]@));
        }
    }

    /// Handle a `put` request whose body has been decoded at the edge:
    /// store the info iff it decoded and is valid now, and say exactly
    /// why otherwise.
    pub fn handle_put(&mut self, decoded: Option<AgentInfoSigned>, now_ms: u64) -> (r: Result<
        (),
        PutRejection,
    >)
        ensures
            r == Err::<(), PutRejection>(PutRejection::BadDecode) <==> decoded is None,
            // Only an accepted put counts: a rejection leaves the
            // counter alone, an acceptance advances it (saturating).
            r is Err ==> final(self).spec_put_count() == old(self).spec_put_count(),
            r is Ok ==> final(self).spec_put_count() == if old(self).spec_put_count() < u64::MAX {
                (old(self).spec_put_count() + 1) as u64
            } else {
                old(self).spec_put_count()
            },
            match decoded {
                Option::None => final(self)@ == old(self)@,
                Option::Some(peer) => {
                    &&& (r is Ok <==> spec_valid(peer@, now_ms))
                    &&& (r == Err::<(), PutRejection>(PutRejection::Invalid) <==> !spec_valid(
                        peer@,
                        now_ms,
                    ))
                    &&& (r is Ok ==> final(self)@ == old(self)@.push(peer@))
                    &&& (r is Err ==> final(self)@ == old(self)@)
                },
            },
    {
        let peer = match decoded {
            Option::None => {
                return Err(PutRejection::BadDecode);
            },
            Option::Some(p) => p,
        };
        if !valid(&peer, now_ms) {
            return Err(PutRejection::Invalid);
        }
        self.put(peer);
        Ok(())
    }
}

} // verus!
