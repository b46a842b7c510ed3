//! Publishing ops to their authorities.
//!
//! The author of a freshly derived op sends it to the agents whose arq
//! covers the op's basis location; a receiving node accepts an op into
//! its store only when one of its own arcs covers the basis.  Delivery
//! failures are non-fatal: historical gossip eventually synchronizes
//! what publish missed.

use vstd::prelude::*;
use crate::arq::Arq;
use crate::chain::copy_bytes;
use crate::store::{OpRecord, OpStore, ValidationStage};

verus! {

/// A peer and the arc it claims.
#[derive(Clone, Debug)]
pub struct PeerArq {
    /// The peer's agent key.
    pub agent: Vec<u8>,
    /// The arc the peer claims to store.
    pub arq: Arq,
}

/// The mathematical value of a [`PeerArq`].
pub struct PeerArqView {
    /// The peer's agent key.
    pub agent: Seq<u8>,
    /// The arc the peer claims.
    pub arq: Arq,
}

impl View for PeerArq {
    type V = PeerArqView;

    open spec fn view(&self) -> PeerArqView {
        PeerArqView { agent: self.agent@, arq: self.arq }
    }
}

/// Whether any of the given arcs covers a location.
pub open spec fn spec_any_arc_covers(arcs: Seq<Arq>, loc: u32) -> bool {
    exists|i: int| 0 <= i < arcs.len() && (#[trigger] arcs[i]).spec_contains(loc)
}

/// Whether any local arc covers a location.
pub fn any_arc_covers(arcs: &Vec<Arq>, loc: u32) -> (r: bool)
    requires
        forall|i: int| 0 <= i < arcs@.len() ==> (#[trigger] arcs@[i]).wf(),
    ensures
        r == spec_any_arc_covers(arcs@, loc),
{
    let n = arcs.len();
    let mut i: usize = 0;
    while i < n
        invariant
            n == arcs@.len(),
            i <= n,
            forall|k: int| 0 <= k < arcs@.len() ==> (#[trigger] arcs@[k]).wf(),
            forall|k: int| 0 <= k < i ==> !(#[trigger] arcs@[k]).spec_contains(loc),
        decreases n - i,
    {
        if arcs[i].contains(loc) {
            return true;
        }
        i = i + 1;
    }
    false
}

/// The agents to publish an op to: exactly the peers whose arq covers
/// the basis location, in view order.
pub fn select_authorities(peers: &Vec<PeerArq>, basis_loc: u32) -> (r: Vec<Vec<u8>>)
    requires
        forall|i: int| 0 <= i < peers@.len() ==> (#[trigger] peers@[i]).arq.wf(),
    ensures
        ({
            let chosen = Seq::new(peers@.len(), |i: int| peers@[i]@).filter(
                |p: PeerArqView| p.arq.spec_contains(basis_loc),
            );
            &&& r@.len() == chosen.len()
            &&& forall|i: int| 0 <= i < r@.len() ==> (#[trigger] r@[i])@ == chosen[i].agent
        }),
{
    let ghost peersv = Seq::new(peers@.len(), |i: int| peers@[i]@);
    let ghost pred = |p: PeerArqView| p.arq.spec_contains(basis_loc);
    let n = peers.len();
    let mut out: Vec<Vec<u8>> = Vec::new();
    let mut i: usize = 0;
    proof {
        assert(peersv.take(0) =~= Seq::<PeerArqView>::empty());
    }
    while i < n
        invariant
            n == peers@.len(),
            i <= n,
            peersv == Seq::new(peers@.len(), |k: int| peers@[k]@),
            pred == (|p: PeerArqView| p.arq.spec_contains(basis_loc)),
            forall|k: int| 0 <= k < peers@.len() ==> (#[trigger] peers@[k]).arq.wf(),
            out@.len() == peersv.take(i as int).filter(pred).len(),
            forall|k: int|
                0 <= k < out@.len() ==> (#[trigger] out@[k])@ == peersv.take(i as int).filter(
                    pred,
                )[k].agent,
        decreases n - i,
    {
        let ghost pre = peersv.take(i as int);
        proof {
            assert(peersv.take(i as int + 1) =~= pre.push(peersv[i as int]));
            lemma_filter_push_publish(pre, peersv[i as int], pred);
        }
        let peer = &peers[i];
        if peer.arq.contains(basis_loc) {
            out.push(copy_bytes(&peer.agent));
        }
        i = i + 1;
    }
    proof {
        assert(peersv.take(n as int) =~= peersv);
    }
    out
}

/// Filtering distributes over push.
proof fn lemma_filter_push_publish<A>(v: Seq<A>, x: A, pred: spec_fn(A) -> bool)
    ensures
        v.push(x).filter(pred) == if pred(x) {
            v.filter(pred).push(x)
        } else {
            v.filter(pred)
        },
{
    reveal(Seq::filter);
    assert(v.push(x).drop_last() =~= v);
}

/// Receive a published op: accept it into the local store as `Pending`
/// iff one of the local arcs covers its basis location; an op whose
/// basis lies outside every local arc is dropped and never reaches
/// integration here.
pub fn handle_publish(store: &mut OpStore, local_arcs: &Vec<Arq>, rec: OpRecord) -> (r: bool)
    requires
        old(store).inv(),
        forall|i: int| 0 <= i < local_arcs@.len() ==> (#[trigger] local_arcs@[i]).wf(),
    ensures
        final(store).inv(),
        !spec_any_arc_covers(local_arcs@, rec.basis_loc) ==> final(store)@ == old(store)@ && !r,
        spec_any_arc_covers(local_arcs@, rec.basis_loc) ==> (r == !(exists|i: int|
            0 <= i < old(store)@.len() && (#[trigger] old(store)@[i]).hash == rec@.hash)) && (r
            ==> final(store)@ == old(store)@.push(rec@)) && (!r ==> final(store)@ == old(store)@),
    {
    if !any_arc_covers(local_arcs, rec.basis_loc) {
        return false;
    }
    store.insert(rec)
}

} // verus!
