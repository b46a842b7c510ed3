//! The validation pipeline: sys validation, app validation,
//! integration.
//!
//! Each op moves `Pending → SysValidated → AppValidated → Integrated`,
//! or to the terminal `Rejected`.  Sys validation needs no app
//! callbacks: it checks the signature verdict and the structural
//! invariants, and parks ops whose referenced actions are not yet held
//! locally.  App validation is decided by the WASM `validate` callback,
//! an outside oracle whose verdict is handed in; the functions here fix
//! what happens on every possible verdict.  Parking is keyed by the
//! missing dependency's hash and released event-driven, never by
//! polling.

use vstd::prelude::*;
use crate::action::{spec_entry_hash, Action, ActionView};
use crate::bytes::bytes_eq;
use crate::chain::copy_bytes;
use crate::ops::{ChainOp, ChainOpView};
use crate::store::{spec_advance, OpRecordView, OpStore, ValidationStage};
use crate::action::entry_hash;

verus! {

/// The outcome of sys validation of one op.
#[derive(Clone, Debug, PartialEq, Eq)]
pub enum SysValidationOutcome {
    /// The op passed; it may move to `SysValidated`.
    Accepted,
    /// The op is malformed; this is terminal.
    Rejected,
    /// A referenced action is not held locally: park the op under the
    /// dependency's hash and request it.
    AwaitingDependency(Vec<u8>),
}

/// The verdict of the WASM `validate` callback on one op.
#[derive(Clone, Debug)]
pub enum AppValidationOutcome {
    /// The app accepted the op.
    Valid,
    /// The app rejected the op; terminal.
    Invalid,
    /// The callback could not resolve these dependencies; park the op
    /// under each.
    UnresolvedDependencies(Vec<Vec<u8>>),
}

/// The action hash an op's sys validation depends on, if any: updates
/// reference the original action, deletes the deleted action, link
/// deletes the link-creating action.
pub open spec fn spec_op_dependency(op: ChainOpView) -> Option<Seq<u8>> {
    match op.action {
        ActionView::Update(u) => Option::Some(u.original_action_address),
        ActionView::Delete(d) => Option::Some(d.deletes_address),
        ActionView::DeleteLink(l) => Option::Some(l.link_add_address),
        _ => Option::None,
    }
}

/// The action hash an op's sys validation depends on, if any.
pub fn op_dependency(op: &ChainOp) -> (r: Option<&Vec<u8>>)
    ensures
        match r {
            Option::Some(h) => spec_op_dependency(op@) == Option::Some(h@),
            Option::None => spec_op_dependency(op@) is None,
        },
{
    match &op.action {
        Action::Update(u) => Option::Some(&u.original_action_address),
        Action::Delete(d) => Option::Some(&d.deletes_address),
        Action::DeleteLink(l) => Option::Some(&l.link_add_address),
        _ => Option::None,
    }
}

/// The structural invariants sys validation checks without any app
/// callback: a `Dna` action carries sequence number zero and no
/// predecessor, every other action carries a predecessor and a nonzero
/// sequence number, and an entry carried by the op hashes to the
/// action's declared entry hash.
pub open spec fn spec_op_structure_ok(op: ChainOpView) -> bool {
    &&& (op.action is Dna ==> op.action.action_seq() == 0)
    &&& (!(op.action is Dna) ==> op.action.prev_action() is Some && op.action.action_seq() > 0)
    &&& match op.entry {
        Option::Some(e) => op.action.entry_hash() == Option::Some(spec_entry_hash(e)),
        Option::None => true,
    }
}

/// Check the structural invariants of an op.
pub fn op_structure_ok(op: &ChainOp) -> (r: bool)
    ensures
        r == spec_op_structure_ok(op@),
{
    let shape_ok: bool = match &op.action {
        Action::Dna(_) => op.action.action_seq() == 0,
        _ => {
            let has_prev: bool = match op.action.prev_action() {
                Option::Some(_) => true,
                Option::None => false,
            };
            has_prev && op.action.action_seq() > 0
        },
    };
    if !shape_ok {
        return false;
    }
    match &op.entry {
        Option::None => true,
        Option::Some(e) => {
            let eh = entry_hash(e);
            match op.action.entry_hash() {
                Option::None => false,
                Option::Some(ah) => bytes_eq(eh.as_slice(), ah.as_slice()),
            }
        },
    }
}

/// The relative invariants against the previous action, checked when
/// the store holds a record under the `prev_action` hash: the sequence
/// number is the predecessor's plus one, and the timestamp does not
/// decrease.  When the predecessor is not held these checks wait for
/// the chain authority; they reject nothing in absentia.
pub open spec fn spec_prev_ok(op: ChainOpView, store: Seq<OpRecordView>) -> bool {
    match op.action.prev_action() {
        Option::Some(p) => forall|i: int|
            0 <= i < store.len() && (#[trigger] store[i]).hash == p ==> {
                &&& op.action.action_seq() as int == store[i].op.action.action_seq() + 1
                &&& op.action.timestamp() >= store[i].op.action.timestamp()
            },
        Option::None => true,
    }
}

/// Sys validation of one op.  `sig_ok` is the keystore's verdict on
/// the signature (an outside oracle); the store answers whether the
/// referenced actions are held.  The structural checks cover the op's
/// own shape and, when the previous action is held locally, the
/// seq/prev/timestamp linkage against it.  Rejection is terminal; a
/// missing update/delete dependency parks the op rather than failing
/// it.
pub fn sys_validate(op: &ChainOp, sig_ok: bool, store: &OpStore) -> (r: SysValidationOutcome)
    requires
        store.inv(),
    ensures
        (r == SysValidationOutcome::Rejected) <==> (!sig_ok || !spec_op_structure_ok(op@)
            || !spec_prev_ok(op@, store@)),
        (r == SysValidationOutcome::Accepted) <==> (sig_ok && spec_op_structure_ok(op@)
            && spec_prev_ok(op@, store@) && (match spec_op_dependency(op@) {
            Option::Some(h) => exists|i: int|
                0 <= i < store@.len() && (#[trigger] store@[i]).hash == h,
            Option::None => true,
        })),
        r is AwaitingDependency ==> spec_op_dependency(op@) == Option::Some(r->0@),
{
    if !sig_ok || !op_structure_ok(op) {
        return SysValidationOutcome::Rejected;
    }
    if !prev_ok(op, store) {
        return SysValidationOutcome::Rejected;
    }
    match op_dependency(op) {
        Option::None => SysValidationOutcome::Accepted,
        Option::Some(dep) => {
            if store.contains(dep) {
                SysValidationOutcome::Accepted
            } else {
                SysValidationOutcome::AwaitingDependency(copy_bytes(dep))
            }
        },
    }
}

/// Check the linkage against the previous action, where it is held.
fn prev_ok(op: &ChainOp, store: &OpStore) -> (r: bool)
    requires
        store.inv(),
    ensures
        r == spec_prev_ok(op@, store@),
{
    let prev = match op.action.prev_action() {
        Option::None => {
            return true;
        },
        Option::Some(p) => p,
    };
    match store.get(prev) {
        Option::None => true,
        Option::Some(rec) => {
            let ghost witness = choose|i: int|
                0 <= i < store@.len() && #[trigger] store@[i] == rec@ && rec@.hash == prev@;
            let ok: bool = (op.action.action_seq() as u64) == (rec.op.action.action_seq() as u64)
                + 1 && op.action.timestamp() >= rec.op.action.timestamp();
            proof {
                assert forall|i: int|
                    0 <= i < store@.len() && (#[trigger] store@[i]).hash == prev@ implies store@[i]
                    == rec@ by {
                    if i != witness {
                        assert(store@[i].hash != store@[witness].hash);
                    }
                }
            }
            ok
        },
    }
}

/// The stage an op reaches for a given callback verdict.
pub open spec fn spec_app_validate_stage(
    cur: ValidationStage,
    outcome: AppValidationOutcome,
) -> ValidationStage {
    match outcome {
        AppValidationOutcome::Valid => spec_advance(cur, ValidationStage::AppValidated),
        AppValidationOutcome::Invalid => spec_advance(cur, ValidationStage::Rejected),
        AppValidationOutcome::UnresolvedDependencies(_) => cur,
    }
}

/// The parked ops, keyed by the hash of the dependency they wait for.
/// Waits are signaled event-driven: when a dependency integrates, its
/// waiters are released and re-triggered; there is no timeout.
pub struct ValidationDependencies {
    parked: Vec<(Vec<u8>, Vec<u8>)>,
}

impl View for ValidationDependencies {
    type V = Seq<(Seq<u8>, Seq<u8>)>;

    closed spec fn view(&self) -> Seq<(Seq<u8>, Seq<u8>)> {
        Seq::new(self.parked@.len(), |i: int| (self.parked@[i].0@, self.parked@[i].1@))
    }
}

impl ValidationDependencies {
    /// An empty parking map.
    pub fn new() -> (r: ValidationDependencies)
        ensures
            r@.len() == 0,
    {
        let r = ValidationDependencies { parked: Vec::new() };
        proof {
            assert(r@ =~= Seq::<(Seq<u8>, Seq<u8>)>::empty());
        }
        r
    }

    /// Park an op under the dependency it waits for.
    pub fn park(&mut self, dep: Vec<u8>, op_hash: Vec<u8>)
        ensures
            final(self)@ == old(self)@.push((dep@, op_hash@)),
    {
        let ghost oldv = self@;
        let n = self.parked.len();
        self.parked.push((dep, op_hash));
        proof {
            assert(self@ =~= oldv.push((self.parked@[n as int].0@, self.parked@[n as int].1@)));
        }
    }

    /// A dependency resolved: release every op parked under it, in
    /// parking order, and keep the rest parked.
    pub fn resolve(&mut self, dep: &Vec<u8>) -> (r: Vec<Vec<u8>>)
        ensures
            final(self)@ == old(self)@.filter(|p: (Seq<u8>, Seq<u8>)| p.0 != dep@),
            r@.len() == old(self)@.filter(|p: (Seq<u8>, Seq<u8>)| p.0 == dep@).len(),
            forall|i: int|
                0 <= i < r@.len() ==> (#[trigger] r@[i])@ == old(self)@.filter(
                    |p: (Seq<u8>, Seq<u8>)| p.0 == dep@,
                )[i].1,
    {
        let ghost oldv = self@;
        let n = self.parked.len();
        let mut kept: Vec<(Vec<u8>, Vec<u8>)> = Vec::new();
        let mut released: Vec<Vec<u8>> = Vec::new();
        let mut i: usize = 0;
        while i < n
            invariant
                n == self.parked@.len(),
                i <= n,
                oldv == Seq::new(self.parked@.len(), |k: int| (self.parked@[k].0@, self.parked@[k].1@)),
                Seq::new(kept@.len(), |k: int| (kept@[k].0@, kept@[k].1@)) == oldv.take(
                    i as int,
                ).filter(|p: (Seq<u8>, Seq<u8>)| p.0 != dep@),
                released@.len() == oldv.take(i as int).filter(
                    |p: (Seq<u8>, Seq<u8>)| p.0 == dep@,
                ).len(),
                forall|k: int|
                    0 <= k < released@.len() ==> (#[trigger] released@[k])@ == oldv.take(
                        i as int,
                    ).filter(|p: (Seq<u8>, Seq<u8>)| p.0 == dep@)[k].1,
            decreases n - i,
        {
            let ghost pre = oldv.take(i as int);
            proof {
                assert(oldv.take(i as int + 1) =~= pre.push(oldv[i as int]));
                lemma_filter_push(pre, oldv[i as int], |p: (Seq<u8>, Seq<u8>)| p.0 != dep@);
                lemma_filter_push(pre, oldv[i as int], |p: (Seq<u8>, Seq<u8>)| p.0 == dep@);
            }
            let entry = &self.parked[i];
            if bytes_eq(entry.0.as_slice(), dep.as_slice()) {
                released.push(copy_bytes(&entry.1));
            } else {
                kept.push((copy_bytes(&entry.0), copy_bytes(&entry.1)));
                proof {
                    let kv = Seq::new(kept@.len(), |k: int| (kept@[k].0@, kept@[k].1@));
                    assert(kv =~= Seq::new(
                        (kept@.len() - 1) as nat,
                        |k: int| (kept@[k].0@, kept@[k].1@),
                    ).push((oldv[i as int].0, oldv[i as int].1)));
                }
            }
            i = i + 1;
        }
        proof {
            assert(oldv.take(n as int) =~= oldv);
        }
        self.parked = kept;
        proof {
            assert(self@ =~= oldv.filter(|p: (Seq<u8>, Seq<u8>)| p.0 != dep@));
        }
        released
    }
}

/// Filtering distributes over push.
proof fn lemma_filter_push<A>(v: Seq<A>, x: A, pred: spec_fn(A) -> bool)
    ensures
        v.push(x).filter(pred) == if pred(x) {
            v.filter(pred).push(x)
        } else {
            v.filter(pred)
        },
{
    reveal(Seq::filter);
    assert(v.push(x).drop_last() =~= v);
}

/// One turn of the app-validation consumer for one op: apply the
/// callback's verdict to the store, park the op under each unresolved
/// dependency, and say whether integration should be triggered.  This
/// is the decision core of the consumer loop; the runtime around it
/// only performs the callback and wakes the workers.
pub fn app_validation_consumer_step(
    store: &mut OpStore,
    deps: &mut ValidationDependencies,
    op_hash: &Vec<u8>,
    outcome: AppValidationOutcome,
    now_us: i64,
) -> (trigger_integration: bool)
    requires
        old(store).inv(),
    ensures
        final(store).inv(),
        final(store)@.len() == old(store)@.len(),
        // The op's stage moves exactly as the verdict dictates.
        forall|i: int|
            0 <= i < old(store)@.len() && (#[trigger] old(store)@[i]).hash == op_hash@
                ==> final(store)@[i].stage == spec_app_validate_stage(
                old(store)@[i].stage,
                outcome,
            ),
        // No other op moves.
        forall|i: int|
            0 <= i < old(store)@.len() && (#[trigger] old(store)@[i]).hash != op_hash@
                ==> final(store)@[i] == old(store)@[i],
        // Integration is triggered exactly on a `Valid` verdict.
        trigger_integration == (outcome is Valid),
        // Parking grows by exactly the unresolved dependencies.
        match outcome {
            AppValidationOutcome::UnresolvedDependencies(hs) => final(deps)@.len() == old(deps)@.len()
                + hs@.len(),
            _ => final(deps)@ == old(deps)@,
        },
{
    match outcome {
        AppValidationOutcome::Valid => {
            store.set_stage(op_hash, ValidationStage::AppValidated, now_us);
            true
        },
        AppValidationOutcome::Invalid => {
            store.set_stage(op_hash, ValidationStage::Rejected, now_us);
            false
        },
        AppValidationOutcome::UnresolvedDependencies(hs) => {
            let n = hs.len();
            let mut i: usize = 0;
            while i < n
                invariant
                    n == hs@.len(),
                    i <= n,
                    deps@.len() == old(deps)@.len() + i,
                decreases n - i,
            {
                deps.park(copy_bytes(&hs[i]), copy_bytes(op_hash));
                i = i + 1;
            }
            false
        },
    }
}

} // verus!
