//! Transactional op storage: each op is indexed by its hash and carries
//! its basis location, authored timestamp, size and validation stage.
//!
//! Stage changes only ever advance: `Pending → SysValidated →
//! AppValidated → Integrated`, with `Rejected` terminal.  An op that has
//! reached `Integrated` (or `Rejected`) never moves again.

use vstd::prelude::*;
use crate::bytes::bytes_eq;
use crate::chain::copy_bytes;
use crate::ops::{ChainOp, ChainOpView};

verus! {

/// The stage an op has reached in the validation pipeline.
#[derive(Clone, Copy, Debug, PartialEq, Eq, Structural)]
pub enum ValidationStage {
    /// Received, not yet validated.
    Pending,
    /// Passed system validation.
    SysValidated,
    /// Passed app validation.
    AppValidated,
    /// Integrated: visible to gossip and queries.
    Integrated,
    /// Rejected: terminal.
    Rejected,
}

/// The rank of a stage along the pipeline; `Rejected` sits above all,
/// being terminal.
pub open spec fn stage_rank(s: ValidationStage) -> int {
    match s {
        ValidationStage::Pending => 0,
        ValidationStage::SysValidated => 1,
        ValidationStage::AppValidated => 2,
        ValidationStage::Integrated => 3,
        ValidationStage::Rejected => 4,
    }
}

/// A stage from which no transition leaves.
pub open spec fn stage_terminal(s: ValidationStage) -> bool {
    s == ValidationStage::Integrated || s == ValidationStage::Rejected
}

/// The stage after asking to move to `next`: granted only when it
/// strictly advances the pipeline and the current stage is not
/// terminal.
pub open spec fn spec_advance(cur: ValidationStage, next: ValidationStage) -> ValidationStage {
    if !stage_terminal(cur) && stage_rank(next) > stage_rank(cur) {
        next
    } else {
        cur
    }
}

/// Validation is monotonic: a transition never lowers the rank, and
/// once an op is `Integrated` (or `Rejected`) it never moves again.
pub proof fn lemma_validation_monotonic(cur: ValidationStage, next: ValidationStage)
    ensures
        stage_rank(spec_advance(cur, next)) >= stage_rank(cur),
        cur == ValidationStage::Integrated ==> spec_advance(cur, next)
            == ValidationStage::Integrated,
        cur == ValidationStage::Rejected ==> spec_advance(cur, next) == ValidationStage::Rejected,
{
}

/// A stored op: its hash, the op, and the columns the queries index.
#[derive(Debug)]
pub struct OpRecord {
    /// The 39-byte op hash.
    pub hash: Vec<u8>,
    /// The op itself.
    pub op: ChainOp,
    /// The ring location of the op's basis.
    pub basis_loc: u32,
    /// The authored (action) timestamp, microseconds.
    pub timestamp: i64,
    /// Size of the op's wire encoding, in bytes.
    pub size: u32,
    /// The stage reached in the validation pipeline.
    pub stage: ValidationStage,
    /// When the op was integrated, if it has been.
    pub when_integrated: Option<i64>,
}

/// The mathematical value of an [`OpRecord`].
pub struct OpRecordView {
    /// The 39-byte op hash.
    pub hash: Seq<u8>,
    /// The op itself.
    pub op: ChainOpView,
    /// The ring location of the op's basis.
    pub basis_loc: u32,
    /// The authored timestamp, microseconds.
    pub timestamp: i64,
    /// Size of the op's wire encoding, in bytes.
    pub size: u32,
    /// The stage reached in the validation pipeline.
    pub stage: ValidationStage,
    /// When the op was integrated, if it has been.
    pub when_integrated: Option<i64>,
}

impl View for OpRecord {
    type V = OpRecordView;

    open spec fn view(&self) -> OpRecordView {
        OpRecordView {
            hash: self.hash@,
            op: self.op@,
            basis_loc: self.basis_loc,
            timestamp: self.timestamp,
            size: self.size,
            stage: self.stage,
            when_integrated: match self.when_integrated {
                Option::None => Option::None,
                Option::Some(t) => Option::Some(t),
            },
        }
    }
}

/// The op table of one DNA space: at most one record per op hash.
pub struct OpStore {
    ops: Vec<OpRecord>,
}

impl View for OpStore {
    type V = Seq<OpRecordView>;

    closed spec fn view(&self) -> Seq<OpRecordView> {
        Seq::new(self.ops@.len(), |i: int| self.ops@[i]@)
    }
}

impl OpStore {
    /// At most one record per hash.
    pub open spec fn keys_unique(v: Seq<OpRecordView>) -> bool {
        forall|i: int, j: int|
            0 <= i < j < v.len() ==> (#[trigger] v[i]).hash != (#[trigger] v[j]).hash
    }

    /// The store invariant.
    pub open spec fn inv(&self) -> bool {
        Self::keys_unique(self@)
    }

    /// An empty store.
    pub fn new() -> (r: OpStore)
        ensures
            r.inv(),
            r@.len() == 0,
    {
        let r = OpStore { ops: Vec::new() };
        proof {
            assert(r@ =~= Seq::<OpRecordView>::empty());
        }
        r
    }

    /// Read-only access to the records, for scans.
    pub fn records(&self) -> (r: &Vec<OpRecord>)
        ensures
            r@.len() == self@.len(),
            forall|i: int| 0 <= i < r@.len() ==> (#[trigger] r@[i])@ == self@[i],
    {
        &self.ops
    }

    /// Number of records.
    pub fn len(&self) -> (r: usize)
        ensures
            r == self@.len(),
    {
        self.ops.len()
    }

    /// The index of the record with a given hash.
    fn find(&self, hash: &Vec<u8>) -> (r: Option<usize>)
        ensures
            match r {
                Option::Some(i) => i < self@.len() && self@[i as int].hash == hash@,
                Option::None => forall|i: int|
                    0 <= i < self@.len() ==> (#[trigger] self@[i]).hash != hash@,
            },
    {
        let n = self.ops.len();
        let mut i: usize = 0;
        while i < n
            invariant
                n == self@.len(),
                i <= n,
                self@.len() == self.ops@.len(),
                forall|k: int| 0 <= k < n ==> #[trigger] self@[k] == self.ops@[k]@,
                forall|j: int| 0 <= j < i ==> (#[trigger] self@[j]).hash != hash@,
            decreases n - i,
        {
            if bytes_eq(self.ops[i].hash.as_slice(), hash.as_slice()) {
                return Option::Some(i);
            }
            i = i + 1;
        }
        Option::None
    }

    /// Whether a record with this hash is stored.
    pub fn contains(&self, hash: &Vec<u8>) -> (r: bool)
        ensures
            r == exists|i: int| 0 <= i < self@.len() && (#[trigger] self@[i]).hash == hash@,
    {
        match self.find(hash) {
            Option::Some(i) => {
                proof {
                    assert(self@[i as int].hash == hash@);
                }
                true
            },
            Option::None => false,
        }
    }

    /// The stored record for a hash.
    pub fn get(&self, hash: &Vec<u8>) -> (r: Option<&OpRecord>)
        ensures
            match r {
                Option::Some(rec) => exists|i: int|
                    0 <= i < self@.len() && #[trigger] self@[i] == rec@ && rec@.hash == hash@,
                Option::None => forall|i: int|
                    0 <= i < self@.len() ==> (#[trigger] self@[i]).hash != hash@,
            },
    {
        match self.find(hash) {
            Option::Some(i) => {
                let rec = &self.ops[i];
                proof {
                    assert(self@[i as int] == rec@);
                }
                Option::Some(rec)
            },
            Option::None => Option::None,
        }
    }

    /// Insert a record; a record with the same hash already stored wins
    /// (ops are authored once and replicated, so a duplicate carries
    /// the same op).
    pub fn insert(&mut self, rec: OpRecord) -> (r: bool)
        requires
            old(self).inv(),
        ensures
            final(self).inv(),
            r == !(exists|i: int|
                0 <= i < old(self)@.len() && (#[trigger] old(self)@[i]).hash == rec@.hash),
            r ==> final(self)@ == old(self)@.push(rec@),
            !r ==> final(self)@ == old(self)@,
    {
        let ghost oldv = self@;
        if self.contains(&rec.hash) {
            return false;
        }
        let n = self.ops.len();
        self.ops.push(rec);
        proof {
            assert(self@ =~= oldv.push(self.ops@[n as int]@));
            assert forall|i: int, j: int|
                0 <= i < j < self@.len() implies (#[trigger] self@[i]).hash != (
            #[trigger] self@[j]).hash by {
                if j < n {
                    assert(self@[i] == oldv[i] && self@[j] == oldv[j]);
                } else {
                    assert(self@[i] == oldv[i]);
                }
            }
        }
        true
    }

    /// Ask to move the op at `hash` to stage `next`.  The change is
    /// granted exactly as `spec_advance` says: stages only advance, and
    /// terminal stages never move.  `now_us` is recorded as the
    /// integration time when the op becomes `Integrated`.
    pub fn set_stage(&mut self, hash: &Vec<u8>, next: ValidationStage, now_us: i64) -> (r: bool)
        requires
            old(self).inv(),
        ensures
            final(self).inv(),
            final(self)@.len() == old(self)@.len(),
            forall|i: int|
                0 <= i < old(self)@.len() && (#[trigger] old(self)@[i]).hash != hash@
                    ==> final(self)@[i] == old(self)@[i],
            forall|i: int|
                0 <= i < old(self)@.len() && (#[trigger] old(self)@[i]).hash == hash@ ==> {
                    let oldrec = old(self)@[i];
                    let newrec = final(self)@[i];
                    &&& newrec.stage == spec_advance(oldrec.stage, next)
                    &&& newrec.hash == oldrec.hash
                    &&& newrec.op == oldrec.op
                    &&& newrec.basis_loc == oldrec.basis_loc
                    &&& newrec.timestamp == oldrec.timestamp
                    &&& newrec.size == oldrec.size
                    &&& newrec.when_integrated == if newrec.stage == ValidationStage::Integrated
                        && oldrec.stage != ValidationStage::Integrated {
                        Option::Some(now_us)
                    } else {
                        oldrec.when_integrated
                    }
                },
            r == exists|i: int|
                0 <= i < old(self)@.len() && (#[trigger] old(self)@[i]).hash == hash@
                    && spec_advance(old(self)@[i].stage, next) != old(self)@[i].stage,
    {
        let ghost oldv = self@;
        let idx = match self.find(hash) {
            Option::None => {
                return false;
            },
            Option::Some(i) => i,
        };
        let cur = self.ops[idx].stage;
        let terminal: bool = matches!(
            cur,
            ValidationStage::Integrated
                | ValidationStage::Rejected
        );
        let advances: bool = stage_rank_exec(next) > stage_rank_exec(cur);
        if terminal || !advances {
            proof {
                assert(spec_advance(oldv[idx as int].stage, next) == oldv[idx as int].stage);
                assert forall|i: int|
                    0 <= i < oldv.len() && (#[trigger] oldv[i]).hash == hash@ implies spec_advance(
                    oldv[i].stage,
                    next,
                ) == oldv[i].stage by {
                    assert(i == idx);
                }
            }
            return false;
        }
        let rec = &mut self.ops[idx];
        rec.stage = next;
        if matches!(next, ValidationStage::Integrated) {
            rec.when_integrated = Option::Some(now_us);
        }
        proof {
            assert(self@[idx as int].stage == spec_advance(oldv[idx as int].stage, next));
            assert forall|i: int| 0 <= i < oldv.len() && i != idx implies #[trigger] self@[i]
                == oldv[i] by {
                assert(self.ops@[i] == old(self).ops@[i]);
            }
            assert forall|i: int|
                0 <= i < oldv.len() && (#[trigger] oldv[i]).hash == hash@ implies i == idx by {
            }
        }
        true
    }

    /// The integrated records, in store order: the set the region
    /// fingerprints and historical gossip are computed from.
    pub fn integrated(&self) -> (r: Vec<(Vec<u8>, u32, i64, u32)>)
        ensures
            r@.len() == spec_integrated(self@).len(),
            forall|i: int|
                0 <= i < r@.len() ==> {
                    let rec = spec_integrated(self@)[i];
                    &&& (#[trigger] r@[i]).0@ == rec.hash
                    &&& r@[i].1 == rec.basis_loc
                    &&& r@[i].2 == rec.timestamp
                    &&& r@[i].3 == rec.size
                },
    {
        let n = self.ops.len();
        let mut out: Vec<(Vec<u8>, u32, i64, u32)> = Vec::new();
        let mut i: usize = 0;
        while i < n
            invariant
                n == self@.len(),
                i <= n,
                self@.len() == self.ops@.len(),
                forall|k: int| 0 <= k < n ==> #[trigger] self@[k] == self.ops@[k]@,
                out@.len() == spec_integrated(self@.take(i as int)).len(),
                forall|k: int|
                    0 <= k < out@.len() ==> {
                        let rec = spec_integrated(self@.take(i as int))[k];
                        &&& (#[trigger] out@[k]).0@ == rec.hash
                        &&& out@[k].1 == rec.basis_loc
                        &&& out@[k].2 == rec.timestamp
                        &&& out@[k].3 == rec.size
                    },
            decreases n - i,
        {
            let ghost pre = self@.take(i as int);
            proof {
                assert(self@.take(i as int + 1) =~= pre.push(self@[i as int]));
                lemma_spec_integrated_push(pre, self@[i as int]);
            }
            let rec = &self.ops[i];
            if matches!(rec.stage, ValidationStage::Integrated) {
                out.push(
                    (copy_bytes(&rec.hash), rec.basis_loc, rec.timestamp, rec.size),
                );
            }
            i = i + 1;
        }
        proof {
            assert(self@.take(n as int) =~= self@);
        }
        out
    }
}

/// The rank of a stage, for the ordered comparison.
fn stage_rank_exec(s: ValidationStage) -> (r: u8)
    ensures
        r as int == stage_rank(s),
{
    match s {
        ValidationStage::Pending => 0,
        ValidationStage::SysValidated => 1,
        ValidationStage::AppValidated => 2,
        ValidationStage::Integrated => 3,
        ValidationStage::Rejected => 4,
    }
}

/// The subsequence of integrated records.
pub open spec fn spec_integrated(v: Seq<OpRecordView>) -> Seq<OpRecordView> {
    v.filter(|rec: OpRecordView| rec.stage == ValidationStage::Integrated)
}

/// Filtering distributes over push.
proof fn lemma_spec_integrated_push(v: Seq<OpRecordView>, rec: OpRecordView)
    ensures
        spec_integrated(v.push(rec)) == if rec.stage == ValidationStage::Integrated {
            spec_integrated(v).push(rec)
        } else {
            spec_integrated(v)
        },
{
    reveal(Seq::filter);
    assert(v.push(rec).drop_last() =~= v);
}

} // verus!
