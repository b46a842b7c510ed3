//! The deterministic `get_agent_activity` query, for use in validation.
//!
//! There can be only one valid result satisfying the query criteria: the
//! authority returns every integrated `RegisterAgentActivity` row for
//! the author in the requested `seq` window, ordered by `seq`
//! descending, and the client filters branches itself by walking
//! `prev_action` backward from the range's high hash, dropping any row
//! whose hash is not the expected predecessor.  Branch detection on the
//! authority would not be deterministic; this walk is.

use vstd::prelude::*;
use crate::action::{action_hash, spec_action_hash, SignedAction, SignedActionView};
use crate::actor::GetActivityOptions;
use crate::bytes::bytes_eq;
use crate::chain::copy_bytes;
use crate::ops::{clone_signed_action, ChainOpType};
use crate::store::{OpRecordView, OpStore, ValidationStage};

verus! {

/// The validation verdict stored with an integrated op.
#[derive(Clone, Copy, Debug, PartialEq, Eq, Structural)]
pub enum ValidationStatus {
    /// The op passed validation.
    Valid,
    /// The op was rejected; this is terminal.
    Rejected,
    /// Validation was abandoned.
    Abandoned,
}

/// The filter of a deterministic activity query: a `seq` window given
/// by hashes, and what to include.
#[derive(Debug)]
pub struct DeterministicGetAgentActivityFilter {
    /// The window: from the action after `range.0` (or the start of the
    /// chain when `None`) up to `range.1`, inclusive.
    pub range: (Option<Vec<u8>>, Vec<u8>),
    /// Whether entries should accompany the actions.
    pub include_entries: bool,
}

/// A deterministic activity query: author, window, options.
#[derive(Debug)]
pub struct DeterministicGetAgentActivityQuery {
    agent: Vec<u8>,
    filter: DeterministicGetAgentActivityFilter,
    options: GetActivityOptions,
}

/// One row handed to the fold: an integrated activity action with its
/// hash and validation status, as the authority's store returned it.
#[derive(Clone, Debug)]
pub struct ActivityRow {
    /// The signed action.
    pub action: SignedAction,
    /// The hash of the action, as indexed by the store.
    pub hash: Vec<u8>,
    /// The validation status the authority recorded.
    pub status: ValidationStatus,
}

/// The mathematical value of an [`ActivityRow`].
pub struct ActivityRowView {
    /// The signed action.
    pub action: SignedActionView,
    /// The hash of the action.
    pub hash: Seq<u8>,
    /// The recorded validation status.
    pub status: ValidationStatus,
}

impl View for ActivityRow {
    type V = ActivityRowView;

    open spec fn view(&self) -> ActivityRowView {
        ActivityRowView { action: self.action@, hash: self.hash@, status: self.status }
    }
}

/// An action of the response, judged by the authority.
pub struct JudgedActionView {
    /// The signed action.
    pub action: SignedActionView,
    /// The recorded validation status.
    pub status: ValidationStatus,
}

/// The running state of the fold: the chain collected so far and the
/// hash the next accepted row must carry.
pub struct DeterministicGetAgentActivityQueryState {
    /// The accepted rows, in descending `seq` order.
    pub chain: Vec<(SignedAction, ValidationStatus)>,
    /// The hash of the next action the walk expects.
    pub prev_action: Option<Vec<u8>>,
}

/// The response: the contiguous descending slice reachable from the
/// range's high hash.
pub struct DeterministicGetAgentActivityResponse {
    /// The judged actions, in descending `seq` order.
    pub chain: Vec<(SignedAction, ValidationStatus)>,
}

/// The state's mathematical value.
pub struct ActivityStateView {
    /// The accepted rows so far.
    pub chain: Seq<JudgedActionView>,
    /// The hash the walk expects next.
    pub prev_action: Option<Seq<u8>>,
}

impl View for DeterministicGetAgentActivityQueryState {
    type V = ActivityStateView;

    open spec fn view(&self) -> ActivityStateView {
        ActivityStateView {
            chain: Seq::new(
                self.chain@.len(),
                |i: int|
                    JudgedActionView { action: self.chain@[i].0@, status: self.chain@[i].1 },
            ),
            prev_action: match self.prev_action {
                Option::None => Option::None,
                Option::Some(ref h) => Option::Some(h@),
            },
        }
    }
}

impl View for DeterministicGetAgentActivityResponse {
    type V = Seq<JudgedActionView>;

    open spec fn view(&self) -> Seq<JudgedActionView> {
        Seq::new(
            self.chain@.len(),
            |i: int| JudgedActionView { action: self.chain@[i].0@, status: self.chain@[i].1 },
        )
    }
}

/// The prev-action walk over the rows, in order: a row is taken iff its
/// hash is the one expected, and the expectation then moves to that
/// action's `prev_action`.
pub open spec fn spec_walk(rows: Seq<ActivityRowView>, expected: Option<Seq<u8>>) -> Seq<
    JudgedActionView,
>
    decreases rows.len(),
{
    if rows.len() == 0 {
        Seq::empty()
    } else {
        let row = rows[0];
        if expected == Option::Some(row.hash) {
            seq![JudgedActionView { action: row.action, status: row.status }] + spec_walk(
                rows.drop_first(),
                row.action.action.prev_action(),
            )
        } else {
            spec_walk(rows.drop_first(), expected)
        }
    }
}

/// Rows that are linked from the expectation: the first row carries the
/// expected hash, and each row's action names the next row's hash as
/// its predecessor.
pub open spec fn rows_linked(rows: Seq<ActivityRowView>, expected: Option<Seq<u8>>) -> bool
    decreases rows.len(),
{
    if rows.len() == 0 {
        true
    } else {
        &&& expected == Option::Some(rows[0].hash)
        &&& rows_linked(rows.drop_first(), rows[0].action.action.prev_action())
    }
}

/// Deterministic activity on a fork-free window: when the returned rows
/// are exactly a prev-linked descending chain from the expected hash,
/// the walk keeps every row — the response is the whole contiguous
/// slice.
pub proof fn lemma_walk_complete(rows: Seq<ActivityRowView>, expected: Option<Seq<u8>>)
    requires
        rows_linked(rows, expected),
    ensures
        spec_walk(rows, expected) == Seq::new(
            rows.len(),
            |i: int| JudgedActionView { action: rows[i].action, status: rows[i].status },
        ),
    decreases rows.len(),
{
    if rows.len() == 0 {
        assert(spec_walk(rows, expected) =~= Seq::new(
            rows.len(),
            |i: int| JudgedActionView { action: rows[i].action, status: rows[i].status },
        ));
    } else {
        lemma_walk_complete(rows.drop_first(), rows[0].action.action.prev_action());
        assert(spec_walk(rows, expected) =~= Seq::new(
            rows.len(),
            |i: int| JudgedActionView { action: rows[i].action, status: rows[i].status },
        ));
    }
}

/// On a fork, only the branch reachable from the high hash is kept:
/// every returned action is one the walk reached, so a row whose hash
/// never becomes expected is dropped.  In particular the walk of rows
/// whose first element is not expected equals the walk without it.
pub proof fn lemma_walk_drops_unreachable(rows: Seq<ActivityRowView>, expected: Option<Seq<u8>>)
    requires
        rows.len() > 0,
        expected != Option::Some(rows[0].hash),
    ensures
        spec_walk(rows, expected) == spec_walk(rows.drop_first(), expected),
{
}

impl DeterministicGetAgentActivityQuery {
    /// Build a query.
    pub fn new(
        agent: Vec<u8>,
        filter: DeterministicGetAgentActivityFilter,
        options: GetActivityOptions,
    ) -> (r: Self)
        ensures
            r.spec_agent() == agent@,
            r.spec_range_high() == filter.range.1@,
    {
        Self { agent, filter, options }
    }

    /// The queried author.
    pub closed spec fn spec_agent(&self) -> Seq<u8> {
        self.agent@
    }

    /// The high end of the window: where the walk starts.
    pub closed spec fn spec_range_high(&self) -> Seq<u8> {
        self.filter.range.1@
    }

    /// The initial fold state: nothing collected, the walk expecting
    /// the window's high hash.
    pub fn init_fold(&self) -> (r: DeterministicGetAgentActivityQueryState)
        ensures
            r@.chain.len() == 0,
            r@.prev_action == Option::Some(self.spec_range_high()),
    {
        let r = DeterministicGetAgentActivityQueryState {
            chain: Vec::new(),
            prev_action: Option::Some(copy_bytes(&self.filter.range.1)),
        };
        proof {
            assert(r@.chain =~= Seq::<JudgedActionView>::empty());
        }
        r
    }

    /// Fold one row: keep it iff its hash is the expected predecessor,
    /// and then expect its action's `prev_action`.  Tracking the
    /// expectation filters out branches deterministically.
    pub fn fold(
        &self,
        state: DeterministicGetAgentActivityQueryState,
        item: ActivityRow,
    ) -> (r: DeterministicGetAgentActivityQueryState)
        ensures
            state@.prev_action == Option::Some(item@.hash) ==> r@.chain == state@.chain.push(
                JudgedActionView { action: item@.action, status: item@.status },
            ) && r@.prev_action == item@.action.action.prev_action(),
            state@.prev_action != Option::Some(item@.hash) ==> r@.chain == state@.chain
                && r@.prev_action == state@.prev_action,
    {
        let ghost oldstate = state@;
        let mut state = state;
        let matches_expected: bool = match &state.prev_action {
            Option::None => false,
            Option::Some(h) => bytes_eq(h.as_slice(), item.hash.as_slice()),
        };
        if matches_expected {
            state.prev_action = match item.action.action.prev_action() {
                Option::None => Option::None,
                Option::Some(p) => Option::Some(copy_bytes(p)),
            };
            let ghost itemv = item@;
            state.chain.push((item.action, item.status));
            proof {
                assert(state@.chain =~= oldstate.chain.push(
                    JudgedActionView { action: itemv.action, status: itemv.status },
                ));
            }
        } else {
            proof {
                assert(state@.chain =~= oldstate.chain);
            }
        }
        state
    }

    /// Render the folded state into the response.
    pub fn render(&self, state: DeterministicGetAgentActivityQueryState) -> (r:
        DeterministicGetAgentActivityResponse)
        ensures
            r@ == state@.chain,
    {
        let r = DeterministicGetAgentActivityResponse { chain: state.chain };
        proof {
            assert(r@ =~= r.chain@.map_values(
                |p: (SignedAction, ValidationStatus)|
                    JudgedActionView { action: p.0@, status: p.1 },
            ));
            assert(r@ =~= state@.chain);
        }
        r
    }

    /// Run the whole query over the rows the store returned, in their
    /// descending `seq` order: initialize, fold each row, render.  The
    /// response is exactly the prev-action walk from the window's high
    /// hash.
    pub fn run_rows(&self, rows: Vec<ActivityRow>) -> (r: DeterministicGetAgentActivityResponse)
        ensures
            r@ == spec_walk(
                Seq::new(rows@.len(), |i: int| rows@[i]@),
                Option::Some(self.spec_range_high()),
            ),
    {
        let ghost rowsv = Seq::new(rows@.len(), |i: int| rows@[i]@);
        let mut state = self.init_fold();
        let n = rows.len();
        let mut i: usize = 0;
        proof {
            assert(rowsv.skip(0) =~= rowsv);
            assert(state@.chain + spec_walk(rowsv, Option::Some(self.spec_range_high()))
                =~= spec_walk(rowsv, Option::Some(self.spec_range_high())));
        }
        while i < n
            invariant
                n == rows@.len(),
                i <= n,
                rowsv == Seq::new(rows@.len(), |k: int| rows@[k]@),
                state@.chain + spec_walk(rowsv.skip(i as int), state@.prev_action) == spec_walk(
                    rowsv,
                    Option::Some(self.spec_range_high()),
                ),
            decreases n - i,
        {
            let ghost pre = state@;
            let ghost rest = rowsv.skip(i as int);
            let row = &rows[i];
            let item = ActivityRow {
                action: clone_signed_action(&row.action),
                hash: copy_bytes(&row.hash),
                status: row.status,
            };
            proof {
                assert(item@ == rowsv[i as int]);
                assert(rest[0] == rowsv[i as int]);
                assert(rest.drop_first() =~= rowsv.skip(i as int + 1));
            }
            state = self.fold(state, item);
            proof {
                if pre.prev_action == Option::Some(rowsv[i as int].hash) {
                    assert(spec_walk(rest, pre.prev_action) == seq![
                        JudgedActionView {
                            action: rowsv[i as int].action,
                            status: rowsv[i as int].status,
                        },
                    ] + spec_walk(rest.drop_first(), rowsv[i as int].action.action.prev_action()));
                    assert(state@.chain + spec_walk(rowsv.skip(i as int + 1), state@.prev_action)
                        =~= pre.chain + spec_walk(rest, pre.prev_action));
                } else {
                    assert(spec_walk(rest, pre.prev_action) == spec_walk(
                        rest.drop_first(),
                        pre.prev_action,
                    ));
                    assert(state@.chain + spec_walk(rowsv.skip(i as int + 1), state@.prev_action)
                        =~= pre.chain + spec_walk(rest, pre.prev_action));
                }
            }
            i = i + 1;
        }
        proof {
            assert(rowsv.skip(n as int) =~= Seq::<ActivityRowView>::empty());
            assert(state@.chain + spec_walk(rowsv.skip(n as int), state@.prev_action)
                =~= state@.chain);
            assert(state@.chain =~= spec_walk(rowsv, Option::Some(self.spec_range_high())));
        }
        self.render(state)
    }
}

/// Whether a stored record is an integrated activity record of the
/// given author: the agent-activity view of the store.
pub open spec fn is_activity_record(rec: OpRecordView, author: Seq<u8>) -> bool {
    &&& rec.op.op_type == ChainOpType::RegisterAgentActivity
    &&& rec.op.action.author() == author
    &&& rec.stage == ValidationStage::Integrated
}

/// The sequence number of the first activity record of the author
/// whose action hashes to `h`, in store order: how a window bound
/// given as a hash resolves to a `seq`.
pub open spec fn spec_first_seq(v: Seq<OpRecordView>, author: Seq<u8>, h: Seq<u8>) -> Option<u32>
    decreases v.len(),
{
    if v.len() == 0 {
        Option::None
    } else if is_activity_record(v[0], author) && spec_action_hash(v[0].op.action) == h {
        Option::Some(v[0].op.action.action_seq())
    } else {
        spec_first_seq(v.drop_first(), author, h)
    }
}

/// The activity records of the author at one sequence number, in
/// store order.
pub open spec fn rows_at_seq(v: Seq<OpRecordView>, author: Seq<u8>, s: int) -> Seq<OpRecordView> {
    v.filter(
        |rec: OpRecordView| is_activity_record(rec, author) && rec.op.action.action_seq() as int
            == s,
    )
}

/// The activity records of the author with `lo <= seq <= hi`, ordered
/// by `seq` descending (store order within one `seq`).
pub open spec fn spec_activity_window(v: Seq<OpRecordView>, author: Seq<u8>, lo: int, hi: int)
    -> Seq<OpRecordView>
    decreases (if hi >= lo {
        hi - lo + 1
    } else {
        0
    }),
{
    if hi < lo {
        Seq::empty()
    } else {
        rows_at_seq(v, author, hi) + spec_activity_window(v, author, lo, hi - 1)
    }
}

/// The window bounds a hash range resolves to: `None` when the high
/// hash (or a given low hash) matches no activity record, as an
/// unresolvable subquery selects nothing.
pub open spec fn spec_window_bounds(
    v: Seq<OpRecordView>,
    author: Seq<u8>,
    low: Option<Seq<u8>>,
    high: Seq<u8>,
) -> Option<(int, int)> {
    match spec_first_seq(v, author, high) {
        Option::None => Option::None,
        Option::Some(hi) => match low {
            Option::None => Option::Some((0int, hi as int)),
            Option::Some(l) => match spec_first_seq(v, author, l) {
                Option::None => Option::None,
                Option::Some(lo) => Option::Some((lo as int, hi as int)),
            },
        },
    }
}

/// Shrinking the window from below peels the rows of the lowest
/// sequence number off the end.
proof fn lemma_window_snoc(v: Seq<OpRecordView>, author: Seq<u8>, lo: int, hi: int)
    requires
        lo <= hi,
    ensures
        spec_activity_window(v, author, lo, hi) == spec_activity_window(v, author, lo + 1, hi)
            + rows_at_seq(v, author, lo),
    decreases hi - lo,
{
    if lo == hi {
        assert(spec_activity_window(v, author, lo, hi - 1) =~= Seq::<OpRecordView>::empty());
        assert(spec_activity_window(v, author, lo + 1, hi) =~= Seq::<OpRecordView>::empty());
        assert(spec_activity_window(v, author, lo, hi) =~= spec_activity_window(
            v,
            author,
            lo + 1,
            hi,
        ) + rows_at_seq(v, author, lo));
    } else {
        lemma_window_snoc(v, author, lo, hi - 1);
        assert(spec_activity_window(v, author, lo, hi) =~= spec_activity_window(
            v,
            author,
            lo + 1,
            hi,
        ) + rows_at_seq(v, author, lo));
    }
}

/// Resolve a window-bound hash to the sequence number of the first
/// matching activity record.
fn first_seq(store: &OpStore, author: &Vec<u8>, h: &Vec<u8>) -> (r: Option<u32>)
    ensures
        r == spec_first_seq(store@, author@, h@),
{
    let records = store.records();
    let n = records.len();
    let mut i: usize = 0;
    proof {
        assert(store@.skip(0) =~= store@);
    }
    while i < n
        invariant
            n == store@.len(),
            records@.len() == store@.len(),
            forall|k: int| 0 <= k < records@.len() ==> (#[trigger] records@[k])@ == store@[k],
            i <= n,
            spec_first_seq(store@, author@, h@) == spec_first_seq(
                store@.skip(i as int),
                author@,
                h@,
            ),
        decreases n - i,
    {
        let ghost rest = store@.skip(i as int);
        proof {
            assert(rest[0] == store@[i as int]);
            assert(rest.drop_first() =~= store@.skip(i as int + 1));
        }
        let rec = &records[i];
        let is_activity: bool = rec.op.op_type == ChainOpType::RegisterAgentActivity
            && bytes_eq(rec.op.action.author().as_slice(), author.as_slice()) && rec.stage
            == ValidationStage::Integrated;
        if is_activity {
            let ah = action_hash(&rec.op.action);
            if bytes_eq(ah.as_slice(), h.as_slice()) {
                return Option::Some(rec.op.action.action_seq());
            }
        }
        i = i + 1;
    }
    proof {
        assert(store@.skip(n as int) =~= Seq::<OpRecordView>::empty());
    }
    Option::None
}

/// Append the author's activity records at one sequence number, in
/// store order, as response rows.
fn push_rows_at_seq(
    out: &mut Vec<ActivityRow>,
    store: &OpStore,
    author: &Vec<u8>,
    s: u32,
) -> (count: usize)
    ensures
        final(out)@.len() == old(out)@.len() + rows_at_seq(store@, author@, s as int).len(),
        forall|k: int| 0 <= k < old(out)@.len() ==> #[trigger] final(out)@[k] == old(out)@[k],
        forall|k: int|
            0 <= k < rows_at_seq(store@, author@, s as int).len() ==> row_matches(
                #[trigger] final(out)@[old(out)@.len() + k],
                rows_at_seq(store@, author@, s as int)[k],
            ),
{
    let ghost pred = |rec: OpRecordView|
        is_activity_record(rec, author@) && rec.op.action.action_seq() as int == s as int;
    let ghost base = out@.len() as int;
    let records = store.records();
    let n = records.len();
    let mut i: usize = 0;
    proof {
        assert(store@.take(0) =~= Seq::<OpRecordView>::empty());
    }
    while i < n
        invariant
            n == store@.len(),
            records@.len() == store@.len(),
            forall|k: int| 0 <= k < records@.len() ==> (#[trigger] records@[k])@ == store@[k],
            i <= n,
            base == old(out)@.len(),
            pred == (|rec: OpRecordView|
                is_activity_record(rec, author@) && rec.op.action.action_seq() as int
                    == s as int),
            out@.len() == base + store@.take(i as int).filter(pred).len(),
            forall|k: int| 0 <= k < base ==> #[trigger] out@[k] == old(out)@[k],
            forall|k: int|
                0 <= k < store@.take(i as int).filter(pred).len() ==> row_matches(
                    #[trigger] out@[base + k],
                    store@.take(i as int).filter(pred)[k],
                ),
        decreases n - i,
    {
        let ghost pre = store@.take(i as int);
        proof {
            assert(store@.take(i as int + 1) =~= pre.push(store@[i as int]));
            lemma_filter_push_activity(pre, store@[i as int], pred);
        }
        let rec = &records[i];
        let keep: bool = rec.op.op_type == ChainOpType::RegisterAgentActivity && bytes_eq(
            rec.op.action.author().as_slice(),
            author.as_slice(),
        ) && rec.stage == ValidationStage::Integrated && rec.op.action.action_seq() == s;
        if keep {
            let row = ActivityRow {
                action: SignedAction {
                    action: rec.op.action.clone_action(),
                    signature: copy_bytes(&rec.op.signature),
                },
                hash: action_hash(&rec.op.action),
                status: ValidationStatus::Valid,
            };
            proof {
                assert(row_matches(row, store@[i as int]));
            }
            out.push(row);
        }
        i = i + 1;
    }
    proof {
        assert(store@.take(n as int) =~= store@);
    }
    out.len()
}

/// A response row carries the record's signed action, the action's
/// hash, and the valid status an integrated record stands for.
pub open spec fn row_matches(row: ActivityRow, rec: OpRecordView) -> bool {
    &&& row@.action.action == rec.op.action
    &&& row@.action.signature == rec.op.signature
    &&& row@.hash == spec_action_hash(rec.op.action)
    &&& row@.status == ValidationStatus::Valid
}

/// Filtering distributes over push.
proof fn lemma_filter_push_activity<A>(v: Seq<A>, x: A, pred: spec_fn(A) -> bool)
    ensures
        v.push(x).filter(pred) == if pred(x) {
            v.filter(pred).push(x)
        } else {
            v.filter(pred)
        },
{
    reveal(Seq::filter);
    assert(v.push(x).drop_last() =~= v);
}

/// Select the author's integrated activity rows in the hash-bounded
/// window, ordered by `seq` descending: the agent-activity view the
/// authority answers the deterministic query from.  An unresolvable
/// bound selects nothing.  The result feeds `run_rows`.
pub fn activity_rows(
    store: &OpStore,
    author: &Vec<u8>,
    low: Option<&Vec<u8>>,
    high: &Vec<u8>,
) -> (r: Vec<ActivityRow>)
    ensures
        ({
            let lowv = match low {
                Option::None => Option::None,
                Option::Some(l) => Option::Some(l@),
            };
            match spec_window_bounds(store@, author@, lowv, high@) {
                Option::None => r@.len() == 0,
                Option::Some((lo, hi)) => {
                    let win = spec_activity_window(store@, author@, lo, hi);
                    &&& r@.len() == win.len()
                    &&& forall|k: int|
                        0 <= k < win.len() ==> row_matches(#[trigger] r@[k], win[k])
                },
            }
        }),
{
    let hi: u32 = match first_seq(store, author, high) {
        Option::None => {
            return Vec::new();
        },
        Option::Some(s) => s,
    };
    let lo: u32 = match low {
        Option::None => 0,
        Option::Some(l) => match first_seq(store, author, l) {
            Option::None => {
                return Vec::new();
            },
            Option::Some(s) => s,
        },
    };
    let mut out: Vec<ActivityRow> = Vec::new();
    if lo > hi {
        proof {
            assert(spec_activity_window(store@, author@, lo as int, hi as int) =~= Seq::<
                OpRecordView,
            >::empty());
        }
        return out;
    }
    let mut s_plus: u64 = hi as u64 + 1;
    while s_plus > lo as u64
        invariant
            lo <= hi,
            lo as u64 <= s_plus <= hi as u64 + 1,
            out@.len() == spec_activity_window(store@, author@, s_plus as int, hi as int).len(),
            forall|k: int|
                0 <= k < out@.len() ==> row_matches(
                    #[trigger] out@[k],
                    spec_activity_window(store@, author@, s_plus as int, hi as int)[k],
                ),
        decreases s_plus,
    {
        let s: u32 = (s_plus - 1) as u32;
        let ghost done = spec_activity_window(store@, author@, s_plus as int, hi as int);
        let ghost out_before = out@;
        push_rows_at_seq(&mut out, store, author, s);
        proof {
            lemma_window_snoc(store@, author@, s as int, hi as int);
            let win = spec_activity_window(store@, author@, s as int, hi as int);
            let at_s = rows_at_seq(store@, author@, s as int);
            assert(win == done + at_s);
            assert forall|k: int| 0 <= k < out@.len() implies row_matches(
                #[trigger] out@[k],
                win[k],
            ) by {
                if k < done.len() {
                    assert(out@[k] == out_before[k]);
                    assert(win[k] == done[k]);
                } else {
                    let k2 = k - done.len();
                    assert(row_matches(out@[out_before.len() as int + k2], at_s[k2]));
                    assert(out@[out_before.len() as int + k2] == out@[k]);
                    assert(win[k] == at_s[k2]);
                }
            }
        }
        s_plus = s_plus - 1;
    }
    out
}

} // verus!
