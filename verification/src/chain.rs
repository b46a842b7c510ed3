//! The per-agent append-only source chain.
//!
//! Appends are linearizable per agent: an append names the head it
//! expects, and loses to a conflicting append that got there first.  The
//! chain enforces the genesis shape (`Dna`, then `AgentValidationPkg`,
//! then `Create` of the agent key), the `seq`/`prev_action` linkage, the
//! non-decreasing timestamps, and that a provided entry matches the
//! action's entry hash.

use vstd::prelude::*;
use crate::action::{
    spec_action_hash, spec_entry_hash, Action, ActionView, EntryType, Entry, EntryView,
    SignedAction, SignedActionView, action_hash, entry_hash,
};
use crate::bytes::bytes_eq;

verus! {

/// The closed set of failures of an append.
#[derive(Clone, Copy, Debug, PartialEq, Eq, Structural)]
pub enum ChainError {
    /// Another append won; rebuild on the new head and retry.
    HeadConflict,
    /// A structural invariant (genesis shape, seq, prev link, timestamp
    /// order, entry hash, author) does not hold.
    InvalidStructure,
    /// The signature does not verify under the author's key.
    BadSignature,
}

/// The head of a chain after a successful append.
#[derive(Clone, Debug)]
pub struct ChainHead {
    /// Hash of the top action.
    pub hash: Vec<u8>,
    /// Sequence number of the top action.
    pub seq: u32,
}

/// The mathematical value of a chain: its signed actions and the entry,
/// if any, stored beside each.
pub struct ChainView {
    /// The signed actions, in chain order.
    pub actions: Seq<SignedActionView>,
    /// The entry stored with each action, if one was provided.
    pub entries: Seq<Option<EntryView>>,
}

/// The chain invariants: position 0 is `Dna` and nothing else is;
/// position 1 is `AgentValidationPkg` and nothing else is; position 2
/// creates the agent key; every action's `seq` is its index and its
/// `prev_action` is the hash of its predecessor; timestamps do not
/// decrease; all actions share one author; a stored entry hashes to the
/// action's entry hash.
pub open spec fn chain_wf(v: ChainView) -> bool {
    let n = v.actions.len();
    &&& v.entries.len() == n
    &&& forall|i: int| 0 <= i < n ==> (#[trigger] v.actions[i].action.action_seq()) as int == i
    &&& forall|i: int|
        0 <= i < n ==> ((#[trigger] v.actions[i].action) is Dna <==> i == 0)
    &&& forall|i: int|
        0 <= i < n ==> ((#[trigger] v.actions[i].action) is AgentValidationPkg <==> i == 1)
    &&& n > 2 ==> (v.actions[2].action matches ActionView::Create(c) && c.entry_type
        == EntryType::AgentPubKey)
    &&& forall|i: int|
        1 <= i < n ==> (#[trigger] v.actions[i].action.prev_action()) == Option::Some(
            spec_action_hash(v.actions[i - 1].action),
        )
    &&& forall|i: int|
        1 <= i < n ==> (#[trigger] v.actions[i].action.timestamp()) >= v.actions[i
            - 1].action.timestamp()
    &&& forall|i: int|
        0 <= i < n ==> (#[trigger] v.actions[i].action.author()) == v.actions[0].action.author()
    &&& forall|i: int|
        0 <= i < n ==> match #[trigger] v.entries[i] {
            Option::Some(e) => v.actions[i].action.entry_hash() == Option::Some(
                spec_entry_hash(e),
            ),
            Option::None => true,
        }
}

/// Whether `expected` names the current head: no head for an empty
/// chain, else the hash of the top action.
pub open spec fn head_matches(v: ChainView, expected: Option<Seq<u8>>) -> bool {
    match expected {
        Option::None => v.actions.len() == 0,
        Option::Some(h) => v.actions.len() > 0 && h == spec_action_hash(
            v.actions[v.actions.len() - 1].action,
        ),
    }
}

/// The structural conditions an action (with its optional entry) must
/// meet to extend the chain `v`.
pub open spec fn append_ok(v: ChainView, a: ActionView, e: Option<EntryView>) -> bool {
    let n = v.actions.len();
    &&& a.action_seq() as int == n
    &&& (a is Dna <==> n == 0)
    &&& (a is AgentValidationPkg <==> n == 1)
    &&& n == 2 ==> (a matches ActionView::Create(c) && c.entry_type == EntryType::AgentPubKey)
    &&& n > 0 ==> a.prev_action() == Option::Some(spec_action_hash(v.actions[n - 1].action))
    &&& n > 0 ==> a.timestamp() >= v.actions[n - 1].action.timestamp()
    &&& n > 0 ==> a.author() == v.actions[0].action.author()
    &&& match e {
        Option::Some(ev) => a.entry_hash() == Option::Some(spec_entry_hash(ev)),
        Option::None => true,
    }
}

/// Chain linearity, written out: under the invariant, every action's
/// `prev_action` is the hash of the action before it, its `seq` is its
/// index, and the genesis triple has the required shape.
pub proof fn lemma_chain_linearity(v: ChainView)
    requires
        chain_wf(v),
    ensures
        forall|i: int|
            1 <= i < v.actions.len() ==> (#[trigger] v.actions[i].action.prev_action())
                == Option::Some(spec_action_hash(v.actions[i - 1].action)),
        forall|i: int|
            0 <= i < v.actions.len() ==> (#[trigger] v.actions[i].action.action_seq()) as int == i,
        v.actions.len() > 0 ==> v.actions[0].action is Dna,
        v.actions.len() > 1 ==> v.actions[1].action is AgentValidationPkg,
        v.actions.len() > 2 ==> (v.actions[2].action matches ActionView::Create(c)
            && c.entry_type == EntryType::AgentPubKey),
{
}

/// A per-agent source chain, with each action's hash cached beside it.
pub struct SourceChain {
    actions: Vec<SignedAction>,
    entries: Vec<Option<Entry>>,
    hashes: Vec<Vec<u8>>,
}

impl View for SourceChain {
    type V = ChainView;

    closed spec fn view(&self) -> ChainView {
        ChainView {
            actions: Seq::new(self.actions@.len(), |i: int| self.actions@[i]@),
            entries: Seq::new(
                self.entries@.len(),
                |i: int|
                    match self.entries@[i] {
                        Option::None => Option::None,
                        Option::Some(e) => Option::Some(e@),
                    },
            ),
        }
    }
}

impl SourceChain {
    /// The full invariant: the chain view is well formed and every
    /// cached hash is the hash of its action.
    pub closed spec fn inv(&self) -> bool {
        &&& chain_wf(self@)
        &&& self.hashes@.len() == self.actions@.len()
        &&& forall|i: int|
            0 <= i < self.hashes@.len() ==> (#[trigger] self.hashes@[i])@ == spec_action_hash(
                self.actions@[i]@.action,
            )
    }

    /// The invariant gives the public well-formedness of the view.
    pub proof fn lemma_inv_wf(&self)
        requires
            self.inv(),
        ensures
            chain_wf(self@),
    {
    }

    /// An empty chain.
    pub fn new() -> (r: SourceChain)
        ensures
            r.inv(),
            r@.actions.len() == 0,
            r@.entries.len() == 0,
    {
        let r = SourceChain { actions: Vec::new(), entries: Vec::new(), hashes: Vec::new() };
        proof {
            assert(r@.actions =~= Seq::<SignedActionView>::empty());
            assert(r@.entries =~= Seq::<Option<EntryView>>::empty());
        }
        r
    }

    /// Number of actions on the chain.
    pub fn len(&self) -> (r: usize)
        ensures
            r == self@.actions.len(),
    {
        self.actions.len()
    }

    /// The current head, if the chain is not empty.
    pub fn top(&self) -> (r: Option<ChainHead>)
        requires
            self.inv(),
        ensures
            match r {
                Option::Some(h) => self@.actions.len() > 0 && h.hash@ == spec_action_hash(
                    self@.actions[self@.actions.len() - 1].action,
                ) && h.seq as int == self@.actions.len() - 1,
                Option::None => self@.actions.len() == 0,
            },
    {
        let n = self.actions.len();
        if n == 0 {
            Option::None
        } else {
            let h = &self.hashes[n - 1];
            let mut hash: Vec<u8> = Vec::new();
            hash.extend_from_slice(h.as_slice());
            proof {
                assert(hash@ =~= self.hashes@[n - 1]@);
            }
            Option::Some(ChainHead { hash, seq: self.actions[n - 1].action.action_seq() })
        }
    }

    /// Append an action (and its entry, when it carries one) on top of
    /// the head the caller saw.  `sig_ok` is the keystore's verdict on
    /// the signature over the action's canonical bytes: verification
    /// itself is an outside oracle, and this function's behaviour is
    /// fixed for either verdict.  Fails closed: on any failure the
    /// chain is unchanged.
    pub fn append(
        &mut self,
        sa: SignedAction,
        entry: Option<Entry>,
        expected_head: Option<&Vec<u8>>,
        sig_ok: bool,
    ) -> (r: Result<ChainHead, ChainError>)
        requires
            old(self).inv(),
        ensures
            final(self).inv(),
            r is Ok <==> head_matches(old(self)@, spec_head_opt(expected_head)) && sig_ok
                && append_ok(old(self)@, sa@.action, spec_chain_entry_opt(entry)),
            r is Ok ==> final(self)@.actions == old(self)@.actions.push(sa@)
                && final(self)@.entries == old(self)@.entries.push(spec_chain_entry_opt(entry))
                && r.unwrap().hash@ == spec_action_hash(sa@.action) && r.unwrap().seq as int
                == old(self)@.actions.len(),
            r is Err ==> final(self)@.actions == old(self)@.actions && final(self)@.entries
                == old(self)@.entries,
            r == Err::<ChainHead, ChainError>(ChainError::HeadConflict) <==> !head_matches(
                old(self)@,
                spec_head_opt(expected_head),
            ),
            r == Err::<ChainHead, ChainError>(ChainError::BadSignature) <==> head_matches(
                old(self)@,
                spec_head_opt(expected_head),
            ) && !sig_ok,
            r == Err::<ChainHead, ChainError>(ChainError::InvalidStructure) <==> head_matches(
                old(self)@,
                spec_head_opt(expected_head),
            ) && sig_ok && !append_ok(old(self)@, sa@.action, spec_chain_entry_opt(entry)),
    {
        let ghost oldv = self@;
        let n = self.actions.len();
        // Head check.
        let head_ok: bool = match expected_head {
            Option::None => n == 0,
            Option::Some(h) => {
                if n == 0 {
                    false
                } else {
                    bytes_eq(h.as_slice(), self.hashes[n - 1].as_slice())
                }
            },
        };
        if !head_ok {
            return Err(ChainError::HeadConflict);
        }
        if !sig_ok {
            return Err(ChainError::BadSignature);
        }
        // Structural checks.
        let structure_ok: bool = self.check_structure(&sa.action, &entry);
        if !structure_ok {
            return Err(ChainError::InvalidStructure);
        }
        let new_hash = action_hash(&sa.action);
        let mut head_hash: Vec<u8> = Vec::new();
        head_hash.extend_from_slice(new_hash.as_slice());
        proof {
            assert(head_hash@ =~= new_hash@);
        }
        let seq_no = sa.action.action_seq();
        self.actions.push(sa);
        self.entries.push(entry);
        self.hashes.push(new_hash);
        proof {
            assert(self@.actions =~= oldv.actions.push(self.actions@[n as int]@));
            assert(self@.entries =~= oldv.entries.push(
                spec_chain_entry_opt(self.entries@[n as int]),
            ));
            assert forall|i: int| 0 <= i < self@.actions.len() implies ((
            #[trigger] self@.actions[i].action) is Dna <==> i == 0) by {
                if i < n {
                    assert(self@.actions[i] == oldv.actions[i]);
                }
            }
            assert forall|i: int| 0 <= i < self@.actions.len() implies ((
            #[trigger] self@.actions[i].action) is AgentValidationPkg <==> i == 1) by {
                if i < n {
                    assert(self@.actions[i] == oldv.actions[i]);
                }
            }
        }
        Ok(ChainHead { hash: head_hash, seq: seq_no })
    }

    /// Check the structural append conditions for `action` against the
    /// current chain.
    fn check_structure(&self, action: &Action, entry: &Option<Entry>) -> (r: bool)
        requires
            self.inv(),
        ensures
            r == append_ok(self@, action@, spec_chain_entry_opt_ref(entry)),
    {
        let n = self.actions.len();
        // Sequence number is the next index.
        if !(action.action_seq() as usize == n) {
            return false;
        }
        // Genesis shape.
        let is_dna: bool = matches!(action, Action::Dna(_));
        if is_dna != (n == 0) {
            return false;
        }
        let is_avp: bool = matches!(action, Action::AgentValidationPkg(_));
        if is_avp != (n == 1) {
            return false;
        }
        if n == 2 {
            match action {
                Action::Create(c) => {
                    if !(matches!(c.entry_type, EntryType::AgentPubKey)) {
                        return false;
                    }
                },
                _ => {
                    return false;
                },
            }
        }
        if n > 0 {
            // Previous-hash linkage.
            match action.prev_action() {
                Option::None => {
                    return false;
                },
                Option::Some(p) => {
                    if !bytes_eq(p.as_slice(), self.hashes[n - 1].as_slice()) {
                        return false;
                    }
                },
            }
            // Timestamps do not decrease.
            if action.timestamp() < self.actions[n - 1].action.timestamp() {
                return false;
            }
            // One author per chain.
            if !bytes_eq(action.author().as_slice(), self.actions[0].action.author().as_slice()) {
                return false;
            }
        }
        // A provided entry must hash to the action's entry hash.
        match entry {
            Option::None => true,
            Option::Some(e) => {
                let eh = entry_hash(e);
                match action.entry_hash() {
                    Option::None => false,
                    Option::Some(ah) => bytes_eq(eh.as_slice(), ah.as_slice()),
                }
            },
        }
    }

    /// The signed action whose hash is `h`, if it is on the chain.
    pub fn get_by_hash(&self, h: &Vec<u8>) -> (r: Option<&SignedAction>)
        requires
            self.inv(),
        ensures
            match r {
                Option::Some(sa) => exists|i: int|
                    0 <= i < self@.actions.len() && #[trigger] self@.actions[i] == sa@
                        && spec_action_hash(self@.actions[i].action) == h@,
                Option::None => forall|i: int|
                    0 <= i < self@.actions.len() ==> spec_action_hash(
                        (#[trigger] self@.actions[i]).action,
                    ) != h@,
            },
    {
        let n = self.actions.len();
        let mut i: usize = 0;
        while i < n
            invariant
                self.inv(),
                n == self@.actions.len(),
                i <= n,
                forall|j: int|
                    0 <= j < i ==> spec_action_hash((#[trigger] self@.actions[j]).action) != h@,
            decreases n - i,
        {
            if bytes_eq(self.hashes[i].as_slice(), h.as_slice()) {
                let r = &self.actions[i];
                proof {
                    assert(self@.actions[i as int] == r@ && spec_action_hash(
                        self@.actions[i as int].action,
                    ) == h@);
                }
                return Option::Some(r);
            }
            i = i + 1;
        }
        Option::None
    }

    /// The signed actions from position `seq` to the head, in chain
    /// order.
    pub fn iter_from(&self, seq: u32) -> (r: Vec<SignedAction>)
        requires
            self.inv(),
        ensures
            seq as int <= self@.actions.len() ==> r@.len() == self@.actions.len() - seq as int,
            seq as int > self@.actions.len() ==> r@.len() == 0,
            forall|i: int|
                0 <= i < r@.len() ==> (#[trigger] r@[i])@ == self@.actions[seq as int + i],
    {
        let n = self.actions.len();
        let mut out: Vec<SignedAction> = Vec::new();
        if seq as usize > n {
            return out;
        }
        let mut i: usize = seq as usize;
        while i < n
            invariant
                self.inv(),
                n == self@.actions.len(),
                seq as usize <= i <= n,
                out@.len() == i - seq as usize,
                forall|j: int|
                    0 <= j < out@.len() ==> (#[trigger] out@[j])@ == self@.actions[seq as int + j],
            decreases n - i,
        {
            let sa = &self.actions[i];
            let copied = SignedAction {
                action: sa.action.clone_action(),
                signature: crate::chain::copy_bytes(&sa.signature),
            };
            out.push(copied);
            i = i + 1;
        }
        out
    }
}

/// Copy a byte vector.
pub fn copy_bytes(b: &Vec<u8>) -> (r: Vec<u8>)
    ensures
        r@ == b@,
{
    let mut out: Vec<u8> = Vec::new();
    out.extend_from_slice(b.as_slice());
    proof {
        assert(out@ =~= b@);
    }
    out
}

/// What an optional borrowed head hash stands for.
pub open spec fn spec_head_opt(h: Option<&Vec<u8>>) -> Option<Seq<u8>> {
    match h {
        Option::None => Option::None,
        Option::Some(v) => Option::Some(v@),
    }
}

/// What an optional owned entry stands for.
pub open spec fn spec_chain_entry_opt(e: Option<Entry>) -> Option<EntryView> {
    match e {
        Option::None => Option::None,
        Option::Some(v) => Option::Some(v@),
    }
}

/// What an optional borrowed entry stands for.
pub open spec fn spec_chain_entry_opt_ref(e: &Option<Entry>) -> Option<EntryView> {
    match e {
        Option::None => Option::None,
        Option::Some(v) => Option::Some(v@),
    }
}

} // verus!
