//! DHT operations and the rules deriving them from actions.
//!
//! Every action produces a `StoreRecord` and a `RegisterAgentActivity`
//! op; entry-creating actions add a `StoreEntry`; updates, deletes and
//! link actions add the corresponding `Register` op.  Each op is paired
//! with the basis hash whose location selects its authorities.  The
//! derivation is a pure, total function of the action and its optional
//! entry: every honest peer derives the identical op sequence.

use vstd::prelude::*;
use crate::action::{
    action_prefix, spec_action_bytes, spec_action_hash, Action, ActionView, AppEntryType, Create,
    CreateView, EntryType, Update, UpdateView, Entry, EntryView, SignedAction, SignedActionView,
    action_hash, action_canonical_bytes,
};
use crate::hash::u32_from_le_bytes;

verus! {

/// An action that failed to convert because its variant does not create
/// an entry.
#[derive(Clone, Copy, Debug, PartialEq, Eq, Structural)]
pub struct WrongActionError;

/// Either a `Create` or an `Update`: the two action variants that place
/// a new instance of an entry on the DHT.  This is a read-only
/// projection over the underlying action, not a separate owned kind.
#[derive(Clone, Debug)]
pub enum EntryCreationAction {
    /// A `Create` that creates a new instance of an entry.
    Create(Create),
    /// An `Update` that creates a new instance of an entry.
    Update(Update),
}

/// The mathematical value of an [`EntryCreationAction`].
pub enum EntryCreationActionView {
    /// A create action.
    Create(CreateView),
    /// An update action.
    Update(UpdateView),
}

impl View for EntryCreationAction {
    type V = EntryCreationActionView;

    open spec fn view(&self) -> EntryCreationActionView {
        match self {
            EntryCreationAction::Create(c) => EntryCreationActionView::Create(c@),
            EntryCreationAction::Update(u) => EntryCreationActionView::Update(u@),
        }
    }
}

impl EntryCreationActionView {
    /// The equivalent full action.
    pub open spec fn to_action(self) -> ActionView {
        match self {
            EntryCreationActionView::Create(c) => ActionView::Create(c),
            EntryCreationActionView::Update(u) => ActionView::Update(u),
        }
    }

    /// The entry type carried by either variant.
    pub open spec fn entry_type(self) -> EntryType {
        match self {
            EntryCreationActionView::Create(c) => c.entry_type,
            EntryCreationActionView::Update(u) => u.entry_type,
        }
    }
}

impl EntryCreationAction {
    /// The author of this action.
    pub fn author(&self) -> (r: &Vec<u8>)
        ensures
            r@ == self@.to_action().author(),
    {
        match self {
            EntryCreationAction::Create(c) => &c.author,
            EntryCreationAction::Update(u) => &u.author,
        }
    }

    /// The timestamp of this action.
    pub fn timestamp(&self) -> (r: i64)
        ensures
            r == self@.to_action().timestamp(),
    {
        match self {
            EntryCreationAction::Create(c) => c.timestamp,
            EntryCreationAction::Update(u) => u.timestamp,
        }
    }

    /// The sequence number of this action.
    pub fn action_seq(&self) -> (r: u32)
        ensures
            r == self@.to_action().action_seq(),
    {
        match self {
            EntryCreationAction::Create(c) => c.action_seq,
            EntryCreationAction::Update(u) => u.action_seq,
        }
    }

    /// The hash of the previous action in the source chain.
    pub fn prev_action(&self) -> (r: &Vec<u8>)
        ensures
            self@.to_action().prev_action() == Option::Some(r@),
    {
        match self {
            EntryCreationAction::Create(c) => &c.prev_action,
            EntryCreationAction::Update(u) => &u.prev_action,
        }
    }

    /// The type of the entry being created.
    pub fn entry_type(&self) -> (r: &EntryType)
        ensures
            *r == self@.entry_type(),
    {
        match self {
            EntryCreationAction::Create(c) => &c.entry_type,
            EntryCreationAction::Update(u) => &u.entry_type,
        }
    }

    /// The hash of the entry being created.
    pub fn entry_hash(&self) -> (r: &Vec<u8>)
        ensures
            self@.to_action().entry_hash() == Option::Some(r@),
    {
        match self {
            EntryCreationAction::Create(c) => &c.entry_hash,
            EntryCreationAction::Update(u) => &u.entry_hash,
        }
    }

    /// The app entry type, when the entry is application-defined.
    pub fn app_entry_type(&self) -> (r: Option<&AppEntryType>)
        ensures
            match r {
                Option::Some(t) => self@.entry_type() == EntryType::App(*t),
                Option::None => !(self@.entry_type() is App),
            },
    {
        match self.entry_type() {
            EntryType::App(app_entry_type) => Option::Some(app_entry_type),
            _ => Option::None,
        }
    }

    /// Whether this action creates an agent-key entry.
    pub fn is_agent_entry_type(&self) -> (r: bool)
        ensures
            r == (self@.entry_type() == EntryType::AgentPubKey),
    {
        matches!(self.entry_type(), EntryType::AgentPubKey)
    }

    /// Whether this action creates a capability-claim entry.
    pub fn is_cap_claim_entry_type(&self) -> (r: bool)
        ensures
            r == (self@.entry_type() == EntryType::CapClaim),
    {
        matches!(self.entry_type(), EntryType::CapClaim)
    }

    /// Whether this action creates a capability-grant entry.
    pub fn is_cap_grant_entry_type(&self) -> (r: bool)
        ensures
            r == (self@.entry_type() == EntryType::CapGrant),
    {
        matches!(self.entry_type(), EntryType::CapGrant)
    }

    /// The 3-byte hash type prefix under which this action is addressed:
    /// the same as any other action's.
    pub fn hash_type(&self) -> (r: Vec<u8>)
        ensures
            r@ == action_prefix(),
    {
        let r: Vec<u8> = vec![0x84u8, 0x29u8, 0x24u8];
        proof {
            assert(r@ =~= action_prefix());
        }
        r
    }

    /// The canonical bytes this action hashes over: exactly the bytes of
    /// the equivalent `Action` variant, so the projection addresses the
    /// same content.
    pub fn hashable_content(&self) -> (r: Vec<u8>)
        ensures
            r@ == spec_action_bytes(self@.to_action()),
    {
        match self {
            EntryCreationAction::Create(c) => {
                let a = Action::Create(
                    Create {
                        author: clone_bytes(&c.author),
                        timestamp: c.timestamp,
                        action_seq: c.action_seq,
                        prev_action: clone_bytes(&c.prev_action),
                        entry_type: c.entry_type,
                        entry_hash: clone_bytes(&c.entry_hash),
                    },
                );
                action_canonical_bytes(&a)
            },
            EntryCreationAction::Update(u) => {
                let a = Action::Update(
                    Update {
                        author: clone_bytes(&u.author),
                        timestamp: u.timestamp,
                        action_seq: u.action_seq,
                        prev_action: clone_bytes(&u.prev_action),
                        original_action_address: clone_bytes(&u.original_action_address),
                        original_entry_address: clone_bytes(&u.original_entry_address),
                        entry_type: u.entry_type,
                        entry_hash: clone_bytes(&u.entry_hash),
                    },
                );
                action_canonical_bytes(&a)
            },
        }
    }

    /// Convert an action into this projection; fails on variants that do
    /// not create an entry.
    pub fn try_from_action(value: Action) -> (r: Result<EntryCreationAction, WrongActionError>)
        ensures
            r is Ok <==> (value@ is Create || value@ is Update),
            r is Ok ==> r.unwrap()@.to_action() == value@,
    {
        match value {
            Action::Create(h) => Ok(EntryCreationAction::Create(h)),
            Action::Update(h) => Ok(EntryCreationAction::Update(h)),
            _ => Err(WrongActionError),
        }
    }

    /// The equivalent full action.
    pub fn into_action(self) -> (r: Action)
        ensures
            r@ == self@.to_action(),
    {
        match self {
            EntryCreationAction::Create(c) => Action::Create(c),
            EntryCreationAction::Update(u) => Action::Update(u),
        }
    }

    /// Wrap a create action.
    pub fn from_create(c: Create) -> (r: EntryCreationAction)
        ensures
            r@ == EntryCreationActionView::Create(c@),
    {
        EntryCreationAction::Create(c)
    }

    /// Wrap an update action.
    pub fn from_update(u: Update) -> (r: EntryCreationAction)
        ensures
            r@ == EntryCreationActionView::Update(u@),
    {
        EntryCreationAction::Update(u)
    }
}

/// Copy a DHT op.
pub fn clone_chain_op(op: &ChainOp) -> (r: ChainOp)
    ensures
        r@ == op@,
{
    ChainOp {
        op_type: op.op_type,
        signature: clone_bytes(&op.signature),
        action: op.action.clone_action(),
        entry: match &op.entry {
            Option::None => Option::None,
            Option::Some(e) => Option::Some(e.clone_entry()),
        },
    }
}

/// Copy a signed action.
pub fn clone_signed_action(sa: &SignedAction) -> (r: SignedAction)
    ensures
        r@ == sa@,
{
    SignedAction { action: sa.action.clone_action(), signature: clone_bytes(&sa.signature) }
}

/// Copy a byte vector.
fn clone_bytes(b: &Vec<u8>) -> (r: Vec<u8>)
    ensures
        r@ == b@,
{
    let mut out: Vec<u8> = Vec::new();
    out.extend_from_slice(b.as_slice());
    proof {
        assert(out@ =~= b@);
    }
    out
}

/// The closed set of op kinds, one per row of the derivation table.
#[derive(Clone, Copy, Debug, PartialEq, Eq, Structural)]
pub enum ChainOpType {
    /// Store a record with its action; sent to the action authority.
    StoreRecord,
    /// Store an entry; sent to the entry authority.
    StoreEntry,
    /// Register an action on its author's chain; sent to the chain
    /// authority.
    RegisterAgentActivity,
    /// Register an update against the original entry.
    RegisterUpdate,
    /// Register a delete against the deleted action's entry.
    RegisterDelete,
    /// Register a link at its base.
    RegisterCreateLink,
    /// Register a link deletion at the link's base.
    RegisterDeleteLink,
}

/// A DHT op: an operational transform derived from one action, gossiped
/// and validated independently of its siblings.
#[derive(Clone, Debug)]
pub struct ChainOp {
    /// Which transform this op applies.
    pub op_type: ChainOpType,
    /// The author's signature over the action.
    pub signature: Vec<u8>,
    /// The action the op was derived from.
    pub action: Action,
    /// The entry, carried only by ops that store content.
    pub entry: Option<Entry>,
}

/// The mathematical value of a [`ChainOp`].
pub struct ChainOpView {
    /// Which transform this op applies.
    pub op_type: ChainOpType,
    /// The author's signature over the action.
    pub signature: Seq<u8>,
    /// The action the op was derived from.
    pub action: ActionView,
    /// The entry, when the op stores content.
    pub entry: Option<EntryView>,
}

impl View for ChainOp {
    type V = ChainOpView;

    open spec fn view(&self) -> ChainOpView {
        ChainOpView {
            op_type: self.op_type,
            signature: self.signature@,
            action: self.action@,
            entry: match self.entry {
                Option::None => Option::None,
                Option::Some(ref e) => Option::Some(e@),
            },
        }
    }
}

/// A derived op paired with the basis hash that selects its authorities.
#[derive(Clone, Debug)]
pub struct BasisOp {
    /// The 39-byte basis hash; its location picks the authorities.
    pub basis: Vec<u8>,
    /// The op itself.
    pub op: ChainOp,
}

/// The mathematical value of a [`BasisOp`].
pub struct BasisOpView {
    /// The basis hash.
    pub basis: Seq<u8>,
    /// The op.
    pub op: ChainOpView,
}

impl View for BasisOp {
    type V = BasisOpView;

    open spec fn view(&self) -> BasisOpView {
        BasisOpView { basis: self.basis@, op: self.op@ }
    }
}

/// The op sequence a signed action derives, with each op's basis, as a
/// function of the action and its optional entry and of nothing else.
pub open spec fn spec_derive_ops(sa: SignedActionView, entry: Option<EntryView>) -> Seq<
    BasisOpView,
> {
    let common = seq![
        BasisOpView {
            basis: spec_action_hash(sa.action),
            op: ChainOpView {
                op_type: ChainOpType::StoreRecord,
                signature: sa.signature,
                action: sa.action,
                entry,
            },
        },
        BasisOpView {
            basis: sa.action.author(),
            op: ChainOpView {
                op_type: ChainOpType::RegisterAgentActivity,
                signature: sa.signature,
                action: sa.action,
                entry: Option::None,
            },
        },
    ];
    common + match sa.action {
        ActionView::Create(c) => seq![
            BasisOpView {
                basis: c.entry_hash,
                op: ChainOpView {
                    op_type: ChainOpType::StoreEntry,
                    signature: sa.signature,
                    action: sa.action,
                    entry,
                },
            },
        ],
        ActionView::Update(u) => seq![
            BasisOpView {
                basis: u.entry_hash,
                op: ChainOpView {
                    op_type: ChainOpType::StoreEntry,
                    signature: sa.signature,
                    action: sa.action,
                    entry,
                },
            },
            BasisOpView {
                basis: u.original_entry_address,
                op: ChainOpView {
                    op_type: ChainOpType::RegisterUpdate,
                    signature: sa.signature,
                    action: sa.action,
                    entry,
                },
            },
        ],
        ActionView::Delete(d) => seq![
            BasisOpView {
                basis: d.deletes_entry_address,
                op: ChainOpView {
                    op_type: ChainOpType::RegisterDelete,
                    signature: sa.signature,
                    action: sa.action,
                    entry: Option::None,
                },
            },
        ],
        ActionView::CreateLink(l) => seq![
            BasisOpView {
                basis: l.base_address,
                op: ChainOpView {
                    op_type: ChainOpType::RegisterCreateLink,
                    signature: sa.signature,
                    action: sa.action,
                    entry: Option::None,
                },
            },
        ],
        ActionView::DeleteLink(l) => seq![
            BasisOpView {
                basis: l.base_address,
                op: ChainOpView {
                    op_type: ChainOpType::RegisterDeleteLink,
                    signature: sa.signature,
                    action: sa.action,
                    entry: Option::None,
                },
            },
        ],
        _ => Seq::<BasisOpView>::empty(),
    }
}

/// Derive the ops of a signed action.  The result is pinned to
/// `spec_derive_ops`, a function of the action and entry alone: no I/O,
/// no clock reads, so any two honest nodes derive identical op
/// sequences (and so identical multisets).
pub fn derive_ops(sa: &SignedAction, entry: Option<&Entry>) -> (r: Vec<BasisOp>)
    ensures
        r@.len() == spec_derive_ops(sa@, spec_entry_opt(entry)).len(),
        forall|i: int|
            0 <= i < r@.len() ==> #[trigger] r@[i]@ == spec_derive_ops(sa@, spec_entry_opt(entry))[i],
{
    let ghost eview = spec_entry_opt(entry);
    let mut out: Vec<BasisOp> = Vec::new();
    let record_entry: Option<Entry> = match entry {
        Option::None => Option::None,
        Option::Some(e) => Option::Some(e.clone_entry()),
    };
    let store_entry: Option<Entry> = match entry {
        Option::None => Option::None,
        Option::Some(e) => Option::Some(e.clone_entry()),
    };
    out.push(
        BasisOp {
            basis: action_hash(&sa.action),
            op: ChainOp {
                op_type: ChainOpType::StoreRecord,
                signature: clone_bytes(&sa.signature),
                action: sa.action.clone_action(),
                entry: record_entry,
            },
        },
    );
    out.push(
        BasisOp {
            basis: clone_bytes(sa.action.author()),
            op: ChainOp {
                op_type: ChainOpType::RegisterAgentActivity,
                signature: clone_bytes(&sa.signature),
                action: sa.action.clone_action(),
                entry: Option::None,
            },
        },
    );
    match &sa.action {
        Action::Create(c) => {
            out.push(
                BasisOp {
                    basis: clone_bytes(&c.entry_hash),
                    op: ChainOp {
                        op_type: ChainOpType::StoreEntry,
                        signature: clone_bytes(&sa.signature),
                        action: sa.action.clone_action(),
                        entry: store_entry,
                    },
                },
            );
        },
        Action::Update(u) => {
            let second_entry: Option<Entry> = match entry {
                Option::None => Option::None,
                Option::Some(e) => Option::Some(e.clone_entry()),
            };
            out.push(
                BasisOp {
                    basis: clone_bytes(&u.entry_hash),
                    op: ChainOp {
                        op_type: ChainOpType::StoreEntry,
                        signature: clone_bytes(&sa.signature),
                        action: sa.action.clone_action(),
                        entry: store_entry,
                    },
                },
            );
            out.push(
                BasisOp {
                    basis: clone_bytes(&u.original_entry_address),
                    op: ChainOp {
                        op_type: ChainOpType::RegisterUpdate,
                        signature: clone_bytes(&sa.signature),
                        action: sa.action.clone_action(),
                        entry: second_entry,
                    },
                },
            );
        },
        Action::Delete(d) => {
            out.push(
                BasisOp {
                    basis: clone_bytes(&d.deletes_entry_address),
                    op: ChainOp {
                        op_type: ChainOpType::RegisterDelete,
                        signature: clone_bytes(&sa.signature),
                        action: sa.action.clone_action(),
                        entry: Option::None,
                    },
                },
            );
        },
        Action::CreateLink(l) => {
            out.push(
                BasisOp {
                    basis: clone_bytes(&l.base_address),
                    op: ChainOp {
                        op_type: ChainOpType::RegisterCreateLink,
                        signature: clone_bytes(&sa.signature),
                        action: sa.action.clone_action(),
                        entry: Option::None,
                    },
                },
            );
        },
        Action::DeleteLink(l) => {
            out.push(
                BasisOp {
                    basis: clone_bytes(&l.base_address),
                    op: ChainOp {
                        op_type: ChainOpType::RegisterDeleteLink,
                        signature: clone_bytes(&sa.signature),
                        action: sa.action.clone_action(),
                        entry: Option::None,
                    },
                },
            );
        },
        _ => {},
    }
    proof {
        assert forall|i: int| 0 <= i < out@.len() implies #[trigger] out@[i]@ == spec_derive_ops(
            sa@,
            eview,
        )[i] by {
        }
    }
    out
}

/// What an optional borrowed entry stands for.
pub open spec fn spec_entry_opt(entry: Option<&Entry>) -> Option<EntryView> {
    match entry {
        Option::None => Option::None,
        Option::Some(e) => Option::Some(e@),
    }
}

/// The ring location of a 39-byte basis hash: its four checksum bytes
/// read little-endian.
pub fn basis_loc(basis: &Vec<u8>) -> (r: u32)
    requires
        basis@.len() == 39,
    ensures
        r == spec_basis_loc(basis@),
{
    u32_le_at_35(basis)
}

/// The location stored in bytes 35..39 of a full hash.
pub open spec fn spec_basis_loc(b: Seq<u8>) -> u32 {
    u32_from_le_bytes(b.subrange(35, 39))
}

/// Read the little-endian 32-bit integer at offset 35.
fn u32_le_at_35(b: &Vec<u8>) -> (r: u32)
    requires
        b@.len() == 39,
    ensures
        r == u32_from_le_bytes(b@.subrange(35, 39)),
{
    let r = (b[35] as u32) | ((b[36] as u32) << 8) | ((b[37] as u32) << 16) | ((b[38] as u32)
        << 24);
    proof {
        assert(b@.subrange(35, 39)[0] == b@[35]);
        assert(b@.subrange(35, 39)[1] == b@[36]);
        assert(b@.subrange(35, 39)[2] == b@[37]);
        assert(b@.subrange(35, 39)[3] == b@[38]);
    }
    r
}

impl Entry {
    /// Copy an entry.
    pub fn clone_entry(&self) -> (r: Entry)
        ensures
            r@ == self@,
    {
        match self {
            Entry::App(b) => Entry::App(clone_bytes(b)),
            Entry::Agent(b) => Entry::Agent(clone_bytes(b)),
            Entry::CapClaim(b) => Entry::CapClaim(clone_bytes(b)),
            Entry::CapGrant(b) => Entry::CapGrant(clone_bytes(b)),
        }
    }
}

impl Action {
    /// Copy an action.
    pub fn clone_action(&self) -> (r: Action)
        ensures
            r@ == self@,
    {
        match self {
            Action::Dna(v) => Action::Dna(
                crate::action::Dna {
                    author: clone_bytes(&v.author),
                    timestamp: v.timestamp,
                    hash: clone_bytes(&v.hash),
                },
            ),
            Action::AgentValidationPkg(v) => Action::AgentValidationPkg(
                crate::action::AgentValidationPkg {
                    author: clone_bytes(&v.author),
                    timestamp: v.timestamp,
                    action_seq: v.action_seq,
                    prev_action: clone_bytes(&v.prev_action),
                    membrane_proof: match &v.membrane_proof {
                        Option::None => Option::None,
                        Option::Some(m) => Option::Some(clone_bytes(m)),
                    },
                },
            ),
            Action::InitZomesComplete(v) => Action::InitZomesComplete(
                crate::action::InitZomesComplete {
                    author: clone_bytes(&v.author),
                    timestamp: v.timestamp,
                    action_seq: v.action_seq,
                    prev_action: clone_bytes(&v.prev_action),
                },
            ),
            Action::Create(v) => Action::Create(
                Create {
                    author: clone_bytes(&v.author),
                    timestamp: v.timestamp,
                    action_seq: v.action_seq,
                    prev_action: clone_bytes(&v.prev_action),
                    entry_type: v.entry_type,
                    entry_hash: clone_bytes(&v.entry_hash),
                },
            ),
            Action::Update(v) => Action::Update(
                Update {
                    author: clone_bytes(&v.author),
                    timestamp: v.timestamp,
                    action_seq: v.action_seq,
                    prev_action: clone_bytes(&v.prev_action),
                    original_action_address: clone_bytes(&v.original_action_address),
                    original_entry_address: clone_bytes(&v.original_entry_address),
                    entry_type: v.entry_type,
                    entry_hash: clone_bytes(&v.entry_hash),
                },
            ),
            Action::Delete(v) => Action::Delete(
                crate::action::Delete {
                    author: clone_bytes(&v.author),
                    timestamp: v.timestamp,
                    action_seq: v.action_seq,
                    prev_action: clone_bytes(&v.prev_action),
                    deletes_address: clone_bytes(&v.deletes_address),
                    deletes_entry_address: clone_bytes(&v.deletes_entry_address),
                },
            ),
            Action::CreateLink(v) => Action::CreateLink(
                crate::action::CreateLink {
                    author: clone_bytes(&v.author),
                    timestamp: v.timestamp,
                    action_seq: v.action_seq,
                    prev_action: clone_bytes(&v.prev_action),
                    base_address: clone_bytes(&v.base_address),
                    target_address: clone_bytes(&v.target_address),
                    link_type: v.link_type,
                    tag: clone_bytes(&v.tag),
                },
            ),
            Action::DeleteLink(v) => Action::DeleteLink(
                crate::action::DeleteLink {
                    author: clone_bytes(&v.author),
                    timestamp: v.timestamp,
                    action_seq: v.action_seq,
                    prev_action: clone_bytes(&v.prev_action),
                    base_address: clone_bytes(&v.base_address),
                    link_add_address: clone_bytes(&v.link_add_address),
                },
            ),
            Action::OpenChain(v) => Action::OpenChain(
                crate::action::OpenChain {
                    author: clone_bytes(&v.author),
                    timestamp: v.timestamp,
                    action_seq: v.action_seq,
                    prev_action: clone_bytes(&v.prev_action),
                    prev_dna_hash: clone_bytes(&v.prev_dna_hash),
                },
            ),
            Action::CloseChain(v) => Action::CloseChain(
                crate::action::CloseChain {
                    author: clone_bytes(&v.author),
                    timestamp: v.timestamp,
                    action_seq: v.action_seq,
                    prev_action: clone_bytes(&v.prev_action),
                    new_dna_hash: match &v.new_dna_hash {
                        Option::None => Option::None,
                        Option::Some(m) => Option::Some(clone_bytes(m)),
                    },
                },
            ),
        }
    }
}

/// A record: a signed action together with the entry it carries, if
/// any.
#[derive(Clone, Debug)]
pub struct Record {
    /// The signed action.
    pub signed_action: SignedAction,
    /// The entry, when the action carries one.
    pub entry: Option<Entry>,
}

/// An entry-creating action, signed, as the validation ops carry it.
#[derive(Clone, Debug)]
pub struct SignedEntryCreation {
    /// The entry-creating action.
    pub action: EntryCreationAction,
    /// The author's signature.
    pub signature: Vec<u8>,
}

/// Stores a new record in the DHT: the op the action authority
/// validates.
#[derive(Clone, Debug)]
pub struct StoreRecord {
    /// The record to store.
    pub record: Record,
}

/// Stores a new entry in the DHT: the op the entry authority
/// validates.
#[derive(Clone, Debug)]
pub struct StoreEntry {
    /// The signed entry-creating action.
    pub action: SignedEntryCreation,
    /// The new entry to store.
    pub entry: Entry,
}

/// Registers an update against the original entry, at the entry
/// authority.
#[derive(Clone, Debug)]
pub struct RegisterUpdate {
    /// The signed update action.
    pub update: SignedAction,
    /// The new entry, when public.
    pub new_entry: Option<Entry>,
}

/// Registers a deletion against the deleted action's entry, at the
/// entry authority.
#[derive(Clone, Debug)]
pub struct RegisterDelete {
    /// The signed delete action.
    pub delete: SignedAction,
}

/// Registers an action on its author's chain, at the chain authority.
#[derive(Clone, Debug)]
pub struct RegisterAgentActivity {
    /// The signed action being registered.
    pub action: SignedAction,
}

/// Registers a link at its base, at the base's entry authority.
#[derive(Clone, Debug)]
pub struct RegisterCreateLink {
    /// The signed link-creating action.
    pub create_link: SignedAction,
}

/// Registers a link deletion at the link's base.
#[derive(Clone, Debug)]
pub struct RegisterDeleteLink {
    /// The signed link-deleting action.
    pub delete_link: SignedAction,
}

/// The operational transforms applied to DHT data, as handed to the
/// `validate` callback: each authority receives the variant it is
/// responsible for.
#[derive(Clone, Debug)]
pub enum Op {
    /// Store a record; every action produces one.
    StoreRecord(StoreRecord),
    /// Store an entry; creates and updates produce one.
    StoreEntry(StoreEntry),
    /// Register an update of an entry.
    RegisterUpdate(RegisterUpdate),
    /// Register a deletion of an entry.
    RegisterDelete(RegisterDelete),
    /// Register an action on an agent's chain; every action produces
    /// one.
    RegisterAgentActivity(RegisterAgentActivity),
    /// Register a link.
    RegisterCreateLink(RegisterCreateLink),
    /// Register a link deletion.
    RegisterDeleteLink(RegisterDeleteLink),
}

/// Build the validation-callback view of a DHT op.  The variant
/// follows the op's type; a `StoreEntry` insists that its action
/// creates an entry and that the entry is present, since that is what
/// the entry authority validates.
pub fn op_for_validation(op: &ChainOp) -> (r: Result<Op, WrongActionError>)
    ensures
        op@.op_type == ChainOpType::StoreRecord ==> (r matches Ok(Op::StoreRecord(sr))
            && sr.record.signed_action@.action == op@.action && sr.record.signed_action@.signature
            == op@.signature && spec_entry_opt_owned(sr.record.entry) == op@.entry),
        op@.op_type == ChainOpType::StoreEntry ==> (match r {
            Result::Ok(inner) => (op@.action is Create || op@.action is Update) && op@.entry
                is Some && (inner matches Op::StoreEntry(se) && se.action.action@.to_action()
                == op@.action && se.action.signature@ == op@.signature && Option::Some(se.entry@)
                == op@.entry),
            Result::Err(_) => !(op@.action is Create || op@.action is Update) || op@.entry
                is None,
        }),
        op@.op_type == ChainOpType::RegisterUpdate ==> (r matches Ok(Op::RegisterUpdate(ru))
            && ru.update@.action == op@.action && ru.update@.signature == op@.signature
            && spec_entry_opt_owned(ru.new_entry) == op@.entry),
        op@.op_type == ChainOpType::RegisterDelete ==> (r matches Ok(Op::RegisterDelete(rd))
            && rd.delete@.action == op@.action && rd.delete@.signature == op@.signature),
        op@.op_type == ChainOpType::RegisterAgentActivity ==> (r matches Ok(
            Op::RegisterAgentActivity(ra),
        ) && ra.action@.action == op@.action && ra.action@.signature == op@.signature),
        op@.op_type == ChainOpType::RegisterCreateLink ==> (r matches Ok(Op::RegisterCreateLink(
            rc,
        )) && rc.create_link@.action == op@.action && rc.create_link@.signature == op@.signature),
        op@.op_type == ChainOpType::RegisterDeleteLink ==> (r matches Ok(Op::RegisterDeleteLink(
            rd,
        )) && rd.delete_link@.action == op@.action && rd.delete_link@.signature == op@.signature),
{
    let signed = clone_signed_action(
        &SignedAction { action: op.action.clone_action(), signature: clone_bytes(&op.signature) },
    );
    let entry_copy: Option<Entry> = match &op.entry {
        Option::None => Option::None,
        Option::Some(e) => Option::Some(e.clone_entry()),
    };
    match op.op_type {
        ChainOpType::StoreRecord => Ok(
            Op::StoreRecord(
                StoreRecord { record: Record { signed_action: signed, entry: entry_copy } },
            ),
        ),
        ChainOpType::StoreEntry => {
            let entry = match entry_copy {
                Option::None => {
                    return Err(WrongActionError);
                },
                Option::Some(e) => e,
            };
            let eca = match EntryCreationAction::try_from_action(signed.action) {
                Result::Ok(a) => a,
                Result::Err(e) => {
                    return Err(e);
                },
            };
            Ok(
                Op::StoreEntry(
                    StoreEntry {
                        action: SignedEntryCreation { action: eca, signature: signed.signature },
                        entry,
                    },
                ),
            )
        },
        ChainOpType::RegisterUpdate => Ok(
            Op::RegisterUpdate(RegisterUpdate { update: signed, new_entry: entry_copy }),
        ),
        ChainOpType::RegisterDelete => Ok(Op::RegisterDelete(RegisterDelete { delete: signed })),
        ChainOpType::RegisterAgentActivity => Ok(
            Op::RegisterAgentActivity(RegisterAgentActivity { action: signed }),
        ),
        ChainOpType::RegisterCreateLink => Ok(
            Op::RegisterCreateLink(RegisterCreateLink { create_link: signed }),
        ),
        ChainOpType::RegisterDeleteLink => Ok(
            Op::RegisterDeleteLink(RegisterDeleteLink { delete_link: signed }),
        ),
    }
}

/// What an optional owned entry stands for.
pub open spec fn spec_entry_opt_owned(e: Option<Entry>) -> Option<EntryView> {
    match e {
        Option::None => Option::None,
        Option::Some(v) => Option::Some(v@),
    }
}

} // verus!
