//! Actions, entries and the per-variant data they carry.
//!
//! An action is a signed record placed on a single agent's chain.  Every
//! non-genesis action carries its author key, a monotonically increasing
//! sequence number, the hash of the previous action and a microsecond
//! timestamp.  Hashes are taken over a canonical byte encoding, so the
//! encoding of every variant is fixed here as well.

use vstd::prelude::*;
use crate::bytes::{
    push_framed_bytes, push_framed_opt_bytes, push_i64_le, push_u32_le, spec_framed_bytes,
    spec_framed_opt_bytes, spec_i64_le, spec_u32_le,
};
use crate::hash::{blake2b_256, checksum_ok, holo_dht_location_bytes, spec_location_bytes};
use crate::hashing::blake2b_spec;

verus! {

/// The 3-byte type prefix of an action hash (`uhCkk`).
pub const ACTION_PREFIX_0: u8 = 0x84;

/// Second byte of the action hash prefix.
pub const ACTION_PREFIX_1: u8 = 0x29;

/// Third byte of the action hash prefix.
pub const ACTION_PREFIX_2: u8 = 0x24;

/// The 3-byte type prefix of an entry hash (`uhCEk`).
pub const ENTRY_PREFIX_0: u8 = 0x84;

/// Second byte of the entry hash prefix.
pub const ENTRY_PREFIX_1: u8 = 0x21;

/// Third byte of the entry hash prefix.
pub const ENTRY_PREFIX_2: u8 = 0x24;

/// The action hash prefix as a sequence.
pub open spec fn action_prefix() -> Seq<u8> {
    seq![ACTION_PREFIX_0, ACTION_PREFIX_1, ACTION_PREFIX_2]
}

/// The entry hash prefix as a sequence.
pub open spec fn entry_prefix() -> Seq<u8> {
    seq![ENTRY_PREFIX_0, ENTRY_PREFIX_1, ENTRY_PREFIX_2]
}

/// Whether an app entry is visible on the DHT or private to the author.
#[derive(Clone, Copy, Debug, PartialEq, Eq, Structural)]
pub enum EntryVisibility {
    /// The entry is published.
    Public,
    /// Only the entry's hash is published.
    Private,
}

/// An application-defined entry type: its index within the zome that
/// defines it, the zome's index, and its visibility.
#[derive(Clone, Copy, Debug, PartialEq, Eq, Structural)]
pub struct AppEntryType {
    /// Index of the entry definition within its zome.
    pub entry_index: u8,
    /// Index of the defining zome.
    pub zome_index: u8,
    /// Visibility of entries of this type.
    pub visibility: EntryVisibility,
}

/// The closed set of entry kinds.
#[derive(Clone, Copy, Debug, PartialEq, Eq, Structural)]
pub enum EntryType {
    /// An application-defined entry.
    App(AppEntryType),
    /// An agent public key.
    AgentPubKey,
    /// A capability claim.
    CapClaim,
    /// A capability grant.
    CapGrant,
}

/// Entry content: app-defined bytes, an agent key, or a capability
/// grant or claim, addressed by the hash of its canonical bytes.
#[derive(Clone, Debug)]
pub enum Entry {
    /// App-defined bytes.
    App(Vec<u8>),
    /// An agent public key.
    Agent(Vec<u8>),
    /// A capability claim.
    CapClaim(Vec<u8>),
    /// A capability grant.
    CapGrant(Vec<u8>),
}

/// The mathematical value of an [`Entry`].
pub enum EntryView {
    /// App-defined bytes.
    App(Seq<u8>),
    /// An agent public key.
    Agent(Seq<u8>),
    /// A capability claim.
    CapClaim(Seq<u8>),
    /// A capability grant.
    CapGrant(Seq<u8>),
}

impl View for Entry {
    type V = EntryView;

    open spec fn view(&self) -> EntryView {
        match self {
            Entry::App(b) => EntryView::App(b@),
            Entry::Agent(b) => EntryView::Agent(b@),
            Entry::CapClaim(b) => EntryView::CapClaim(b@),
            Entry::CapGrant(b) => EntryView::CapGrant(b@),
        }
    }
}

/// The first action of every chain: names the DNA.
#[derive(Clone, Debug)]
pub struct Dna {
    /// The chain's author.
    pub author: Vec<u8>,
    /// Microsecond timestamp.
    pub timestamp: i64,
    /// The hash of the DNA this chain runs.
    pub hash: Vec<u8>,
}

/// The mathematical value of a [`Dna`] action.
pub struct DnaView {
    /// The chain's author.
    pub author: Seq<u8>,
    /// Microsecond timestamp.
    pub timestamp: i64,
    /// The hash of the DNA this chain runs.
    pub hash: Seq<u8>,
}

impl View for Dna {
    type V = DnaView;

    open spec fn view(&self) -> DnaView {
        DnaView { author: self.author@, timestamp: self.timestamp, hash: self.hash@ }
    }
}

/// The second action of every chain: carries the membrane proof.
#[derive(Clone, Debug)]
pub struct AgentValidationPkg {
    /// The chain's author.
    pub author: Vec<u8>,
    /// Microsecond timestamp.
    pub timestamp: i64,
    /// Position on the chain.
    pub action_seq: u32,
    /// Hash of the previous action.
    pub prev_action: Vec<u8>,
    /// Proof of the agent's right to join, checked by app validation.
    pub membrane_proof: Option<Vec<u8>>,
}

/// The mathematical value of an [`AgentValidationPkg`] action.
pub struct AgentValidationPkgView {
    /// The chain's author.
    pub author: Seq<u8>,
    /// Microsecond timestamp.
    pub timestamp: i64,
    /// Position on the chain.
    pub action_seq: u32,
    /// Hash of the previous action.
    pub prev_action: Seq<u8>,
    /// Proof of the agent's right to join.
    pub membrane_proof: Option<Seq<u8>>,
}

impl View for AgentValidationPkg {
    type V = AgentValidationPkgView;

    open spec fn view(&self) -> AgentValidationPkgView {
        AgentValidationPkgView {
            author: self.author@,
            timestamp: self.timestamp,
            action_seq: self.action_seq,
            prev_action: self.prev_action@,
            membrane_proof: match self.membrane_proof {
                Option::None => Option::None,
                Option::Some(ref v) => Option::Some(v@),
            },
        }
    }
}

/// Marks the end of genesis self-initialization.
#[derive(Clone, Debug)]
pub struct InitZomesComplete {
    /// The chain's author.
    pub author: Vec<u8>,
    /// Microsecond timestamp.
    pub timestamp: i64,
    /// Position on the chain.
    pub action_seq: u32,
    /// Hash of the previous action.
    pub prev_action: Vec<u8>,
}

/// The mathematical value of an [`InitZomesComplete`] action.
pub struct InitZomesCompleteView {
    /// The chain's author.
    pub author: Seq<u8>,
    /// Microsecond timestamp.
    pub timestamp: i64,
    /// Position on the chain.
    pub action_seq: u32,
    /// Hash of the previous action.
    pub prev_action: Seq<u8>,
}

impl View for InitZomesComplete {
    type V = InitZomesCompleteView;

    open spec fn view(&self) -> InitZomesCompleteView {
        InitZomesCompleteView {
            author: self.author@,
            timestamp: self.timestamp,
            action_seq: self.action_seq,
            prev_action: self.prev_action@,
        }
    }
}

/// Creates a new instance of an entry.
#[derive(Clone, Debug)]
pub struct Create {
    /// The chain's author.
    pub author: Vec<u8>,
    /// Microsecond timestamp.
    pub timestamp: i64,
    /// Position on the chain.
    pub action_seq: u32,
    /// Hash of the previous action.
    pub prev_action: Vec<u8>,
    /// The type of the entry being created.
    pub entry_type: EntryType,
    /// The hash of the entry being created.
    pub entry_hash: Vec<u8>,
}

/// The mathematical value of a [`Create`] action.
pub struct CreateView {
    /// The chain's author.
    pub author: Seq<u8>,
    /// Microsecond timestamp.
    pub timestamp: i64,
    /// Position on the chain.
    pub action_seq: u32,
    /// Hash of the previous action.
    pub prev_action: Seq<u8>,
    /// The type of the entry being created.
    pub entry_type: EntryType,
    /// The hash of the entry being created.
    pub entry_hash: Seq<u8>,
}

impl View for Create {
    type V = CreateView;

    open spec fn view(&self) -> CreateView {
        CreateView {
            author: self.author@,
            timestamp: self.timestamp,
            action_seq: self.action_seq,
            prev_action: self.prev_action@,
            entry_type: self.entry_type,
            entry_hash: self.entry_hash@,
        }
    }
}

/// Creates a new instance of an entry as an update of an earlier one,
/// referencing the original action and entry.
#[derive(Clone, Debug)]
pub struct Update {
    /// The chain's author.
    pub author: Vec<u8>,
    /// Microsecond timestamp.
    pub timestamp: i64,
    /// Position on the chain.
    pub action_seq: u32,
    /// Hash of the previous action.
    pub prev_action: Vec<u8>,
    /// The action that created the original entry.
    pub original_action_address: Vec<u8>,
    /// The original entry.
    pub original_entry_address: Vec<u8>,
    /// The type of the new entry.
    pub entry_type: EntryType,
    /// The hash of the new entry.
    pub entry_hash: Vec<u8>,
}

/// The mathematical value of an [`Update`] action.
pub struct UpdateView {
    /// The chain's author.
    pub author: Seq<u8>,
    /// Microsecond timestamp.
    pub timestamp: i64,
    /// Position on the chain.
    pub action_seq: u32,
    /// Hash of the previous action.
    pub prev_action: Seq<u8>,
    /// The action that created the original entry.
    pub original_action_address: Seq<u8>,
    /// The original entry.
    pub original_entry_address: Seq<u8>,
    /// The type of the new entry.
    pub entry_type: EntryType,
    /// The hash of the new entry.
    pub entry_hash: Seq<u8>,
}

impl View for Update {
    type V = UpdateView;

    open spec fn view(&self) -> UpdateView {
        UpdateView {
            author: self.author@,
            timestamp: self.timestamp,
            action_seq: self.action_seq,
            prev_action: self.prev_action@,
            original_action_address: self.original_action_address@,
            original_entry_address: self.original_entry_address@,
            entry_type: self.entry_type,
            entry_hash: self.entry_hash@,
        }
    }
}

/// Registers the deletion of an earlier entry-creating action.
#[derive(Clone, Debug)]
pub struct Delete {
    /// The chain's author.
    pub author: Vec<u8>,
    /// Microsecond timestamp.
    pub timestamp: i64,
    /// Position on the chain.
    pub action_seq: u32,
    /// Hash of the previous action.
    pub prev_action: Vec<u8>,
    /// The action being deleted.
    pub deletes_address: Vec<u8>,
    /// The entry created by the action being deleted.
    pub deletes_entry_address: Vec<u8>,
}

/// The mathematical value of a [`Delete`] action.
pub struct DeleteView {
    /// The chain's author.
    pub author: Seq<u8>,
    /// Microsecond timestamp.
    pub timestamp: i64,
    /// Position on the chain.
    pub action_seq: u32,
    /// Hash of the previous action.
    pub prev_action: Seq<u8>,
    /// The action being deleted.
    pub deletes_address: Seq<u8>,
    /// The entry created by the action being deleted.
    pub deletes_entry_address: Seq<u8>,
}

impl View for Delete {
    type V = DeleteView;

    open spec fn view(&self) -> DeleteView {
        DeleteView {
            author: self.author@,
            timestamp: self.timestamp,
            action_seq: self.action_seq,
            prev_action: self.prev_action@,
            deletes_address: self.deletes_address@,
            deletes_entry_address: self.deletes_entry_address@,
        }
    }
}

/// Places a typed, tagged link from a base address to a target address.
#[derive(Clone, Debug)]
pub struct CreateLink {
    /// The chain's author.
    pub author: Vec<u8>,
    /// Microsecond timestamp.
    pub timestamp: i64,
    /// Position on the chain.
    pub action_seq: u32,
    /// Hash of the previous action.
    pub prev_action: Vec<u8>,
    /// The address the link hangs off.
    pub base_address: Vec<u8>,
    /// The address the link points to.
    pub target_address: Vec<u8>,
    /// The app-defined link type.
    pub link_type: u8,
    /// The app-defined tag bytes.
    pub tag: Vec<u8>,
}

/// The mathematical value of a [`CreateLink`] action.
pub struct CreateLinkView {
    /// The chain's author.
    pub author: Seq<u8>,
    /// Microsecond timestamp.
    pub timestamp: i64,
    /// Position on the chain.
    pub action_seq: u32,
    /// Hash of the previous action.
    pub prev_action: Seq<u8>,
    /// The address the link hangs off.
    pub base_address: Seq<u8>,
    /// The address the link points to.
    pub target_address: Seq<u8>,
    /// The app-defined link type.
    pub link_type: u8,
    /// The app-defined tag bytes.
    pub tag: Seq<u8>,
}

impl View for CreateLink {
    type V = CreateLinkView;

    open spec fn view(&self) -> CreateLinkView {
        CreateLinkView {
            author: self.author@,
            timestamp: self.timestamp,
            action_seq: self.action_seq,
            prev_action: self.prev_action@,
            base_address: self.base_address@,
            target_address: self.target_address@,
            link_type: self.link_type,
            tag: self.tag@,
        }
    }
}

/// Deletes an earlier link, referencing the `CreateLink` that made it.
#[derive(Clone, Debug)]
pub struct DeleteLink {
    /// The chain's author.
    pub author: Vec<u8>,
    /// Microsecond timestamp.
    pub timestamp: i64,
    /// Position on the chain.
    pub action_seq: u32,
    /// Hash of the previous action.
    pub prev_action: Vec<u8>,
    /// The base address of the link being deleted.
    pub base_address: Vec<u8>,
    /// The `CreateLink` action being deleted.
    pub link_add_address: Vec<u8>,
}

/// The mathematical value of a [`DeleteLink`] action.
pub struct DeleteLinkView {
    /// The chain's author.
    pub author: Seq<u8>,
    /// Microsecond timestamp.
    pub timestamp: i64,
    /// Position on the chain.
    pub action_seq: u32,
    /// Hash of the previous action.
    pub prev_action: Seq<u8>,
    /// The base address of the link being deleted.
    pub base_address: Seq<u8>,
    /// The `CreateLink` action being deleted.
    pub link_add_address: Seq<u8>,
}

impl View for DeleteLink {
    type V = DeleteLinkView;

    open spec fn view(&self) -> DeleteLinkView {
        DeleteLinkView {
            author: self.author@,
            timestamp: self.timestamp,
            action_seq: self.action_seq,
            prev_action: self.prev_action@,
            base_address: self.base_address@,
            link_add_address: self.link_add_address@,
        }
    }
}

/// Opens this chain as the continuation of one on another DNA.
#[derive(Clone, Debug)]
pub struct OpenChain {
    /// The chain's author.
    pub author: Vec<u8>,
    /// Microsecond timestamp.
    pub timestamp: i64,
    /// Position on the chain.
    pub action_seq: u32,
    /// Hash of the previous action.
    pub prev_action: Vec<u8>,
    /// The DNA this chain continues from.
    pub prev_dna_hash: Vec<u8>,
}

/// The mathematical value of an [`OpenChain`] action.
pub struct OpenChainView {
    /// The chain's author.
    pub author: Seq<u8>,
    /// Microsecond timestamp.
    pub timestamp: i64,
    /// Position on the chain.
    pub action_seq: u32,
    /// Hash of the previous action.
    pub prev_action: Seq<u8>,
    /// The DNA this chain continues from.
    pub prev_dna_hash: Seq<u8>,
}

impl View for OpenChain {
    type V = OpenChainView;

    open spec fn view(&self) -> OpenChainView {
        OpenChainView {
            author: self.author@,
            timestamp: self.timestamp,
            action_seq: self.action_seq,
            prev_action: self.prev_action@,
            prev_dna_hash: self.prev_dna_hash@,
        }
    }
}

/// Closes this chain, optionally naming the DNA it continues on.
#[derive(Clone, Debug)]
pub struct CloseChain {
    /// The chain's author.
    pub author: Vec<u8>,
    /// Microsecond timestamp.
    pub timestamp: i64,
    /// Position on the chain.
    pub action_seq: u32,
    /// Hash of the previous action.
    pub prev_action: Vec<u8>,
    /// The DNA the chain continues on, if any.
    pub new_dna_hash: Option<Vec<u8>>,
}

/// The mathematical value of a [`CloseChain`] action.
pub struct CloseChainView {
    /// The chain's author.
    pub author: Seq<u8>,
    /// Microsecond timestamp.
    pub timestamp: i64,
    /// Position on the chain.
    pub action_seq: u32,
    /// Hash of the previous action.
    pub prev_action: Seq<u8>,
    /// The DNA the chain continues on, if any.
    pub new_dna_hash: Option<Seq<u8>>,
}

impl View for CloseChain {
    type V = CloseChainView;

    open spec fn view(&self) -> CloseChainView {
        CloseChainView {
            author: self.author@,
            timestamp: self.timestamp,
            action_seq: self.action_seq,
            prev_action: self.prev_action@,
            new_dna_hash: match self.new_dna_hash {
                Option::None => Option::None,
                Option::Some(ref v) => Option::Some(v@),
            },
        }
    }
}

/// The closed set of action variants; every decision site matches
/// exhaustively on it.
#[derive(Clone, Debug)]
pub enum Action {
    /// Position 0 of every chain.
    Dna(Dna),
    /// Position 1 of every chain.
    AgentValidationPkg(AgentValidationPkg),
    /// Marks the end of genesis.
    InitZomesComplete(InitZomesComplete),
    /// Creates an entry.
    Create(Create),
    /// Updates an entry.
    Update(Update),
    /// Deletes an entry-creating action.
    Delete(Delete),
    /// Places a link.
    CreateLink(CreateLink),
    /// Deletes a link.
    DeleteLink(DeleteLink),
    /// Opens the chain from another DNA.
    OpenChain(OpenChain),
    /// Closes the chain.
    CloseChain(CloseChain),
}

/// The mathematical value of an [`Action`].
pub enum ActionView {
    /// Position 0 of every chain.
    Dna(DnaView),
    /// Position 1 of every chain.
    AgentValidationPkg(AgentValidationPkgView),
    /// Marks the end of genesis.
    InitZomesComplete(InitZomesCompleteView),
    /// Creates an entry.
    Create(CreateView),
    /// Updates an entry.
    Update(UpdateView),
    /// Deletes an entry-creating action.
    Delete(DeleteView),
    /// Places a link.
    CreateLink(CreateLinkView),
    /// Deletes a link.
    DeleteLink(DeleteLinkView),
    /// Opens the chain from another DNA.
    OpenChain(OpenChainView),
    /// Closes the chain.
    CloseChain(CloseChainView),
}

impl View for Action {
    type V = ActionView;

    open spec fn view(&self) -> ActionView {
        match self {
            Action::Dna(a) => ActionView::Dna(a@),
            Action::AgentValidationPkg(a) => ActionView::AgentValidationPkg(a@),
            Action::InitZomesComplete(a) => ActionView::InitZomesComplete(a@),
            Action::Create(a) => ActionView::Create(a@),
            Action::Update(a) => ActionView::Update(a@),
            Action::Delete(a) => ActionView::Delete(a@),
            Action::CreateLink(a) => ActionView::CreateLink(a@),
            Action::DeleteLink(a) => ActionView::DeleteLink(a@),
            Action::OpenChain(a) => ActionView::OpenChain(a@),
            Action::CloseChain(a) => ActionView::CloseChain(a@),
        }
    }
}

impl ActionView {
    /// The author key of any variant.
    pub open spec fn author(self) -> Seq<u8> {
        match self {
            ActionView::Dna(a) => a.author,
            ActionView::AgentValidationPkg(a) => a.author,
            ActionView::InitZomesComplete(a) => a.author,
            ActionView::Create(a) => a.author,
            ActionView::Update(a) => a.author,
            ActionView::Delete(a) => a.author,
            ActionView::CreateLink(a) => a.author,
            ActionView::DeleteLink(a) => a.author,
            ActionView::OpenChain(a) => a.author,
            ActionView::CloseChain(a) => a.author,
        }
    }

    /// The timestamp of any variant.
    pub open spec fn timestamp(self) -> i64 {
        match self {
            ActionView::Dna(a) => a.timestamp,
            ActionView::AgentValidationPkg(a) => a.timestamp,
            ActionView::InitZomesComplete(a) => a.timestamp,
            ActionView::Create(a) => a.timestamp,
            ActionView::Update(a) => a.timestamp,
            ActionView::Delete(a) => a.timestamp,
            ActionView::CreateLink(a) => a.timestamp,
            ActionView::DeleteLink(a) => a.timestamp,
            ActionView::OpenChain(a) => a.timestamp,
            ActionView::CloseChain(a) => a.timestamp,
        }
    }

    /// The chain position: 0 for `Dna`, the carried sequence number
    /// otherwise.
    pub open spec fn action_seq(self) -> u32 {
        match self {
            ActionView::Dna(_) => 0u32,
            ActionView::AgentValidationPkg(a) => a.action_seq,
            ActionView::InitZomesComplete(a) => a.action_seq,
            ActionView::Create(a) => a.action_seq,
            ActionView::Update(a) => a.action_seq,
            ActionView::Delete(a) => a.action_seq,
            ActionView::CreateLink(a) => a.action_seq,
            ActionView::DeleteLink(a) => a.action_seq,
            ActionView::OpenChain(a) => a.action_seq,
            ActionView::CloseChain(a) => a.action_seq,
        }
    }

    /// The hash of the previous action; `None` for `Dna`.
    pub open spec fn prev_action(self) -> Option<Seq<u8>> {
        match self {
            ActionView::Dna(_) => Option::None,
            ActionView::AgentValidationPkg(a) => Option::Some(a.prev_action),
            ActionView::InitZomesComplete(a) => Option::Some(a.prev_action),
            ActionView::Create(a) => Option::Some(a.prev_action),
            ActionView::Update(a) => Option::Some(a.prev_action),
            ActionView::Delete(a) => Option::Some(a.prev_action),
            ActionView::CreateLink(a) => Option::Some(a.prev_action),
            ActionView::DeleteLink(a) => Option::Some(a.prev_action),
            ActionView::OpenChain(a) => Option::Some(a.prev_action),
            ActionView::CloseChain(a) => Option::Some(a.prev_action),
        }
    }

    /// The hash of the entry the action creates; `None` unless the
    /// variant is `Create` or `Update`.
    pub open spec fn entry_hash(self) -> Option<Seq<u8>> {
        match self {
            ActionView::Create(a) => Option::Some(a.entry_hash),
            ActionView::Update(a) => Option::Some(a.entry_hash),
            _ => Option::None,
        }
    }
}

impl Action {
    /// The author key.
    pub fn author(&self) -> (r: &Vec<u8>)
        ensures
            r@ == self@.author(),
    {
        match self {
            Action::Dna(a) => &a.author,
            Action::AgentValidationPkg(a) => &a.author,
            Action::InitZomesComplete(a) => &a.author,
            Action::Create(a) => &a.author,
            Action::Update(a) => &a.author,
            Action::Delete(a) => &a.author,
            Action::CreateLink(a) => &a.author,
            Action::DeleteLink(a) => &a.author,
            Action::OpenChain(a) => &a.author,
            Action::CloseChain(a) => &a.author,
        }
    }

    /// The microsecond timestamp.
    pub fn timestamp(&self) -> (r: i64)
        ensures
            r == self@.timestamp(),
    {
        match self {
            Action::Dna(a) => a.timestamp,
            Action::AgentValidationPkg(a) => a.timestamp,
            Action::InitZomesComplete(a) => a.timestamp,
            Action::Create(a) => a.timestamp,
            Action::Update(a) => a.timestamp,
            Action::Delete(a) => a.timestamp,
            Action::CreateLink(a) => a.timestamp,
            Action::DeleteLink(a) => a.timestamp,
            Action::OpenChain(a) => a.timestamp,
            Action::CloseChain(a) => a.timestamp,
        }
    }

    /// The chain position: 0 for `Dna`.
    pub fn action_seq(&self) -> (r: u32)
        ensures
            r == self@.action_seq(),
    {
        match self {
            Action::Dna(_) => 0,
            Action::AgentValidationPkg(a) => a.action_seq,
            Action::InitZomesComplete(a) => a.action_seq,
            Action::Create(a) => a.action_seq,
            Action::Update(a) => a.action_seq,
            Action::Delete(a) => a.action_seq,
            Action::CreateLink(a) => a.action_seq,
            Action::DeleteLink(a) => a.action_seq,
            Action::OpenChain(a) => a.action_seq,
            Action::CloseChain(a) => a.action_seq,
        }
    }

    /// The hash of the previous action; `None` for `Dna`.
    pub fn prev_action(&self) -> (r: Option<&Vec<u8>>)
        ensures
            match r {
                Option::Some(h) => self@.prev_action() == Option::Some(h@),
                Option::None => self@.prev_action() is None,
            },
    {
        match self {
            Action::Dna(_) => Option::None,
            Action::AgentValidationPkg(a) => Option::Some(&a.prev_action),
            Action::InitZomesComplete(a) => Option::Some(&a.prev_action),
            Action::Create(a) => Option::Some(&a.prev_action),
            Action::Update(a) => Option::Some(&a.prev_action),
            Action::Delete(a) => Option::Some(&a.prev_action),
            Action::CreateLink(a) => Option::Some(&a.prev_action),
            Action::DeleteLink(a) => Option::Some(&a.prev_action),
            Action::OpenChain(a) => Option::Some(&a.prev_action),
            Action::CloseChain(a) => Option::Some(&a.prev_action),
        }
    }

    /// The hash of the entry the action creates, if any.
    pub fn entry_hash(&self) -> (r: Option<&Vec<u8>>)
        ensures
            match r {
                Option::Some(h) => self@.entry_hash() == Option::Some(h@),
                Option::None => self@.entry_hash() is None,
            },
    {
        match self {
            Action::Create(a) => Option::Some(&a.entry_hash),
            Action::Update(a) => Option::Some(&a.entry_hash),
            _ => Option::None,
        }
    }
}

/// An action together with its author's signature over the action's
/// canonical bytes.
#[derive(Clone, Debug)]
pub struct SignedAction {
    /// The action.
    pub action: Action,
    /// The author's signature over the action's canonical bytes.
    pub signature: Vec<u8>,
}

/// The mathematical value of a [`SignedAction`].
pub struct SignedActionView {
    /// The action.
    pub action: ActionView,
    /// The signature bytes.
    pub signature: Seq<u8>,
}

impl View for SignedAction {
    type V = SignedActionView;

    open spec fn view(&self) -> SignedActionView {
        SignedActionView { action: self.action@, signature: self.signature@ }
    }
}

/// The canonical byte encoding of an action: a variant tag followed by
/// the variant's fields, integers little-endian, byte strings framed by
/// their length.  Hashes are taken over exactly these bytes, so the
/// encoding is stable across nodes.
pub open spec fn spec_action_bytes(a: ActionView) -> Seq<u8> {
    match a {
        ActionView::Dna(v) => seq![0u8] + spec_framed_bytes(v.author) + spec_i64_le(v.timestamp)
            + spec_framed_bytes(v.hash),
        ActionView::AgentValidationPkg(v) => seq![1u8] + spec_framed_bytes(v.author) + spec_i64_le(
            v.timestamp,
        ) + spec_u32_le(v.action_seq) + spec_framed_bytes(v.prev_action) + spec_framed_opt_bytes(
            v.membrane_proof,
        ),
        ActionView::InitZomesComplete(v) => seq![2u8] + spec_framed_bytes(v.author) + spec_i64_le(
            v.timestamp,
        ) + spec_u32_le(v.action_seq) + spec_framed_bytes(v.prev_action),
        ActionView::Create(v) => seq![3u8] + spec_framed_bytes(v.author) + spec_i64_le(v.timestamp)
            + spec_u32_le(v.action_seq) + spec_framed_bytes(v.prev_action) + spec_entry_type_bytes(
            v.entry_type,
        ) + spec_framed_bytes(v.entry_hash),
        ActionView::Update(v) => seq![4u8] + spec_framed_bytes(v.author) + spec_i64_le(v.timestamp)
            + spec_u32_le(v.action_seq) + spec_framed_bytes(v.prev_action) + spec_framed_bytes(
            v.original_action_address,
        ) + spec_framed_bytes(v.original_entry_address) + spec_entry_type_bytes(v.entry_type)
            + spec_framed_bytes(v.entry_hash),
        ActionView::Delete(v) => seq![5u8] + spec_framed_bytes(v.author) + spec_i64_le(v.timestamp)
            + spec_u32_le(v.action_seq) + spec_framed_bytes(v.prev_action) + spec_framed_bytes(
            v.deletes_address,
        ) + spec_framed_bytes(v.deletes_entry_address),
        ActionView::CreateLink(v) => seq![6u8] + spec_framed_bytes(v.author) + spec_i64_le(
            v.timestamp,
        ) + spec_u32_le(v.action_seq) + spec_framed_bytes(v.prev_action) + spec_framed_bytes(
            v.base_address,
        ) + spec_framed_bytes(v.target_address) + seq![v.link_type] + spec_framed_bytes(v.tag),
        ActionView::DeleteLink(v) => seq![7u8] + spec_framed_bytes(v.author) + spec_i64_le(
            v.timestamp,
        ) + spec_u32_le(v.action_seq) + spec_framed_bytes(v.prev_action) + spec_framed_bytes(
            v.base_address,
        ) + spec_framed_bytes(v.link_add_address),
        ActionView::OpenChain(v) => seq![8u8] + spec_framed_bytes(v.author) + spec_i64_le(
            v.timestamp,
        ) + spec_u32_le(v.action_seq) + spec_framed_bytes(v.prev_action) + spec_framed_bytes(
            v.prev_dna_hash,
        ),
        ActionView::CloseChain(v) => seq![9u8] + spec_framed_bytes(v.author) + spec_i64_le(
            v.timestamp,
        ) + spec_u32_le(v.action_seq) + spec_framed_bytes(v.prev_action) + spec_framed_opt_bytes(
            v.new_dna_hash,
        ),
    }
}

/// The canonical bytes of an entry type: a tag byte, and for app types
/// the entry index, zome index and visibility.
pub open spec fn spec_entry_type_bytes(t: EntryType) -> Seq<u8> {
    match t {
        EntryType::App(a) => seq![
            0u8,
            a.entry_index,
            a.zome_index,
            if a.visibility == EntryVisibility::Public {
                0u8
            } else {
                1u8
            },
        ],
        EntryType::AgentPubKey => seq![1u8],
        EntryType::CapClaim => seq![2u8],
        EntryType::CapGrant => seq![3u8],
    }
}

/// The canonical bytes of an entry: a tag byte followed by its framed
/// content bytes.
pub open spec fn spec_entry_bytes(e: EntryView) -> Seq<u8> {
    match e {
        EntryView::App(b) => seq![0u8] + spec_framed_bytes(b),
        EntryView::Agent(b) => seq![1u8] + spec_framed_bytes(b),
        EntryView::CapClaim(b) => seq![2u8] + spec_framed_bytes(b),
        EntryView::CapGrant(b) => seq![3u8] + spec_framed_bytes(b),
    }
}

/// Append the canonical bytes of an entry type.
fn push_entry_type_bytes(out: &mut Vec<u8>, t: &EntryType)
    ensures
        final(out)@ == old(out)@ + spec_entry_type_bytes(*t),
{
    match t {
        EntryType::App(a) => {
            out.push(0u8);
            out.push(a.entry_index);
            out.push(a.zome_index);
            if a.visibility == EntryVisibility::Public {
                out.push(0u8);
            } else {
                out.push(1u8);
            }
            proof {
                assert(out@ =~= old(out)@ + spec_entry_type_bytes(*t));
            }
        },
        EntryType::AgentPubKey => {
            out.push(1u8);
            proof {
                assert(out@ =~= old(out)@ + spec_entry_type_bytes(*t));
            }
        },
        EntryType::CapClaim => {
            out.push(2u8);
            proof {
                assert(out@ =~= old(out)@ + spec_entry_type_bytes(*t));
            }
        },
        EntryType::CapGrant => {
            out.push(3u8);
            proof {
                assert(out@ =~= old(out)@ + spec_entry_type_bytes(*t));
            }
        },
    }
}

/// The canonical byte encoding of an action.
pub fn action_canonical_bytes(a: &Action) -> (r: Vec<u8>)
    ensures
        r@ == spec_action_bytes(a@),
{
    let mut out: Vec<u8> = Vec::new();
    match a {
        Action::Dna(v) => {
            out.push(0u8);
            push_framed_bytes(&mut out, v.author.as_slice());
            push_i64_le(&mut out, v.timestamp);
            push_framed_bytes(&mut out, v.hash.as_slice());
        },
        Action::AgentValidationPkg(v) => {
            out.push(1u8);
            push_framed_bytes(&mut out, v.author.as_slice());
            push_i64_le(&mut out, v.timestamp);
            push_u32_le(&mut out, v.action_seq);
            push_framed_bytes(&mut out, v.prev_action.as_slice());
            push_framed_opt_bytes(&mut out, &v.membrane_proof);
        },
        Action::InitZomesComplete(v) => {
            out.push(2u8);
            push_framed_bytes(&mut out, v.author.as_slice());
            push_i64_le(&mut out, v.timestamp);
            push_u32_le(&mut out, v.action_seq);
            push_framed_bytes(&mut out, v.prev_action.as_slice());
        },
        Action::Create(v) => {
            out.push(3u8);
            push_framed_bytes(&mut out, v.author.as_slice());
            push_i64_le(&mut out, v.timestamp);
            push_u32_le(&mut out, v.action_seq);
            push_framed_bytes(&mut out, v.prev_action.as_slice());
            push_entry_type_bytes(&mut out, &v.entry_type);
            push_framed_bytes(&mut out, v.entry_hash.as_slice());
        },
        Action::Update(v) => {
            out.push(4u8);
            push_framed_bytes(&mut out, v.author.as_slice());
            push_i64_le(&mut out, v.timestamp);
            push_u32_le(&mut out, v.action_seq);
            push_framed_bytes(&mut out, v.prev_action.as_slice());
            push_framed_bytes(&mut out, v.original_action_address.as_slice());
            push_framed_bytes(&mut out, v.original_entry_address.as_slice());
            push_entry_type_bytes(&mut out, &v.entry_type);
            push_framed_bytes(&mut out, v.entry_hash.as_slice());
        },
        Action::Delete(v) => {
            out.push(5u8);
            push_framed_bytes(&mut out, v.author.as_slice());
            push_i64_le(&mut out, v.timestamp);
            push_u32_le(&mut out, v.action_seq);
            push_framed_bytes(&mut out, v.prev_action.as_slice());
            push_framed_bytes(&mut out, v.deletes_address.as_slice());
            push_framed_bytes(&mut out, v.deletes_entry_address.as_slice());
        },
        Action::CreateLink(v) => {
            out.push(6u8);
            push_framed_bytes(&mut out, v.author.as_slice());
            push_i64_le(&mut out, v.timestamp);
            push_u32_le(&mut out, v.action_seq);
            push_framed_bytes(&mut out, v.prev_action.as_slice());
            push_framed_bytes(&mut out, v.base_address.as_slice());
            push_framed_bytes(&mut out, v.target_address.as_slice());
            out.push(v.link_type);
            push_framed_bytes(&mut out, v.tag.as_slice());
        },
        Action::DeleteLink(v) => {
            out.push(7u8);
            push_framed_bytes(&mut out, v.author.as_slice());
            push_i64_le(&mut out, v.timestamp);
            push_u32_le(&mut out, v.action_seq);
            push_framed_bytes(&mut out, v.prev_action.as_slice());
            push_framed_bytes(&mut out, v.base_address.as_slice());
            push_framed_bytes(&mut out, v.link_add_address.as_slice());
        },
        Action::OpenChain(v) => {
            out.push(8u8);
            push_framed_bytes(&mut out, v.author.as_slice());
            push_i64_le(&mut out, v.timestamp);
            push_u32_le(&mut out, v.action_seq);
            push_framed_bytes(&mut out, v.prev_action.as_slice());
            push_framed_bytes(&mut out, v.prev_dna_hash.as_slice());
        },
        Action::CloseChain(v) => {
            out.push(9u8);
            push_framed_bytes(&mut out, v.author.as_slice());
            push_i64_le(&mut out, v.timestamp);
            push_u32_le(&mut out, v.action_seq);
            push_framed_bytes(&mut out, v.prev_action.as_slice());
            push_framed_opt_bytes(&mut out, &v.new_dna_hash);
        },
    }
    proof {
        assert(out@ =~= spec_action_bytes(a@));
    }
    out
}

/// The canonical byte encoding of an entry.
pub fn entry_canonical_bytes(e: &Entry) -> (r: Vec<u8>)
    ensures
        r@ == spec_entry_bytes(e@),
{
    let mut out: Vec<u8> = Vec::new();
    match e {
        Entry::App(b) => {
            out.push(0u8);
            push_framed_bytes(&mut out, b.as_slice());
        },
        Entry::Agent(b) => {
            out.push(1u8);
            push_framed_bytes(&mut out, b.as_slice());
        },
        Entry::CapClaim(b) => {
            out.push(2u8);
            push_framed_bytes(&mut out, b.as_slice());
        },
        Entry::CapGrant(b) => {
            out.push(3u8);
            push_framed_bytes(&mut out, b.as_slice());
        },
    }
    proof {
        assert(out@ =~= spec_entry_bytes(e@));
    }
    out
}

/// The full 39-byte hash over a content's canonical bytes, under a 3-byte
/// type prefix: prefix, 32-byte BLAKE2b core, 4-byte location checksum.
pub open spec fn spec_content_hash(prefix: Seq<u8>, content: Seq<u8>) -> Seq<u8> {
    let core = blake2b_spec(content, 32);
    prefix + core + spec_location_bytes(core)
}

/// The 39-byte hash of an action.
pub open spec fn spec_action_hash(a: ActionView) -> Seq<u8> {
    spec_content_hash(action_prefix(), spec_action_bytes(a))
}

/// The 39-byte hash of an entry.
pub open spec fn spec_entry_hash(e: EntryView) -> Seq<u8> {
    spec_content_hash(entry_prefix(), spec_entry_bytes(e))
}

/// Hash canonical content bytes under a type prefix.
fn content_hash(prefix0: u8, prefix1: u8, prefix2: u8, content: &Vec<u8>) -> (r: Vec<u8>)
    ensures
        r@ == spec_content_hash(seq![prefix0, prefix1, prefix2], content@),
        r@.len() == 39,
        checksum_ok(r@),
{
    let core = blake2b_256(content.as_slice());
    let loc = holo_dht_location_bytes(core.as_slice());
    let mut out: Vec<u8> = Vec::new();
    out.push(prefix0);
    out.push(prefix1);
    out.push(prefix2);
    out.extend_from_slice(core.as_slice());
    out.extend_from_slice(loc.as_slice());
    proof {
        assert(out@ =~= spec_content_hash(seq![prefix0, prefix1, prefix2], content@));
        assert(out@.subrange(3, 35) =~= blake2b_spec(content@, 32));
        assert(out@.subrange(35, 39) =~= spec_location_bytes(blake2b_spec(content@, 32)));
    }
    out
}

/// The 39-byte hash of an action: the BLAKE2b core over its canonical
/// bytes under the action type prefix, with its location checksum.
pub fn action_hash(a: &Action) -> (r: Vec<u8>)
    ensures
        r@ == spec_action_hash(a@),
        r@.len() == 39,
        checksum_ok(r@),
{
    let content = action_canonical_bytes(a);
    let r = content_hash(ACTION_PREFIX_0, ACTION_PREFIX_1, ACTION_PREFIX_2, &content);
    proof {
        assert(seq![ACTION_PREFIX_0, ACTION_PREFIX_1, ACTION_PREFIX_2] =~= action_prefix());
    }
    r
}

/// The 39-byte hash of an entry, under the entry type prefix.
pub fn entry_hash(e: &Entry) -> (r: Vec<u8>)
    ensures
        r@ == spec_entry_hash(e@),
        r@.len() == 39,
        checksum_ok(r@),
{
    let content = entry_canonical_bytes(e);
    let r = content_hash(ENTRY_PREFIX_0, ENTRY_PREFIX_1, ENTRY_PREFIX_2, &content);
    proof {
        assert(seq![ENTRY_PREFIX_0, ENTRY_PREFIX_1, ENTRY_PREFIX_2] =~= entry_prefix());
    }
    r
}

} // verus!
