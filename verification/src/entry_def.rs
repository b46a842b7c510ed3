//! Entry definitions a zome exports, and the errors of the definition
//! store.

use vstd::prelude::*;
use crate::action::EntryVisibility;

verus! {

/// The app-chosen name of an entry definition.
#[derive(Clone, Debug)]
pub struct EntryDefId(pub String);

/// The conflict-resolution type of an entry definition.
#[derive(Clone, Copy, Debug, PartialEq, Eq, Structural)]
pub struct CrdtType;

/// How many validation receipts an entry of this type must gather.
#[derive(Clone, Copy, Debug, PartialEq, Eq, Structural)]
pub struct RequiredValidations(pub u8);

/// One entry definition: its name, visibility, conflict type and
/// required validations.
#[derive(Clone, Debug)]
pub struct EntryDef {
    /// The definition's name.
    pub id: EntryDefId,
    /// Whether entries of this type are published or private.
    pub visibility: EntryVisibility,
    /// The conflict-resolution type.
    pub crdt_type: CrdtType,
    /// Validation receipts required.
    pub required_validations: RequiredValidations,
}

/// The definitions a zome exports, in declaration order.
#[derive(Clone, Debug)]
pub struct EntryDefs(pub Vec<EntryDef>);

/// What the host tells a zome about itself.
#[derive(Clone, Debug)]
pub struct ZomeInfo {
    /// The zome's name.
    pub zome_name: String,
}

/// The result of the `entry_defs` callback: the zome's name and its
/// definitions.
#[derive(Debug)]
pub enum EntryDefsCallbackResult {
    /// The exported definitions.
    Defs(String, EntryDefs),
}

/// The post entry type exported by the example zome.
pub struct Post;

/// The comment entry type exported by the example zome.
pub struct Comment;

/// Validations required for a post.
pub const POST_VALIDATIONS: u8 = 8;

/// Validations required for a comment.
pub const COMMENT_VALIDATIONS: u8 = 3;

impl Post {
    /// The definition of the post type: public, eight validations.
    pub fn entry_def() -> (r: EntryDef)
        ensures
            r.id.0@ == "post"@,
            r.visibility == EntryVisibility::Public,
            r.required_validations.0 == POST_VALIDATIONS,
    {
        EntryDef {
            id: EntryDefId(String::from_str("post")),
            visibility: EntryVisibility::Public,
            crdt_type: CrdtType,
            required_validations: RequiredValidations(POST_VALIDATIONS),
        }
    }
}

impl Comment {
    /// The definition of the comment type: private, three validations.
    pub fn entry_def() -> (r: EntryDef)
        ensures
            r.id.0@ == "comment"@,
            r.visibility == EntryVisibility::Private,
            r.required_validations.0 == COMMENT_VALIDATIONS,
    {
        EntryDef {
            id: EntryDefId(String::from_str("comment")),
            visibility: EntryVisibility::Private,
            crdt_type: CrdtType,
            required_validations: RequiredValidations(COMMENT_VALIDATIONS),
        }
    }
}

/// The `entry_defs` callback: export the post and comment definitions
/// under this zome's name.  The WASM framing around the call — host
/// calls and serialization — stays at the edge; this is what the
/// callback computes.
pub fn entry_defs(zome_info: ZomeInfo) -> (r: EntryDefsCallbackResult)
    ensures
        ({
            let EntryDefsCallbackResult::Defs(name, defs) = r;
            &&& name@ == zome_info.zome_name@
            &&& defs.0@.len() == 2
            &&& defs.0@[0].id.0@ == "post"@
            &&& defs.0@[0].visibility == EntryVisibility::Public
            &&& defs.0@[0].required_validations.0 == POST_VALIDATIONS
            &&& defs.0@[1].id.0@ == "comment"@
            &&& defs.0@[1].visibility == EntryVisibility::Private
            &&& defs.0@[1].required_validations.0 == COMMENT_VALIDATIONS
        }),
{
    let mut defs: Vec<EntryDef> = Vec::new();
    defs.push(Post::entry_def());
    defs.push(Comment::entry_def());
    EntryDefsCallbackResult::Defs(zome_info.zome_name, EntryDefs(defs))
}

/// The errors of the entry-definition store.
#[derive(Clone, Debug)]
pub enum EntryDefStoreError {
    /// The DNA's ribosome failed to produce definitions.
    DnaError(String),
    /// Too many entry definitions in a single zome; definitions are
    /// limited to 255 per zome.
    TooManyEntryDefs,
}

impl EntryDefStoreError {
    /// The error rendered for a reader.
    pub fn message(&self) -> (r: String)
        ensures
            *self is TooManyEntryDefs ==> r@
                == "Too many entry definitions in a single zome. Entry definitions are limited to 255 per zome"@,
            *self is DnaError ==> r@ == self->DnaError_0@,
    {
        match self {
            EntryDefStoreError::DnaError(s) => {
                let r = String::from_str(s.as_str());
                r
            },
            EntryDefStoreError::TooManyEntryDefs => String::from_str(
                "Too many entry definitions in a single zome. Entry definitions are limited to 255 per zome",
            ),
        }
    }
}

} // verus!
