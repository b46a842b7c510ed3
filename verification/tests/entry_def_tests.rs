//! The entry definitions a zome exports, and the definition store's
//! errors.

use holo_dht::action::EntryVisibility;
use holo_dht::entry_def::{
    entry_defs, Comment, EntryDefStoreError, EntryDefsCallbackResult, Post, ZomeInfo,
    COMMENT_VALIDATIONS, POST_VALIDATIONS,
};

#[test]
fn post_and_comment_definitions() {
    let p = Post::entry_def();
    assert_eq!(p.id.0, "post");
    assert_eq!(p.visibility, EntryVisibility::Public);
    assert_eq!(p.required_validations.0, POST_VALIDATIONS);
    assert_eq!(p.required_validations.0, 8);

    let c = Comment::entry_def();
    assert_eq!(c.id.0, "comment");
    assert_eq!(c.visibility, EntryVisibility::Private);
    assert_eq!(c.required_validations.0, COMMENT_VALIDATIONS);
    assert_eq!(c.required_validations.0, 3);
}

#[test]
fn entry_defs_exports_both_under_the_zome_name() {
    let info = ZomeInfo {
        zome_name: String::from("entry_defs_zome"),
    };
    let EntryDefsCallbackResult::Defs(name, defs) = entry_defs(info);
    assert_eq!(name, "entry_defs_zome");
    assert_eq!(defs.0.len(), 2);
    assert_eq!(defs.0[0].id.0, "post");
    assert_eq!(defs.0[1].id.0, "comment");
}

#[test]
fn error_messages() {
    let e = EntryDefStoreError::TooManyEntryDefs;
    assert_eq!(
        e.message(),
        "Too many entry definitions in a single zome. Entry definitions are limited to 255 per zome"
    );
    let d = EntryDefStoreError::DnaError(String::from("missing zome"));
    assert_eq!(d.message(), "missing zome");
}
