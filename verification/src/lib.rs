//! The verified core of a skills manager.
//!
//! Installing: [`reference`] parses what the user names, [`source`] decides
//! how a tree is acquired and what is recorded of it, [`install`] what a
//! fetched tree means. Archives: [`download`] restricts the transport and
//! orders the work so that only a full pass publishes, [`archive`] checks
//! formats, ZIP end records and paths, [`decompress`] expands compressed
//! streams within a limit, [`extract`] reads ZIP and TAR archives and plans
//! every directory and file an extraction writes. Presets: [`members`] edits
//! their members, [`legacy`] plans the upgrade of legacy tags, [`migration`]
//! replaces their definitions with a rollback that keeps other people's
//! edits. Interface: [`settings`], [`icons`], [`color`], [`group`],
//! [`cards`], [`skill`], [`compact`], [`pill`], [`summary`], [`highlight`],
//! [`panel`], [`layout`], [`strip`], [`choice`], [`prompt`],
//! [`name_choices`], [`tag_keys`] and [`preset_keys`] hold its rules,
//! independent of drawing.
use vstd::prelude::*;

pub mod text;
pub mod meta;
pub mod reference;
pub mod source;
pub mod install;
pub mod download;
pub mod archive;
pub mod decompress;
pub mod members;
pub mod migration;
pub mod color;
pub mod icons;
pub mod settings;
pub mod choice;
pub mod group;
pub mod cards;
pub mod skill;
pub mod summary;
pub mod highlight;
pub mod panel;
pub mod layout;
pub mod prompt;
pub mod name_choices;
pub mod tag_keys;
pub mod preset_keys;
pub mod legacy;
pub mod strip;
pub mod extract;
pub mod pill;
pub mod compact;

verus! {

} // verus!
