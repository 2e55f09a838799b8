//! Resolution and download orchestration for catalog items.
//!
//! Lines of free text are searched for links to tracks, albums, playlists,
//! shows and episodes ([`ident`]); what they name is gathered into groups, one
//! per destination folder ([`store`], [`names`]); the groups are laid out as a
//! plan with a pause between the items of a group ([`schedule`]) and run one
//! action at a time, with backoff when the service refuses a key ([`run`],
//! [`processor`]). Each track is loaded by choosing an available item and its
//! best encoding ([`loader`], [`format`]) and saved under a name made from its
//! title ([`package`]).
//!
//! The library decides and computes; it performs no input or output. Whoever
//! drives it carries out the actions it hands out and reports what happened.
//! Every rule is stated as a contract and proved.

pub mod format;
pub mod ident;
pub mod loader;
pub mod names;
pub mod package;
pub mod processor;
pub mod run;
pub mod schedule;
pub mod store;
pub mod text;
