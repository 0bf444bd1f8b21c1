//! A hierarchical secret store: encrypted records in a directory tree that is
//! the working tree of a Git repository.
//!
//! Every change to the store is one commit, made only if the change
//! succeeded and altered something. Records are SOPS-encrypted JSON or YAML
//! documents; a selector picks one value out of a record, and the attributes
//! of a record are the selectors of its strings.
//!
//! The library decides and the caller acts. Nothing here reads a file, runs
//! a program or waits for the user: the caller looks at the disk and tells
//! the library what it found, the library says what is to be done, and the
//! caller does it and reports back. What the library decides is stated in
//! the contracts of its functions and proved.
//!
//! - [`location`], [`store`], [`record`]: where things are in a store, when
//!   a store is valid, and what may be done to a record.
//! - [`git`], [`plan`]: the protocol that turns a change into a commit, and
//!   the changes themselves.
//! - [`listing`]: which records a directory tree holds, and in which order.
//! - [`selector`], [`document`]: selectors, and the attributes of a document.
//! - [`sops`]: the command lines of the encryption tool.
//! - [`auto_transforms`], [`output`], [`qr`], [`interactive`]: how a secret
//!   is handed to the user.
//! - [`cli`], [`completion`]: what the command line needs.
//! - [`text`]: helpers for characters and bytes.

pub mod auto_transforms;
pub mod cli;
pub mod completion;
pub mod document;
pub mod git;
pub mod interactive;
pub mod listing;
pub mod location;
pub mod output;
pub mod plan;
pub mod qr;
pub mod record;
pub mod selector;
pub mod sops;
pub mod store;
pub mod text;
