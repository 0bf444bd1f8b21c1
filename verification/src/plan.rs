//! Plans: what is to be done to the files of a store in one transaction.
//!
//! The library decides what has to happen and under which commit message;
//! the caller carries it out with the protocol of the `git` module.

use vstd::prelude::*;
use vstd::utf8::encode_utf8;

use crate::git::removing;
use crate::git::renaming;
use crate::git::writing;
use crate::git::Operation;

verus! {

/// One change to the files of a store.
#[derive(Debug)]
pub enum Mutation {
    /// Write `text` to the file at `path`, replacing what is there.
    Write { path: String, text: String },
    /// Let the user edit the file at `path` in their editor.
    EditFile { path: String },
    /// Let the user edit the decrypted record at `file` through SOPS.
    EditRecord { file: String },
    /// Rename the file at `from` to `to`.
    Rename { from: String, to: String },
    /// Remove the file at `path`.
    Remove { path: String },
    /// Encrypt `contents` into the record at `file`.
    Encrypt { file: String, contents: Vec<u8> },
    /// Encrypt each of `files` again for the recipients named now; with
    /// `yes`, without asking.
    UpdateKeys { files: Vec<String>, yes: bool },
    /// Run SOPS with `arguments` at the terminal.
    Sops { arguments: Vec<String> },
    /// Set the value that `selector` picks in the record at `file`.
    SetValue { file: String, selector: String, contents: Vec<u8> },
}

/// A change together with the repository and the commit message it is to be
/// committed under.
#[derive(Debug)]
pub struct Plan {
    /// The root of the store, which is the working tree of its repository.
    pub repo_dir: String,
    /// The commit message.
    pub description: String,
    /// What is to be done.
    pub mutation: Mutation,
    /// What to say in front of the error when doing it fails, if anything.
    pub context: Option<String>,
}

impl Mutation {
    /// What this mutation does to the files of a working tree, for the
    /// mutations that the file system carries out by itself; `failure` is
    /// what is reported where the file to act on is missing. What an editor
    /// or SOPS does to a file is theirs to say.
    pub open spec fn operation<E>(self, failure: E) -> Option<Operation<E>> {
        match self {
            Mutation::Write { path, text } => Some(writing(map![path@ => encode_utf8(text@)])),
            Mutation::Rename { from, to } => Some(renaming(from@, to@, failure)),
            Mutation::Remove { path } => Some(removing(path@, failure)),
            _ => None,
        }
    }
}

} // verus!
