//! Records: the secret-bearing files of a store, and what can be done to them.
//!
//! A record is a location that is taken to name one encrypted file. Whether
//! the file is there is the caller's to find out; what follows from the
//! answer is decided here. Every change to a record is handed back as a
//! `Plan`, to be carried out as one transaction.

use vstd::prelude::*;
use vstd::string::StringExecFns;

use crate::git::GitError;
use crate::git::lemma_rename_moves_file;
use crate::git::GitOperationResult;
use crate::git::Repository;
use crate::listing::list_locations;
use crate::listing::list_records;
use crate::listing::listing;
use crate::listing::Entry;
use crate::location::joined;
use crate::location::parent_of;
use crate::location::FileKind;
use crate::location::LocationView;
use crate::location::StoreLocation;
use crate::plan::Mutation;
use crate::plan::Plan;
use crate::selector::format_selector;
use crate::selector::selector_text;
use crate::sops::decrypt;
use crate::sops::decrypt_arguments;
use crate::sops::quoted;
use crate::sops::SopsCommand;
use crate::store::Fault;
use crate::store::Store;
use crate::store::StoreError;
use crate::text::bytes_to_string;
use crate::text::str_eq;
use crate::text::text_of;

verus! {

/// A location that stands for one secret-bearing file.
#[derive(Debug)]
pub struct Record<'a> {
    location: StoreLocation<'a>,
}

impl<'a> View for Record<'a> {
    type V = LocationView;

    /// A record is known by its location.
    closed spec fn view(&self) -> LocationView {
        self.location@
    }
}

/// The commit message for editing the record at `name`.
pub open spec fn edit_description(name: Seq<char>) -> Seq<char> {
    "Edit record `"@ + name + "`"@
}

/// The commit message for moving the record at `from` to `to`.
pub open spec fn move_description(from: Seq<char>, to: Seq<char>) -> Seq<char> {
    "Move record `"@ + from + "` => `"@ + to + "`"@
}

/// What is said when the record at `from` cannot be moved to `to`.
pub open spec fn move_failure(from: Seq<char>, to: Seq<char>) -> Seq<char> {
    "Failed to move record `"@ + from + "` => `"@ + to + "`"@
}

/// The commit message for deleting the record at `name`.
pub open spec fn delete_description(name: Seq<char>) -> Seq<char> {
    "Delete record `"@ + name + "`"@
}

/// What is said when the record at `name` cannot be deleted.
pub open spec fn delete_failure(name: Seq<char>) -> Seq<char> {
    "Failed to delete record `"@ + name + "`"@
}

/// The commit message for replacing the contents of the record at `name`.
pub open spec fn update_description(name: Seq<char>) -> Seq<char> {
    "Update contents of record `"@ + name + "`"@
}

/// The commit message for setting what `selector` picks in the record at `name`.
pub open spec fn set_description(selector: Seq<char>, name: Seq<char>) -> Seq<char> {
    "Update `"@ + selector + "` in record `"@ + name + "`"@
}

impl Store {
    /// A record for a secret that is yet to be written at `path`.
    ///
    /// `found` is what is at the location now. Fails if a file is there
    /// already. Nothing is written: before the first write the caller has
    /// to create the record's `parent_directory`.
    pub fn create_record<'a>(&'a self, path: &str, found: FileKind) -> (result: Result<
        Record<'a>,
        StoreError,
    >)
        ensures
            result is Err <==> found == FileKind::File,
            result matches Ok(record) ==> record@.root == self@ && record@.store_filename
                == path@,
            result matches Err(e) ==> e.fault == Fault::SecretExists && e.path@ == joined(
                self@,
                path@,
            ),
    {
        let location = StoreLocation::from_path(self.root(), path);
        if location.is_present(found) {
            return Err(StoreError { fault: Fault::SecretExists, path: location.filename() });
        }
        Ok(Record { location })
    }

    /// The record at `path`, given what was found there. Fails unless a
    /// file is there.
    pub fn get_record<'a>(&'a self, path: &str, found: FileKind) -> (result: Result<
        Record<'a>,
        StoreError,
    >)
        ensures
            result is Ok <==> found == FileKind::File,
            result matches Ok(record) ==> record@.root == self@ && record@.store_filename
                == path@,
            result matches Err(e) ==> e.fault == Fault::SecretMissing && e.path@ == path@,
    {
        let exact_location = StoreLocation::from_path(self.root(), path);
        if exact_location.is_present(found) {
            Ok(Record { location: exact_location })
        } else {
            Err(
                StoreError {
                    fault: Fault::SecretMissing,
                    path: String::from_str(exact_location.store_filename()),
                },
            )
        }
    }

    /// The record at `path`, whether or not a file is there. Never fails.
    pub fn get_record_unchecked<'a>(&'a self, path: &str) -> (result: Result<
        Record<'a>,
        StoreError,
    >)
        ensures
            result matches Ok(record) && record@.root == self@ && record@.store_filename
                == path@,
    {
        let exact_location = StoreLocation::from_path(self.root(), path);
        Ok(Record { location: exact_location })
    }

    /// The location of `path` in this store.
    pub fn location<'a>(&'a self, path: &str) -> (location: StoreLocation<'a>)
        ensures
            location@.root == self@,
            location@.store_filename == path@,
    {
        StoreLocation::from_path(self.root(), path)
    }

    /// The records under `store_path`, or in the whole store where none is
    /// given, as paths relative to the store's root. `tree` is what was
    /// found on disk at that place.
    ///
    /// Hidden entries and what lies below them are left out. At each level
    /// files come before directories, and each kind is ordered by name.
    pub fn list_records(&self, tree: &Entry, store_path: Option<&str>) -> (records: Vec<String>)
        ensures
            records.deep_view() == listing(
                *tree,
                match store_path {
                    Some(p) => p@,
                    None => Seq::empty(),
                },
                false,
            ),
    {
        list_records(tree, store_path)
    }

    /// The records and directories of the store, in the order of
    /// `list_records`, each directory before what it holds. `tree` is what
    /// was found on disk at the store's root.
    pub fn list_locations(&self, tree: &Entry) -> (locations: Vec<String>)
        ensures
            locations.deep_view() == listing(*tree, Seq::empty(), true),
    {
        list_locations(tree)
    }
}

impl<'a> Record<'a> {
    /// The full path of the record's file.
    pub fn filename(&self) -> (path: String)
        ensures
            path@ == self@.filename(),
    {
        self.location.filename()
    }

    /// The path of the record's file relative to the store's root.
    pub fn store_filename(&self) -> (path: &str)
        ensures
            path@ == self@.store_filename,
    {
        self.location.store_filename()
    }

    /// The directory that has to exist before the record can be written.
    pub fn parent_directory(&self) -> (dir: String)
        ensures
            dir@ == parent_of(self@.filename()),
    {
        self.location.parent_directory()
    }

    /// The transaction in which the user edits the decrypted record. The
    /// caller has to create the record's `parent_directory` first.
    pub fn edit_interactive(&self) -> (plan: Plan)
        ensures
            plan.repo_dir@ == self@.root,
            plan.description@ == edit_description(self@.store_filename),
            plan.mutation matches Mutation::EditRecord { file } && file@ == self@.filename(),
            plan.context is None,
    {
        let mut description = String::from_str("Edit record `");
        description.append(self.location.store_filename());
        description.append("`");
        Plan {
            repo_dir: String::from_str(self.location.root()),
            description,
            mutation: Mutation::EditRecord { file: self.location.filename() },
            context: None,
        }
    }

    /// The transaction that moves this record to `destination`, given what
    /// was found there.
    ///
    /// Fails if `destination` lies in another store, and otherwise if a file
    /// is there already. The record itself stays where it is until
    /// `complete_move` is told how the transaction ended. The caller has to
    /// create the `parent_directory` of `destination` first.
    pub fn move_to(&self, destination: &StoreLocation<'a>, found: FileKind) -> (result: Result<
        Plan,
        StoreError,
    >)
        ensures
            match result {
                Err(e) => if self@.root != destination@.root {
                    e.fault == Fault::DifferentStore && e.path@ == destination@.root
                } else {
                    &&& found == FileKind::File
                    &&& e.fault == Fault::DestinationExists
                    &&& e.path@ == destination@.store_filename
                },
                Ok(plan) => {
                    &&& self@.root == destination@.root
                    &&& found != FileKind::File
                    &&& plan.repo_dir@ == self@.root
                    &&& plan.description@ == move_description(
                        self@.store_filename,
                        destination@.store_filename,
                    )
                    &&& plan.mutation matches Mutation::Rename { from, to }
                    &&& from@ == self@.filename()
                    &&& to@ == destination@.filename()
                    &&& plan.context matches Some(context)
                    &&& context@ == move_failure(
                        self@.store_filename,
                        destination@.store_filename,
                    )
                },
            },
    {
        if !str_eq(self.location.root(), destination.root()) {
            return Err(
                StoreError {
                    fault: Fault::DifferentStore,
                    path: String::from_str(destination.root()),
                },
            );
        }
        if destination.is_present(found) {
            return Err(
                StoreError {
                    fault: Fault::DestinationExists,
                    path: String::from_str(destination.store_filename()),
                },
            );
        }
        let mut description = String::from_str("Move record `");
        description.append(self.location.store_filename());
        description.append("` => `");
        description.append(destination.store_filename());
        description.append("`");
        let mut context = String::from_str("Failed to move record `");
        context.append(self.location.store_filename());
        context.append("` => `");
        context.append(destination.store_filename());
        context.append("`");
        Ok(
            Plan {
                repo_dir: String::from_str(self.location.root()),
                description,
                mutation: Mutation::Rename {
                    from: self.location.filename(),
                    to: destination.filename(),
                },
                context: Some(context),
            },
        )
    }

    /// Ends a move: the record is at `destination` from now on if the
    /// transaction succeeded, and stays where it was if it did not.
    pub fn complete_move<E>(
        &mut self,
        destination: StoreLocation<'a>,
        outcome: &Result<GitOperationResult, E>,
    )
        ensures
            final(self)@ == if outcome is Ok {
                destination@
            } else {
                old(self)@
            },
    {
        if outcome.is_ok() {
            self.location = destination;
        }
    }

    /// The transaction that removes this record's file.
    pub fn delete(&self) -> (plan: Plan)
        ensures
            plan.repo_dir@ == self@.root,
            plan.description@ == delete_description(self@.store_filename),
            plan.mutation matches Mutation::Remove { path } && path@ == self@.filename(),
            plan.context matches Some(context) && context@ == delete_failure(
                self@.store_filename,
            ),
    {
        let mut description = String::from_str("Delete record `");
        description.append(self.location.store_filename());
        description.append("`");
        let mut context = String::from_str("Failed to delete record `");
        context.append(self.location.store_filename());
        context.append("`");
        Plan {
            repo_dir: String::from_str(self.location.root()),
            description,
            mutation: Mutation::Remove { path: self.location.filename() },
            context: Some(context),
        }
    }

    /// The transaction that encrypts `contents` into this record, replacing
    /// what it held.
    pub fn encrypt_entire_file(&self, contents: Vec<u8>) -> (plan: Plan)
        ensures
            plan.repo_dir@ == self@.root,
            plan.description@ == update_description(self@.store_filename),
            plan.mutation matches Mutation::Encrypt { file, contents: c } && file@
                == self@.filename() && c@ == contents@,
            plan.context is None,
    {
        let mut description = String::from_str("Update contents of record `");
        description.append(self.location.store_filename());
        description.append("`");
        Plan {
            repo_dir: String::from_str(self.location.root()),
            description,
            mutation: Mutation::Encrypt { file: self.location.filename(), contents },
            context: None,
        }
    }

    /// The transaction that sets the value `selector` picks in this record
    /// to `contents`. The selector is kept as the user wrote it; it is put
    /// into the tool's syntax by `set_command` when the change is made.
    pub fn encrypt_set(&self, selector: &str, contents: Vec<u8>) -> (plan: Plan)
        ensures
            plan.repo_dir@ == self@.root,
            plan.description@ == set_description(selector@, self@.store_filename),
            plan.mutation matches Mutation::SetValue { file, selector: s, contents: c } && file@
                == self@.filename() && s@ == selector@ && c@ == contents@,
            plan.context is None,
    {
        let mut description = String::from_str("Update `");
        description.append(selector);
        description.append("` in record `");
        description.append(self.location.store_filename());
        description.append("`");
        Plan {
            repo_dir: String::from_str(self.location.root()),
            description,
            mutation: Mutation::SetValue {
                file: self.location.filename(),
                selector: String::from_str(selector),
                contents,
            },
            context: None,
        }
    }

    /// The call of SOPS that decrypts this record: all of it, or only the
    /// value that `selector` picks. Nothing is changed by it, so it needs no
    /// transaction.
    pub fn decrypt_and_extract(&self, selector: Option<&str>) -> (command: SopsCommand)
        ensures
            command.workdir@ == self@.root,
            command.arguments.deep_view() == decrypt_arguments(
                self@.store_filename,
                match selector {
                    Some(raw) => Some(selector_text(raw@)),
                    None => None,
                },
            ),
    {
        let selector = format_selector(selector);
        match selector {
            Some(s) => decrypt(
                self.location.root(),
                self.location.store_filename(),
                Some(s.as_str()),
            ),
            None => decrypt(self.location.root(), self.location.store_filename(), None),
        }
    }
}

/// Moving a record to a free place in a clean store is committed:
/// afterwards the file is at the new place with what it held, and nothing
/// is at the old place.
pub proof fn lemma_move_changes_place<E>(repo: Repository, mutation: Mutation, failure: E)
    requires
        repo.clean(),
        mutation matches Mutation::Rename { from, to } && repo.tree.dom().contains(from@)
            && !repo.tree.dom().contains(to@),
    ensures
        mutation.operation(failure) is Some,
        repo.transact(mutation.operation(failure)->0).0 == Ok::<GitOperationResult, GitError<E>>(
            GitOperationResult::Commit,
        ),
        mutation matches Mutation::Rename { from, to } && {
            let after = repo.transact(mutation.operation(failure)->0).1;
            &&& !after.tree.dom().contains(from@)
            &&& after.tree.dom().contains(to@)
            &&& after.tree[to@] == repo.tree[from@]
            &&& after.commits == repo.commits + 1
        },
{
    match mutation {
        Mutation::Rename { from, to } => {
            lemma_rename_moves_file(repo, from@, to@, failure);
        },
        _ => {},
    }
}

/// The call of SOPS that carries out a `Mutation::SetValue`: the selector in
/// the tool's syntax, and the contents, read as text and trimmed, as a JSON
/// string literal.
/// There is none exactly when the contents are not UTF-8.
pub fn set_command(workdir: &str, file: &str, selector: &str, contents: &[u8]) -> (command: Option<
    SopsCommand,
>)
    ensures
        command is Some <==> text_of(contents@) is Some,
        command matches Some(c) ==> c.workdir@ == workdir@ && c.arguments.deep_view() == seq![
            "set"@,
            file@,
            selector_text(selector@),
            quoted(text_of(contents@)->0),
        ],
{
    let formatted = format_selector(Some(selector));
    match bytes_to_string(contents) {
        Some(text) => match formatted {
            Some(s) => Some(crate::sops::set(workdir, file, s.as_str(), text.as_str())),
            None => None,
        },
        None => None,
    }
}

} // verus!
