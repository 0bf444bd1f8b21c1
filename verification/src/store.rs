//! The store: a directory that holds a SOPS configuration file and is the
//! working tree of a Git repository.
//!
//! A `Store` value says that its root passed validation when it was opened.
//! It does not promise that the root is still valid later: files can be
//! removed by anyone, so what depends on a file being there asks again.

use vstd::prelude::*;
use vstd::string::StringExecFns;

use crate::git::Event;
use crate::location::join;
use crate::location::joined;
use crate::location::FileKind;
use crate::plan::Mutation;
use crate::plan::Plan;

verus! {

/// The name of the SOPS configuration file at the root of every store.
pub const SOPS_CONFIG_FILENAME: &'static str = ".sops.yaml";

/// The configuration a new store starts with.
pub const DEFAULT_SOPS_CONFIG: &'static str =
    "# Reference: https://github.com/getsops/sops?tab=readme-ov-file#using-sops-yaml-conf-to-select-kms-pgp-and-age-for-new-files\nkeys:\n  - &key1: abc\n  - &key2: def\n\ncreation_rules:\n  - key_groups:\n      - age:\n          - *key1\n          - *key2\n";

/// The commit message under which the default configuration is written.
pub const WRITE_CONFIG_DESCRIPTION: &'static str = "Write default SOPS config";

/// The commit message under which the configuration is edited.
pub const EDIT_CONFIG_DESCRIPTION: &'static str = "Edit SOPS config";

/// What is said when the default configuration cannot be written.
pub const WRITE_CONFIG_FAILURE: &'static str = "Failed to write SOPS config file";

/// What is said when the configuration cannot be edited.
pub const EDIT_CONFIG_FAILURE: &'static str = "Failed to edit SOPS config file";

/// What is wrong with a store or with a request made of it.
#[derive(Clone, Copy, Debug, PartialEq, Eq, Structural)]
pub enum Fault {
    /// Nothing exists at the store's root.
    RootMissing,
    /// The store's root is not a directory.
    RootNotDirectory,
    /// The root holds no SOPS configuration file.
    ConfigMissing,
    /// The root is not inside a Git repository.
    NotRepository,
    /// A record was to be created where one already is.
    SecretExists,
    /// No record is where one was asked for.
    SecretMissing,
    /// A record was to be moved into another store.
    DifferentStore,
    /// A record was to be moved to where one already is.
    DestinationExists,
}

/// A fault, and the path it was found at.
#[derive(Debug)]
pub struct StoreError {
    /// What is wrong.
    pub fault: Fault,
    /// The path the user is shown with it.
    pub path: String,
}

/// A store that could not be opened, and why.
#[derive(Debug)]
pub struct InvalidStore {
    /// The root that was to be opened.
    pub root: String,
    /// The first validity condition that does not hold.
    pub cause: StoreError,
}

/// What was found on disk where a store is to be opened.
#[derive(Clone, Copy, Debug, PartialEq, Eq, Structural)]
pub struct StoreProbe {
    /// What is at the root.
    pub root: FileKind,
    /// What is at the place of the configuration file.
    pub config: FileKind,
    /// Whether the root lies in the working tree of a Git repository.
    pub repository: bool,
}

/// The text in front of the path in the message for a fault.
pub open spec fn fault_prefix(fault: Fault) -> Seq<char> {
    match fault {
        Fault::RootMissing => "Store root does not exist at `"@,
        Fault::RootNotDirectory => "Store root `"@,
        Fault::ConfigMissing => "Store root does not contain a SOPS config file at `"@,
        Fault::NotRepository => "Store directory `"@,
        Fault::SecretExists => "Secret already exists at `"@,
        Fault::SecretMissing => "No secret found at `"@,
        Fault::DifferentStore => "Cannot move record to a different store: "@,
        Fault::DestinationExists => "Destination `"@,
    }
}

/// The text behind the path in the message for a fault.
pub open spec fn fault_suffix(fault: Fault) -> Seq<char> {
    match fault {
        Fault::RootMissing => "`"@,
        Fault::RootNotDirectory => "` is not a directory"@,
        Fault::ConfigMissing => "`"@,
        Fault::NotRepository => "` is not a Git repository"@,
        Fault::SecretExists => "`"@,
        Fault::SecretMissing => "`"@,
        Fault::DifferentStore => ""@,
        Fault::DestinationExists => "` already exists"@,
    }
}

/// The first validity condition that `probe` fails, if it fails one: the
/// root exists, it is a directory, it holds a configuration file, and it
/// lies in a Git repository, asked in this order.
pub open spec fn first_fault(probe: StoreProbe) -> Option<Fault> {
    if probe.root == FileKind::Missing {
        Some(Fault::RootMissing)
    } else if probe.root != FileKind::Directory {
        Some(Fault::RootNotDirectory)
    } else if probe.config != FileKind::File {
        Some(Fault::ConfigMissing)
    } else if !probe.repository {
        Some(Fault::NotRepository)
    } else {
        None
    }
}

/// Whether all four validity conditions hold of what was found.
pub open spec fn is_valid(probe: StoreProbe) -> bool {
    &&& probe.root != FileKind::Missing
    &&& probe.root == FileKind::Directory
    &&& probe.config == FileKind::File
    &&& probe.repository
}

/// A store is free of faults exactly when all four conditions hold, and
/// each condition that can fail alone has a fault of its own.
pub proof fn lemma_valid_iff_no_fault(probe: StoreProbe)
    ensures
        first_fault(probe) is None <==> is_valid(probe),
        is_valid(probe) ==> {
            &&& first_fault(StoreProbe { root: FileKind::Missing, ..probe }) == Some(
                Fault::RootMissing,
            )
            &&& first_fault(StoreProbe { root: FileKind::File, ..probe }) == Some(
                Fault::RootNotDirectory,
            )
            &&& first_fault(StoreProbe { config: FileKind::Missing, ..probe }) == Some(
                Fault::ConfigMissing,
            )
            &&& first_fault(StoreProbe { repository: false, ..probe }) == Some(
                Fault::NotRepository,
            )
        },
{
}

impl StoreError {
    /// The message shown to the user: the fault's text around the path.
    pub fn message(&self) -> (message: String)
        ensures
            message@ == fault_prefix(self.fault) + self.path@ + fault_suffix(self.fault),
    {
        let prefix = match self.fault {
            Fault::RootMissing => "Store root does not exist at `",
            Fault::RootNotDirectory => "Store root `",
            Fault::ConfigMissing => "Store root does not contain a SOPS config file at `",
            Fault::NotRepository => "Store directory `",
            Fault::SecretExists => "Secret already exists at `",
            Fault::SecretMissing => "No secret found at `",
            Fault::DifferentStore => "Cannot move record to a different store: ",
            Fault::DestinationExists => "Destination `",
        };
        let suffix = match self.fault {
            Fault::RootMissing => "`",
            Fault::RootNotDirectory => "` is not a directory",
            Fault::ConfigMissing => "`",
            Fault::NotRepository => "` is not a Git repository",
            Fault::SecretExists => "`",
            Fault::SecretMissing => "`",
            Fault::DifferentStore => "",
            Fault::DestinationExists => "` already exists",
        };
        let mut message = String::from_str(prefix);
        message.append(self.path.as_str());
        message.append(suffix);
        message
    }
}

impl InvalidStore {
    /// The message shown to the user; `cause` says which condition failed.
    pub fn message(&self) -> (message: String)
        ensures
            message@ == "Store at `"@ + self.root@ + "` is invalid"@,
    {
        let mut message = String::from_str("Store at `");
        message.append(self.root.as_str());
        message.append("` is invalid");
        message
    }
}

/// Where the configuration file of the store at `root` lies.
pub fn config_filename(root: &str) -> (path: String)
    ensures
        path@ == joined(root@, SOPS_CONFIG_FILENAME@),
{
    join(root, SOPS_CONFIG_FILENAME)
}

/// Checks what was found at `root` against the four validity conditions and
/// reports the first that does not hold, with the path it is about.
pub fn check_store_is_valid(root: &str, probe: StoreProbe) -> (result: Result<(), StoreError>)
    ensures
        result is Ok <==> is_valid(probe),
        result matches Err(e) ==> {
            &&& Some(e.fault) == first_fault(probe)
            &&& e.path@ == if e.fault == Fault::ConfigMissing {
                joined(root@, SOPS_CONFIG_FILENAME@)
            } else {
                root@
            }
        },
{
    if probe.root == FileKind::Missing {
        return Err(StoreError { fault: Fault::RootMissing, path: String::from_str(root) });
    }
    if probe.root != FileKind::Directory {
        return Err(StoreError { fault: Fault::RootNotDirectory, path: String::from_str(root) });
    }
    if probe.config != FileKind::File {
        return Err(StoreError { fault: Fault::ConfigMissing, path: config_filename(root) });
    }
    if !probe.repository {
        return Err(StoreError { fault: Fault::NotRepository, path: String::from_str(root) });
    }
    Ok(())
}

/// A store that was valid when it was opened or made.
#[derive(Debug)]
pub struct Store {
    root: String,
}

impl View for Store {
    type V = Seq<char>;

    /// A store is known by its root.
    closed spec fn view(&self) -> Seq<char> {
        self.root@
    }
}

/// Where making a new store stands: what it is waiting to hear.
#[derive(Clone, Copy, Debug, PartialEq, Eq, Structural)]
pub enum InitPhase {
    /// Nothing has been asked for yet.
    Start,
    /// Waiting for the root and its ancestors to be created.
    CreatingDirectories,
    /// Waiting for the Git repository to be initialised.
    InitialisingRepository,
    /// Waiting for the transaction that writes the default configuration.
    WritingConfig,
    /// The store has been made, or making it has failed.
    Finished,
}

/// Why a new store could not be made. `E` is the caller's error type.
#[derive(Debug)]
pub enum InitError<E> {
    /// The root could not be created.
    CreateDirectories(E),
    /// The Git repository could not be initialised.
    InitRepository(E),
    /// The default configuration was not written and committed. The root and
    /// the repository are there; the store has no configuration yet.
    WriteConfig(E),
    /// An event was reported that answers nothing that had been asked for.
    Unexpected,
}

/// What the caller has to do next to make a new store.
#[derive(Debug)]
pub enum InitAction<E> {
    /// Create the root directory and every ancestor that is missing.
    CreateDirectories,
    /// Initialise a Git repository at the root.
    InitRepository,
    /// Carry out this plan as one transaction.
    Transact(Plan),
    /// Stop: the store has been made, or making it has failed.
    Finish(Result<Store, InitError<E>>),
}

/// The state of making a store with the action that is pending in it.
pub struct InitStep<E> {
    /// The phase once the action has been handed out.
    pub phase: InitPhase,
    /// What the caller has to do now.
    pub action: InitAction<E>,
}

impl Store {
    /// Opens the store at `root`, given what was found there.
    ///
    /// Succeeds exactly when the root exists, is a directory, holds a
    /// configuration file and lies in a Git repository. Otherwise the error
    /// names the first of these that does not hold.
    pub fn open(root: &str, probe: StoreProbe) -> (result: Result<Store, InvalidStore>)
        ensures
            result is Ok <==> is_valid(probe),
            result matches Ok(store) ==> store@ == root@,
            result matches Err(e) ==> {
                &&& e.root@ == root@
                &&& Some(e.cause.fault) == first_fault(probe)
                &&& e.cause.path@ == if e.cause.fault == Fault::ConfigMissing {
                    joined(root@, SOPS_CONFIG_FILENAME@)
                } else {
                    root@
                }
            },
    {
        match check_store_is_valid(root, probe) {
            Ok(()) => Ok(Store { root: String::from_str(root) }),
            Err(cause) => Err(InvalidStore { root: String::from_str(root), cause }),
        }
    }

    /// The root directory of the store.
    pub fn root(&self) -> (root: &str)
        ensures
            root@ == self@,
    {
        self.root.as_str()
    }

    /// The transaction that puts the default configuration into the store at `root`.
    pub fn default_config_plan(root: &str) -> (plan: Plan)
        ensures
            plan.repo_dir@ == root@,
            plan.description@ == WRITE_CONFIG_DESCRIPTION@,
            plan.mutation matches Mutation::Write { path, text } && path@ == joined(
                root@,
                SOPS_CONFIG_FILENAME@,
            ) && text@ == DEFAULT_SOPS_CONFIG@,
            plan.context matches Some(context) && context@ == WRITE_CONFIG_FAILURE@,
    {
        Plan {
            repo_dir: String::from_str(root),
            description: String::from_str(WRITE_CONFIG_DESCRIPTION),
            mutation: Mutation::Write {
                path: config_filename(root),
                text: String::from_str(DEFAULT_SOPS_CONFIG),
            },
            context: Some(String::from_str(WRITE_CONFIG_FAILURE)),
        }
    }

    /// Decides how making a store at `root` goes on after `event` was
    /// reported in `phase`. It starts in `InitPhase::Start` with any event.
    ///
    /// The root is created first, then the repository is initialised, then
    /// the default configuration is written in one transaction. The first
    /// step that fails ends it with that step's error. Whether the
    /// transaction committed anything or found nothing to commit, the store
    /// is made.
    pub fn init<E>(root: &str, phase: InitPhase, event: Event<E>) -> (step: InitStep<E>)
        ensures
            step.phase == init_phase_after(phase, event),
            match (phase, event) {
                (InitPhase::Start, _) => step.action is CreateDirectories,
                (InitPhase::CreatingDirectories, Event::Succeeded) => step.action
                    is InitRepository,
                (InitPhase::CreatingDirectories, Event::Failed(e)) => step.action
                    == InitAction::Finish(
                    Err::<Store, InitError<E>>(InitError::CreateDirectories(e)),
                ),
                (InitPhase::InitialisingRepository, Event::Succeeded) => {
                    &&& step.action matches InitAction::Transact(plan)
                    &&& plan.repo_dir@ == root@
                    &&& plan.description@ == WRITE_CONFIG_DESCRIPTION@
                    &&& plan.mutation matches Mutation::Write { path, text }
                    &&& path@ == joined(root@, SOPS_CONFIG_FILENAME@)
                    &&& text@ == DEFAULT_SOPS_CONFIG@
                    &&& plan.context matches Some(context)
                    &&& context@ == WRITE_CONFIG_FAILURE@
                },
                (InitPhase::InitialisingRepository, Event::Failed(e)) => step.action
                    == InitAction::Finish(
                    Err::<Store, InitError<E>>(InitError::InitRepository(e)),
                ),
                (InitPhase::WritingConfig, Event::Succeeded) => {
                    &&& step.action matches InitAction::Finish(Ok(store))
                    &&& store@ == root@
                },
                (InitPhase::WritingConfig, Event::Failed(e)) => step.action == InitAction::Finish(
                    Err::<Store, InitError<E>>(InitError::WriteConfig(e)),
                ),
                _ => step.action == InitAction::Finish(
                    Err::<Store, InitError<E>>(InitError::Unexpected),
                ),
            },
    {
        match phase {
            InitPhase::Start => InitStep {
                phase: InitPhase::CreatingDirectories,
                action: InitAction::CreateDirectories,
            },
            InitPhase::CreatingDirectories => match event {
                Event::Succeeded => InitStep {
                    phase: InitPhase::InitialisingRepository,
                    action: InitAction::InitRepository,
                },
                Event::Failed(e) => init_ended(Err(InitError::CreateDirectories(e))),
                Event::Clean(_) => init_ended(Err(InitError::Unexpected)),
            },
            InitPhase::InitialisingRepository => match event {
                Event::Succeeded => InitStep {
                    phase: InitPhase::WritingConfig,
                    action: InitAction::Transact(Store::default_config_plan(root)),
                },
                Event::Failed(e) => init_ended(Err(InitError::InitRepository(e))),
                Event::Clean(_) => init_ended(Err(InitError::Unexpected)),
            },
            InitPhase::WritingConfig => match event {
                Event::Succeeded => init_ended(Ok(Store { root: String::from_str(root) })),
                Event::Failed(e) => init_ended(Err(InitError::WriteConfig(e))),
                Event::Clean(_) => init_ended(Err(InitError::Unexpected)),
            },
            InitPhase::Finished => init_ended(Err(InitError::Unexpected)),
        }
    }

    /// The transaction in which the user edits the store's configuration.
    pub fn edit_config_interactive(&self) -> (plan: Plan)
        ensures
            plan.repo_dir@ == self@,
            plan.description@ == EDIT_CONFIG_DESCRIPTION@,
            plan.mutation matches Mutation::EditFile { path } && path@ == joined(
                self@,
                SOPS_CONFIG_FILENAME@,
            ),
            plan.context matches Some(context) && context@ == EDIT_CONFIG_FAILURE@,
    {
        Plan {
            repo_dir: self.root.clone(),
            description: String::from_str(EDIT_CONFIG_DESCRIPTION),
            mutation: Mutation::EditFile { path: config_filename(self.root.as_str()) },
            context: Some(String::from_str(EDIT_CONFIG_FAILURE)),
        }
    }
}

/// Words joined by single spaces.
pub open spec fn spaced(words: Seq<Seq<char>>) -> Seq<char>
    decreases words.len(),
{
    if words.len() == 0 {
        Seq::empty()
    } else if words.len() == 1 {
        words[0]
    } else {
        spaced(words.drop_last()) + seq![' '] + words.last()
    }
}

/// The commit message for encrypting again what lies under `path`, or
/// everything where no path is given.
pub open spec fn update_keys_description(path: Option<Seq<char>>) -> Seq<char> {
    match path {
        Some(p) => "Update keys for records in `"@ + p + "`"@,
        None => "Update keys for all records"@,
    }
}

/// The commit message for a call of SOPS with `arguments`.
pub open spec fn sops_description(arguments: Seq<Seq<char>>) -> Seq<char> {
    "Perform SOPS command: `sops "@ + spaced(arguments) + "`"@
}

/// Joins words by single spaces.
pub fn join_words(words: &Vec<String>) -> (line: String)
    ensures
        line@ == spaced(words.deep_view()),
{
    let ghost all = words.deep_view();
    let mut line = String::new();
    let mut i: usize = 0;
    assert(all.take(0) =~= Seq::<Seq<char>>::empty());
    while i < words.len()
        invariant
            i <= words@.len(),
            all == words.deep_view(),
            all.len() == words@.len(),
            line@ == spaced(all.take(i as int)),
        decreases words@.len() - i,
    {
        if i > 0 {
            proof {
                reveal_strlit(" ");
            }
            line.append(" ");
            assert(" "@ == seq![' ']);
        }
        line.append(words[i].as_str());
        proof {
            let next = all.take(i + 1);
            assert(next.drop_last() == all.take(i as int));
            assert(next.last() == words@[i as int]@);
            if i == 0 {
                assert(line@ == next[0]);
            }
        }
        i += 1;
    }
    assert(all.take(i as int) == all);
    line
}

impl Store {
    /// The transaction that encrypts `records` again for the recipients the
    /// configuration names now. `records` are the records under `path`, or
    /// all records where no path is given, as `list_records` gives them.
    pub fn update_keys(&self, records: Vec<String>, path: Option<&str>, yes: bool) -> (plan: Plan)
        ensures
            plan.repo_dir@ == self@,
            plan.description@ == update_keys_description(
                match path {
                    Some(p) => Some(p@),
                    None => None,
                },
            ),
            plan.mutation matches Mutation::UpdateKeys { files, yes: y } && files == records
                && y == yes,
            plan.context is None,
    {
        let description = match path {
            Some(p) => {
                let mut d = String::from_str("Update keys for records in `");
                d.append(p);
                d.append("`");
                d
            },
            None => String::from_str("Update keys for all records"),
        };
        Plan {
            repo_dir: self.root.clone(),
            description,
            mutation: Mutation::UpdateKeys { files: records, yes },
            context: None,
        }
    }

    /// The transaction in which SOPS is run with `arguments` of the user's
    /// own choosing.
    pub fn sops_command(&self, arguments: Vec<String>) -> (plan: Plan)
        ensures
            plan.repo_dir@ == self@,
            plan.description@ == sops_description(arguments.deep_view()),
            plan.mutation matches Mutation::Sops { arguments: a } && a == arguments,
            plan.context is None,
    {
        let mut description = String::from_str("Perform SOPS command: `sops ");
        let line = join_words(&arguments);
        description.append(line.as_str());
        description.append("`");
        Plan {
            repo_dir: self.root.clone(),
            description,
            mutation: Mutation::Sops { arguments },
            context: None,
        }
    }
}

/// The phase that making a store is in after `event` was reported in `phase`.
pub open spec fn init_phase_after<E>(phase: InitPhase, event: Event<E>) -> InitPhase {
    match (phase, event) {
        (InitPhase::Start, _) => InitPhase::CreatingDirectories,
        (InitPhase::CreatingDirectories, Event::Succeeded) => InitPhase::InitialisingRepository,
        (InitPhase::InitialisingRepository, Event::Succeeded) => InitPhase::WritingConfig,
        _ => InitPhase::Finished,
    }
}

fn init_ended<E>(result: Result<Store, InitError<E>>) -> (step: InitStep<E>)
    ensures
        step.phase == InitPhase::Finished,
        step.action == InitAction::Finish(result),
{
    InitStep { phase: InitPhase::Finished, action: InitAction::Finish(result) }
}

} // verus!
