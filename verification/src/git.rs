//! The protocol that wraps every change to a store in one Git commit.
//!
//! A change is committed only if the working tree was clean before it, the
//! change itself succeeded, and it left the tree different from what it was.
//! This module holds the decisions of that protocol as a state machine: the
//! caller runs Git and the operation, reports what happened as an `Event`,
//! and is told by `git_operation` what to do next. It also holds a model of a
//! repository against which the protocol's promises are proved.
//!
//! Nothing here rolls back a change that failed half way: the tree is then
//! left dirty, which the next operation will refuse to build on. Two
//! processes that both find the tree clean at the same moment are not kept
//! apart either.

use vstd::prelude::*;
use vstd::string::StringExecFns;

verus! {

/// How an operation that succeeded ended.
#[derive(Clone, Copy, Debug, PartialEq, Eq, Structural)]
pub enum GitOperationResult {
    /// The operation changed the tree, and the change was committed.
    Commit,
    /// The operation left the tree as it was; nothing was committed.
    NoChanges,
}

/// Why an operation was not committed. `E` is the caller's error type.
#[derive(Debug)]
pub enum GitError<E> {
    /// The working tree was not clean before the operation; it was not run.
    Dirty,
    /// Asking Git for the state of the working tree failed.
    Status(E),
    /// The operation itself failed, with this error.
    Operation(E),
    /// Staging the changes failed.
    Stage(E),
    /// Committing the staged changes failed.
    Commit(E),
    /// An event was reported that answers nothing the protocol had asked for.
    Unexpected,
}

/// What the caller reports back after doing what it was asked.
#[derive(Debug)]
pub enum Event<E> {
    /// The answer to `QueryStatus`: whether the working tree is clean.
    Clean(bool),
    /// What was asked has been done.
    Succeeded,
    /// What was asked failed with this error.
    Failed(E),
}

/// What the caller has to do next.
#[derive(Debug)]
pub enum Action<E> {
    /// Ask Git whether the working tree is clean and report `Clean`.
    QueryStatus,
    /// Run the operation, once.
    Operate,
    /// Stage every change in the working tree.
    StageAll,
    /// Commit what is staged, with the description of the operation.
    Commit,
    /// Stop: this is how the whole operation ended.
    Finish(Result<GitOperationResult, GitError<E>>),
}

/// Where in the protocol an operation stands: what it is waiting to hear.
#[derive(Clone, Copy, Debug, PartialEq, Eq, Structural)]
pub enum Phase {
    /// Waiting to hear whether the tree is clean before the operation.
    CheckingBefore,
    /// Waiting for the operation to end.
    Operating,
    /// Waiting to hear whether the operation left the tree clean.
    CheckingAfter,
    /// Waiting for the changes to be staged.
    Staging,
    /// Waiting for the commit.
    Committing,
    /// The operation has ended; nothing more is expected.
    Finished,
}

/// The state of an operation with the action that is pending in it.
pub struct Step<E> {
    /// The phase the operation is in once the action has been handed out.
    pub phase: Phase,
    /// What the caller has to do now.
    pub action: Action<E>,
}

/// How an operation starts: by asking whether the tree is clean.
pub open spec fn first_step<E>() -> Step<E> {
    Step { phase: Phase::CheckingBefore, action: Action::QueryStatus }
}

/// An operation that ends here with `result`.
pub open spec fn finish<E>(result: Result<GitOperationResult, GitError<E>>) -> Step<E> {
    Step { phase: Phase::Finished, action: Action::Finish(result) }
}

/// The protocol: what follows when `event` is reported in `phase`.
pub open spec fn next_step<E>(phase: Phase, event: Event<E>) -> Step<E> {
    match (phase, event) {
        (Phase::CheckingBefore, Event::Clean(true)) => Step {
            phase: Phase::Operating,
            action: Action::Operate,
        },
        (Phase::CheckingBefore, Event::Clean(false)) => finish(Err(GitError::Dirty)),
        (Phase::CheckingBefore, Event::Failed(e)) => finish(Err(GitError::Status(e))),
        (Phase::Operating, Event::Succeeded) => Step {
            phase: Phase::CheckingAfter,
            action: Action::QueryStatus,
        },
        (Phase::Operating, Event::Failed(e)) => finish(Err(GitError::Operation(e))),
        (Phase::CheckingAfter, Event::Clean(true)) => finish(Ok(GitOperationResult::NoChanges)),
        (Phase::CheckingAfter, Event::Clean(false)) => Step {
            phase: Phase::Staging,
            action: Action::StageAll,
        },
        (Phase::CheckingAfter, Event::Failed(e)) => finish(Err(GitError::Status(e))),
        (Phase::Staging, Event::Succeeded) => Step {
            phase: Phase::Committing,
            action: Action::Commit,
        },
        (Phase::Staging, Event::Failed(e)) => finish(Err(GitError::Stage(e))),
        (Phase::Committing, Event::Succeeded) => finish(Ok(GitOperationResult::Commit)),
        (Phase::Committing, Event::Failed(e)) => finish(Err(GitError::Commit(e))),
        _ => finish(Err(GitError::Unexpected)),
    }
}

/// Starts an operation.
pub fn begin<E>() -> (step: Step<E>)
    ensures
        step == first_step::<E>(),
{
    Step { phase: Phase::CheckingBefore, action: Action::QueryStatus }
}

/// Decides how an operation goes on after `event` was reported in `phase`.
///
/// The operation is run only after the tree was found clean. When it fails,
/// its error is handed back as it is and nothing is staged or committed.
/// When it succeeds and the tree is still clean, nothing is committed. Only
/// when it succeeds and the tree is dirty are the changes staged and then
/// committed, once.
pub fn git_operation<E>(phase: Phase, event: Event<E>) -> (step: Step<E>)
    ensures
        step == next_step(phase, event),
{
    match phase {
        Phase::CheckingBefore => match event {
            Event::Clean(true) => Step { phase: Phase::Operating, action: Action::Operate },
            Event::Clean(false) => ended(Err(GitError::Dirty)),
            Event::Failed(e) => ended(Err(GitError::Status(e))),
            Event::Succeeded => ended(Err(GitError::Unexpected)),
        },
        Phase::Operating => match event {
            Event::Succeeded => Step { phase: Phase::CheckingAfter, action: Action::QueryStatus },
            Event::Failed(e) => ended(Err(GitError::Operation(e))),
            Event::Clean(_) => ended(Err(GitError::Unexpected)),
        },
        Phase::CheckingAfter => match event {
            Event::Clean(true) => ended(Ok(GitOperationResult::NoChanges)),
            Event::Clean(false) => Step { phase: Phase::Staging, action: Action::StageAll },
            Event::Failed(e) => ended(Err(GitError::Status(e))),
            Event::Succeeded => ended(Err(GitError::Unexpected)),
        },
        Phase::Staging => match event {
            Event::Succeeded => Step { phase: Phase::Committing, action: Action::Commit },
            Event::Failed(e) => ended(Err(GitError::Stage(e))),
            Event::Clean(_) => ended(Err(GitError::Unexpected)),
        },
        Phase::Committing => match event {
            Event::Succeeded => ended(Ok(GitOperationResult::Commit)),
            Event::Failed(e) => ended(Err(GitError::Commit(e))),
            Event::Clean(_) => ended(Err(GitError::Unexpected)),
        },
        Phase::Finished => ended(Err(GitError::Unexpected)),
    }
}

fn ended<E>(result: Result<GitOperationResult, GitError<E>>) -> (step: Step<E>)
    ensures
        step == finish(result),
{
    Step { phase: Phase::Finished, action: Action::Finish(result) }
}

/// A Git command that ended in failure: what it wrote to standard error.
#[derive(Debug)]
pub struct GitFailure {
    /// The command's standard error, as text.
    pub error_output: String,
}

impl GitFailure {
    /// The message shown to the user.
    pub fn message(&self) -> (message: String)
        ensures
            message@ == "Git command failed: "@ + self.error_output@,
    {
        let mut message = String::from_str("Git command failed: ");
        message.append(self.error_output.as_str());
        message
    }
}

/// Judges a Git command by how it ended: it has done its work exactly when
/// it succeeded; otherwise what it wrote to standard error is the failure.
pub fn command_outcome(succeeded: bool, error_output: &str) -> (outcome: Result<(), GitFailure>)
    ensures
        match outcome {
            Ok(_) => succeeded,
            Err(failure) => !succeeded && failure.error_output@ == error_output@,
        },
{
    if succeeded {
        Ok(())
    } else {
        Err(GitFailure { error_output: String::from_str(error_output) })
    }
}

/// Judges `git status --porcelain`: whether the working tree is clean.
///
/// `succeeded` is whether the command ended with success, `output` what it
/// wrote to standard output and `error_output` what it wrote to standard
/// error. A command that failed says nothing of the tree, whatever it
/// wrote: that is a failure, never a clean tree. One that succeeded reports
/// a clean tree exactly when it wrote nothing.
pub fn is_clean(succeeded: bool, output: &[u8], error_output: &str) -> (answer: Result<
    bool,
    GitFailure,
>)
    ensures
        match answer {
            Ok(clean) => succeeded && clean == (output@.len() == 0),
            Err(failure) => !succeeded && failure.error_output@ == error_output@,
        },
{
    if succeeded {
        Ok(output.len() == 0)
    } else {
        Err(GitFailure { error_output: String::from_str(error_output) })
    }
}

/// What is reported to the protocol for an answer to the status query: the
/// state of the tree, or the failure of the query.
pub fn status_event<E>(answer: Result<bool, E>) -> (event: Event<E>)
    ensures
        event == match answer {
            Ok(clean) => Event::<E>::Clean(clean),
            Err(failure) => Event::<E>::Failed(failure),
        },
{
    match answer {
        Ok(clean) => Event::Clean(clean),
        Err(failure) => Event::Failed(failure),
    }
}

/// What is reported to the protocol for the outcome of anything else that
/// was asked for.
pub fn outcome_event<E>(outcome: Result<(), E>) -> (event: Event<E>)
    ensures
        event == match outcome {
            Ok(_) => Event::<E>::Succeeded,
            Err(failure) => Event::<E>::Failed(failure),
        },
{
    match outcome {
        Ok(_) => Event::Succeeded,
        Err(failure) => Event::Failed(failure),
    }
}

/// A status query that failed never lets the operation run: whatever it
/// wrote, the protocol ends with the failure of the query.
pub proof fn lemma_failed_status_is_no_clean_tree<E>(phase: Phase, failure: E)
    requires
        phase == Phase::CheckingBefore || phase == Phase::CheckingAfter,
    ensures
        next_step(phase, Event::Failed(failure)) == finish(
            Err::<GitOperationResult, GitError<E>>(GitError::Status(failure)),
        ),
{
}

/// The files of a tree: what each path holds.
pub type Files = Map<Seq<char>, Seq<u8>>;

/// A repository as far as the protocol can tell one from another.
pub struct Repository {
    /// What the last commit holds.
    pub committed: Files,
    /// What the working tree holds.
    pub tree: Files,
    /// How many commits there are.
    pub commits: nat,
    /// How often an operation has been run on the working tree.
    pub runs: nat,
}

/// What running an operation on a working tree does.
pub struct Effect<E> {
    /// The working tree as the operation leaves it, also when it fails.
    pub tree: Files,
    /// The error it fails with, if it fails.
    pub failure: Option<E>,
}

/// An operation: what it does to each working tree.
pub type Operation<E> = spec_fn(Files) -> Effect<E>;

/// An operation that writes `writes` over what is there, and never fails.
pub open spec fn writing<E>(writes: Files) -> Operation<E> {
    |tree: Files| Effect { tree: tree.union_prefer_right(writes), failure: None }
}

/// An operation that renames the file at `from` to `to`, replacing what is
/// there, and fails with `failure` where there is no file at `from`.
pub open spec fn renaming<E>(from: Seq<char>, to: Seq<char>, failure: E) -> Operation<E> {
    |tree: Files|
        if tree.dom().contains(from) {
            Effect { tree: tree.remove(from).insert(to, tree[from]), failure: None }
        } else {
            Effect { tree, failure: Some(failure) }
        }
}

/// An operation that removes the file at `path`, and fails with `failure`
/// where there is none.
pub open spec fn removing<E>(path: Seq<char>, failure: E) -> Operation<E> {
    |tree: Files|
        if tree.dom().contains(path) {
            Effect { tree: tree.remove(path), failure: None }
        } else {
            Effect { tree, failure: Some(failure) }
        }
}

impl Repository {
    /// Whether the working tree holds exactly what the last commit holds.
    pub open spec fn clean(self) -> bool {
        self.tree == self.committed
    }

    /// The repository after Git and the operation have done `action`, with
    /// what they report. Git itself does not fail here.
    pub open spec fn perform<E>(self, action: Action<E>, op: Operation<E>) -> (Event<E>, Repository) {
        match action {
            Action::QueryStatus => (Event::Clean(self.clean()), self),
            Action::Operate => {
                let effect = op(self.tree);
                let after = Repository { tree: effect.tree, runs: self.runs + 1, ..self };
                match effect.failure {
                    Some(e) => (Event::Failed(e), after),
                    None => (Event::Succeeded, after),
                }
            },
            Action::StageAll => (Event::Succeeded, self),
            Action::Commit => (
                Event::Succeeded,
                Repository { committed: self.tree, commits: self.commits + 1, ..self },
            ),
            Action::Finish(_) => (Event::Succeeded, self),
        }
    }

    /// The protocol run from `step` until it ends, at most `fuel` actions long.
    pub open spec fn run_from<E>(self, step: Step<E>, op: Operation<E>, fuel: nat) -> (
        Result<GitOperationResult, GitError<E>>,
        Repository,
    )
        decreases fuel,
    {
        match step.action {
            Action::Finish(result) => (result, self),
            _ => if fuel == 0 {
                (Err(GitError::Unexpected), self)
            } else {
                let (event, after) = self.perform(step.action, op);
                after.run_from(next_step(step.phase, event), op, (fuel - 1) as nat)
            },
        }
    }

    /// A whole operation on this repository: how it ends, and the repository
    /// it leaves behind.
    pub open spec fn transact<E>(self, op: Operation<E>) -> (
        Result<GitOperationResult, GitError<E>>,
        Repository,
    ) {
        self.run_from(first_step(), op, 5)
    }
}

/// On a tree that is not clean the operation is refused: it is never run,
/// nothing is committed, and the repository stays as it was.
pub proof fn lemma_dirty_tree_is_refused<E>(repo: Repository, op: Operation<E>)
    requires
        !repo.clean(),
    ensures
        repo.transact(op) == (Err::<GitOperationResult, GitError<E>>(GitError::Dirty), repo),
{
    reveal_with_fuel(Repository::run_from, 6);
}

/// An operation that fails hands its error back unchanged. Nothing is
/// committed, and what it did to the tree before it failed stays.
pub proof fn lemma_failure_is_handed_back<E>(repo: Repository, op: Operation<E>, e: E)
    requires
        repo.clean(),
        op(repo.tree).failure == Some(e),
    ensures
        repo.transact(op) == (
            Err::<GitOperationResult, GitError<E>>(GitError::Operation(e)),
            Repository { tree: op(repo.tree).tree, runs: repo.runs + 1, ..repo },
        ),
{
    reveal_with_fuel(Repository::run_from, 6);
}

/// An operation that succeeds and leaves the tree as it was ends in
/// `NoChanges`: it ran once, and there is no new commit.
pub proof fn lemma_no_change_no_commit<E>(repo: Repository, op: Operation<E>)
    requires
        repo.clean(),
        op(repo.tree).failure is None,
        op(repo.tree).tree == repo.tree,
    ensures
        repo.transact(op) == (
            Ok::<GitOperationResult, GitError<E>>(GitOperationResult::NoChanges),
            Repository { runs: repo.runs + 1, ..repo },
        ),
{
    reveal_with_fuel(Repository::run_from, 6);
}

/// An operation that succeeds and changes the tree ends in `Commit`: it ran
/// once, there is exactly one new commit, and that commit holds the tree as
/// the operation left it, so the repository is clean again.
pub proof fn lemma_change_is_committed_once<E>(repo: Repository, op: Operation<E>)
    requires
        repo.clean(),
        op(repo.tree).failure is None,
        op(repo.tree).tree != repo.tree,
    ensures
        repo.transact(op) == (
            Ok::<GitOperationResult, GitError<E>>(GitOperationResult::Commit),
            Repository {
                committed: op(repo.tree).tree,
                tree: op(repo.tree).tree,
                commits: repo.commits + 1,
                runs: repo.runs + 1,
            },
        ),
        repo.transact(op).1.clean(),
{
    reveal_with_fuel(Repository::run_from, 6);
}

/// Writing the same bytes twice commits once: the first operation ends in
/// `Commit`, the second, on the repository the first left, in `NoChanges`
/// with no further commit.
pub proof fn lemma_same_writes_commit_once<E>(repo: Repository, writes: Files)
    requires
        repo.clean(),
        repo.tree.union_prefer_right(writes) != repo.tree,
    ensures
        repo.transact(writing::<E>(writes)).0 == Ok::<GitOperationResult, GitError<E>>(
            GitOperationResult::Commit,
        ),
        repo.transact(writing::<E>(writes)).1.transact(writing::<E>(writes)).0 == Ok::<
            GitOperationResult,
            GitError<E>,
        >(GitOperationResult::NoChanges),
        repo.transact(writing::<E>(writes)).1.transact(writing::<E>(writes)).1.commits
            == repo.commits + 1,
{
    let op = writing::<E>(writes);
    lemma_change_is_committed_once(repo, op);
    let once = repo.transact(op).1;
    assert(once.tree.union_prefer_right(writes) =~= once.tree);
    lemma_no_change_no_commit(once, op);
}

/// Renaming a file to a place that is free is committed: afterwards the
/// file is at its new place with what it held, nothing is at the old place,
/// and the tree is clean again.
pub proof fn lemma_rename_moves_file<E>(repo: Repository, from: Seq<char>, to: Seq<char>, failure: E)
    requires
        repo.clean(),
        repo.tree.dom().contains(from),
        !repo.tree.dom().contains(to),
    ensures
        repo.transact(renaming(from, to, failure)).0 == Ok::<GitOperationResult, GitError<E>>(
            GitOperationResult::Commit,
        ),
        !repo.transact(renaming(from, to, failure)).1.tree.dom().contains(from),
        repo.transact(renaming(from, to, failure)).1.tree.dom().contains(to),
        repo.transact(renaming(from, to, failure)).1.tree[to] == repo.tree[from],
        repo.transact(renaming(from, to, failure)).1.commits == repo.commits + 1,
        repo.transact(renaming(from, to, failure)).1.clean(),
{
    let op = renaming(from, to, failure);
    assert(op(repo.tree).tree.dom().contains(to));
    lemma_change_is_committed_once(repo, op);
}

/// Removing a file that is there is committed: afterwards it is gone.
/// Removing one that is not there fails, and nothing is committed.
pub proof fn lemma_remove_deletes_file<E>(repo: Repository, path: Seq<char>, failure: E)
    requires
        repo.clean(),
    ensures
        repo.tree.dom().contains(path) ==> {
            &&& repo.transact(removing(path, failure)).0 == Ok::<GitOperationResult, GitError<E>>(
                GitOperationResult::Commit,
            )
            &&& !repo.transact(removing(path, failure)).1.tree.dom().contains(path)
            &&& repo.transact(removing(path, failure)).1.commits == repo.commits + 1
        },
        !repo.tree.dom().contains(path) ==> {
            &&& repo.transact(removing(path, failure)).0 == Err::<GitOperationResult, GitError<E>>(
                GitError::Operation(failure),
            )
            &&& repo.transact(removing(path, failure)).1.commits == repo.commits
        },
{
    let op = removing(path, failure);
    if repo.tree.dom().contains(path) {
        assert(!op(repo.tree).tree.dom().contains(path));
        lemma_change_is_committed_once(repo, op);
    } else {
        lemma_failure_is_handed_back(repo, op, failure);
    }
}

/// Whatever is reported, the protocol keeps its order: the operation is
/// asked for only on the news that the tree is clean, staging only on the
/// news that the operation left it dirty, the commit only after staging,
/// and success is declared only after the commit or on a tree left clean.
pub proof fn lemma_protocol_keeps_order<E>(phase: Phase, event: Event<E>)
    ensures
        next_step(phase, event).action is Operate ==> phase == Phase::CheckingBefore && event
            == Event::<E>::Clean(true),
        next_step(phase, event).action is StageAll ==> phase == Phase::CheckingAfter && event
            == Event::<E>::Clean(false),
        next_step(phase, event).action is Commit ==> phase == Phase::Staging && event
            is Succeeded,
        next_step(phase, event).action == Action::Finish(
            Ok::<GitOperationResult, GitError<E>>(GitOperationResult::Commit),
        ) ==> phase == Phase::Committing && event is Succeeded,
        next_step(phase, event).action == Action::Finish(
            Ok::<GitOperationResult, GitError<E>>(GitOperationResult::NoChanges),
        ) ==> phase == Phase::CheckingAfter && event == Event::<E>::Clean(true),
        next_step(phase, event).action is QueryStatus ==> phase == Phase::Operating && event
            is Succeeded,
{
}

/// Every operation ends within five actions, whatever is reported: the
/// protocol never asks for a sixth.
pub proof fn lemma_protocol_ends<E>(
    e1: Event<E>,
    e2: Event<E>,
    e3: Event<E>,
    e4: Event<E>,
    e5: Event<E>,
)
    ensures
        ({
            let s1 = next_step(first_step::<E>().phase, e1);
            let s2 = next_step(s1.phase, e2);
            let s3 = next_step(s2.phase, e3);
            let s4 = next_step(s3.phase, e4);
            let s5 = next_step(s4.phase, e5);
            s5.action is Finish && s5.phase == Phase::Finished
        }),
{
}

/// The arguments that ask Git whether the working tree is clean.
pub fn status_arguments() -> (args: Vec<String>)
    ensures
        args.deep_view() == seq!["status"@, "--porcelain"@],
{
    let mut args: Vec<String> = Vec::new();
    args.push(String::from_str("status"));
    args.push(String::from_str("--porcelain"));
    assert(args.deep_view() =~= seq!["status"@, "--porcelain"@]);
    args
}

/// The arguments that stage every change in the working tree.
pub fn stage_arguments() -> (args: Vec<String>)
    ensures
        args.deep_view() == seq!["add"@, "."@],
{
    let mut args: Vec<String> = Vec::new();
    args.push(String::from_str("add"));
    args.push(String::from_str("."));
    assert(args.deep_view() =~= seq!["add"@, "."@]);
    args
}

/// The arguments that commit what is staged under the message `commit_msg`.
pub fn commit_arguments(commit_msg: &str) -> (args: Vec<String>)
    ensures
        args.deep_view() == seq!["commit"@, "-m"@, commit_msg@],
{
    let mut args: Vec<String> = Vec::new();
    args.push(String::from_str("commit"));
    args.push(String::from_str("-m"));
    args.push(String::from_str(commit_msg));
    assert(args.deep_view() =~= seq!["commit"@, "-m"@, commit_msg@]);
    args
}

/// What a user is told when the working tree was not clean.
pub fn dirty_message(repo_dir: &str) -> (message: String)
    ensures
        message@ == "Git repository at `"@ + repo_dir@
            + "` is not clean. Please commit or stash your changes."@,
{
    let mut message = String::from_str("Git repository at `");
    message.append(repo_dir);
    message.append("` is not clean. Please commit or stash your changes.");
    message
}

} // verus!
