use koishi::git::begin;
use koishi::git::command_outcome;
use koishi::git::commit_arguments;
use koishi::git::dirty_message;
use koishi::git::git_operation;
use koishi::git::is_clean;
use koishi::git::outcome_event;
use koishi::git::stage_arguments;
use koishi::git::status_arguments;
use koishi::git::status_event;
use koishi::git::Action;
use koishi::git::Event;
use koishi::git::GitError;
use koishi::git::GitOperationResult;
use koishi::git::Phase;

/// A working tree and its last commit, with a count of what was done.
struct Repo {
    committed: Vec<(String, Vec<u8>)>,
    tree: Vec<(String, Vec<u8>)>,
    commits: usize,
    runs: usize,
}

impl Repo {
    fn clean_with(files: Vec<(String, Vec<u8>)>) -> Repo {
        Repo { committed: files.clone(), tree: files, commits: 0, runs: 0 }
    }

    fn write(&mut self, path: &str, bytes: &[u8]) {
        for entry in self.tree.iter_mut() {
            if entry.0 == path {
                entry.1 = bytes.to_vec();
                return;
            }
        }
        self.tree.push((path.to_string(), bytes.to_vec()));
    }
}

fn transact(
    repo: &mut Repo,
    writes: &[(&str, &[u8])],
    failure: Option<&str>,
) -> Result<GitOperationResult, GitError<String>> {
    let mut step = begin::<String>();
    loop {
        let event = match step.action {
            Action::QueryStatus => Event::Clean(repo.tree == repo.committed),
            Action::Operate => {
                repo.runs += 1;
                for (path, bytes) in writes {
                    repo.write(path, bytes);
                }
                match failure {
                    Some(message) => Event::Failed(message.to_string()),
                    None => Event::Succeeded,
                }
            }
            Action::StageAll => Event::Succeeded,
            Action::Commit => {
                repo.committed = repo.tree.clone();
                repo.commits += 1;
                Event::Succeeded
            }
            Action::Finish(result) => return result,
        };
        step = git_operation(step.phase, event);
    }
}

#[test]
fn operation_that_writes_nothing_yields_no_changes_and_no_commit() {
    let mut repo = Repo::clean_with(vec![("a".to_string(), b"1".to_vec())]);
    let outcome = transact(&mut repo, &[], None);
    assert!(matches!(outcome, Ok(GitOperationResult::NoChanges)));
    assert_eq!(repo.commits, 0);
    assert_eq!(repo.runs, 1);
}

#[test]
fn identical_writes_commit_then_change_nothing() {
    let mut repo = Repo::clean_with(Vec::new());
    let first = transact(&mut repo, &[("a", b"secret")], None);
    assert!(matches!(first, Ok(GitOperationResult::Commit)));
    assert_eq!(repo.commits, 1);
    let second = transact(&mut repo, &[("a", b"secret")], None);
    assert!(matches!(second, Ok(GitOperationResult::NoChanges)));
    assert_eq!(repo.commits, 1);
    assert_eq!(repo.runs, 2);
}

#[test]
fn dirty_tree_fails_without_running_the_operation() {
    let mut repo = Repo::clean_with(Vec::new());
    repo.write("left-over", b"x");
    let outcome = transact(&mut repo, &[("a", b"secret")], None);
    assert!(matches!(outcome, Err(GitError::Dirty)));
    assert_eq!(repo.runs, 0);
    assert_eq!(repo.commits, 0);
    assert_eq!(repo.tree, vec![("left-over".to_string(), b"x".to_vec())]);
}

#[test]
fn failure_of_the_operation_is_handed_back_and_nothing_is_committed() {
    let mut repo = Repo::clean_with(Vec::new());
    let outcome = transact(&mut repo, &[("half", b"written")], Some("disk full"));
    match outcome {
        Err(GitError::Operation(message)) => assert_eq!(message, "disk full"),
        _ => panic!("the operation's own error was expected"),
    }
    assert_eq!(repo.commits, 0);
    assert_eq!(repo.tree, vec![("half".to_string(), b"written".to_vec())]);
}

#[test]
fn changed_tree_is_staged_and_committed_once() {
    let mut step = begin::<String>();
    assert!(matches!(step.action, Action::QueryStatus));
    assert_eq!(step.phase, Phase::CheckingBefore);
    step = git_operation(step.phase, Event::Clean(true));
    assert!(matches!(step.action, Action::Operate));
    step = git_operation(step.phase, Event::Succeeded);
    assert!(matches!(step.action, Action::QueryStatus));
    step = git_operation(step.phase, Event::Clean(false));
    assert!(matches!(step.action, Action::StageAll));
    step = git_operation(step.phase, Event::Succeeded);
    assert!(matches!(step.action, Action::Commit));
    step = git_operation(step.phase, Event::Succeeded);
    assert!(matches!(step.action, Action::Finish(Ok(GitOperationResult::Commit))));
    assert_eq!(step.phase, Phase::Finished);
}

#[test]
fn each_failing_step_has_its_own_error() {
    let status = git_operation(Phase::CheckingBefore, Event::Failed("s".to_string()));
    assert!(matches!(status.action, Action::Finish(Err(GitError::Status(_)))));
    let recheck = git_operation(Phase::CheckingAfter, Event::Failed("s".to_string()));
    assert!(matches!(recheck.action, Action::Finish(Err(GitError::Status(_)))));
    let stage = git_operation(Phase::Staging, Event::Failed("s".to_string()));
    assert!(matches!(stage.action, Action::Finish(Err(GitError::Stage(_)))));
    let commit = git_operation(Phase::Committing, Event::Failed("s".to_string()));
    assert!(matches!(commit.action, Action::Finish(Err(GitError::Commit(_)))));
}

#[test]
fn event_that_answers_nothing_ends_the_operation() {
    let step = git_operation::<String>(Phase::Operating, Event::Clean(true));
    assert!(matches!(step.action, Action::Finish(Err(GitError::Unexpected))));
    let step = git_operation::<String>(Phase::CheckingBefore, Event::Succeeded);
    assert!(matches!(step.action, Action::Finish(Err(GitError::Unexpected))));
    let step = git_operation::<String>(Phase::Finished, Event::Succeeded);
    assert!(matches!(step.action, Action::Finish(Err(GitError::Unexpected))));
    assert_eq!(step.phase, Phase::Finished);
}

#[test]
fn empty_status_output_means_clean() {
    assert!(is_clean(true, b"", "").unwrap());
    assert!(!is_clean(true, b" M file\n", "").unwrap());
    assert!(!is_clean(true, b"?? new\n", "").unwrap());
    assert!(!is_clean(true, b"\n", "").unwrap());
    assert!(is_clean(true, b"", "warning: something harmless\n").unwrap());
}

#[test]
fn failed_status_query_is_never_a_clean_tree() {
    let failure = is_clean(false, b"", "fatal: not a git repository\n").unwrap_err();
    assert_eq!(failure.error_output, "fatal: not a git repository\n");
    assert_eq!(failure.message(), "Git command failed: fatal: not a git repository\n");
    assert!(is_clean(false, b" M file\n", "").is_err());
    assert!(is_clean(false, b"", "").is_err());
}

#[test]
fn failed_status_query_ends_the_operation_before_it_runs() {
    let answer = is_clean(false, b"", "fatal: not a git repository");
    let step = git_operation(Phase::CheckingBefore, status_event(answer));
    match step.action {
        Action::Finish(Err(GitError::Status(failure))) => {
            assert_eq!(failure.error_output, "fatal: not a git repository")
        }
        _ => panic!("the failure of the status query was expected"),
    }
    assert_eq!(step.phase, Phase::Finished);
}

#[test]
fn answers_become_events() {
    assert!(matches!(status_event::<String>(Ok(true)), Event::Clean(true)));
    assert!(matches!(status_event::<String>(Ok(false)), Event::Clean(false)));
    assert!(matches!(status_event(Err("e".to_string())), Event::Failed(ref e) if e == "e"));
    assert!(matches!(outcome_event::<String>(Ok(())), Event::Succeeded));
    assert!(matches!(outcome_event(Err("e".to_string())), Event::Failed(ref e) if e == "e"));
}

#[test]
fn a_command_has_done_its_work_only_when_it_succeeded() {
    assert!(command_outcome(true, "").is_ok());
    assert!(command_outcome(true, "hint: something\n").is_ok());
    let failure = command_outcome(false, "error: pathspec\n").unwrap_err();
    assert_eq!(failure.error_output, "error: pathspec\n");
    assert!(command_outcome(false, "").is_err());
}

#[test]
fn git_is_called_with_these_arguments() {
    assert_eq!(status_arguments(), vec!["status", "--porcelain"]);
    assert_eq!(stage_arguments(), vec!["add", "."]);
    assert_eq!(commit_arguments("Delete record `a`"), vec!["commit", "-m", "Delete record `a`"]);
}

#[test]
fn dirty_message_names_the_repository() {
    assert_eq!(
        dirty_message("/tmp/store"),
        "Git repository at `/tmp/store` is not clean. Please commit or stash your changes."
    );
}
