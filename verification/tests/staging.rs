use git_get::error::RetrievalError;
use git_get::staging::{describe, Staging, StagingAction, StagingPlan, StagingState, StepOutcome};

const URL: &str = "https://github.com/acme/tools.git";

fn plan(branch: &str, subpath: Option<&str>) -> StagingPlan {
    StagingPlan {
        clone_url: URL.to_string(),
        branch: branch.to_string(),
        subpath: subpath.map(|s| s.to_string()),
    }
}

fn git(args: &[&str]) -> StagingAction {
    StagingAction::RunGit { args: args.iter().map(|a| a.to_string()).collect() }
}

fn failed(stderr: &str) -> StepOutcome {
    StepOutcome::Failed { stderr: stderr.to_string() }
}

/// Runs the staging with every action completing; gives the actions asked for
/// and the states passed through.
fn run_to_end(plan: StagingPlan) -> (Vec<StagingAction>, Vec<StagingState>) {
    let mut staging = Staging::new(plan);
    let mut actions = Vec::new();
    let mut states = vec![staging.current()];
    while let Some(action) = staging.next_action() {
        actions.push(action);
        staging = staging.advance(StepOutcome::Completed).unwrap();
        states.push(staging.current());
        assert!(actions.len() <= 8);
    }
    assert!(staging.is_done());
    (actions, states)
}

/// Completes actions until the staging is in `state`.
fn advance_to(plan: StagingPlan, state: StagingState) -> Staging {
    let mut staging = Staging::new(plan);
    while staging.current() != state {
        assert!(!staging.is_done());
        staging = staging.advance(StepOutcome::Completed).unwrap();
    }
    staging
}

#[test]
fn sparse_staging_asks_for_every_step_in_order() {
    let (actions, states) = run_to_end(plan("dev", Some("lib/util")));
    assert_eq!(
        actions,
        vec![
            git(&["init"]),
            git(&["remote", "add", "origin", URL]),
            git(&["config", "core.sparseCheckout", "true"]),
            StagingAction::WriteSparsePattern { pattern: "lib/util\n".to_string() },
            git(&["fetch", "--depth=1", "origin", "dev"]),
            git(&["checkout", "FETCH_HEAD"]),
            StagingAction::VerifySubpath { subpath: "lib/util".to_string() },
        ]
    );
    assert_eq!(
        states,
        vec![
            StagingState::Start,
            StagingState::Init,
            StagingState::RemoteLinked,
            StagingState::SparseEnabled,
            StagingState::SparseConfigured,
            StagingState::Fetched,
            StagingState::CheckedOut,
            StagingState::Success,
        ]
    );
}

#[test]
fn whole_tree_staging_skips_sparse_checkout() {
    let (actions, states) = run_to_end(plan("main", None));
    assert_eq!(
        actions,
        vec![
            git(&["init"]),
            git(&["remote", "add", "origin", URL]),
            git(&["fetch", "--depth=1", "origin", "main"]),
            git(&["checkout", "FETCH_HEAD"]),
        ]
    );
    assert_eq!(
        states,
        vec![
            StagingState::Start,
            StagingState::Init,
            StagingState::RemoteLinked,
            StagingState::Fetched,
            StagingState::Success,
        ]
    );
}

#[test]
fn failed_fetch_of_main_is_retried_as_master() {
    for subpath in [None, Some("lib/util")] {
        let before = if subpath.is_some() {
            StagingState::SparseConfigured
        } else {
            StagingState::RemoteLinked
        };
        let staging = advance_to(plan("main", subpath), before);
        assert_eq!(staging.next_action(), Some(git(&["fetch", "--depth=1", "origin", "main"])));
        let staging = staging.advance(failed("fatal: couldn't find remote ref main\n")).unwrap();
        assert_eq!(staging.current(), StagingState::FetchRetry);
        assert_eq!(staging.next_action(), Some(git(&["fetch", "--depth=1", "origin", "master"])));
        let staging = staging.advance(StepOutcome::Completed).unwrap();
        assert_eq!(staging.current(), StagingState::Fetched);
        assert_eq!(staging.next_action(), Some(git(&["checkout", "FETCH_HEAD"])));
    }
}

#[test]
fn failed_retry_is_final() {
    let staging = advance_to(plan("main", None), StagingState::RemoteLinked);
    let staging = staging.advance(failed("first")).unwrap();
    assert_eq!(
        staging.advance(failed("  fatal: couldn't find remote ref master\n")),
        Err(RetrievalError::FetchFailed {
            command: "git fetch --depth=1 origin master".to_string(),
            diagnostic: "  fatal: couldn't find remote ref master\n".to_string(),
        })
    );
}

#[test]
fn failed_fetch_of_another_branch_is_final() {
    let staging = advance_to(plan("dev", Some("lib")), StagingState::SparseConfigured);
    assert_eq!(
        staging.advance(failed("fatal: no such ref\n")),
        Err(RetrievalError::FetchFailed {
            command: "git fetch --depth=1 origin dev".to_string(),
            diagnostic: "fatal: no such ref\n".to_string(),
        })
    );
    let staging = advance_to(plan("master", None), StagingState::RemoteLinked);
    assert!(matches!(staging.advance(failed("x")), Err(RetrievalError::FetchFailed { .. })));
}

#[test]
fn failed_tool_step_is_fatal_with_its_diagnostic_as_it_came() {
    let staging = Staging::new(plan("main", None));
    assert_eq!(
        staging.advance(failed("\tfatal: cannot mkdir\n\n")),
        Err(RetrievalError::ExternalToolFailed {
            command: "git init".to_string(),
            diagnostic: "\tfatal: cannot mkdir\n\n".to_string(),
        })
    );
    let staging = advance_to(plan("main", None), StagingState::Init);
    assert_eq!(
        staging.advance(failed("")),
        Err(RetrievalError::ExternalToolFailed {
            command: format!("git remote add origin {}", URL),
            diagnostic: String::new(),
        })
    );
    let staging = advance_to(plan("main", Some("lib")), StagingState::RemoteLinked);
    assert_eq!(
        staging.advance(failed("denied")),
        Err(RetrievalError::ExternalToolFailed {
            command: "git config core.sparseCheckout true".to_string(),
            diagnostic: "denied".to_string(),
        })
    );
    let staging = advance_to(plan("main", Some("lib")), StagingState::SparseEnabled);
    assert_eq!(
        staging.advance(failed("read-only file system")),
        Err(RetrievalError::ExternalToolFailed {
            command: ".git/info/sparse-checkout".to_string(),
            diagnostic: "read-only file system".to_string(),
        })
    );
    let staging = advance_to(plan("main", None), StagingState::Fetched);
    assert_eq!(
        staging.advance(failed("error: pathspec")),
        Err(RetrievalError::ExternalToolFailed {
            command: "git checkout FETCH_HEAD".to_string(),
            diagnostic: "error: pathspec".to_string(),
        })
    );
}

#[test]
fn missing_subpath_is_fatal() {
    let staging = advance_to(plan("dev", Some("lib/util")), StagingState::CheckedOut);
    assert_eq!(
        staging.advance(failed("")),
        Err(RetrievalError::SubpathNotFound { subpath: "lib/util".to_string() })
    );
}

#[test]
fn finished_staging_asks_for_nothing() {
    let staging = advance_to(plan("dev", None), StagingState::Success);
    assert_eq!(staging.next_action(), None);
    let staging = staging.advance(failed("late")).unwrap();
    assert_eq!(staging.current(), StagingState::Success);
    let staging = staging.advance(StepOutcome::Completed).unwrap();
    assert!(staging.is_done());
}

#[test]
fn outcome_follows_exit_status() {
    assert_eq!(StepOutcome::from_status(true, "warning".to_string()), StepOutcome::Completed);
    assert_eq!(StepOutcome::from_status(false, "fatal".to_string()), failed("fatal"));
}

#[test]
fn actions_are_described_for_errors() {
    assert_eq!(describe(&git(&["fetch", "--depth=1", "origin", "dev"])), "git fetch --depth=1 origin dev");
    assert_eq!(describe(&git(&[])), "git ");
    assert_eq!(
        describe(&StagingAction::WriteSparsePattern { pattern: "lib\n".to_string() }),
        ".git/info/sparse-checkout"
    );
    assert_eq!(describe(&StagingAction::VerifySubpath { subpath: "lib".to_string() }), "lib");
}

#[test]
fn message_of_a_failed_step_holds_the_tool_output_verbatim() {
    let staging = Staging::new(plan("main", None));
    let error = staging.advance(failed("x\n")).unwrap_err();
    assert_eq!(error.message(), "git init 执行失败: x\n");
    let staging = advance_to(plan("dev", None), StagingState::RemoteLinked);
    let error = staging.advance(failed(" fatal: no such ref \r\n")).unwrap_err();
    assert_eq!(
        error.message(),
        "无法拉取仓库，请检查仓库地址和分支名是否正确: git fetch --depth=1 origin dev 执行失败:  fatal: no such ref \r\n"
    );
}
