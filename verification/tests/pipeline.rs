use git_get::error::RetrievalError;
use git_get::guard::DestinationState;
use git_get::locator::CloneTarget;
use git_get::materialize::{CopyEvent, CopyTask, SourceEntry};
use git_get::pipeline::{plan_retrieval, Phase, Pipeline, PipelineAction, PipelineEvent, RetrievalPlan};
use git_get::request::{Args, RetrievalRequest};
use git_get::staging::{StagingAction, StepOutcome};

fn args(url: Option<&str>, repo: Option<&str>, path: Option<&str>, dest: Option<&str>) -> Args {
    Args {
        repo: repo.map(|s| s.to_string()),
        branch: None,
        path: path.map(|s| s.to_string()),
        dest: dest.map(|s| s.to_string()),
        token: None,
        url: url.map(|s| s.to_string()),
    }
}

fn git(args: &[&str]) -> PipelineAction {
    PipelineAction::Stage {
        action: StagingAction::RunGit { args: args.iter().map(|a| a.to_string()).collect() },
    }
}

fn step(outcome: StepOutcome) -> PipelineEvent {
    PipelineEvent::Step { outcome }
}

fn failed_step(stderr: &str) -> PipelineEvent {
    step(StepOutcome::Failed { stderr: stderr.to_string() })
}

/// Answers a task of the copy: the root holds one file and the metadata
/// directory, and everything else goes well.
fn copied(task: &CopyTask) -> PipelineEvent {
    let event = match task {
        CopyTask::ListDirectory { handle: 0, .. } => CopyEvent::Listed {
            entries: vec![
                SourceEntry { handle: 1, name: ".git".to_string(), is_dir: true },
                SourceEntry { handle: 2, name: "lib.rs".to_string(), is_dir: false },
            ],
        },
        CopyTask::ListDirectory { .. } => CopyEvent::Listed { entries: Vec::new() },
        _ => CopyEvent::Done,
    };
    PipelineEvent::Copy { event }
}

fn copy(task: CopyTask, subpath: Option<&str>, destination: &str) -> PipelineAction {
    PipelineAction::Copy {
        task,
        subpath: subpath.map(|s| s.to_string()),
        destination: destination.to_string(),
    }
}

fn copy_of_root(subpath: Option<&str>, destination: &str) -> Vec<PipelineAction> {
    vec![
        copy(CopyTask::MakeDirectory { handle: 0, path: Vec::new() }, subpath, destination),
        copy(CopyTask::ListDirectory { handle: 0, path: Vec::new() }, subpath, destination),
        copy(
            CopyTask::CopyFile { handle: 2, path: vec!["lib.rs".to_string()] },
            subpath,
            destination,
        ),
    ]
}

fn is_tool_run(action: &PipelineAction) -> bool {
    matches!(action, PipelineAction::Stage { action: StagingAction::RunGit { .. } })
}

/// Answers every action with success, an absent destination and the given
/// ignore-file; gives the actions asked for.
fn run_to_end(plan: RetrievalPlan, ignore_file: Option<&str>) -> Vec<PipelineAction> {
    let mut pipeline = Pipeline::new(plan);
    let mut actions = Vec::new();
    while let Some(action) = pipeline.next_action() {
        let event = match &action {
            PipelineAction::ProbeDestination { .. } => {
                PipelineEvent::Destination { state: DestinationState::Absent }
            }
            PipelineAction::CreateWorkspace => PipelineEvent::WorkspaceCreated,
            PipelineAction::Stage { .. } => step(StepOutcome::Completed),
            PipelineAction::Copy { task, .. } => copied(task),
            PipelineAction::ReadIgnoreFile => {
                PipelineEvent::IgnoreFile { content: ignore_file.map(|s| s.to_string()) }
            }
            PipelineAction::WriteIgnoreFile { .. } => PipelineEvent::IgnoreWritten,
        };
        actions.push(action);
        pipeline = pipeline.advance(event).unwrap();
        assert!(actions.len() <= 20);
    }
    assert!(pipeline.is_done());
    actions
}

#[test]
fn scenario_browsable_url_without_overrides() {
    let plan = plan_retrieval(&args(
        Some("https://github.com/acme/tools/tree/dev/lib/util"),
        None,
        None,
        None,
    ))
    .unwrap();
    assert_eq!(
        plan,
        RetrievalPlan {
            request: RetrievalRequest {
                repository_locator: "acme/tools".to_string(),
                branch: "dev".to_string(),
                subpath: Some("lib/util".to_string()),
            },
            target: CloneTarget { clone_url: "https://github.com/acme/tools.git".to_string() },
            destination: "util".to_string(),
        }
    );
}

#[test]
fn scenario_short_form_with_path_falls_back_to_master() {
    let plan = plan_retrieval(&args(None, Some("acme/tools"), Some("lib/util"), None)).unwrap();
    assert_eq!(plan.request.branch, "main");
    assert_eq!(plan.request.subpath, Some("lib/util".to_string()));
    assert_eq!(plan.destination, "util");
    let mut pipeline = Pipeline::new(plan);
    pipeline = pipeline
        .advance(PipelineEvent::Destination { state: DestinationState::Absent })
        .unwrap();
    pipeline = pipeline.advance(PipelineEvent::WorkspaceCreated).unwrap();
    while pipeline.next_action() != Some(git(&["fetch", "--depth=1", "origin", "main"])) {
        pipeline = pipeline.advance(step(StepOutcome::Completed)).unwrap();
    }
    pipeline = pipeline.advance(failed_step("fatal: couldn't find remote ref main")).unwrap();
    assert_eq!(pipeline.phase(), Phase::Staging);
    assert_eq!(pipeline.next_action(), Some(git(&["fetch", "--depth=1", "origin", "master"])));
    assert_eq!(
        pipeline.advance(failed_step("fatal: couldn't find remote ref master\n")),
        Err(RetrievalError::FetchFailed {
            command: "git fetch --depth=1 origin master".to_string(),
            diagnostic: "fatal: couldn't find remote ref master\n".to_string(),
        })
    );
}

#[test]
fn scenario_destination_with_entries_fails_before_any_tool_run() {
    let plan = plan_retrieval(&args(Some("acme/tools"), None, Some("lib/util"), Some("./vendor/util")))
        .unwrap();
    assert_eq!(plan.destination, "./vendor/util");
    let pipeline = Pipeline::new(plan);
    let first = pipeline.next_action().unwrap();
    assert_eq!(first, PipelineAction::ProbeDestination { path: "./vendor/util".to_string() });
    assert!(!is_tool_run(&first));
    assert_eq!(
        pipeline.advance(PipelineEvent::Destination { state: DestinationState::Directory { entries: 2 } }),
        Err(RetrievalError::DestinationNotEmpty { path: "./vendor/util".to_string() })
    );
}

#[test]
fn scenario_whole_repository_skips_sparse_checkout() {
    let plan = plan_retrieval(&args(Some("acme/tools"), None, None, None)).unwrap();
    assert_eq!(plan.destination, "tools");
    let actions = run_to_end(plan, None);
    let mut expected = vec![
        PipelineAction::ProbeDestination { path: "tools".to_string() },
        PipelineAction::CreateWorkspace,
        git(&["init"]),
        git(&["remote", "add", "origin", "https://github.com/acme/tools.git"]),
        git(&["fetch", "--depth=1", "origin", "main"]),
        git(&["checkout", "FETCH_HEAD"]),
    ];
    expected.extend(copy_of_root(None, "tools"));
    expected.push(PipelineAction::ReadIgnoreFile);
    assert_eq!(actions, expected);
}

#[test]
fn subdirectory_run_asks_for_every_step_in_order() {
    let plan = plan_retrieval(&args(
        Some("https://github.com/acme/tools/tree/dev/lib/util"),
        None,
        None,
        Some("./vendor/util"),
    ))
    .unwrap();
    let actions = run_to_end(plan, Some("target\n"));
    let mut expected = vec![
        PipelineAction::ProbeDestination { path: "./vendor/util".to_string() },
        PipelineAction::CreateWorkspace,
        git(&["init"]),
        git(&["remote", "add", "origin", "https://github.com/acme/tools.git"]),
        git(&["config", "core.sparseCheckout", "true"]),
        PipelineAction::Stage {
            action: StagingAction::WriteSparsePattern { pattern: "lib/util\n".to_string() },
        },
        git(&["fetch", "--depth=1", "origin", "dev"]),
        git(&["checkout", "FETCH_HEAD"]),
        PipelineAction::Stage {
            action: StagingAction::VerifySubpath { subpath: "lib/util".to_string() },
        },
    ];
    expected.extend(copy_of_root(Some("lib/util"), "./vendor/util"));
    expected.push(PipelineAction::ReadIgnoreFile);
    expected.push(PipelineAction::WriteIgnoreFile {
        content: "target\n\n# Added by git-get\nvendor/util\n".to_string(),
    });
    assert_eq!(actions, expected);
}

#[test]
fn registered_destination_is_not_written_again() {
    let plan = plan_retrieval(&args(Some("acme/tools"), None, None, None)).unwrap();
    let actions = run_to_end(plan, Some("tools\n"));
    assert_eq!(actions.last(), Some(&PipelineAction::ReadIgnoreFile));
}

#[test]
fn plan_fails_as_its_parts_fail() {
    assert_eq!(plan_retrieval(&args(None, None, None, None)), Err(RetrievalError::MissingInput));
    assert_eq!(
        plan_retrieval(&args(Some("acme"), None, None, None)),
        Err(RetrievalError::InvalidLocator { input: "acme".to_string() })
    );
    assert_eq!(
        plan_retrieval(&args(Some("https://github.com//tools/tree/x"), None, None, None)),
        Err(RetrievalError::InvalidLocator { input: "/tools".to_string() })
    );
}

fn at_phase(phase: Phase) -> Pipeline {
    let plan = plan_retrieval(&args(Some("acme/tools"), None, None, None)).unwrap();
    let mut pipeline = Pipeline::new(plan);
    while pipeline.phase() != phase {
        let event = match pipeline.next_action().unwrap() {
            PipelineAction::ProbeDestination { .. } => {
                PipelineEvent::Destination { state: DestinationState::Directory { entries: 0 } }
            }
            PipelineAction::CreateWorkspace => PipelineEvent::WorkspaceCreated,
            PipelineAction::Stage { .. } => step(StepOutcome::Completed),
            PipelineAction::Copy { task, .. } => copied(&task),
            PipelineAction::ReadIgnoreFile => {
                PipelineEvent::IgnoreFile { content: Some(String::new()) }
            }
            PipelineAction::WriteIgnoreFile { .. } => PipelineEvent::IgnoreWritten,
        };
        pipeline = pipeline.advance(event).unwrap();
    }
    pipeline
}

fn failure(diagnostic: &str) -> PipelineEvent {
    PipelineEvent::Failed { diagnostic: diagnostic.to_string() }
}

#[test]
fn file_at_destination_ends_the_run() {
    assert_eq!(
        at_phase(Phase::Guard).advance(PipelineEvent::Destination { state: DestinationState::File }),
        Err(RetrievalError::DestinationIsFile { path: "tools".to_string() })
    );
}

#[test]
fn failures_outside_the_staging_have_their_own_errors() {
    assert_eq!(
        at_phase(Phase::Workspace).advance(failure("no space left")),
        Err(RetrievalError::WorkspaceCreationFailed { diagnostic: "no space left".to_string() })
    );
    assert_eq!(
        at_phase(Phase::Materialize).advance(PipelineEvent::Copy {
            event: CopyEvent::Failed { diagnostic: "permission denied".to_string() },
        }),
        Err(RetrievalError::CopyFailed { diagnostic: "permission denied".to_string() })
    );
    assert_eq!(
        at_phase(Phase::ReadIgnore).advance(failure("not readable")),
        Err(RetrievalError::IgnoreFileError { diagnostic: "not readable".to_string() })
    );
    assert_eq!(
        at_phase(Phase::WriteIgnore).advance(failure("not writable")),
        Err(RetrievalError::IgnoreFileError { diagnostic: "not writable".to_string() })
    );
}

#[test]
fn event_that_answers_nothing_changes_nothing() {
    let pipeline = at_phase(Phase::Guard)
        .advance(PipelineEvent::Copy { event: CopyEvent::Done })
        .unwrap();
    assert_eq!(pipeline.phase(), Phase::Guard);
    let pipeline = at_phase(Phase::Staging).advance(PipelineEvent::IgnoreWritten).unwrap();
    assert_eq!(pipeline.phase(), Phase::Staging);
    assert_eq!(pipeline.next_action(), Some(git(&["init"])));
    let pipeline = at_phase(Phase::Materialize).advance(failure("elsewhere")).unwrap();
    assert_eq!(pipeline.phase(), Phase::Materialize);
    let pipeline = at_phase(Phase::Done).advance(failure("late")).unwrap();
    assert!(pipeline.is_done());
    assert_eq!(pipeline.next_action(), None);
}

#[test]
fn failed_tool_step_ends_the_run() {
    assert_eq!(
        at_phase(Phase::Staging).advance(failed_step("fatal: not a directory\n")),
        Err(RetrievalError::ExternalToolFailed {
            command: "git init".to_string(),
            diagnostic: "fatal: not a directory\n".to_string(),
        })
    );
}

#[test]
fn ill_formed_branch_and_path_are_brought_into_form() {
    let mut typed = args(Some("acme/tools"), None, Some("/lib/util"), None);
    typed.branch = Some(String::new());
    let plan = plan_retrieval(&typed).unwrap();
    assert_eq!(plan.request.branch, "main");
    assert_eq!(plan.request.subpath, Some("lib/util".to_string()));
    assert_eq!(plan.destination, "util");
    let whole = plan_retrieval(&args(Some("acme/tools"), None, Some("/"), None)).unwrap();
    assert_eq!(whole.request.subpath, None);
    assert_eq!(whole.destination, "tools");
}
