//! The retrieval as a whole: guard the destination, make a workspace, stage,
//! copy, register. The library decides each step; the caller performs it and
//! reports what happened.

use crate::error::{ErrorView, RetrievalError};
use crate::guard::{check_dest_path_safety, destination_verdict, DestinationState};
use crate::ignore::{add_to_gitignore, appended, is_registered, normalized_path};
use crate::locator::{build_repo_url, clone_url, is_full_url, CloneTarget};
use crate::materialize::{
    all_clean, answer, copy_step, initial_tasks, is_clean, lemma_copy_step_keeps_clean,
    lemma_walk_copies_tree, listing, lists_tree, task_path, tasks_of_tree, walk, CopyEvent,
    CopyEventView, CopyTask, EntryView, Materializer, TaskView, TreeNode,
};
use crate::request::{
    destination, is_well_formed, parse_input, resolve_destination, resolved, Args, ArgsView,
    Request, RetrievalRequest,
};
use crate::staging::{
    fits, lemma_whole_tree_skips_sparse, planned_action, transition, ActionView, OutcomeView,
    PlanView, Staging, StagingAction, StagingPlan, StagingState, StepOutcome,
};
use crate::text::opt_view;
use vstd::prelude::*;

verus! {

/// All that is settled before anything is touched: the request, the URL to
/// clone, and the local destination.
#[derive(Debug, Clone, PartialEq, Eq)]
pub struct RetrievalPlan {
    pub request: RetrievalRequest,
    pub target: CloneTarget,
    pub destination: String,
}

/// A `RetrievalPlan` as character sequences.
pub struct RetrievalPlanView {
    pub request: Request,
    pub clone_url: Seq<char>,
    pub destination: Seq<char>,
}

impl View for RetrievalPlan {
    type V = RetrievalPlanView;

    open spec fn view(&self) -> RetrievalPlanView {
        RetrievalPlanView {
            request: self.request@,
            clone_url: self.target.clone_url@,
            destination: self.destination@,
        }
    }
}

/// The plan that the arguments stand for: the resolved request, its
/// locator's clone URL, and the destination that was named or the default one.
pub open spec fn planned_retrieval(args: ArgsView) -> Result<RetrievalPlanView, ErrorView> {
    match resolved(args) {
        Err(e) => Err(e),
        Ok(request) => match clone_url(request.locator) {
            Err(e) => Err(e),
            Ok(url) => Ok(
                RetrievalPlanView {
                    request,
                    clone_url: url,
                    destination: destination(args.dest, request),
                },
            ),
        },
    }
}

/// Settles request, clone URL and destination from the arguments. The
/// clone URL is a full URL, never the short form, and the request is well
/// formed.
pub fn plan_retrieval(args: &Args) -> (r: Result<RetrievalPlan, RetrievalError>)
    ensures
        match r {
            Ok(plan) => planned_retrieval(args@) == Ok::<RetrievalPlanView, ErrorView>(plan@),
            Err(e) => planned_retrieval(args@) == Err::<RetrievalPlanView, ErrorView>(e@),
        },
        r matches Ok(plan) ==> is_full_url(plan@.clone_url),
        r matches Ok(plan) ==> is_well_formed(plan@.request),
        args.url is None && args.repo is None ==> r == Err::<RetrievalPlan, RetrievalError>(
            RetrievalError::MissingInput,
        ),
{
    let request = match parse_input(args) {
        Ok(request) => request,
        Err(e) => {
            return Err(e);
        },
    };
    let destination = resolve_destination(&args.dest, &request);
    let target = match build_repo_url(request.repository_locator.as_str()) {
        Ok(target) => target,
        Err(e) => {
            return Err(e);
        },
    };
    Ok(RetrievalPlan { request, target, destination })
}

/// The part of the retrieval that is under way.
#[derive(Debug, Clone, Copy, PartialEq, Eq, Structural)]
pub enum Phase {
    /// The destination is yet to be looked at.
    Guard,
    /// The destination is safe; the workspace is yet to be made.
    Workspace,
    /// The workspace is being filled.
    Staging,
    /// The workspace holds the tree; it is being copied.
    Materialize,
    /// The tree is copied; the ignore-file is yet to be read.
    ReadIgnore,
    /// The ignore-file does not name the destination; its new text is yet
    /// to be written.
    WriteIgnore,
    /// Nothing is left to do.
    Done,
}

/// What the caller is asked to do.
#[derive(Debug, Clone, PartialEq, Eq)]
pub enum PipelineAction {
    /// Report what stands at the destination path.
    ProbeDestination { path: String },
    /// Make the temporary workspace.
    CreateWorkspace,
    /// Do this in the workspace.
    Stage { action: StagingAction },
    /// Perform this step of the copy. The root of the source is the subpath of
    /// the workspace, or the workspace itself; the root of what is written
    /// is the destination.
    Copy { task: CopyTask, subpath: Option<String>, destination: String },
    /// Report what the ignore-file holds, if there is one.
    ReadIgnoreFile,
    /// Give the ignore-file this text.
    WriteIgnoreFile { content: String },
}

/// A `PipelineAction` as character sequences.
pub enum PipelineActionView {
    ProbeDestination { path: Seq<char> },
    CreateWorkspace,
    Stage { action: ActionView },
    Copy { task: TaskView, subpath: Option<Seq<char>>, destination: Seq<char> },
    ReadIgnoreFile,
    WriteIgnoreFile { content: Seq<char> },
}

impl View for PipelineAction {
    type V = PipelineActionView;

    open spec fn view(&self) -> PipelineActionView {
        match *self {
            PipelineAction::ProbeDestination { path } => PipelineActionView::ProbeDestination {
                path: path@,
            },
            PipelineAction::CreateWorkspace => PipelineActionView::CreateWorkspace,
            PipelineAction::Stage { action } => PipelineActionView::Stage { action: action@ },
            PipelineAction::Copy { task, subpath, destination } => PipelineActionView::Copy {
                task: task@,
                subpath: opt_view(subpath),
                destination: destination@,
            },
            PipelineAction::ReadIgnoreFile => PipelineActionView::ReadIgnoreFile,
            PipelineAction::WriteIgnoreFile { content } => PipelineActionView::WriteIgnoreFile {
                content: content@,
            },
        }
    }
}

/// What the caller reports of the action it was asked for.
#[derive(Debug, Clone, PartialEq, Eq)]
pub enum PipelineEvent {
    /// What stands at the destination path.
    Destination { state: DestinationState },
    /// The workspace is there.
    WorkspaceCreated,
    /// How the staging action went.
    Step { outcome: StepOutcome },
    /// How the task of the copy went.
    Copy { event: CopyEvent },
    /// What the ignore-file holds; `None` where there is no such file.
    IgnoreFile { content: Option<String> },
    /// The ignore-file has its new text.
    IgnoreWritten,
    /// The workspace could not be made, or the ignore-file not be read or
    /// written.
    Failed { diagnostic: String },
}

/// A `PipelineEvent` as character sequences.
pub enum EventView {
    Destination { state: DestinationState },
    WorkspaceCreated,
    Step { outcome: OutcomeView },
    Copy { event: CopyEventView },
    IgnoreFile { content: Option<Seq<char>> },
    IgnoreWritten,
    Failed { diagnostic: Seq<char> },
}

impl View for PipelineEvent {
    type V = EventView;

    open spec fn view(&self) -> EventView {
        match *self {
            PipelineEvent::Destination { state } => EventView::Destination { state },
            PipelineEvent::WorkspaceCreated => EventView::WorkspaceCreated,
            PipelineEvent::Step { outcome } => EventView::Step { outcome: outcome@ },
            PipelineEvent::Copy { event } => EventView::Copy { event: event@ },
            PipelineEvent::IgnoreFile { content } => EventView::IgnoreFile {
                content: opt_view(content),
            },
            PipelineEvent::IgnoreWritten => EventView::IgnoreWritten,
            PipelineEvent::Failed { diagnostic } => EventView::Failed { diagnostic: diagnostic@ },
        }
    }
}

/// A retrieval under way, as the contracts see it.
pub struct PipelineView {
    /// What is staged.
    pub plan: PlanView,
    /// Where the tree goes.
    pub destination: Seq<char>,
    /// The part that is under way.
    pub phase: Phase,
    /// How far the staging has come.
    pub staging: StagingState,
    /// The tasks of the copy that are left, the next one first.
    pub copying: Seq<TaskView>,
    /// The text that the ignore-file is to get; empty until it is known.
    pub pending: Seq<char>,
}

/// Phase, staging and copy go together: the staging has not begun before
/// its phase, is under way in it, and has succeeded after it; the copy has
/// not begun before its phase, has tasks left in it, and none after it. No
/// task of the copy is about the metadata directory.
pub open spec fn is_consistent(p: PipelineView) -> bool {
    &&& fits(p.plan, p.staging)
    &&& all_clean(p.copying)
    &&& match p.phase {
        Phase::Guard | Phase::Workspace => p.staging == StagingState::Start,
        Phase::Staging => p.staging != StagingState::Success,
        _ => p.staging == StagingState::Success,
    }
    &&& match p.phase {
        Phase::Guard | Phase::Workspace | Phase::Staging => p.copying == initial_tasks(),
        Phase::Materialize => p.copying.len() > 0,
        _ => p.copying.len() == 0,
    }
}

/// What is to be done next; nothing once the retrieval is done.
pub open spec fn pipeline_action(p: PipelineView) -> Option<PipelineActionView> {
    match p.phase {
        Phase::Guard => Some(PipelineActionView::ProbeDestination { path: p.destination }),
        Phase::Workspace => Some(PipelineActionView::CreateWorkspace),
        Phase::Staging => match planned_action(p.plan, p.staging) {
            Some(action) => Some(PipelineActionView::Stage { action }),
            None => None,
        },
        Phase::Materialize => if p.copying.len() > 0 {
            Some(
                PipelineActionView::Copy {
                    task: p.copying[0],
                    subpath: p.plan.subpath,
                    destination: p.destination,
                },
            )
        } else {
            None
        },
        Phase::ReadIgnore => Some(PipelineActionView::ReadIgnoreFile),
        Phase::WriteIgnore => Some(PipelineActionView::WriteIgnoreFile { content: p.pending }),
        Phase::Done => None,
    }
}

/// The retrieval in another phase.
pub open spec fn in_phase(p: PipelineView, phase: Phase) -> PipelineView {
    PipelineView { phase, ..p }
}

/// What follows an event: the retrieval as it goes on, or the error that
/// ends it. An event that does not answer the pending action changes nothing.
pub open spec fn pipeline_step(p: PipelineView, event: EventView) -> Result<
    PipelineView,
    ErrorView,
> {
    match p.phase {
        Phase::Guard => match event {
            EventView::Destination { state } => match destination_verdict(state, p.destination) {
                Ok(()) => Ok(in_phase(p, Phase::Workspace)),
                Err(e) => Err(e),
            },
            _ => Ok(p),
        },
        Phase::Workspace => match event {
            EventView::WorkspaceCreated => Ok(in_phase(p, Phase::Staging)),
            EventView::Failed { diagnostic } => Err(
                ErrorView::WorkspaceCreationFailed { diagnostic },
            ),
            _ => Ok(p),
        },
        Phase::Staging => match event {
            EventView::Step { outcome } => match transition(p.plan, p.staging, outcome) {
                Ok(next) => Ok(
                    PipelineView {
                        staging: next,
                        phase: if next == StagingState::Success {
                            Phase::Materialize
                        } else {
                            Phase::Staging
                        },
                        ..p
                    },
                ),
                Err(e) => Err(e),
            },
            _ => Ok(p),
        },
        Phase::Materialize => match event {
            EventView::Copy { event } => match copy_step(p.copying, event) {
                Ok(next) => Ok(
                    PipelineView {
                        copying: next,
                        phase: if next.len() == 0 {
                            Phase::ReadIgnore
                        } else {
                            Phase::Materialize
                        },
                        ..p
                    },
                ),
                Err(e) => Err(e),
            },
            _ => Ok(p),
        },
        Phase::ReadIgnore => match event {
            EventView::IgnoreFile { content: None } => Ok(in_phase(p, Phase::Done)),
            EventView::IgnoreFile { content: Some(content) } => if is_registered(
                content,
                normalized_path(p.destination),
            ) {
                Ok(in_phase(p, Phase::Done))
            } else {
                Ok(
                    PipelineView {
                        phase: Phase::WriteIgnore,
                        pending: appended(content, normalized_path(p.destination)),
                        ..p
                    },
                )
            },
            EventView::Failed { diagnostic } => Err(ErrorView::IgnoreFileError { diagnostic }),
            _ => Ok(p),
        },
        Phase::WriteIgnore => match event {
            EventView::IgnoreWritten => Ok(in_phase(p, Phase::Done)),
            EventView::Failed { diagnostic } => Err(ErrorView::IgnoreFileError { diagnostic }),
            _ => Ok(p),
        },
        Phase::Done => Ok(p),
    }
}

/// The place of a phase in the run.
pub open spec fn phase_order(phase: Phase) -> nat {
    match phase {
        Phase::Guard => 0,
        Phase::Workspace => 1,
        Phase::Staging => 2,
        Phase::Materialize => 3,
        Phase::ReadIgnore => 4,
        Phase::WriteIgnore => 5,
        Phase::Done => 6,
    }
}

/// A step leaves phase, staging and copy going together.
pub proof fn lemma_step_consistent(p: PipelineView, event: EventView)
    requires
        is_consistent(p),
    ensures
        pipeline_step(p, event) matches Ok(next) ==> is_consistent(next),
{
    match event {
        EventView::Copy { event } => {
            lemma_copy_step_keeps_clean(p.copying, event);
        },
        _ => {},
    }
}

/// The phases come in their order and none is gone back to; plan and
/// destination stay as they are.
pub proof fn lemma_phases_in_order(p: PipelineView, event: EventView)
    ensures
        pipeline_step(p, event) matches Ok(next) ==> {
            &&& phase_order(p.phase) <= phase_order(next.phase)
            &&& next.plan == p.plan
            &&& next.destination == p.destination
        },
{
}

/// The guard comes before everything else. In its phase the one action is
/// to look at the destination, and the only way on is a destination that is
/// absent or an empty directory: a file and a directory with entries end the
/// run, each with its own error. The tool is run in the staging phase only.
pub proof fn lemma_guard_comes_first(p: PipelineView, event: EventView)
    requires
        is_consistent(p),
    ensures
        p.phase == Phase::Guard ==> pipeline_action(p) == Some(
            PipelineActionView::ProbeDestination { path: p.destination },
        ),
        p.phase == Phase::Guard ==> match event {
            EventView::Destination { state: DestinationState::Absent } => pipeline_step(p, event)
                == Ok::<PipelineView, ErrorView>(in_phase(p, Phase::Workspace)),
            EventView::Destination { state: DestinationState::File } => pipeline_step(p, event)
                == Err::<PipelineView, ErrorView>(
                ErrorView::DestinationIsFile { path: p.destination },
            ),
            EventView::Destination { state: DestinationState::Directory { entries } } => if entries
                == 0 {
                pipeline_step(p, event) == Ok::<PipelineView, ErrorView>(
                    in_phase(p, Phase::Workspace),
                )
            } else {
                pipeline_step(p, event) == Err::<PipelineView, ErrorView>(
                    ErrorView::DestinationNotEmpty { path: p.destination },
                )
            },
            _ => pipeline_step(p, event) == Ok::<PipelineView, ErrorView>(p),
        },
        pipeline_action(p) matches Some(PipelineActionView::Stage { .. }) ==> p.phase
            == Phase::Staging,
        pipeline_action(p) is None <==> p.phase == Phase::Done,
{
}

/// The tree is copied only when the staging has succeeded. The root of
/// the copy is the whole workspace exactly where no subpath was asked for,
/// and no task is about the metadata directory or anything below one.
pub proof fn lemma_copy_follows_staging(p: PipelineView)
    requires
        is_consistent(p),
        pipeline_action(p) matches Some(PipelineActionView::Copy { .. }),
    ensures
        p.staging == StagingState::Success,
        pipeline_action(p) matches Some(PipelineActionView::Copy { task, subpath, destination })
            && subpath == p.plan.subpath && destination == p.destination && is_clean(
            task_path(task),
        ),
{
}

/// The retrieval after so many steps of the copy at most in which nothing
/// fails and every listing is answered by `lists`.
pub open spec fn copying_after(
    p: PipelineView,
    lists: spec_fn(TaskView) -> Seq<EntryView>,
    steps: nat,
) -> PipelineView
    decreases steps,
{
    if steps == 0 || p.phase != Phase::Materialize || p.copying.len() == 0 {
        p
    } else {
        match pipeline_step(p, EventView::Copy { event: answer(lists, p.copying[0]) }) {
            Ok(next) => copying_after(next, lists, (steps - 1) as nat),
            Err(_) => p,
        }
    }
}

/// In its phase the copy goes as the walk goes: after so many steps the
/// tasks that the walk leaves are left, and the phase is over when none is.
pub proof fn lemma_copying_follows_walk(
    p: PipelineView,
    lists: spec_fn(TaskView) -> Seq<EntryView>,
    steps: nat,
)
    requires
        p.phase == Phase::Materialize,
        p.copying.len() > 0,
    ensures
        copying_after(p, lists, steps) == (PipelineView {
            copying: walk(p.copying, lists, steps).1,
            phase: if walk(p.copying, lists, steps).1.len() == 0 {
                Phase::ReadIgnore
            } else {
                Phase::Materialize
            },
            ..p
        }),
    decreases steps,
{
    let goal = PipelineView {
        copying: walk(p.copying, lists, steps).1,
        phase: if walk(p.copying, lists, steps).1.len() == 0 {
            Phase::ReadIgnore
        } else {
            Phase::Materialize
        },
        ..p
    };
    if steps == 0 {
        assert(walk(p.copying, lists, steps).1 == p.copying);
        assert(goal == p);
    } else {
        let event = answer(lists, p.copying[0]);
        assert(!(event is Failed));
        assert(copy_step(p.copying, event) is Ok);
        let next = copy_step(p.copying, event)->Ok_0;
        let after = pipeline_step(p, EventView::Copy { event })->Ok_0;
        assert(pipeline_step(p, EventView::Copy { event }) is Ok);
        assert(after.copying == next);
        assert(walk(p.copying, lists, steps).1 == walk(next, lists, (steps - 1) as nat).1);
        assert(copying_after(p, lists, steps) == copying_after(after, lists, (steps - 1) as nat));
        if next.len() > 0 {
            lemma_copying_follows_walk(after, lists, (steps - 1) as nat);
        } else {
            assert(walk(next, lists, (steps - 1) as nat).1 == next);
            assert(copying_after(after, lists, (steps - 1) as nat) == after);
        }
        assert(copying_after(p, lists, steps) == goal);
    }
}

/// The copy as a whole. When the staging has succeeded and the workspace
/// holds a tree, a run in which nothing fails and the listings are those of
/// the tree asks for the destination to be made, for the root to be listed
/// and for the copy of the tree, task for task: every file and directory of
/// the tree that neither is a metadata directory nor stands below one, and
/// nothing else. Then the copy is over and the ignore-file comes next.
pub proof fn lemma_pipeline_copies_tree(
    p: PipelineView,
    root: Seq<TreeNode>,
    lists: spec_fn(TaskView) -> Seq<EntryView>,
)
    requires
        p.phase == Phase::Materialize,
        p.copying == initial_tasks(),
        lists(TaskView::ListDirectory { handle: 0, path: Seq::<Seq<char>>::empty() }) == listing(
            root,
        ),
        lists_tree(lists, Seq::<Seq<char>>::empty(), root),
    ensures
        walk(
            p.copying,
            lists,
            2 + tasks_of_tree(Seq::<Seq<char>>::empty(), root).len(),
        ).0 == initial_tasks() + tasks_of_tree(Seq::<Seq<char>>::empty(), root),
        copying_after(p, lists, 2 + tasks_of_tree(Seq::<Seq<char>>::empty(), root).len()) == (
        PipelineView { copying: Seq::<TaskView>::empty(), phase: Phase::ReadIgnore, ..p }),
        all_clean(tasks_of_tree(Seq::<Seq<char>>::empty(), root)),
{
    lemma_walk_copies_tree(root, lists);
    lemma_copying_follows_walk(
        p,
        lists,
        2 + tasks_of_tree(Seq::<Seq<char>>::empty(), root).len(),
    );
}

/// The retrieval after so many staging actions that all went well.
pub open spec fn staged_after(p: PipelineView, steps: nat) -> PipelineView
    decreases steps,
{
    if steps == 0 {
        p
    } else {
        match pipeline_step(
            staged_after(p, (steps - 1) as nat),
            EventView::Step { outcome: OutcomeView::Completed },
        ) {
            Ok(next) => next,
            Err(_) => staged_after(p, (steps - 1) as nat),
        }
    }
}

/// The action is a run of the tool, and not the one that switches the
/// sparse checkout on.
pub open spec fn is_plain_tool_run(action: Option<PipelineActionView>) -> bool {
    action matches Some(PipelineActionView::Stage { action: ActionView::RunGit { args } })
        && args != seq!["config"@, "core.sparseCheckout"@, "true"@]
}

/// The retrieval of a whole repository, from an empty workspace on, where
/// nothing fails. The staging takes four runs of the tool, none of them for
/// the sparse checkout, and nothing is written or looked for besides. Then
/// the whole workspace is the root of the copy, and where it holds a tree
/// and the listings are those of the tree, the copy asks for the destination
/// to be made, for the root to be listed, and for every file and directory
/// of the tree that neither is a metadata directory nor stands below one,
/// each once and under its path, and for nothing else. After that the copy
/// is over.
pub proof fn lemma_whole_repository_run(
    p: PipelineView,
    root: Seq<TreeNode>,
    lists: spec_fn(TaskView) -> Seq<EntryView>,
)
    requires
        is_consistent(p),
        p.phase == Phase::Staging,
        p.staging == StagingState::Start,
        p.plan.subpath is None,
        lists(TaskView::ListDirectory { handle: 0, path: Seq::<Seq<char>>::empty() }) == listing(
            root,
        ),
        lists_tree(lists, Seq::<Seq<char>>::empty(), root),
    ensures
        forall|steps: nat|
            steps < 4 ==> is_plain_tool_run(#[trigger] pipeline_action(staged_after(p, steps))),
        staged_after(p, 4) == (PipelineView {
            phase: Phase::Materialize,
            staging: StagingState::Success,
            ..p
        }),
        pipeline_action(staged_after(p, 4)) == Some(
            PipelineActionView::Copy {
                task: initial_tasks()[0],
                subpath: None,
                destination: p.destination,
            },
        ),
        walk(
            initial_tasks(),
            lists,
            2 + tasks_of_tree(Seq::<Seq<char>>::empty(), root).len(),
        ).0 == initial_tasks() + tasks_of_tree(Seq::<Seq<char>>::empty(), root),
        all_clean(tasks_of_tree(Seq::<Seq<char>>::empty(), root)),
        copying_after(
            staged_after(p, 4),
            lists,
            2 + tasks_of_tree(Seq::<Seq<char>>::empty(), root).len(),
        ) == (PipelineView {
            phase: Phase::ReadIgnore,
            staging: StagingState::Success,
            copying: Seq::<TaskView>::empty(),
            ..p
        }),
{
    reveal_with_fuel(staged_after, 5);
    let s0 = staged_after(p, 0);
    let s1 = staged_after(p, 1);
    let s2 = staged_after(p, 2);
    let s3 = staged_after(p, 3);
    let s4 = staged_after(p, 4);
    assert(s1 == PipelineView { staging: StagingState::Init, ..p });
    assert(s2 == PipelineView { staging: StagingState::RemoteLinked, ..p });
    assert(s3 == PipelineView { staging: StagingState::Fetched, ..p });
    assert(s4 == PipelineView {
        phase: Phase::Materialize,
        staging: StagingState::Success,
        ..p
    });
    lemma_whole_tree_skips_sparse(p.plan, s0.staging);
    lemma_whole_tree_skips_sparse(p.plan, s1.staging);
    lemma_whole_tree_skips_sparse(p.plan, s2.staging);
    lemma_whole_tree_skips_sparse(p.plan, s3.staging);
    assert forall|steps: nat| steps < 4 implies is_plain_tool_run(
        #[trigger] pipeline_action(staged_after(p, steps)),
    ) by {
        assert(steps == 0 || steps == 1 || steps == 2 || steps == 3);
    }
    lemma_pipeline_copies_tree(s4, root, lists);
}

/// A retrieval under way.
#[derive(Debug, PartialEq, Eq)]
pub struct Pipeline {
    destination: String,
    staging: Staging,
    materializer: Materializer,
    phase: Phase,
    pending: String,
}

impl View for Pipeline {
    type V = PipelineView;

    closed spec fn view(&self) -> PipelineView {
        PipelineView {
            plan: self.staging.plan(),
            destination: self.destination@,
            phase: self.phase,
            staging: self.staging.state(),
            copying: self.materializer.pending(),
            pending: self.pending@,
        }
    }
}

impl Pipeline {
    #[verifier::type_invariant]
    spec fn well_formed(self) -> bool {
        is_consistent(self@)
    }

    /// A retrieval at its start: nothing is looked at yet, nothing is staged.
    pub fn new(plan: RetrievalPlan) -> (r: Pipeline)
        ensures
            r@ == (PipelineView {
                plan: PlanView {
                    clone_url: plan@.clone_url,
                    branch: plan@.request.branch,
                    subpath: plan@.request.subpath,
                },
                destination: plan@.destination,
                phase: Phase::Guard,
                staging: StagingState::Start,
                copying: initial_tasks(),
                pending: Seq::<char>::empty(),
            }),
            is_consistent(r@),
    {
        let staging = Staging::new(
            StagingPlan {
                clone_url: plan.target.clone_url,
                branch: plan.request.branch,
                subpath: plan.request.subpath,
            },
        );
        Pipeline {
            destination: plan.destination,
            staging,
            materializer: Materializer::new(),
            phase: Phase::Guard,
            pending: String::new(),
        }
    }

    /// The part of the retrieval that is under way.
    pub fn phase(&self) -> (r: Phase)
        ensures
            r == self@.phase,
            is_consistent(self@),
    {
        proof {
            use_type_invariant(self);
        }
        self.phase
    }

    /// How far the staging has come.
    pub fn staging_state(&self) -> (r: StagingState)
        ensures
            r == self@.staging,
    {
        self.staging.current()
    }

    /// Whether nothing is left to do.
    pub fn is_done(&self) -> (r: bool)
        ensures
            r == (self@.phase == Phase::Done),
    {
        match self.phase {
            Phase::Done => true,
            _ => false,
        }
    }

    /// What is to be done next; nothing once the retrieval is done. The
    /// external tool is asked for in the staging phase only.
    pub fn next_action(&self) -> (r: Option<PipelineAction>)
        ensures
            match r {
                Some(action) => pipeline_action(self@) == Some(action@),
                None => pipeline_action(self@) is None,
            },
            r is None <==> self@.phase == Phase::Done,
            r matches Some(PipelineAction::Stage { .. }) ==> self@.phase == Phase::Staging,
    {
        proof {
            use_type_invariant(self);
        }
        match self.phase {
            Phase::Guard => Some(
                PipelineAction::ProbeDestination { path: self.destination.clone() },
            ),
            Phase::Workspace => Some(PipelineAction::CreateWorkspace),
            Phase::Staging => match self.staging.next_action() {
                Some(action) => Some(PipelineAction::Stage { action }),
                None => None,
            },
            Phase::Materialize => match self.materializer.next_task() {
                Some(task) => Some(
                    PipelineAction::Copy {
                        task,
                        subpath: self.staging.subpath(),
                        destination: self.destination.clone(),
                    },
                ),
                None => None,
            },
            Phase::ReadIgnore => Some(PipelineAction::ReadIgnoreFile),
            Phase::WriteIgnore => Some(
                PipelineAction::WriteIgnoreFile { content: self.pending.clone() },
            ),
            Phase::Done => None,
        }
    }

    /// Takes in what the caller reports of the action of `next_action`:
    /// gives the retrieval as it goes on, or the error that ends it. An
    /// event that does not answer that action changes nothing.
    pub fn advance(self, event: PipelineEvent) -> (r: Result<Pipeline, RetrievalError>)
        ensures
            match r {
                Ok(next) => pipeline_step(self@, event@) == Ok::<PipelineView, ErrorView>(next@),
                Err(e) => pipeline_step(self@, event@) == Err::<PipelineView, ErrorView>(e@),
            },
    {
        proof {
            use_type_invariant(&self);
            lemma_step_consistent(self@, event@);
        }
        let Pipeline { destination, staging, materializer, phase, pending } = self;
        match phase {
            Phase::Guard => match event {
                PipelineEvent::Destination { state } => {
                    match check_dest_path_safety(state, destination.as_str()) {
                        Ok(()) => Ok(
                            Pipeline { destination, staging, materializer, phase: Phase::Workspace, pending },
                        ),
                        Err(e) => Err(e),
                    }
                },
                _ => Ok(Pipeline { destination, staging, materializer, phase, pending }),
            },
            Phase::Workspace => match event {
                PipelineEvent::WorkspaceCreated => Ok(
                    Pipeline { destination, staging, materializer, phase: Phase::Staging, pending },
                ),
                PipelineEvent::Failed { diagnostic } => Err(
                    RetrievalError::WorkspaceCreationFailed { diagnostic },
                ),
                _ => Ok(Pipeline { destination, staging, materializer, phase, pending }),
            },
            Phase::Staging => match event {
                PipelineEvent::Step { outcome } => match staging.advance(outcome) {
                    Ok(next) => {
                        let phase = if next.is_done() {
                            Phase::Materialize
                        } else {
                            Phase::Staging
                        };
                        Ok(Pipeline { destination, staging: next, materializer, phase, pending })
                    },
                    Err(e) => Err(e),
                },
                _ => Ok(Pipeline { destination, staging, materializer, phase, pending }),
            },
            Phase::Materialize => match event {
                PipelineEvent::Copy { event } => match materializer.advance(event) {
                    Ok(next) => {
                        let phase = if next.is_done() {
                            Phase::ReadIgnore
                        } else {
                            Phase::Materialize
                        };
                        Ok(Pipeline { destination, staging, materializer: next, phase, pending })
                    },
                    Err(e) => Err(e),
                },
                _ => Ok(Pipeline { destination, staging, materializer, phase, pending }),
            },
            Phase::ReadIgnore => match event {
                PipelineEvent::IgnoreFile { content: None } => Ok(
                    Pipeline { destination, staging, materializer, phase: Phase::Done, pending },
                ),
                PipelineEvent::IgnoreFile { content: Some(content) } => {
                    match add_to_gitignore(Some(content.as_str()), destination.as_str()) {
                        None => Ok(Pipeline { destination, staging, materializer, phase: Phase::Done, pending }),
                        Some(text) => Ok(
                            Pipeline {
                                destination,
                                staging,
                                materializer,
                                phase: Phase::WriteIgnore,
                                pending: text,
                            },
                        ),
                    }
                },
                PipelineEvent::Failed { diagnostic } => Err(
                    RetrievalError::IgnoreFileError { diagnostic },
                ),
                _ => Ok(Pipeline { destination, staging, materializer, phase, pending }),
            },
            Phase::WriteIgnore => match event {
                PipelineEvent::IgnoreWritten => Ok(
                    Pipeline { destination, staging, materializer, phase: Phase::Done, pending },
                ),
                PipelineEvent::Failed { diagnostic } => Err(
                    RetrievalError::IgnoreFileError { diagnostic },
                ),
                _ => Ok(Pipeline { destination, staging, materializer, phase, pending }),
            },
            Phase::Done => Ok(Pipeline { destination, staging, materializer, phase, pending }),
        }
    }
}

} // verus!
