//! Staging: the steps that fill an empty workspace with the requested tree.
//!
//! The library decides; the caller acts. `Staging::next_action` says what is
//! to be done in the workspace, the caller does it and reports how it went,
//! and `Staging::advance` gives the state that follows or the error that ends
//! the run. Every step is asked for once. The one exception is the fetch of
//! the branch `main`, which is tried once more as `master`.

use crate::error::{ErrorView, RetrievalError};
use crate::text::{join, join_strs, opt_view, same_str, views};
use vstd::prelude::*;

verus! {

/// What is staged: the URL to fetch from, the branch, and the subpath where
/// only a part of the tree is wanted.
#[derive(Debug, Clone, PartialEq, Eq)]
pub struct StagingPlan {
    pub clone_url: String,
    pub branch: String,
    pub subpath: Option<String>,
}

/// A `StagingPlan` as character sequences.
pub struct PlanView {
    pub clone_url: Seq<char>,
    pub branch: Seq<char>,
    pub subpath: Option<Seq<char>>,
}

impl View for StagingPlan {
    type V = PlanView;

    open spec fn view(&self) -> PlanView {
        PlanView {
            clone_url: self.clone_url@,
            branch: self.branch@,
            subpath: opt_view(self.subpath),
        }
    }
}

/// How far the staging has come. Each state is named after what has been
/// achieved; a failure ends the run with an error and is no state.
#[derive(Debug, Clone, Copy, PartialEq, Eq, Structural)]
pub enum StagingState {
    /// The workspace is empty.
    Start,
    /// The workspace holds an empty repository.
    Init,
    /// The clone URL is the repository's only remote.
    RemoteLinked,
    /// Sparse checkout is switched on; its pattern is not written yet.
    SparseEnabled,
    /// The subpath is the only pattern of the sparse checkout.
    SparseConfigured,
    /// The fetch of `main` failed; `master` is tried in its place.
    FetchRetry,
    /// The branch's newest commit is fetched.
    Fetched,
    /// The fetched tree is checked out; the subpath is yet to be looked for.
    CheckedOut,
    /// The workspace holds what was asked for.
    Success,
}

/// What the caller is asked to do in the workspace.
#[derive(Debug, Clone, PartialEq, Eq)]
pub enum StagingAction {
    /// Run `git` with these arguments.
    RunGit { args: Vec<String> },
    /// Write this text to `.git/info/sparse-checkout`.
    WriteSparsePattern { pattern: String },
    /// Look whether this path exists.
    VerifySubpath { subpath: String },
}

/// A `StagingAction` as character sequences.
pub enum ActionView {
    RunGit { args: Seq<Seq<char>> },
    WriteSparsePattern { pattern: Seq<char> },
    VerifySubpath { subpath: Seq<char> },
}

impl View for StagingAction {
    type V = ActionView;

    open spec fn view(&self) -> ActionView {
        match *self {
            StagingAction::RunGit { args } => ActionView::RunGit { args: views(args@) },
            StagingAction::WriteSparsePattern { pattern } => ActionView::WriteSparsePattern {
                pattern: pattern@,
            },
            StagingAction::VerifySubpath { subpath } => ActionView::VerifySubpath {
                subpath: subpath@,
            },
        }
    }
}

/// How an action went. For `RunGit`, `Completed` is the exit status zero and
/// `Failed` carries what the tool wrote to its standard error. For
/// `VerifySubpath`, `Completed` says that the path exists.
#[derive(Debug, Clone, PartialEq, Eq)]
pub enum StepOutcome {
    Completed,
    Failed { stderr: String },
}

impl StepOutcome {
    /// The outcome of a run of the tool: completed where it ended with the
    /// status zero, failed with what it wrote to its standard error else.
    pub fn from_status(success: bool, stderr: String) -> (r: StepOutcome)
        ensures
            success ==> r == StepOutcome::Completed,
            !success ==> r == (StepOutcome::Failed { stderr }),
    {
        if success {
            StepOutcome::Completed
        } else {
            StepOutcome::Failed { stderr }
        }
    }
}

/// A `StepOutcome` as character sequences.
pub enum OutcomeView {
    Completed,
    Failed { stderr: Seq<char> },
}

impl View for StepOutcome {
    type V = OutcomeView;

    open spec fn view(&self) -> OutcomeView {
        match *self {
            StepOutcome::Completed => OutcomeView::Completed,
            StepOutcome::Failed { stderr } => OutcomeView::Failed { stderr: stderr@ },
        }
    }
}

/// The arguments of a fetch of one branch, without history.
pub open spec fn fetch_args(branch: Seq<char>) -> Seq<Seq<char>> {
    seq!["fetch"@, "--depth=1"@, "origin"@, branch]
}

/// The subpath of a plan; empty where it has none.
pub open spec fn subpath_of(plan: PlanView) -> Seq<char> {
    match plan.subpath {
        Some(subpath) => subpath,
        None => Seq::<char>::empty(),
    }
}

/// The state goes with the plan: the sparse states and the look for the
/// subpath belong to a plan with a subpath, the retry to the branch `main`.
pub open spec fn fits(plan: PlanView, state: StagingState) -> bool {
    match state {
        StagingState::SparseEnabled | StagingState::SparseConfigured | StagingState::CheckedOut => {
            plan.subpath is Some
        },
        StagingState::FetchRetry => plan.branch =~= "main"@,
        _ => true,
    }
}

/// The next thing to fetch is the plan's branch.
pub open spec fn is_fetching(plan: PlanView, state: StagingState) -> bool {
    ||| state == StagingState::SparseConfigured
    ||| (state == StagingState::RemoteLinked && plan.subpath is None)
}

/// What is to be done in a state; nothing once the staging has succeeded.
pub open spec fn planned_action(plan: PlanView, state: StagingState) -> Option<ActionView> {
    match state {
        StagingState::Start => Some(ActionView::RunGit { args: seq!["init"@] }),
        StagingState::Init => Some(
            ActionView::RunGit { args: seq!["remote"@, "add"@, "origin"@, plan.clone_url] },
        ),
        StagingState::RemoteLinked => if plan.subpath is Some {
            Some(ActionView::RunGit { args: seq!["config"@, "core.sparseCheckout"@, "true"@] })
        } else {
            Some(ActionView::RunGit { args: fetch_args(plan.branch) })
        },
        StagingState::SparseEnabled => Some(
            ActionView::WriteSparsePattern { pattern: subpath_of(plan) + "\n"@ },
        ),
        StagingState::SparseConfigured => Some(
            ActionView::RunGit { args: fetch_args(plan.branch) },
        ),
        StagingState::FetchRetry => Some(ActionView::RunGit { args: fetch_args("master"@) }),
        StagingState::Fetched => Some(ActionView::RunGit { args: seq!["checkout"@, "FETCH_HEAD"@] }),
        StagingState::CheckedOut => Some(ActionView::VerifySubpath { subpath: subpath_of(plan) }),
        StagingState::Success => None,
    }
}

/// The state after an action that went well.
pub open spec fn state_after(plan: PlanView, state: StagingState) -> StagingState {
    match state {
        StagingState::Start => StagingState::Init,
        StagingState::Init => StagingState::RemoteLinked,
        StagingState::RemoteLinked => if plan.subpath is Some {
            StagingState::SparseEnabled
        } else {
            StagingState::Fetched
        },
        StagingState::SparseEnabled => StagingState::SparseConfigured,
        StagingState::SparseConfigured => StagingState::Fetched,
        StagingState::FetchRetry => StagingState::Fetched,
        StagingState::Fetched => if plan.subpath is Some {
            StagingState::CheckedOut
        } else {
            StagingState::Success
        },
        StagingState::CheckedOut => StagingState::Success,
        StagingState::Success => StagingState::Success,
    }
}

/// An action as it is named in an error: a command line for `git`, the
/// pattern file, or the subpath.
pub open spec fn described(action: ActionView) -> Seq<char> {
    match action {
        ActionView::RunGit { args } => "git "@ + join(args, " "@),
        ActionView::WriteSparsePattern { pattern } => ".git/info/sparse-checkout"@,
        ActionView::VerifySubpath { subpath } => subpath,
    }
}

/// Where a failed action leads: to the retry, for the first fetch of
/// `main`, and to an error for everything else. The error of a run of the
/// tool carries what the tool wrote to its standard error, as it came.
pub open spec fn state_after_failure(plan: PlanView, state: StagingState, stderr: Seq<char>)
    -> Result<StagingState, ErrorView> {
    match planned_action(plan, state) {
        None => Ok(state),
        Some(action) => if state == StagingState::CheckedOut {
            Err(ErrorView::SubpathNotFound { subpath: subpath_of(plan) })
        } else if is_fetching(plan, state) && plan.branch =~= "main"@ {
            Ok(StagingState::FetchRetry)
        } else if is_fetching(plan, state) || state == StagingState::FetchRetry {
            Err(ErrorView::FetchFailed { command: described(action), diagnostic: stderr })
        } else {
            Err(
                ErrorView::ExternalToolFailed {
                    command: described(action),
                    diagnostic: stderr,
                },
            )
        },
    }
}

/// The state that follows an action's outcome, or the error that ends the run.
pub open spec fn transition(plan: PlanView, state: StagingState, outcome: OutcomeView) -> Result<
    StagingState,
    ErrorView,
> {
    match outcome {
        OutcomeView::Completed => Ok(state_after(plan, state)),
        OutcomeView::Failed { stderr } => state_after_failure(plan, state, stderr),
    }
}

/// An upper bound on the actions that are still to come.
pub open spec fn steps_left(state: StagingState) -> nat {
    match state {
        StagingState::Start => 8,
        StagingState::Init => 7,
        StagingState::RemoteLinked => 6,
        StagingState::SparseEnabled => 5,
        StagingState::SparseConfigured => 4,
        StagingState::FetchRetry => 3,
        StagingState::Fetched => 2,
        StagingState::CheckedOut => 1,
        StagingState::Success => 0,
    }
}

/// A transition leaves the state fitting the plan.
pub proof fn lemma_transition_fits(plan: PlanView, state: StagingState, outcome: OutcomeView)
    requires
        fits(plan, state),
    ensures
        transition(plan, state, outcome) matches Ok(next) ==> fits(plan, next),
{
}

/// Every transition out of a state that asks for an action comes nearer to
/// the end: a run asks for eight actions at most, and none twice.
pub proof fn lemma_transition_progresses(
    plan: PlanView,
    state: StagingState,
    outcome: OutcomeView,
)
    requires
        state != StagingState::Success,
    ensures
        transition(plan, state, outcome) matches Ok(next) ==> steps_left(next) < steps_left(
            state,
        ),
        planned_action(plan, state) is Some,
{
}

/// Without a subpath nothing of the sparse checkout is ever asked for: not
/// its switch, not its pattern, not the look for the subpath.
pub proof fn lemma_whole_tree_skips_sparse(plan: PlanView, state: StagingState)
    requires
        fits(plan, state),
        plan.subpath is None,
    ensures
        planned_action(plan, state) matches Some(action) ==> {
            &&& action is RunGit
            &&& action->args != seq!["config"@, "core.sparseCheckout"@, "true"@]
        },
        state == StagingState::RemoteLinked ==> planned_action(plan, state) == Some(
            ActionView::RunGit { args: fetch_args(plan.branch) },
        ),
        state == StagingState::Fetched ==> state_after(plan, state) == StagingState::Success,
{
    reveal_strlit("config");
    reveal_strlit("init");
    reveal_strlit("remote");
    reveal_strlit("fetch");
    reveal_strlit("checkout");
    let sparse = seq!["config"@, "core.sparseCheckout"@, "true"@];
    assert(sparse[0] == "config"@);
    match planned_action(plan, state) {
        Some(ActionView::RunGit { args }) => {
            assert(args[0].len() != 6 || args[0][1] != 'o');
        },
        _ => {},
    }
}

/// The state after so many actions that all went well.
pub open spec fn state_after_steps(plan: PlanView, state: StagingState, steps: nat)
    -> StagingState
    decreases steps,
{
    if steps == 0 {
        state
    } else {
        state_after(plan, state_after_steps(plan, state, (steps - 1) as nat))
    }
}

/// Where nothing fails, a staging with a subpath succeeds with its seventh
/// action and one without with its fourth, and not before: the two actions
/// of the sparse checkout and the look for the subpath are what the whole
/// tree does without.
pub proof fn lemma_run_without_failure(plan: PlanView)
    ensures
        plan.subpath is Some ==> state_after_steps(plan, StagingState::Start, 7)
            == StagingState::Success,
        plan.subpath is None ==> state_after_steps(plan, StagingState::Start, 4)
            == StagingState::Success,
        forall|steps: nat|
            steps < (if plan.subpath is Some {
                7nat
            } else {
                4nat
            }) ==> #[trigger] state_after_steps(plan, StagingState::Start, steps)
                != StagingState::Success,
{
    reveal_with_fuel(state_after_steps, 8);
}

/// The fallback is bounded: a failed fetch of `main` is followed by one
/// fetch of `master`, whose failure is final; a failed fetch of any other
/// branch is final at once.
pub proof fn lemma_single_fallback(plan: PlanView, state: StagingState, stderr: Seq<char>)
    requires
        is_fetching(plan, state),
    ensures
        plan.branch == "main"@ ==> {
            &&& transition(plan, state, OutcomeView::Failed { stderr }) == Ok::<
                StagingState,
                ErrorView,
            >(StagingState::FetchRetry)
            &&& planned_action(plan, StagingState::FetchRetry) == Some(
                ActionView::RunGit { args: fetch_args("master"@) },
            )
        },
        plan.branch != "main"@ ==> transition(plan, state, OutcomeView::Failed { stderr })
            matches Err(ErrorView::FetchFailed { .. }),
        forall|again: Seq<char>|
            (#[trigger] transition(
                plan,
                StagingState::FetchRetry,
                OutcomeView::Failed { stderr: again },
            )) matches Err(ErrorView::FetchFailed { .. }),
{
}

/// A staging under way: its plan, and how far it has come.
#[derive(Debug, PartialEq, Eq)]
pub struct Staging {
    plan: StagingPlan,
    state: StagingState,
}

/// A copy of a string.
fn owned(s: &str) -> (r: String)
    ensures
        r@ == s@,
{
    s.to_owned()
}

/// The arguments of a fetch of one branch, without history.
fn fetch_arguments(branch: &str) -> (r: Vec<String>)
    ensures
        views(r@) == fetch_args(branch@),
{
    let mut args: Vec<String> = Vec::new();
    args.push(owned("fetch"));
    args.push(owned("--depth=1"));
    args.push(owned("origin"));
    args.push(owned(branch));
    assert(views(args@) =~= fetch_args(branch@));
    args
}

/// The text that names an action in an error.
pub fn describe(action: &StagingAction) -> (r: String)
    ensures
        r@ == described(action@),
{
    match action {
        StagingAction::RunGit { args } => {
            let mut line = owned("git ");
            let joined = join_strs(args.as_slice(), " ");
            line.append(joined.as_str());
            line
        },
        StagingAction::WriteSparsePattern { pattern } => owned(".git/info/sparse-checkout"),
        StagingAction::VerifySubpath { subpath } => subpath.clone(),
    }
}

impl Staging {
    #[verifier::type_invariant]
    spec fn well_formed(self) -> bool {
        fits(self.plan@, self.state)
    }

    /// The plan that is staged.
    pub closed spec fn plan(self) -> PlanView {
        self.plan@
    }

    /// How far the staging has come.
    pub closed spec fn state(self) -> StagingState {
        self.state
    }

    /// A staging of `plan` in an empty workspace.
    pub fn new(plan: StagingPlan) -> (r: Staging)
        ensures
            r.plan() == plan@,
            r.state() == StagingState::Start,
    {
        Staging { plan, state: StagingState::Start }
    }

    /// How far the staging has come.
    pub fn current(&self) -> (r: StagingState)
        ensures
            r == self.state(),
            fits(self.plan(), r),
    {
        proof {
            use_type_invariant(self);
        }
        self.state
    }

    /// Whether the workspace holds what was asked for.
    pub fn is_done(&self) -> (r: bool)
        ensures
            r == (self.state() == StagingState::Success),
    {
        match self.state {
            StagingState::Success => true,
            _ => false,
        }
    }

    /// The subpath of the plan, if it has one.
    pub fn subpath(&self) -> (r: Option<String>)
        ensures
            opt_view(r) == self.plan().subpath,
    {
        match &self.plan.subpath {
            Some(subpath) => Some(subpath.clone()),
            None => None,
        }
    }

    /// The subpath of the plan; empty where it has none.
    fn subpath_text(&self) -> (r: String)
        ensures
            r@ == subpath_of(self.plan()),
    {
        match &self.plan.subpath {
            Some(subpath) => subpath.clone(),
            None => String::new(),
        }
    }

    /// What is to be done next; nothing once the staging has succeeded.
    /// Without a subpath the sparse checkout is never asked for.
    pub fn next_action(&self) -> (r: Option<StagingAction>)
        ensures
            match r {
                Some(action) => planned_action(self.plan(), self.state()) == Some(action@),
                None => planned_action(self.plan(), self.state()) is None,
            },
            r is None <==> self.state() == StagingState::Success,
            self.plan().subpath is None ==> !(r matches Some(
                StagingAction::WriteSparsePattern { .. },
            )) && !(r matches Some(StagingAction::VerifySubpath { .. })),
    {
        proof {
            use_type_invariant(self);
        }
        match self.state {
            StagingState::Start => {
                let mut args: Vec<String> = Vec::new();
                args.push(owned("init"));
                assert(views(args@) =~= seq!["init"@]);
                Some(StagingAction::RunGit { args })
            },
            StagingState::Init => {
                let mut args: Vec<String> = Vec::new();
                args.push(owned("remote"));
                args.push(owned("add"));
                args.push(owned("origin"));
                args.push(self.plan.clone_url.clone());
                assert(views(args@) =~= seq!["remote"@, "add"@, "origin"@, self.plan@.clone_url]);
                Some(StagingAction::RunGit { args })
            },
            StagingState::RemoteLinked => {
                if self.plan.subpath.is_some() {
                    let mut args: Vec<String> = Vec::new();
                    args.push(owned("config"));
                    args.push(owned("core.sparseCheckout"));
                    args.push(owned("true"));
                    assert(views(args@) =~= seq!["config"@, "core.sparseCheckout"@, "true"@]);
                    Some(StagingAction::RunGit { args })
                } else {
                    Some(StagingAction::RunGit { args: fetch_arguments(self.plan.branch.as_str()) })
                }
            },
            StagingState::SparseEnabled => {
                let mut pattern = self.subpath_text();
                pattern.append("\n");
                Some(StagingAction::WriteSparsePattern { pattern })
            },
            StagingState::SparseConfigured => Some(
                StagingAction::RunGit { args: fetch_arguments(self.plan.branch.as_str()) },
            ),
            StagingState::FetchRetry => Some(
                StagingAction::RunGit { args: fetch_arguments("master") },
            ),
            StagingState::Fetched => {
                let mut args: Vec<String> = Vec::new();
                args.push(owned("checkout"));
                args.push(owned("FETCH_HEAD"));
                assert(views(args@) =~= seq!["checkout"@, "FETCH_HEAD"@]);
                Some(StagingAction::RunGit { args })
            },
            StagingState::CheckedOut => Some(
                StagingAction::VerifySubpath { subpath: self.subpath_text() },
            ),
            StagingState::Success => None,
        }
    }

    /// The state after an action that went well.
    fn next_state(&self) -> (r: StagingState)
        ensures
            r == state_after(self.plan(), self.state()),
    {
        match self.state {
            StagingState::Start => StagingState::Init,
            StagingState::Init => StagingState::RemoteLinked,
            StagingState::RemoteLinked => if self.plan.subpath.is_some() {
                StagingState::SparseEnabled
            } else {
                StagingState::Fetched
            },
            StagingState::SparseEnabled => StagingState::SparseConfigured,
            StagingState::SparseConfigured => StagingState::Fetched,
            StagingState::FetchRetry => StagingState::Fetched,
            StagingState::Fetched => if self.plan.subpath.is_some() {
                StagingState::CheckedOut
            } else {
                StagingState::Success
            },
            StagingState::CheckedOut => StagingState::Success,
            StagingState::Success => StagingState::Success,
        }
    }

    /// Whether the next thing to fetch is the plan's branch.
    fn fetching(&self) -> (r: bool)
        ensures
            r == is_fetching(self.plan(), self.state()),
    {
        match self.state {
            StagingState::SparseConfigured => true,
            StagingState::RemoteLinked => self.plan.subpath.is_none(),
            _ => false,
        }
    }

    /// Takes in how the action of `next_action` went: gives the staging in
    /// its next state, or the error that ends the run. The first failed
    /// fetch of `main` leads to the one retry, every other failure to an
    /// error.
    pub fn advance(self, outcome: StepOutcome) -> (r: Result<Staging, RetrievalError>)
        ensures
            match r {
                Ok(next) => next.plan() == self.plan() && transition(
                    self.plan(),
                    self.state(),
                    outcome@,
                ) == Ok::<StagingState, ErrorView>(next.state()),
                Err(e) => transition(self.plan(), self.state(), outcome@) == Err::<
                    StagingState,
                    ErrorView,
                >(e@),
            },
            outcome is Completed ==> r is Ok,
    {
        proof {
            use_type_invariant(&self);
            lemma_transition_fits(self.plan@, self.state, outcome@);
        }
        match outcome {
            StepOutcome::Completed => {
                let state = self.next_state();
                Ok(Staging { plan: self.plan, state })
            },
            StepOutcome::Failed { stderr } => {
                let action = match self.next_action() {
                    Some(action) => action,
                    None => {
                        return Ok(self);
                    },
                };
                let fetching = self.fetching();
                match self.state {
                    StagingState::CheckedOut => Err(
                        RetrievalError::SubpathNotFound { subpath: self.subpath_text() },
                    ),
                    _ => {
                        if fetching && same_str(self.plan.branch.as_str(), "main") {
                            Ok(Staging { plan: self.plan, state: StagingState::FetchRetry })
                        } else {
                            let command = describe(&action);
                            let diagnostic = stderr;
                            let retried = match self.state {
                                StagingState::FetchRetry => true,
                                _ => false,
                            };
                            if fetching || retried {
                                Err(RetrievalError::FetchFailed { command, diagnostic })
                            } else {
                                Err(RetrievalError::ExternalToolFailed { command, diagnostic })
                            }
                        }
                    },
                }
            },
        }
    }
}

} // verus!
