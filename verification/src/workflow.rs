//! The entry workflow for an issue as a state machine: bring `main` up to
//! date, set up the issue's worktree, open a draft pull request, then run
//! the project's checks. Each step names the next command, and the outcome
//! of that command decides the step after it.
use crate::manager::{spec_branch_name, spec_draft_pr_commands, spec_worktree_add_command, spec_worktree_path, draft_pr_commands, worktree_add_command, worktree_path, branch_name};
use crate::text::{chars_eq, chars_of, concat, contains_chars, holds, trim, trim_chars, append_str};
use vstd::prelude::*;

verus! {

/// What became of a command the workflow asked for.
#[derive(Debug, Clone)]
pub enum StepOutcome {
    /// It ran: what it printed, its exit code if it has one, and its error text.
    Ran { output: String, exit_code: Option<i32>, error: String },
    /// It could not be run, with the reason.
    NotRun(String),
}

/// An outcome as values.
pub enum OutcomeView {
    Ran(Seq<char>, Option<i32>, Seq<char>),
    NotRun(Seq<char>),
}

impl View for StepOutcome {
    type V = OutcomeView;

    open spec fn view(&self) -> OutcomeView {
        match self {
            StepOutcome::Ran { output, exit_code, error } => OutcomeView::Ran(output@, *exit_code, error@),
            StepOutcome::NotRun(e) => OutcomeView::NotRun(e@),
        }
    }
}

/// Where the workflow stands: which command's outcome it waits for.
#[derive(Debug, Clone, Copy, PartialEq, Eq, Structural)]
pub enum WorkflowState {
    Start,
    AwaitPwd,
    AwaitBranch,
    AwaitCheckout,
    AwaitPull,
    AwaitWorktreeTest,
    AwaitBranchCheck,
    AwaitWorktreeAdd,
    AwaitSwitch,
    AwaitIssueView,
    AwaitCommit,
    AwaitPush,
    AwaitPr,
    AwaitCargoCheck,
    /// Waiting for the quality check with this number (0 to 2).
    AwaitQualityCheck(u8),
    Done,
}

/// What the workflow asks for next.
#[derive(Debug, Clone, PartialEq, Eq)]
pub enum WorkflowAction {
    /// Run this shell command.
    Run(String),
    /// Make this directory the working directory.
    SwitchTo(String),
    /// The workflow succeeded.
    Finish,
    /// The workflow stopped with this error.
    Fail(String),
}

/// An action as values.
pub enum ActionView {
    Run(Seq<char>),
    SwitchTo(Seq<char>),
    Finish,
    Fail(Seq<char>),
}

impl View for WorkflowAction {
    type V = ActionView;

    open spec fn view(&self) -> ActionView {
        match self {
            WorkflowAction::Run(c) => ActionView::Run(c@),
            WorkflowAction::SwitchTo(d) => ActionView::SwitchTo(d@),
            WorkflowAction::Finish => ActionView::Finish,
            WorkflowAction::Fail(m) => ActionView::Fail(m@),
        }
    }
}

/// The command ran and exited with 0.
pub open spec fn succeeded(o: OutcomeView) -> bool {
    o matches OutcomeView::Ran(_, code, _) && code == Some(0i32)
}

/// A step whose command must run and succeed: on to `next` with `action`,
/// or stop, naming why.
pub open spec fn checked(
    o: OutcomeView,
    not_run: Seq<char>,
    failed: Seq<char>,
    next: WorkflowState,
    action: ActionView,
) -> (WorkflowState, ActionView) {
    match o {
        OutcomeView::NotRun(e) => (WorkflowState::Done, ActionView::Fail(not_run + e)),
        OutcomeView::Ran(_, code, err) => if code == Some(0i32) {
            (next, action)
        } else {
            (WorkflowState::Done, ActionView::Fail(failed + err))
        },
    }
}

/// The project checks, in order.
pub open spec fn quality_check(k: nat) -> Seq<char> {
    if k == 0 {
        "cargo fmt --check"@
    } else if k == 1 {
        "cargo clippy"@
    } else {
        "cargo test"@
    }
}

/// One step of the workflow for `issue`, given the outcome of the command
/// the previous step asked for (ignored at the start).
pub open spec fn spec_workflow_step(state: WorkflowState, issue: Seq<char>, o: OutcomeView) -> (
    WorkflowState,
    ActionView,
) {
    let wt = spec_worktree_path(issue);
    let cmds = spec_draft_pr_commands(issue);
    match state {
        WorkflowState::Start => (WorkflowState::AwaitPwd, ActionView::Run("pwd"@)),
        WorkflowState::AwaitPwd => match o {
            OutcomeView::NotRun(e) => (
                WorkflowState::Done,
                ActionView::Fail("Failed to get current directory: "@ + e),
            ),
            OutcomeView::Ran(out, _, _) => if holds(trim(out), wt) || holds(trim(out), ".worktree"@) {
                (WorkflowState::AwaitWorktreeTest, ActionView::Run("test -d "@ + wt))
            } else {
                (WorkflowState::AwaitBranch, ActionView::Run("git branch --show-current"@))
            },
        },
        WorkflowState::AwaitBranch => match o {
            OutcomeView::NotRun(e) => (
                WorkflowState::Done,
                ActionView::Fail("Failed to get current branch: "@ + e),
            ),
            OutcomeView::Ran(out, _, _) => if trim(out) != "main"@ {
                (WorkflowState::AwaitCheckout, ActionView::Run("git checkout main"@))
            } else {
                (WorkflowState::AwaitPull, ActionView::Run("git pull origin main"@))
            },
        },
        WorkflowState::AwaitCheckout => checked(
            o,
            "Failed to checkout main: "@,
            "Git checkout main failed: "@,
            WorkflowState::AwaitPull,
            ActionView::Run("git pull origin main"@),
        ),
        WorkflowState::AwaitPull => checked(
            o,
            "Failed to pull main: "@,
            "Git pull failed: "@,
            WorkflowState::AwaitWorktreeTest,
            ActionView::Run("test -d "@ + wt),
        ),
        WorkflowState::AwaitWorktreeTest => if succeeded(o) {
            (WorkflowState::AwaitSwitch, ActionView::SwitchTo(wt))
        } else {
            (
                WorkflowState::AwaitBranchCheck,
                ActionView::Run("git show-ref --verify --quiet refs/heads/"@ + spec_branch_name(issue)),
            )
        },
        WorkflowState::AwaitBranchCheck => (
            WorkflowState::AwaitWorktreeAdd,
            ActionView::Run(spec_worktree_add_command(issue, succeeded(o))),
        ),
        WorkflowState::AwaitWorktreeAdd => checked(
            o,
            "Failed to create worktree: "@,
            "Worktree creation failed: "@,
            WorkflowState::AwaitSwitch,
            ActionView::SwitchTo(wt),
        ),
        WorkflowState::AwaitSwitch => match o {
            OutcomeView::NotRun(e) => (
                WorkflowState::Done,
                ActionView::Fail("Failed to switch to worktree: "@ + e),
            ),
            OutcomeView::Ran(_, _, _) => (WorkflowState::AwaitIssueView, ActionView::Run(cmds[0])),
        },
        WorkflowState::AwaitIssueView => checked(
            o,
            "Failed to get issue details: "@,
            "Failed to retrieve issue: "@,
            WorkflowState::AwaitCommit,
            ActionView::Run(cmds[1]),
        ),
        WorkflowState::AwaitCommit => checked(
            o,
            "Failed to create empty commit: "@,
            "Empty commit failed: "@,
            WorkflowState::AwaitPush,
            ActionView::Run(cmds[2]),
        ),
        WorkflowState::AwaitPush => checked(
            o,
            "Failed to push branch: "@,
            "Branch push failed: "@,
            WorkflowState::AwaitPr,
            ActionView::Run(cmds[3]),
        ),
        WorkflowState::AwaitPr => checked(
            o,
            "Failed to create PR: "@,
            "PR creation failed: "@,
            WorkflowState::AwaitCargoCheck,
            ActionView::Run("test -f Cargo.toml"@),
        ),
        WorkflowState::AwaitCargoCheck => if succeeded(o) {
            (WorkflowState::AwaitQualityCheck(0), ActionView::Run(quality_check(0)))
        } else {
            (WorkflowState::Done, ActionView::Finish)
        },
        WorkflowState::AwaitQualityCheck(k) => match o {
            OutcomeView::NotRun(e) => (
                WorkflowState::Done,
                ActionView::Fail("Failed to run "@ + quality_check(k as nat) + ": "@ + e),
            ),
            OutcomeView::Ran(_, _, _) => if k < 2 {
                (
                    WorkflowState::AwaitQualityCheck((k + 1) as u8),
                    ActionView::Run(quality_check((k + 1) as nat)),
                )
            } else {
                (WorkflowState::Done, ActionView::Finish)
            },
        },
        WorkflowState::Done => (WorkflowState::Done, ActionView::Finish),
    }
}

/// How the workflow starts: in test mode it does nothing and succeeds;
/// otherwise it first asks for the working directory.
pub fn workflow_start(test_mode: bool) -> (r: (WorkflowState, WorkflowAction))
    ensures
        test_mode ==> r.0 == WorkflowState::Done && r.1@ == ActionView::Finish,
        !test_mode ==> r.0 == WorkflowState::AwaitPwd && r.1@ == ActionView::Run("pwd"@),
{
    if test_mode {
        (WorkflowState::Done, WorkflowAction::Finish)
    } else {
        (WorkflowState::AwaitPwd, WorkflowAction::Run("pwd".to_owned()))
    }
}

fn run_succeeded(o: &StepOutcome) -> (b: bool)
    ensures
        b == succeeded(o@),
{
    match o {
        StepOutcome::Ran { exit_code, .. } => match exit_code {
            Some(c) => *c == 0,
            None => false,
        },
        StepOutcome::NotRun(_) => false,
    }
}

fn checked_step(
    o: &StepOutcome,
    not_run: &str,
    failed: &str,
    next: WorkflowState,
    action: WorkflowAction,
) -> (r: (WorkflowState, WorkflowAction))
    ensures
        (r.0, r.1@) == checked(o@, not_run@, failed@, next, action@),
{
    match o {
        StepOutcome::NotRun(e) => (WorkflowState::Done, WorkflowAction::Fail(concat(not_run, e.as_str()))),
        StepOutcome::Ran { exit_code, error, .. } => {
            if run_succeeded(o) {
                (next, action)
            } else {
                (WorkflowState::Done, WorkflowAction::Fail(concat(failed, error.as_str())))
            }
        },
    }
}

fn quality_check_command(k: u8) -> (c: String)
    ensures
        c@ == quality_check(k as nat),
{
    if k == 0 {
        "cargo fmt --check".to_owned()
    } else if k == 1 {
        "cargo clippy".to_owned()
    } else {
        "cargo test".to_owned()
    }
}

fn pr_command(issue: &str, k: usize) -> (c: String)
    requires
        k < 4,
    ensures
        c@ == spec_draft_pr_commands(issue@)[k as int],
{
    let mut cmds = draft_pr_commands(issue);
    assert(cmds@.map_values(|c: String| c@).len() == 4);
    assert(cmds@.map_values(|c: String| c@)[k as int] == cmds@[k as int]@);
    cmds.swap_remove(k)
}

/// One step of the entry workflow for `issue`, given the outcome of the
/// command the previous step asked for.
pub fn workflow_step(state: WorkflowState, issue: &str, outcome: &StepOutcome) -> (r: (
    WorkflowState,
    WorkflowAction,
))
    ensures
        (r.0, r.1@) == spec_workflow_step(state, issue@, outcome@),
{
    let wt = worktree_path(issue);
    match state {
        WorkflowState::Start => (WorkflowState::AwaitPwd, WorkflowAction::Run("pwd".to_owned())),
        WorkflowState::AwaitPwd => match outcome {
            StepOutcome::NotRun(e) => (
                WorkflowState::Done,
                WorkflowAction::Fail(concat("Failed to get current directory: ", e.as_str())),
            ),
            StepOutcome::Ran { output, .. } => {
                let o = chars_of(output.as_str());
                let d = trim_chars(o.as_slice());
                let w = chars_of(wt.as_str());
                let any = chars_of(".worktree");
                if contains_chars(d.as_slice(), w.as_slice()) || contains_chars(
                    d.as_slice(),
                    any.as_slice(),
                ) {
                    (WorkflowState::AwaitWorktreeTest, WorkflowAction::Run(concat("test -d ", wt.as_str())))
                } else {
                    (
                        WorkflowState::AwaitBranch,
                        WorkflowAction::Run("git branch --show-current".to_owned()),
                    )
                }
            },
        },
        WorkflowState::AwaitBranch => match outcome {
            StepOutcome::NotRun(e) => (
                WorkflowState::Done,
                WorkflowAction::Fail(concat("Failed to get current branch: ", e.as_str())),
            ),
            StepOutcome::Ran { output, .. } => {
                let o = chars_of(output.as_str());
                let b = trim_chars(o.as_slice());
                let main = chars_of("main");
                if !chars_eq(b.as_slice(), main.as_slice()) {
                    (WorkflowState::AwaitCheckout, WorkflowAction::Run("git checkout main".to_owned()))
                } else {
                    (WorkflowState::AwaitPull, WorkflowAction::Run("git pull origin main".to_owned()))
                }
            },
        },
        WorkflowState::AwaitCheckout => checked_step(
            outcome,
            "Failed to checkout main: ",
            "Git checkout main failed: ",
            WorkflowState::AwaitPull,
            WorkflowAction::Run("git pull origin main".to_owned()),
        ),
        WorkflowState::AwaitPull => checked_step(
            outcome,
            "Failed to pull main: ",
            "Git pull failed: ",
            WorkflowState::AwaitWorktreeTest,
            WorkflowAction::Run(concat("test -d ", wt.as_str())),
        ),
        WorkflowState::AwaitWorktreeTest => {
            if run_succeeded(outcome) {
                (WorkflowState::AwaitSwitch, WorkflowAction::SwitchTo(wt))
            } else {
                let b = branch_name(issue);
                (
                    WorkflowState::AwaitBranchCheck,
                    WorkflowAction::Run(concat("git show-ref --verify --quiet refs/heads/", b.as_str())),
                )
            }
        },
        WorkflowState::AwaitBranchCheck => (
            WorkflowState::AwaitWorktreeAdd,
            WorkflowAction::Run(worktree_add_command(issue, run_succeeded(outcome))),
        ),
        WorkflowState::AwaitWorktreeAdd => checked_step(
            outcome,
            "Failed to create worktree: ",
            "Worktree creation failed: ",
            WorkflowState::AwaitSwitch,
            WorkflowAction::SwitchTo(wt),
        ),
        WorkflowState::AwaitSwitch => match outcome {
            StepOutcome::NotRun(e) => (
                WorkflowState::Done,
                WorkflowAction::Fail(concat("Failed to switch to worktree: ", e.as_str())),
            ),
            StepOutcome::Ran { .. } => {
                let c = pr_command(issue, 0);
                (WorkflowState::AwaitIssueView, WorkflowAction::Run(c))
            },
        },
        WorkflowState::AwaitIssueView => {
            let c = pr_command(issue, 1);
            checked_step(
                outcome,
                "Failed to get issue details: ",
                "Failed to retrieve issue: ",
                WorkflowState::AwaitCommit,
                WorkflowAction::Run(c),
            )
        },
        WorkflowState::AwaitCommit => {
            let c = pr_command(issue, 2);
            checked_step(
                outcome,
                "Failed to create empty commit: ",
                "Empty commit failed: ",
                WorkflowState::AwaitPush,
                WorkflowAction::Run(c),
            )
        },
        WorkflowState::AwaitPush => {
            let c = pr_command(issue, 3);
            checked_step(
                outcome,
                "Failed to push branch: ",
                "Branch push failed: ",
                WorkflowState::AwaitPr,
                WorkflowAction::Run(c),
            )
        },
        WorkflowState::AwaitPr => checked_step(
            outcome,
            "Failed to create PR: ",
            "PR creation failed: ",
            WorkflowState::AwaitCargoCheck,
            WorkflowAction::Run("test -f Cargo.toml".to_owned()),
        ),
        WorkflowState::AwaitCargoCheck => {
            if run_succeeded(outcome) {
                (WorkflowState::AwaitQualityCheck(0), WorkflowAction::Run(quality_check_command(0)))
            } else {
                (WorkflowState::Done, WorkflowAction::Finish)
            }
        },
        WorkflowState::AwaitQualityCheck(k) => match outcome {
            StepOutcome::NotRun(e) => {
                let mut m = concat("Failed to run ", quality_check_command(k).as_str());
                append_str(&mut m, ": ");
                append_str(&mut m, e.as_str());
                (WorkflowState::Done, WorkflowAction::Fail(m))
            },
            StepOutcome::Ran { .. } => {
                if k < 2 {
                    (
                        WorkflowState::AwaitQualityCheck(k + 1),
                        WorkflowAction::Run(quality_check_command(k + 1)),
                    )
                } else {
                    (WorkflowState::Done, WorkflowAction::Finish)
                }
            },
        },
        WorkflowState::Done => (WorkflowState::Done, WorkflowAction::Finish),
    }
}

/// How far a state is from the end of the workflow.
pub open spec fn remaining_steps(s: WorkflowState) -> nat {
    match s {
        WorkflowState::Start => 17,
        WorkflowState::AwaitPwd => 16,
        WorkflowState::AwaitBranch => 15,
        WorkflowState::AwaitCheckout => 14,
        WorkflowState::AwaitPull => 13,
        WorkflowState::AwaitWorktreeTest => 12,
        WorkflowState::AwaitBranchCheck => 11,
        WorkflowState::AwaitWorktreeAdd => 10,
        WorkflowState::AwaitSwitch => 9,
        WorkflowState::AwaitIssueView => 8,
        WorkflowState::AwaitCommit => 7,
        WorkflowState::AwaitPush => 6,
        WorkflowState::AwaitPr => 5,
        WorkflowState::AwaitCargoCheck => 4,
        WorkflowState::AwaitQualityCheck(k) => if k >= 2 {
            1
        } else {
            (3 - k) as nat
        },
        WorkflowState::Done => 0,
    }
}

/// The workflow always ends: every step before the end moves closer to it,
/// and a step ends the workflow exactly when it finishes or fails.
pub proof fn law_workflow_terminates(state: WorkflowState, issue: Seq<char>, o: OutcomeView)
    ensures
        state != WorkflowState::Done ==> remaining_steps(spec_workflow_step(state, issue, o).0)
            < remaining_steps(state),
        (spec_workflow_step(state, issue, o).0 == WorkflowState::Done) <==> (spec_workflow_step(
            state,
            issue,
            o,
        ).1 is Finish || spec_workflow_step(state, issue, o).1 is Fail),
{
}


/// Once the branch check is back, the worktree is added on the issue's
/// branch: on the existing branch `issue-<n>` exactly when the check
/// succeeded (ran and exited with 0), else creating it with `-b`.
pub proof fn law_worktree_reuses_an_existing_branch(issue: Seq<char>, o: OutcomeView)
    ensures
        spec_workflow_step(WorkflowState::AwaitBranchCheck, issue, o) == (
            WorkflowState::AwaitWorktreeAdd,
            ActionView::Run(
                if o matches OutcomeView::Ran(_, code, _) && code == Some(0i32) {
                    "git worktree add .worktree/issue-"@ + issue + " issue-"@ + issue
                } else {
                    "git worktree add .worktree/issue-"@ + issue + " -b issue-"@ + issue
                },
            ),
        ),
{
    reveal_strlit("git worktree add .worktree/issue-");
    reveal_strlit("git worktree add ");
    reveal_strlit(".worktree/");
    reveal_strlit("issue-");
    reveal_strlit(" issue-");
    reveal_strlit(" -b issue-");
    reveal_strlit(" ");
    reveal_strlit(" -b ");
    let wt = spec_worktree_path(issue);
    let br = spec_branch_name(issue);
    assert("git worktree add "@ + wt + " "@ + br =~= "git worktree add .worktree/issue-"@ + issue
        + " issue-"@ + issue);
    assert("git worktree add "@ + wt + " -b "@ + br =~= "git worktree add .worktree/issue-"@
        + issue + " -b issue-"@ + issue);
}


/// A step whose command must succeed stops the workflow with an error when
/// that command could not run or exited other than with 0, and goes on
/// when it succeeded.
pub proof fn law_failed_command_stops_the_workflow(state: WorkflowState, issue: Seq<char>, o: OutcomeView)
    requires
        state == WorkflowState::AwaitCheckout || state == WorkflowState::AwaitPull || state
            == WorkflowState::AwaitWorktreeAdd || state == WorkflowState::AwaitIssueView || state
            == WorkflowState::AwaitCommit || state == WorkflowState::AwaitPush || state
            == WorkflowState::AwaitPr,
    ensures
        !(o matches OutcomeView::Ran(_, code, _) && code == Some(0i32)) ==> (spec_workflow_step(
            state,
            issue,
            o,
        ).0 == WorkflowState::Done && spec_workflow_step(state, issue, o).1 is Fail),
        (o matches OutcomeView::Ran(_, code, _) && code == Some(0i32)) ==> (spec_workflow_step(
            state,
            issue,
            o,
        ).0 != WorkflowState::Done && !(spec_workflow_step(state, issue, o).1 is Fail)),
{
}

/// An existing worktree is reused: when the test for the issue's worktree
/// succeeds the workflow switches to `.worktree/issue-<n>`; otherwise it
/// checks whether the branch `issue-<n>` exists.
pub proof fn law_existing_worktree_is_reused(issue: Seq<char>, o: OutcomeView)
    ensures
        spec_workflow_step(WorkflowState::AwaitWorktreeTest, issue, o) == if o matches OutcomeView::Ran(
            _,
            code,
            _,
        ) && code == Some(0i32) {
            (WorkflowState::AwaitSwitch, ActionView::SwitchTo(".worktree/issue-"@ + issue))
        } else {
            (
                WorkflowState::AwaitBranchCheck,
                ActionView::Run("git show-ref --verify --quiet refs/heads/issue-"@ + issue),
            )
        },
{
    reveal_strlit(".worktree/issue-");
    reveal_strlit(".worktree/");
    reveal_strlit("issue-");
    reveal_strlit("git show-ref --verify --quiet refs/heads/");
    reveal_strlit("git show-ref --verify --quiet refs/heads/issue-");
    assert(".worktree/"@ + spec_branch_name(issue) =~= ".worktree/issue-"@ + issue);
    assert("git show-ref --verify --quiet refs/heads/"@ + spec_branch_name(issue)
        =~= "git show-ref --verify --quiet refs/heads/issue-"@ + issue);
}

} // verus!
