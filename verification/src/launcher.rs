//! Running a program that is no built-in: how it is to be started, what the
//! interpreter passes on of what it wrote, and what the interpreter says when
//! it cannot be run.
//!
//! Starting the program and waiting for it is the caller's part. The caller
//! starts it as the [`LaunchPlan`] says, waits until it has ended, and hands
//! over what it captured of the program's streams.

use vstd::prelude::*;
use crate::context::{ExecutionContext, ExecutionContextView};
use crate::text::push_char;

verus! {

/// How a program is to be started.
#[derive(Debug, PartialEq, Eq)]
pub struct LaunchPlan {
    /// The program's name, as it was written on the command line.
    pub program: String,
    /// The arguments that the program is given.
    pub arguments: Vec<String>,
    /// The directory in which the program runs.
    pub directory: String,
    /// The file that the program's standard output is connected to. The file
    /// is created, or emptied if it exists. Without one, the standard output
    /// is captured.
    pub stdout_file: Option<String>,
}

/// The mathematical value of a [`LaunchPlan`].
pub struct LaunchPlanView {
    pub program: Seq<char>,
    pub arguments: Seq<Seq<char>>,
    pub directory: Seq<char>,
    pub stdout_file: Option<Seq<char>>,
}

impl View for LaunchPlan {
    type V = LaunchPlanView;

    open spec fn view(&self) -> LaunchPlanView {
        LaunchPlanView {
            program: self.program@,
            arguments: self.arguments.deep_view(),
            directory: self.directory@,
            stdout_file: self.stdout_file.deep_view(),
        }
    }
}

/// How the attempt to run a program ended.
#[derive(Debug, PartialEq, Eq)]
pub enum ChildOutcome {
    /// The program could not be started.
    NotStarted,
    /// The program ran and ended; `stdout` and `stderr` are what was
    /// captured of its two streams.
    Finished { stdout: String, stderr: String },
}

/// The mathematical value of a [`ChildOutcome`].
pub enum ChildOutcomeView {
    NotStarted,
    Finished { stdout: Seq<char>, stderr: Seq<char> },
}

impl View for ChildOutcome {
    type V = ChildOutcomeView;

    open spec fn view(&self) -> ChildOutcomeView {
        match self {
            ChildOutcome::NotStarted => ChildOutcomeView::NotStarted,
            ChildOutcome::Finished { stdout, stderr } => ChildOutcomeView::Finished {
                stdout: stdout@,
                stderr: stderr@,
            },
        }
    }
}

/// What the interpreter writes to its own two streams after an attempt to
/// run a program.
#[derive(Debug, PartialEq, Eq)]
pub struct Forwarded {
    /// The text for standard output.
    pub stdout: String,
    /// The text for standard error.
    pub stderr: String,
}

/// The mathematical value of a [`Forwarded`].
pub struct ForwardedView {
    pub stdout: Seq<char>,
    pub stderr: Seq<char>,
}

impl View for Forwarded {
    type V = ForwardedView;

    open spec fn view(&self) -> ForwardedView {
        ForwardedView { stdout: self.stdout@, stderr: self.stderr@ }
    }
}

/// How the command `argv` is to be started: its first word is the program,
/// the others are the arguments; it runs in the working directory, with its
/// standard output connected to the redirection target if there is one.
pub open spec fn plan_of(
    argv: Seq<Seq<char>>,
    redirect_target: Option<Seq<char>>,
    ctx: ExecutionContextView,
) -> LaunchPlanView
    recommends
        argv.len() > 0,
{
    LaunchPlanView {
        program: argv[0],
        arguments: argv.skip(1),
        directory: ctx.cwd,
        stdout_file: redirect_target,
    }
}

/// What is passed on after the attempt to run a program as `plan` says.
///
/// A program that could not be started is reported on standard error. Of a
/// program that ran, what it wrote to standard error is passed on always, and
/// what it wrote to standard output only when that was not connected to a
/// file.
pub open spec fn forwarded(plan: LaunchPlanView, outcome: ChildOutcomeView) -> ForwardedView {
    match outcome {
        ChildOutcomeView::NotStarted => ForwardedView {
            stdout: Seq::empty(),
            stderr: (plan.program + ": command not found"@).push('\n'),
        },
        ChildOutcomeView::Finished { stdout, stderr } => ForwardedView {
            stdout: if plan.stdout_file.is_some() {
                Seq::empty()
            } else {
                stdout
            },
            stderr,
        },
    }
}

/// Plans the start of the program that the command `argv` names.
pub fn launch_plan(argv: &Vec<String>, redirect_target: Option<String>, ctx: &ExecutionContext) -> (plan:
    LaunchPlan)
    requires
        argv.len() > 0,
    ensures
        plan@ == plan_of(argv.deep_view(), redirect_target.deep_view(), ctx@),
{
    let mut arguments: Vec<String> = Vec::new();
    let mut i: usize = 1;
    while i < argv.len()
        invariant
            1 <= i <= argv.len(),
            arguments.deep_view() == argv.deep_view().subrange(1, i as int),
        decreases argv.len() - i,
    {
        let ghost before = arguments.deep_view();
        arguments.push(argv[i].clone());
        i += 1;
        assert(arguments.deep_view() =~= before.push(argv@[i - 1]@));
    }
    LaunchPlan {
        program: argv[0].clone(),
        arguments,
        directory: ctx.cwd.clone(),
        stdout_file: redirect_target,
    }
}

/// Decides what to pass on after the attempt to run a program as `plan`
/// says.
pub fn launch_result(plan: &LaunchPlan, outcome: ChildOutcome) -> (r: Forwarded)
    ensures
        r@ == forwarded(plan@, outcome@),
{
    match outcome {
        ChildOutcome::NotStarted => {
            let mut line = plan.program.clone();
            line.append(": command not found");
            push_char(&mut line, '\n');
            Forwarded { stdout: String::new(), stderr: line }
        },
        ChildOutcome::Finished { stdout, stderr } => {
            if plan.stdout_file.is_some() {
                Forwarded { stdout: String::new(), stderr }
            } else {
                Forwarded { stdout, stderr }
            }
        },
    }
}

} // verus!
