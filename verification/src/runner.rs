//! The per-exercise grading protocol. Grading one exercise is a small state
//! machine — compile, then (only on compile success) run — whose outside work
//! is a toolchain invocation described by a [`CommandPlan`]. The caller
//! spawns each planned command, hands back the exit status, and the machine
//! decides the next step; a toolchain that launches and exits non-zero is a
//! graded failure, never an error, while a missing file name or project root
//! is a hard error that aborts the exercise.

use vstd::prelude::*;

use crate::discovery::ProjectShape;
use crate::paths::before_last;
use crate::paths::file_name_of;
use crate::paths::occurs;
use crate::paths::project_root_of;
use crate::paths::spec_file_name;

verus! {

/// A condition that prevents grading an exercise at all, as opposed to a
/// graded failure.
#[derive(Clone, Copy, PartialEq, Eq, Structural, Debug)]
pub enum HardError {
    MissingFileName,
    MissingProjectRoot,
}

impl HardError {
    /// A short description of the error.
    pub fn message(&self) -> (m: String)
        ensures
            *self is MissingFileName ==> m@ == "cannot determine the exercise file name"@,
            *self is MissingProjectRoot ==> m@
                == "cannot locate the project root above the exercise"@,
    {
        match self {
            HardError::MissingFileName => "cannot determine the exercise file name".to_owned(),
            HardError::MissingProjectRoot => "cannot locate the project root above the exercise"
                .to_owned(),
        }
    }
}

/// Where the grading of one exercise stands: compiling, running the compiled
/// tests, or finished with a pass/fail verdict.
#[derive(Clone, Copy, PartialEq, Eq, Structural, Debug)]
pub enum RunnerPhase {
    Compiling,
    Running,
    Done { success: bool },
}

/// One toolchain invocation: a program, its arguments, and the directory to
/// run it from (`None`: the current directory).
#[derive(Debug)]
pub struct CommandPlan {
    pub program: String,
    pub args: Vec<String>,
    pub workdir: Option<String>,
}

/// The identifying name of an exercise is its file name; a path without one
/// cannot be graded.
pub fn exercise_name_of(path: &str) -> (r: Result<String, HardError>)
    ensures
        match r {
            Ok(name) => name@ == spec_file_name(path@) && name@.len() > 0,
            Err(e) => e == HardError::MissingFileName && spec_file_name(path@).len() == 0,
        },
{
    match file_name_of(path) {
        Some(name) => Ok(name),
        None => Err(HardError::MissingFileName),
    }
}

/// The directory the runner must ensure exists before invoking the
/// toolchain; standalone artifacts are placed here, and its leading segment
/// is the one discovery skips.
pub fn build_output_dir() -> (r: String)
    ensures
        r@ == "target/debug"@,
{
    "target/debug".to_owned()
}

/// A managed exercise locates its project manifest two components above the
/// exercise file.
pub open spec fn spec_has_project_root(path: Seq<char>) -> bool {
    occurs(path, '/') && occurs(before_last(path, '/'), '/')
}

/// The plan carries the managed project's root as its working directory.
pub open spec fn spec_managed_workdir(plan: CommandPlan, path: Seq<char>) -> bool {
    plan.workdir matches Some(d) && d@ == before_last(before_last(path, '/'), '/')
}

/// The compile step the standalone protocol owes a path: the single-file
/// compiler in test-build mode, with the artifact named after the exercise
/// inside the build-output directory.
pub open spec fn spec_standalone_compile(plan: CommandPlan, path: Seq<char>) -> bool {
    &&& plan.program@ == "rustc"@
    &&& plan.args@.len() == 4
    &&& plan.args@[0]@ == path
    &&& plan.args@[1]@ == "--test"@
    &&& plan.args@[2]@ == "-o"@
    &&& plan.args@[3]@ == "target/debug/"@ + spec_file_name(path)
    &&& plan.workdir is None
}

/// The run step the standalone protocol owes a path: execute the artifact
/// produced by the compile step.
pub open spec fn spec_standalone_run(plan: CommandPlan, path: Seq<char>) -> bool {
    &&& plan.program@ == "target/debug/"@ + spec_file_name(path)
    &&& plan.args@.len() == 0
    &&& plan.workdir is None
}

/// The compile step the managed protocol owes a path: the build tool's
/// test-compile-only step against the project manifest, from the project
/// root.
pub open spec fn spec_managed_compile(plan: CommandPlan, path: Seq<char>) -> bool {
    &&& plan.program@ == "cargo"@
    &&& plan.args@.len() == 4
    &&& plan.args@[0]@ == "test"@
    &&& plan.args@[1]@ == "--manifest-path"@
    &&& plan.args@[2]@ == "Cargo.toml"@
    &&& plan.args@[3]@ == "--no-run"@
    &&& spec_managed_workdir(plan, path)
}

/// The run step the managed protocol owes a path: the build tool's full test
/// step from the same project root.
pub open spec fn spec_managed_run(plan: CommandPlan, path: Seq<char>) -> bool {
    &&& plan.program@ == "cargo"@
    &&& plan.args@.len() == 3
    &&& plan.args@[0]@ == "test"@
    &&& plan.args@[1]@ == "--manifest-path"@
    &&& plan.args@[2]@ == "Cargo.toml"@
    &&& spec_managed_workdir(plan, path)
}

/// The toolchain invocation that compiles one exercise under `shape`, or the
/// hard error when the path cannot name it.
pub fn plan_compile(shape: ProjectShape, path: &str) -> (r: Result<CommandPlan, HardError>)
    ensures
        match r {
            Ok(plan) => match shape {
                ProjectShape::Standalone => spec_file_name(path@).len() > 0
                    && spec_standalone_compile(plan, path@),
                ProjectShape::Managed => spec_has_project_root(path@) && spec_managed_compile(
                    plan,
                    path@,
                ),
            },
            Err(e) => match shape {
                ProjectShape::Standalone => e == HardError::MissingFileName && spec_file_name(
                    path@,
                ).len() == 0,
                ProjectShape::Managed => e == HardError::MissingProjectRoot
                    && !spec_has_project_root(path@),
            },
        },
{
    match shape {
        ProjectShape::Standalone => match file_name_of(path) {
            None => Err(HardError::MissingFileName),
            Some(name) => {
                let mut args: Vec<String> = Vec::new();
                args.push(path.to_owned());
                args.push("--test".to_owned());
                args.push("-o".to_owned());
                args.push("target/debug/".to_owned().concat(name.as_str()));
                Ok(CommandPlan { program: "rustc".to_owned(), args, workdir: None })
            },
        },
        ProjectShape::Managed => match project_root_of(path) {
            None => Err(HardError::MissingProjectRoot),
            Some(root) => {
                let mut args: Vec<String> = Vec::new();
                args.push("test".to_owned());
                args.push("--manifest-path".to_owned());
                args.push("Cargo.toml".to_owned());
                args.push("--no-run".to_owned());
                Ok(CommandPlan { program: "cargo".to_owned(), args, workdir: Some(root) })
            },
        },
    }
}

/// The toolchain invocation that runs one compiled exercise under `shape`,
/// or the hard error when the path cannot name it.
pub fn plan_run(shape: ProjectShape, path: &str) -> (r: Result<CommandPlan, HardError>)
    ensures
        match r {
            Ok(plan) => match shape {
                ProjectShape::Standalone => spec_file_name(path@).len() > 0 && spec_standalone_run(
                    plan,
                    path@,
                ),
                ProjectShape::Managed => spec_has_project_root(path@) && spec_managed_run(
                    plan,
                    path@,
                ),
            },
            Err(e) => match shape {
                ProjectShape::Standalone => e == HardError::MissingFileName && spec_file_name(
                    path@,
                ).len() == 0,
                ProjectShape::Managed => e == HardError::MissingProjectRoot
                    && !spec_has_project_root(path@),
            },
        },
{
    match shape {
        ProjectShape::Standalone => match file_name_of(path) {
            None => Err(HardError::MissingFileName),
            Some(name) => Ok(
                CommandPlan {
                    program: "target/debug/".to_owned().concat(name.as_str()),
                    args: Vec::new(),
                    workdir: None,
                },
            ),
        },
        ProjectShape::Managed => match project_root_of(path) {
            None => Err(HardError::MissingProjectRoot),
            Some(root) => {
                let mut args: Vec<String> = Vec::new();
                args.push("test".to_owned());
                args.push("--manifest-path".to_owned());
                args.push("Cargo.toml".to_owned());
                Ok(CommandPlan { program: "cargo".to_owned(), args, workdir: Some(root) })
            },
        },
    }
}

/// Advance the grading state machine on one toolchain exit status: a failed
/// compile short-circuits to a failed verdict with no run step; a successful
/// compile moves on to the run step, whose exit status is the verdict.
pub fn runner_step(phase: RunnerPhase, exit_success: bool) -> (next: RunnerPhase)
    requires
        !(phase is Done),
    ensures
        phase is Compiling && !exit_success ==> next == (RunnerPhase::Done { success: false }),
        phase is Compiling && exit_success ==> next == RunnerPhase::Running,
        phase is Running ==> next == (RunnerPhase::Done { success: exit_success }),
{
    match phase {
        RunnerPhase::Compiling => if exit_success {
            RunnerPhase::Running
        } else {
            RunnerPhase::Done { success: false }
        },
        RunnerPhase::Running => RunnerPhase::Done { success: exit_success },
        RunnerPhase::Done { success } => RunnerPhase::Done { success },
    }
}

/// Captured toolchain output is echoed when verbose mode is on or the
/// outcome was a failure; successful runs stay quiet otherwise.
pub fn echo_captured_output(verbose: bool, success: bool) -> (r: bool)
    ensures
        r == (verbose || !success),
{
    verbose || !success
}

} // verus!
