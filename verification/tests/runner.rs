use grader::discovery::ProjectShape;
use grader::runner::build_output_dir;
use grader::runner::echo_captured_output;
use grader::runner::exercise_name_of;
use grader::runner::plan_compile;
use grader::runner::plan_run;
use grader::runner::runner_step;
use grader::runner::HardError;
use grader::runner::RunnerPhase;

#[test]
fn standalone_compile_plan_names_the_artifact() {
    let plan = plan_compile(ProjectShape::Standalone, "ex/a.rs").unwrap();
    assert_eq!(plan.program, "rustc");
    assert_eq!(
        plan.args,
        vec![
            "ex/a.rs".to_string(),
            "--test".to_string(),
            "-o".to_string(),
            "target/debug/a.rs".to_string(),
        ]
    );
    assert!(plan.workdir.is_none());
}

#[test]
fn standalone_run_plan_executes_the_artifact() {
    let plan = plan_run(ProjectShape::Standalone, "ex/a.rs").unwrap();
    assert_eq!(plan.program, "target/debug/a.rs");
    assert!(plan.args.is_empty());
    assert!(plan.workdir.is_none());
}

#[test]
fn managed_plans_run_from_the_project_root() {
    let compile = plan_compile(ProjectShape::Managed, "work/learning-lm-rs/src/model.rs").unwrap();
    assert_eq!(compile.program, "cargo");
    assert_eq!(
        compile.args,
        vec![
            "test".to_string(),
            "--manifest-path".to_string(),
            "Cargo.toml".to_string(),
            "--no-run".to_string(),
        ]
    );
    assert_eq!(compile.workdir.as_deref(), Some("work/learning-lm-rs"));

    let run = plan_run(ProjectShape::Managed, "work/learning-lm-rs/src/model.rs").unwrap();
    assert_eq!(run.program, "cargo");
    assert_eq!(
        run.args,
        vec![
            "test".to_string(),
            "--manifest-path".to_string(),
            "Cargo.toml".to_string(),
        ]
    );
    assert_eq!(run.workdir.as_deref(), Some("work/learning-lm-rs"));
}

#[test]
fn hard_errors_for_unusable_paths() {
    assert_eq!(
        exercise_name_of("dir/"),
        Err(HardError::MissingFileName)
    );
    assert_eq!(exercise_name_of(""), Err(HardError::MissingFileName));
    assert_eq!(exercise_name_of("dir/a.rs"), Ok("a.rs".to_string()));
    assert_eq!(
        plan_compile(ProjectShape::Managed, "model.rs").unwrap_err(),
        HardError::MissingProjectRoot
    );
    assert_eq!(
        plan_compile(ProjectShape::Managed, "src/model.rs").unwrap_err(),
        HardError::MissingProjectRoot
    );
    assert_eq!(
        plan_compile(ProjectShape::Standalone, "").unwrap_err(),
        HardError::MissingFileName
    );
}

#[test]
fn compile_failure_short_circuits_without_a_run_phase() {
    let next = runner_step(RunnerPhase::Compiling, false);
    assert_eq!(next, RunnerPhase::Done { success: false });
}

#[test]
fn run_phase_exit_status_is_the_verdict() {
    assert_eq!(
        runner_step(RunnerPhase::Compiling, true),
        RunnerPhase::Running
    );
    assert_eq!(
        runner_step(RunnerPhase::Running, true),
        RunnerPhase::Done { success: true }
    );
    assert_eq!(
        runner_step(RunnerPhase::Running, false),
        RunnerPhase::Done { success: false }
    );
}

#[test]
fn output_is_echoed_when_verbose_or_failing() {
    assert!(echo_captured_output(true, true));
    assert!(echo_captured_output(true, false));
    assert!(echo_captured_output(false, false));
    assert!(!echo_captured_output(false, true));
}

#[test]
fn build_output_dir_is_fixed() {
    assert_eq!(build_output_dir(), "target/debug");
}

#[test]
fn hard_error_messages_name_the_cause() {
    assert_eq!(
        HardError::MissingFileName.message(),
        "cannot determine the exercise file name"
    );
    assert_eq!(
        HardError::MissingProjectRoot.message(),
        "cannot locate the project root above the exercise"
    );
}
