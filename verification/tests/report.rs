use grader::report::grade_all_exercises;
use grader::report::grade_single_exercise;
use grader::report::pass_rate_centi_percent;
use grader::report::ExerciseOutcome;

fn outcome(name: &str, success: bool, secs: u64) -> ExerciseOutcome {
    ExerciseOutcome {
        name: name.to_string(),
        success,
        elapsed_secs: secs,
    }
}

#[test]
fn statistics_balance_with_the_results() {
    let outcomes = vec![outcome("a.rs", true, 3), outcome("b.rs", false, 4)];
    let report = grade_all_exercises(&outcomes);
    assert_eq!(report.exercises.len(), 2);
    assert_eq!(report.statistics.total_exercations, 2);
    assert_eq!(report.statistics.total_succeeds, 1);
    assert_eq!(report.statistics.total_failures, 1);
    assert_eq!(
        report.statistics.total_exercations,
        report.statistics.total_succeeds + report.statistics.total_failures
    );
}

#[test]
fn total_time_is_the_sum_of_elapsed_times() {
    let outcomes = vec![
        outcome("a.rs", true, 3),
        outcome("b.rs", false, 4),
        outcome("c.rs", true, 0),
    ];
    let report = grade_all_exercises(&outcomes);
    assert_eq!(report.statistics.total_time, 7);
}

#[test]
fn results_keep_names_verdicts_and_order() {
    let outcomes = vec![outcome("b.rs", false, 1), outcome("a.rs", true, 2)];
    let report = grade_all_exercises(&outcomes);
    assert_eq!(report.exercises[0].name, "b.rs");
    assert!(!report.exercises[0].result);
    assert_eq!(report.exercises[1].name, "a.rs");
    assert!(report.exercises[1].result);
}

#[test]
fn empty_batch_gives_zero_totals() {
    let report = grade_all_exercises(&Vec::new());
    assert_eq!(report.statistics.total_exercations, 0);
    assert_eq!(report.statistics.total_succeeds, 0);
    assert_eq!(report.statistics.total_failures, 0);
    assert_eq!(report.statistics.total_time, 0);
    assert!(report.exercises.is_empty());
}

#[test]
fn grade_single_totals_are_exactly_one() {
    let report = grade_single_exercise(outcome("broken.rs", false, 5));
    assert_eq!(report.exercises.len(), 1);
    assert_eq!(report.exercises[0].name, "broken.rs");
    assert!(!report.exercises[0].result);
    assert_eq!(report.statistics.total_exercations, 1);
    assert_eq!(report.statistics.total_succeeds, 0);
    assert_eq!(report.statistics.total_failures, 1);
    assert_eq!(report.statistics.total_time, 5);
}

#[test]
fn grade_single_pass_counts_one_success() {
    let report = grade_single_exercise(outcome("fine.rs", true, 2));
    assert_eq!(report.statistics.total_succeeds, 1);
    assert_eq!(report.statistics.total_failures, 0);
    assert_eq!(report.statistics.total_time, 2);
}

#[test]
fn pass_rate_is_zero_when_nothing_was_graded() {
    assert_eq!(pass_rate_centi_percent(0, 0), 0);
}

#[test]
fn pass_rate_is_scaled_to_hundredths_and_rounded() {
    assert_eq!(pass_rate_centi_percent(1, 2), 5000); // 50.00%
    assert_eq!(pass_rate_centi_percent(3, 3), 10000); // 100.00%
    assert_eq!(pass_rate_centi_percent(0, 7), 0); // 0.00%
    assert_eq!(pass_rate_centi_percent(1, 3), 3333); // 33.33%
    assert_eq!(pass_rate_centi_percent(2, 3), 6667); // 66.67%
    assert_eq!(pass_rate_centi_percent(3, 800), 38); // 0.375% rounds half up
}

#[test]
fn mixed_directory_grading_scenario() {
    let files = vec![
        "ex/a.rs".to_string(),
        "ex/b.rs".to_string(),
        "ex/test_helper.rs".to_string(),
    ];
    let picked = grader::discovery::find_exercise_files(
        &files,
        grader::discovery::ProjectShape::Standalone,
    );
    assert_eq!(picked, vec!["ex/a.rs".to_string(), "ex/b.rs".to_string()]);
    // one discovered exercise passes (exit 0), the other fails (exit 1)
    let outcomes = vec![outcome("a.rs", true, 1), outcome("b.rs", false, 1)];
    let report = grade_all_exercises(&outcomes);
    assert_eq!(report.statistics.total_exercations, 2);
    assert_eq!(report.statistics.total_succeeds, 1);
    assert_eq!(report.statistics.total_failures, 1);
}
