use grader::discovery::classify_shape;
use grader::discovery::find_exercise_files;
use grader::discovery::has_rs_extension;
use grader::discovery::is_exercise_file;
use grader::discovery::ProjectShape;

#[test]
fn classify_marks_managed_roots_by_the_marker() {
    assert_eq!(
        classify_shape("work/learning-lm-rs/exercises"),
        ProjectShape::Managed
    );
    assert_eq!(classify_shape("learning-lm-rs"), ProjectShape::Managed);
    assert_eq!(
        classify_shape("work/rustlings/exercises"),
        ProjectShape::Standalone
    );
    assert_eq!(classify_shape("."), ProjectShape::Standalone);
}

#[test]
fn standalone_excludes_reserved_prefixes() {
    assert!(!is_exercise_file(
        "ex/test_helper.rs",
        ProjectShape::Standalone
    ));
    assert!(!is_exercise_file(
        "ex/helper_math.rs",
        ProjectShape::Standalone
    ));
    assert!(is_exercise_file("ex/a.rs", ProjectShape::Standalone));
    // the prefixes exclude only the file name, not the directories above it
    assert!(is_exercise_file("test_env/a.rs", ProjectShape::Standalone));
}

#[test]
fn managed_keeps_only_the_allow_list() {
    assert!(is_exercise_file(
        "learning-lm-rs/src/model.rs",
        ProjectShape::Managed
    ));
    assert!(is_exercise_file(
        "learning-lm-rs/src/operators.rs",
        ProjectShape::Managed
    ));
    assert!(!is_exercise_file(
        "learning-lm-rs/src/main.rs",
        ProjectShape::Managed
    ));
    assert!(!is_exercise_file(
        "learning-lm-rs/src/network.rs",
        ProjectShape::Managed
    ));
}

#[test]
fn build_output_subtree_is_skipped_at_any_depth() {
    assert!(!is_exercise_file(
        "ex/target/deep/nested/a.rs",
        ProjectShape::Standalone
    ));
    assert!(!is_exercise_file("target/a.rs", ProjectShape::Standalone));
    assert!(!is_exercise_file(
        "learning-lm-rs/target/debug/model.rs",
        ProjectShape::Managed
    ));
    // a segment merely containing the name as a substring is kept
    assert!(is_exercise_file("ex/targets/a.rs", ProjectShape::Standalone));
}

#[test]
fn extension_must_be_rs_with_a_stem() {
    assert!(has_rs_extension("a.rs"));
    assert!(has_rs_extension("a.tar.rs"));
    assert!(!has_rs_extension(".rs"));
    assert!(!has_rs_extension("rs"));
    assert!(!has_rs_extension("a.txt"));
    assert!(!is_exercise_file("ex/notes.txt", ProjectShape::Standalone));
}

#[test]
fn selection_keeps_traversal_order() {
    let paths = vec![
        "ex/b.rs".to_string(),
        "ex/test_helper.rs".to_string(),
        "ex/a.rs".to_string(),
        "ex/notes.txt".to_string(),
    ];
    let picked = find_exercise_files(&paths, ProjectShape::Standalone);
    assert_eq!(picked, vec!["ex/b.rs".to_string(), "ex/a.rs".to_string()]);
}

#[test]
fn mixed_directory_discovery_scenario() {
    let files = vec![
        "ex/a.rs".to_string(),
        "ex/b.rs".to_string(),
        "ex/test_helper.rs".to_string(),
    ];
    let picked = find_exercise_files(&files, ProjectShape::Standalone);
    assert_eq!(picked, vec!["ex/a.rs".to_string(), "ex/b.rs".to_string()]);
}
