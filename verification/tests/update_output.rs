use ccci::javascript::{update_js_repository, UpdateError};
use ccci::languages::Language;

fn names(output: &str) -> Vec<String> {
    update_js_repository(output.as_bytes(), None).expect("report expected")
}

#[test]
fn report_line_between_unrelated_lines() {
    let output = "yarn upgrade v1.22.0\n{\"type\":\"step\",\"data\":{\"message\":\"Resolving packages\"}}\n{\"type\":\"tree\",\"data\":{\"type\":\"newAllDependencies\",\"trees\":[{\"name\":\"left-pad\"},{\"name\":\"chalk\"}]}}\nDone in 2.43s.\n";
    assert_eq!(names(output), vec!["left-pad".to_string(), "chalk".to_string()]);
}

#[test]
fn no_matching_line_is_a_parse_failure() {
    let output = "yarn upgrade v1.22.0\nsuccess Saved lockfile.\nDone in 1.2s.\n";
    let r = update_js_repository(output.as_bytes(), None);
    assert_eq!(r, Err(UpdateError::OutputParseFailed));
}

#[test]
fn empty_output_is_a_parse_failure() {
    let r = update_js_repository(b"", None);
    assert_eq!(r, Err(UpdateError::OutputParseFailed));
}

#[test]
fn tree_entries_with_extra_fields_and_children() {
    let output = "{\"type\":\"tree\",\"data\":{\"type\":\"newAllDependencies\",\"trees\":[{\"name\":\"chalk@4.1.2\",\"children\":[{\"name\":\"ansi-styles\"}],\"hint\":null,\"color\":\"bold\",\"depth\":0},{\"name\":\"ms@2.1.3\",\"children\":[],\"hint\":null,\"color\":null,\"depth\":0}]}}";
    assert_eq!(names(output), vec!["chalk@4.1.2".to_string(), "ms@2.1.3".to_string()]);
}

#[test]
fn tree_entries_without_names_are_passed_over() {
    let output = "{\"type\":\"tree\",\"data\":{\"type\":\"newAllDependencies\",\"trees\":[{\"depth\":0},{\"name\":\"once\"},{\"hint\":true}]}}";
    assert_eq!(names(output), vec!["once".to_string()]);
}

#[test]
fn duplicate_names_are_reported_once() {
    let output = "{\"type\":\"tree\",\"data\":{\"type\":\"newAllDependencies\",\"trees\":[{\"name\":\"dup\"},{\"name\":\"other\"},{\"name\":\"dup\"}]}}";
    assert_eq!(names(output), vec!["dup".to_string(), "other".to_string()]);
}

#[test]
fn report_with_empty_tree_list() {
    let output = "{\"type\":\"tree\",\"data\":{\"type\":\"newAllDependencies\",\"trees\":[]}}";
    assert_eq!(names(output), Vec::<String>::new());
}

#[test]
fn report_without_tree_list() {
    let output = "{\"type\":\"tree\",\"data\":{\"type\":\"newAllDependencies\"}}";
    assert_eq!(names(output), Vec::<String>::new());
}

#[test]
fn differently_tagged_tree_lines_are_ignored() {
    let output = "{\"type\":\"tree\",\"data\":{\"type\":\"oldDependencies\",\"trees\":[{\"name\":\"x\"}]}}\n{\"type\":\"info\",\"data\":\"something\"}\n";
    let r = update_js_repository(output.as_bytes(), None);
    assert_eq!(r, Err(UpdateError::OutputParseFailed));
}

#[test]
fn first_report_wins() {
    let output = "{\"type\":\"tree\",\"data\":{\"type\":\"newAllDependencies\",\"trees\":[{\"name\":\"a\"}]}}\n{\"type\":\"tree\",\"data\":{\"type\":\"newAllDependencies\",\"trees\":[{\"name\":\"b\"}]}}\n";
    assert_eq!(names(output), vec!["a".to_string()]);
}

#[test]
fn malformed_candidate_is_skipped() {
    let output = "{\"type\":\"tree\",\"data\":{\"type\":\"newAllDependencies\",\"trees\":[{\"name\":\n{\"type\":\"tree\",\"data\":{\"type\":\"newAllDependencies\",\"trees\":[{\"name\":\"ok\"}]}}\n";
    assert_eq!(names(output), vec!["ok".to_string()]);
}

#[test]
fn escaped_quotes_in_strings() {
    let output = "{\"type\":\"tree\",\"data\":{\"type\":\"newAllDependencies\",\"trees\":[{\"hint\":\"say\\\"hi\\\"\",\"name\":\"quoter\"}]}}";
    assert_eq!(names(output), vec!["quoter".to_string()]);
}

#[test]
fn numbers_booleans_and_nulls_in_the_report() {
    let output = "{\"type\":\"tree\",\"data\":{\"type\":\"newAllDependencies\",\"extra\":-12.5e3,\"flag\":false,\"nothing\":null,\"trees\":[{\"name\":\"n1\",\"depth\":42}]}}";
    assert_eq!(names(output), vec!["n1".to_string()]);
}

#[test]
fn javascript_strategy_parses_through_the_dispatcher() {
    let output =
        "{\"type\":\"tree\",\"data\":{\"type\":\"newAllDependencies\",\"trees\":[{\"name\":\"is-odd\"}]}}";
    let r = Language::JavaScript.try_update(output.as_bytes());
    assert_eq!(r, Ok(vec!["is-odd".to_string()]));
}

#[test]
fn unsupported_languages_fail_fast() {
    assert_eq!(Language::Rust.try_update(b"anything"), Err(UpdateError::UnsupportedLanguage));
    assert_eq!(Language::Python.try_update(b"anything"), Err(UpdateError::UnsupportedLanguage));
}

#[test]
fn build_step_trivially_succeeds() {
    assert_eq!(Language::JavaScript.try_build(), Ok(()));
    assert_eq!(Language::Rust.try_build(), Ok(()));
}

#[test]
fn parse_failure_names_the_missing_fragment() {
    let msg = UpdateError::OutputParseFailed.describe();
    assert!(msg.contains("newAllDependencies"));
}
