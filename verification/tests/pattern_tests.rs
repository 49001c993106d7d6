use arty::pattern::{compile_filters, FilterLevel, Pattern};

#[test]
fn compile_accepts_valid_patterns() {
    assert!(Pattern::compile("^[23]$").is_some());
    assert!(Pattern::compile("").is_some());
    assert!(Pattern::compile(".*").is_some());
}

#[test]
fn compile_rejects_invalid_patterns() {
    assert!(Pattern::compile("(").is_none());
    assert!(Pattern::compile("[").is_none());
}

#[test]
fn match_all_matches_everything() {
    let p = Pattern::match_all();
    assert!(p.is_match(""));
    assert!(p.is_match("anything at all"));
}

#[test]
fn matching_is_substring_search() {
    let p = Pattern::compile("7").unwrap();
    assert!(p.is_match("27"));
    assert!(p.is_match("report7.zip"));
    assert!(!p.is_match("66"));
}

#[test]
fn filters_default_to_match_everything() {
    let filters = compile_filters(&None, &None, &None, &None).expect("defaults must compile");
    assert!(filters.pipeline.is_match("whatever"));
    assert!(filters.job.is_match(""));
    assert!(filters.build.is_match("123"));
    assert!(!filters.artifact_requested);
}

#[test]
fn artifact_request_is_recorded() {
    let filters = compile_filters(&None, &None, &None, &Some(String::from("zip")))
        .expect("patterns must compile");
    assert!(filters.artifact_requested);
    assert!(filters.artifact.is_match("report.zip"));
    assert!(!filters.artifact.is_match("report.tar"));
}

#[test]
fn invalid_pipeline_pattern_is_named() {
    match compile_filters(&Some(String::from("(")), &None, &None, &None) {
        Err(err) => assert_eq!(err.level, FilterLevel::Pipeline),
        Ok(_) => panic!("the pattern must be rejected"),
    }
}

#[test]
fn invalid_job_pattern_is_named() {
    match compile_filters(&None, &Some(String::from("(")), &None, &None) {
        Err(err) => assert_eq!(err.level, FilterLevel::Job),
        Ok(_) => panic!("the pattern must be rejected"),
    }
}

#[test]
fn invalid_build_pattern_is_named() {
    match compile_filters(&None, &None, &Some(String::from("(")), &None) {
        Err(err) => assert_eq!(err.level, FilterLevel::Build),
        Ok(_) => panic!("the pattern must be rejected"),
    }
}

#[test]
fn invalid_artifact_pattern_is_named() {
    match compile_filters(&None, &None, &None, &Some(String::from("("))) {
        Err(err) => assert_eq!(err.level, FilterLevel::Artifact),
        Ok(_) => panic!("the pattern must be rejected"),
    }
}

#[test]
fn first_invalid_filter_wins() {
    match compile_filters(
        &Some(String::from("ok")),
        &Some(String::from("(")),
        &Some(String::from("(")),
        &None,
    ) {
        Err(err) => assert_eq!(err.level, FilterLevel::Job),
        Ok(_) => panic!("the patterns must be rejected"),
    }
}
