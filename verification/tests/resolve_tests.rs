use arty::model::{Artifact, MatchResult};
use arty::pattern::Pattern;
use arty::resolve::{build_path, filter_artifacts, resolve_action, ResolveAction, SkipReason};

fn one_match(pipeline: &str, job: &str, number: u32) -> MatchResult {
    MatchResult {
        pipeline_name: String::from(pipeline),
        job_name: String::from(job),
        build_number: number,
    }
}

fn artifact(file_name: &str, relative_path: &str) -> Artifact {
    Artifact { file_name: String::from(file_name), relative_path: String::from(relative_path) }
}

#[test]
fn not_requested_even_for_a_single_match() {
    let matches = vec![one_match("core", "build", 1)];
    match resolve_action(&matches, false) {
        ResolveAction::Skip { reason } => assert_eq!(reason, SkipReason::NotRequested),
        ResolveAction::FetchBuild { .. } => panic!("no fetch may be planned"),
    }
}

#[test]
fn no_build_selected_on_empty_matches() {
    let matches: Vec<MatchResult> = Vec::new();
    match resolve_action(&matches, true) {
        ResolveAction::Skip { reason } => assert_eq!(reason, SkipReason::NoBuildSelected),
        ResolveAction::FetchBuild { .. } => panic!("no fetch may be planned"),
    }
}

#[test]
fn ambiguous_matches_carry_the_count() {
    let matches = vec![
        one_match("core", "build", 1),
        one_match("core", "build", 2),
        one_match("infra", "deploy", 3),
    ];
    match resolve_action(&matches, true) {
        ResolveAction::Skip { reason } => {
            assert_eq!(reason, SkipReason::AmbiguousBuild { count: 3 });
        },
        ResolveAction::FetchBuild { .. } => panic!("no fetch may be planned"),
    }
}

#[test]
fn ambiguous_with_two_matches() {
    let matches = vec![one_match("core", "build", 1), one_match("core", "build", 2)];
    match resolve_action(&matches, true) {
        ResolveAction::Skip { reason } => {
            assert_eq!(reason, SkipReason::AmbiguousBuild { count: 2 });
        },
        ResolveAction::FetchBuild { .. } => panic!("no fetch may be planned"),
    }
}

#[test]
fn single_match_plans_a_fetch() {
    let matches = vec![one_match("core", "build", 17)];
    match resolve_action(&matches, true) {
        ResolveAction::FetchBuild { path } => assert_eq!(path, "/job/core/job/build/17"),
        ResolveAction::Skip { .. } => panic!("a fetch must be planned"),
    }
}

#[test]
fn build_path_escapes_the_name_segments() {
    let m = one_match("my pipe", "build/job", 5);
    assert_eq!(build_path(&m), "/job/my%20pipe/job/build%2Fjob/5");
}

#[test]
fn artifact_filter_keeps_matching_file_names() {
    let artifacts = vec![
        artifact("report7.zip", "out/report7.zip"),
        artifact("log.txt", "out/log.txt"),
        artifact("archive.zip", "deep/archive.zip"),
    ];
    let p = Pattern::compile("zip").unwrap();
    let kept = filter_artifacts(&artifacts, &p);
    assert_eq!(kept.len(), 2);
    assert_eq!(kept[0].file_name, "report7.zip");
    assert_eq!(kept[0].relative_path, "out/report7.zip");
    assert_eq!(kept[1].file_name, "archive.zip");
}

#[test]
fn artifact_filter_uses_substring_search() {
    let artifacts = vec![artifact("report7.zip", "out/report7.zip")];
    let p = Pattern::compile("7").unwrap();
    let kept = filter_artifacts(&artifacts, &p);
    assert_eq!(kept.len(), 1);
}

#[test]
fn artifact_filter_may_keep_nothing() {
    let artifacts = vec![artifact("log.txt", "log.txt")];
    let p = Pattern::compile("zip").unwrap();
    let kept = filter_artifacts(&artifacts, &p);
    assert!(kept.is_empty());
}
