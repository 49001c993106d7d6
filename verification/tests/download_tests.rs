use arty::download::{
    artifact_url, collect_failures, download_plan, is_affirmative, DownloadOutcome,
};
use arty::model::Artifact;

fn artifact(file_name: &str, relative_path: &str) -> Artifact {
    Artifact { file_name: String::from(file_name), relative_path: String::from(relative_path) }
}

#[test]
fn artifact_url_joins_all_four_parts() {
    let a = artifact("a.zip", "out/a.zip");
    let url = artifact_url("http://localhost:8080", "/job/core/job/build/17", &a);
    assert_eq!(url, "http://localhost:8080/job/core/job/build/17/artifact/out/a.zip");
}

#[test]
fn plan_covers_every_artifact_in_order() {
    let artifacts = vec![
        artifact("a.zip", "out/a.zip"),
        artifact("b.zip", "out/b.zip"),
        artifact("c.txt", "c.txt"),
    ];
    let plan = download_plan("http://localhost:8080", "/job/core/job/build/17", &artifacts);
    assert_eq!(plan.len(), 3);
    assert_eq!(plan[0].url, "http://localhost:8080/job/core/job/build/17/artifact/out/a.zip");
    assert_eq!(plan[0].file_name, "a.zip");
    assert_eq!(plan[1].url, "http://localhost:8080/job/core/job/build/17/artifact/out/b.zip");
    assert_eq!(plan[1].file_name, "b.zip");
    assert_eq!(plan[2].url, "http://localhost:8080/job/core/job/build/17/artifact/c.txt");
    assert_eq!(plan[2].file_name, "c.txt");
}

#[test]
fn one_failure_among_three_is_collected_alone() {
    // A failing second download leaves the first and third outcomes
    // untouched; exactly the one failure is reported at the end.
    let outcomes = vec![
        DownloadOutcome::Written,
        DownloadOutcome::FetchFailed { message: String::from("connection reset") },
        DownloadOutcome::Written,
    ];
    let failures = collect_failures(&outcomes);
    assert_eq!(failures.len(), 1);
    match &failures[0] {
        DownloadOutcome::FetchFailed { message } => assert_eq!(message, "connection reset"),
        _ => panic!("the fetch failure must be reported"),
    }
}

#[test]
fn write_failures_are_collected_too() {
    let outcomes = vec![
        DownloadOutcome::WriteFailed { message: String::from("directory missing") },
        DownloadOutcome::Written,
        DownloadOutcome::FetchFailed { message: String::from("404") },
    ];
    let failures = collect_failures(&outcomes);
    assert_eq!(failures.len(), 2);
    match &failures[0] {
        DownloadOutcome::WriteFailed { message } => assert_eq!(message, "directory missing"),
        _ => panic!("the write failure comes first"),
    }
    match &failures[1] {
        DownloadOutcome::FetchFailed { message } => assert_eq!(message, "404"),
        _ => panic!("the fetch failure comes second"),
    }
}

#[test]
fn all_written_collects_nothing() {
    let outcomes = vec![DownloadOutcome::Written, DownloadOutcome::Written];
    assert!(collect_failures(&outcomes).is_empty());
}

#[test]
fn affirmative_answers() {
    assert!(is_affirmative("y"));
    assert!(is_affirmative("y\n"));
    assert!(is_affirmative("y\r\n"));
}

#[test]
fn non_affirmative_answers() {
    assert!(!is_affirmative(""));
    assert!(!is_affirmative("\n"));
    assert!(!is_affirmative("n\n"));
    assert!(!is_affirmative("yes\n"));
    assert!(!is_affirmative("Y\n"));
    assert!(!is_affirmative(" y\n"));
}
