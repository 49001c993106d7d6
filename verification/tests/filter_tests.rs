use arty::filter::filter_tree;
use arty::model::{Build, Job, Pipeline};
use arty::pattern::Pattern;

fn build(number: u32) -> Build {
    Build { building: false, number, url: format!("http://localhost:8080/job/x/{}/", number) }
}

fn job(name: &str, numbers: &[u32]) -> Job {
    Job {
        name: String::from(name),
        url: format!("http://localhost:8080/job/{}/", name),
        builds: numbers.iter().map(|n| build(*n)).collect(),
    }
}

fn pipeline(name: &str, jobs: Vec<Job>) -> Pipeline {
    Pipeline { name: String::from(name), jobs }
}

fn pat(text: &str) -> Pattern {
    Pattern::compile(text).expect("pattern must compile")
}

#[test]
fn scenario_two_of_three_builds() {
    let tree = vec![
        pipeline("core", vec![job("build", &[1, 2, 3])]),
        pipeline("infra", vec![job("deploy", &[7])]),
    ];
    let matches = filter_tree(&tree, &pat("core"), &Pattern::match_all(), &pat("^[23]$"));
    assert_eq!(matches.len(), 2);
    assert_eq!(matches[0].pipeline_name, "core");
    assert_eq!(matches[0].job_name, "build");
    assert_eq!(matches[0].build_number, 2);
    assert_eq!(matches[1].pipeline_name, "core");
    assert_eq!(matches[1].job_name, "build");
    assert_eq!(matches[1].build_number, 3);
}

#[test]
fn empty_tree_yields_no_matches() {
    let tree: Vec<Pipeline> = Vec::new();
    let matches = filter_tree(
        &tree,
        &Pattern::match_all(),
        &Pattern::match_all(),
        &Pattern::match_all(),
    );
    assert!(matches.is_empty());
}

#[test]
fn pipelines_without_jobs_yield_no_matches() {
    let tree = vec![pipeline("core", Vec::new()), pipeline("infra", Vec::new())];
    let matches = filter_tree(
        &tree,
        &Pattern::match_all(),
        &Pattern::match_all(),
        &Pattern::match_all(),
    );
    assert!(matches.is_empty());
}

#[test]
fn jobs_without_builds_yield_no_matches() {
    let tree = vec![pipeline("core", vec![job("build", &[]), job("test", &[])])];
    let matches = filter_tree(
        &tree,
        &Pattern::match_all(),
        &Pattern::match_all(),
        &Pattern::match_all(),
    );
    assert!(matches.is_empty());
}

#[test]
fn build_pattern_uses_substring_search() {
    // "7" must match build number 27: the match is a search, not anchored.
    let tree = vec![pipeline("core", vec![job("build", &[27, 31])])];
    let matches = filter_tree(&tree, &Pattern::match_all(), &Pattern::match_all(), &pat("7"));
    assert_eq!(matches.len(), 1);
    assert_eq!(matches[0].build_number, 27);
}

#[test]
fn build_pattern_one_matches_many_numbers() {
    // "1" matches 1, 10..19, 21, ... exactly as a substring search does.
    let tree = vec![pipeline("core", vec![job("build", &[1, 2, 10, 21, 33])])];
    let matches = filter_tree(&tree, &Pattern::match_all(), &Pattern::match_all(), &pat("1"));
    let numbers: Vec<u32> = matches.iter().map(|m| m.build_number).collect();
    assert_eq!(numbers, vec![1, 10, 21]);
}

#[test]
fn narrowing_a_pattern_never_adds_matches() {
    let tree = vec![
        pipeline("core", vec![job("build", &[1, 2, 3]), job("test", &[2, 20])]),
        pipeline("extra", vec![job("build", &[2])]),
    ];
    let wide = filter_tree(&tree, &Pattern::match_all(), &Pattern::match_all(), &pat("2"));
    let narrow = filter_tree(&tree, &Pattern::match_all(), &Pattern::match_all(), &pat("^2$"));
    assert!(narrow.len() <= wide.len());
    let narrower_job = filter_tree(&tree, &Pattern::match_all(), &pat("build"), &pat("2"));
    assert!(narrower_job.len() <= wide.len());
    let narrower_pipeline = filter_tree(&tree, &pat("core"), &Pattern::match_all(), &pat("2"));
    assert!(narrower_pipeline.len() <= wide.len());
}

#[test]
fn job_filter_prunes_whole_jobs() {
    let tree = vec![pipeline("core", vec![job("build", &[1, 2]), job("deploy", &[1, 2])])];
    let matches = filter_tree(&tree, &Pattern::match_all(), &pat("deploy"), &Pattern::match_all());
    assert_eq!(matches.len(), 2);
    assert_eq!(matches[0].job_name, "deploy");
    assert_eq!(matches[1].job_name, "deploy");
}
