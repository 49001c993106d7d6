use arty::model::MatchResult;
use arty::sort::sort_matches;

fn one_match(pipeline: &str, job: &str, number: u32) -> MatchResult {
    MatchResult {
        pipeline_name: String::from(pipeline),
        job_name: String::from(job),
        build_number: number,
    }
}

fn triples(matches: &[MatchResult]) -> Vec<(String, String, u32)> {
    matches
        .iter()
        .map(|m| (m.pipeline_name.clone(), m.job_name.clone(), m.build_number))
        .collect()
}

#[test]
fn sorts_by_pipeline_then_job_then_build_descending() {
    let input = vec![
        one_match("infra", "deploy", 1),
        one_match("core", "build", 2),
        one_match("core", "build", 10),
        one_match("core", "archive", 1),
    ];
    let sorted = sort_matches(input);
    assert_eq!(
        triples(&sorted),
        vec![
            (String::from("core"), String::from("archive"), 1),
            (String::from("core"), String::from("build"), 10),
            (String::from("core"), String::from("build"), 2),
            (String::from("infra"), String::from("deploy"), 1),
        ]
    );
}

#[test]
fn pipeline_names_compare_case_insensitively() {
    let input = vec![
        one_match("beta", "job", 1),
        one_match("Alpha", "job", 1),
        one_match("alpha", "other", 1),
    ];
    let sorted = sort_matches(input);
    assert_eq!(
        triples(&sorted),
        vec![
            (String::from("Alpha"), String::from("job"), 1),
            (String::from("alpha"), String::from("other"), 1),
            (String::from("beta"), String::from("job"), 1),
        ]
    );
}

#[test]
fn build_numbers_come_newest_first() {
    let input = vec![
        one_match("core", "build", 1),
        one_match("core", "build", 3),
        one_match("core", "build", 2),
    ];
    let sorted = sort_matches(input);
    let numbers: Vec<u32> = sorted.iter().map(|m| m.build_number).collect();
    assert_eq!(numbers, vec![3, 2, 1]);
}

#[test]
fn equivalent_rows_keep_their_input_order() {
    // "alpha" and "Alpha" compare equal case-insensitively; with the same
    // job name and build number the order cannot tell the rows apart, so
    // the sort is stable and the input order decides.
    let input = vec![one_match("alpha", "job", 1), one_match("Alpha", "job", 1)];
    let sorted = sort_matches(input);
    assert_eq!(sorted[0].pipeline_name, "alpha");
    assert_eq!(sorted[1].pipeline_name, "Alpha");
}

#[test]
fn empty_input_sorts_to_empty() {
    let sorted = sort_matches(Vec::new());
    assert!(sorted.is_empty());
}
