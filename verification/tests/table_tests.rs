use arty::model::{Artifact, MatchResult};
use arty::table::{parse_table, render_table};

fn one_match(pipeline: &str, job: &str, number: u32) -> MatchResult {
    MatchResult {
        pipeline_name: String::from(pipeline),
        job_name: String::from(job),
        build_number: number,
    }
}

fn artifact(file_name: &str, relative_path: &str) -> Artifact {
    Artifact { file_name: String::from(file_name), relative_path: String::from(relative_path) }
}

#[test]
fn table_without_artifacts_has_three_columns() {
    let matches = vec![one_match("core", "build", 2), one_match("infra", "deploy", 31)];
    let table = render_table(&matches, &Vec::new());
    assert_eq!(table.len(), 3);
    assert_eq!(table[0], vec!["pipeline", "job", "build"]);
    assert_eq!(table[1], vec!["core", "build", "2"]);
    assert_eq!(table[2], vec!["infra", "deploy", "31"]);
}

#[test]
fn table_with_artifacts_has_a_fourth_column() {
    let matches = vec![one_match("core", "build", 17)];
    let artifacts = vec![
        artifact("a.zip", "out/a.zip"),
        artifact("b.zip", "out/b.zip"),
        artifact("c.txt", "c.txt"),
    ];
    let table = render_table(&matches, &artifacts);
    assert_eq!(table.len(), 2);
    assert_eq!(table[0], vec!["pipeline", "job", "build", "artifacts"]);
    assert_eq!(table[1], vec!["core", "build", "17", "out/a.zip\nout/b.zip\nc.txt"]);
}

#[test]
fn empty_match_list_renders_header_alone() {
    let table = render_table(&Vec::new(), &Vec::new());
    assert_eq!(table.len(), 1);
    assert_eq!(table[0], vec!["pipeline", "job", "build"]);
}

#[test]
fn round_trip_recovers_the_matches() {
    let matches = vec![
        one_match("core", "build", 2),
        one_match("Infra", "deploy again", 4294967295),
        one_match("", "", 0),
    ];
    let table = render_table(&matches, &Vec::new());
    let parsed = parse_table(&table).expect("a rendered table parses");
    assert_eq!(parsed.len(), matches.len());
    for (p, m) in parsed.iter().zip(matches.iter()) {
        assert_eq!(p.pipeline_name, m.pipeline_name);
        assert_eq!(p.job_name, m.job_name);
        assert_eq!(p.build_number, m.build_number);
    }
}

#[test]
fn round_trip_ignores_the_artifact_column() {
    let matches = vec![one_match("core", "build", 17)];
    let artifacts = vec![artifact("a.zip", "out/a.zip")];
    let table = render_table(&matches, &artifacts);
    let parsed = parse_table(&table).expect("a rendered table parses");
    assert_eq!(parsed.len(), 1);
    assert_eq!(parsed[0].pipeline_name, "core");
    assert_eq!(parsed[0].job_name, "build");
    assert_eq!(parsed[0].build_number, 17);
}

#[test]
fn parse_rejects_a_missing_header() {
    // A single data row without the header row above it is not a table.
    let table = vec![vec![String::from("core"), String::from("build"), String::from("2")]];
    assert!(parse_table(&table).is_none());
    let empty: Vec<Vec<String>> = Vec::new();
    assert!(parse_table(&empty).is_none());
}

#[test]
fn parse_rejects_a_wrong_header() {
    let table = vec![vec![String::from("pipe"), String::from("job"), String::from("build")]];
    assert!(parse_table(&table).is_none());
}

#[test]
fn parse_rejects_a_non_numeric_build_cell() {
    let table = vec![
        vec![String::from("pipeline"), String::from("job"), String::from("build")],
        vec![String::from("core"), String::from("build"), String::from("2a")],
    ];
    assert!(parse_table(&table).is_none());
}

#[test]
fn parse_rejects_a_too_large_build_cell() {
    let table = vec![
        vec![String::from("pipeline"), String::from("job"), String::from("build")],
        vec![String::from("core"), String::from("build"), String::from("4294967296")],
    ];
    assert!(parse_table(&table).is_none());
}

#[test]
fn parse_accepts_leading_zeroes() {
    let table = vec![
        vec![String::from("pipeline"), String::from("job"), String::from("build")],
        vec![String::from("core"), String::from("build"), String::from("007")],
    ];
    let parsed = parse_table(&table).expect("digits parse");
    assert_eq!(parsed[0].build_number, 7);
}
