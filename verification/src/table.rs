//! The presenter's table and its inverse.
//!
//! The table always has the header `pipeline | job | build`, one row per
//! match in the given order, and --- only when artifacts were resolved ---
//! an extra `artifacts` column holding the artifacts' relative paths,
//! newline-joined, in every row. The cells are plain text;
//! [`parse_table`] reads the three leading columns back, and
//! [`lemma_table_round_trip`] shows that rendering then parsing recovers
//! the matches exactly.

use vstd::prelude::*;

use crate::model::{Artifact, ArtifactView, MatchResult, MatchView};
use crate::text::{
    all_digits, dec_seq, dec_value, lemma_dec_seq_round_trip, number_to_string, parse_decimal,
    str_eq,
};

verus! {

/// The artifact paths joined by newlines: `a`, `b`, `c` become
/// `a\nb\nc`.
pub open spec fn joined_paths(paths: Seq<Seq<char>>) -> Seq<char>
    decreases paths.len(),
{
    if paths.len() == 0 {
        Seq::empty()
    } else {
        joined_paths(paths.drop_last()) + (if paths.len() == 1 {
            Seq::<char>::empty()
        } else {
            seq!['\n']
        }) + paths.last()
    }
}

/// The header row; the `artifacts` column is present only when artifacts
/// were resolved.
pub open spec fn header_cells(with_artifacts: bool) -> Seq<Seq<char>> {
    if with_artifacts {
        seq!["pipeline"@, "job"@, "build"@, "artifacts"@]
    } else {
        seq!["pipeline"@, "job"@, "build"@]
    }
}

/// One data row: the match triple, and the artifact cell when present.
pub open spec fn row_cells(m: MatchView, artifact_cell: Option<Seq<char>>) -> Seq<Seq<char>> {
    match artifact_cell {
        None => seq![m.pipeline_name, m.job_name, dec_seq(m.build_number as nat)],
        Some(cell) => seq![m.pipeline_name, m.job_name, dec_seq(m.build_number as nat), cell],
    }
}

/// The artifact cell: the relative paths newline-joined, absent when no
/// artifact was resolved.
pub open spec fn artifact_cell_of(arts: Seq<ArtifactView>) -> Option<Seq<char>> {
    if arts.len() > 0 {
        Some(joined_paths(arts.map_values(|a: ArtifactView| a.relative_path)))
    } else {
        None
    }
}

/// The whole table: header row, then one row per match, in order.
pub open spec fn table_cells(ms: Seq<MatchView>, arts: Seq<ArtifactView>) -> Seq<Seq<Seq<char>>> {
    seq![header_cells(arts.len() > 0)] + Seq::new(
        ms.len(),
        |i: int| row_cells(ms[i], artifact_cell_of(arts)),
    )
}

/// The newline-joined relative paths of `artifacts`.
fn join_relative_paths(artifacts: &Vec<Artifact>) -> (r: String)
    ensures
        r@ == joined_paths(
            artifacts.deep_view().map_values(|a: ArtifactView| a.relative_path),
        ),
{
    let ghost paths = artifacts.deep_view().map_values(|a: ArtifactView| a.relative_path);
    let mut buf: Vec<char> = Vec::new();
    let mut i: usize = 0;
    while i < artifacts.len()
        invariant
            i <= artifacts.len(),
            paths == artifacts.deep_view().map_values(|a: ArtifactView| a.relative_path),
            paths.len() == artifacts@.len(),
            buf@ == joined_paths(paths.take(i as int)),
        decreases artifacts.len() - i,
    {
        if i > 0 {
            buf.push('\n');
        }
        crate::text::push_str_chars(&mut buf, artifacts[i].relative_path.as_str());
        proof {
            assert(paths.take(i as int + 1).drop_last() =~= paths.take(i as int));
            assert(paths.take(i as int + 1).last() == paths[i as int]);
            assert(paths[i as int] == artifacts.deep_view()[i as int].relative_path);
            assert(buf@ =~= joined_paths(paths.take(i as int + 1)));
        }
        i = i + 1;
    }
    proof {
        assert(paths.take(paths.len() as int) =~= paths);
    }
    crate::text::chars_to_string(buf)
}

/// Renders the match list (and the resolved artifacts, if any) as table
/// cells: the header row, then one row per match, in the matches' order.
pub fn render_table(matches: &Vec<MatchResult>, artifacts: &Vec<Artifact>) -> (r: Vec<Vec<String>>)
    ensures
        r.deep_view() == table_cells(matches.deep_view(), artifacts.deep_view()),
{
    let ghost mv = matches.deep_view();
    let ghost av = artifacts.deep_view();
    let has_artifacts = artifacts.len() > 0;
    let artifact_cell: Option<String> = if has_artifacts {
        Some(join_relative_paths(artifacts))
    } else {
        None
    };
    proof {
        assert(artifact_cell.deep_view() == artifact_cell_of(av));
    }
    let mut table: Vec<Vec<String>> = Vec::new();
    let mut header: Vec<String> = Vec::new();
    header.push(String::from_str("pipeline"));
    header.push(String::from_str("job"));
    header.push(String::from_str("build"));
    if has_artifacts {
        header.push(String::from_str("artifacts"));
    }
    proof {
        assert(header.deep_view() =~= header_cells(av.len() > 0));
    }
    table.push(header);
    proof {
        assert(table.deep_view() =~= table_cells(mv.take(0), av));
    }
    let mut i: usize = 0;
    while i < matches.len()
        invariant
            i <= matches.len(),
            mv == matches.deep_view(),
            av == artifacts.deep_view(),
            artifact_cell.deep_view() == artifact_cell_of(av),
            table.deep_view() == table_cells(mv.take(i as int), av),
        decreases matches.len() - i,
    {
        let m = &matches[i];
        let mut row: Vec<String> = Vec::new();
        row.push(m.pipeline_name.clone());
        row.push(m.job_name.clone());
        row.push(number_to_string(m.build_number));
        match &artifact_cell {
            Some(cell) => {
                row.push(cell.clone());
            },
            None => {},
        }
        proof {
            assert(mv[i as int] == m.deep_view());
            assert(row.deep_view() =~= row_cells(mv[i as int], artifact_cell_of(av)));
        }
        let ghost pre_table = table.deep_view();
        let ghost row_view = row.deep_view();
        table.push(row);
        proof {
            assert(table.deep_view() =~= pre_table.push(row_view));
            assert(table.deep_view() =~= table_cells(mv.take(i as int + 1), av));
        }
        i = i + 1;
    }
    proof {
        assert(mv.take(mv.len() as int) =~= mv);
    }
    table
}

/// Whether the first row is a well-formed header: at least the three
/// columns `pipeline`, `job`, `build`, in that order.
pub open spec fn header_ok(t: Seq<Seq<Seq<char>>>) -> bool {
    t.len() >= 1 && t[0].len() >= 3 && t[0][0] == "pipeline"@ && t[0][1] == "job"@ && t[0][2]
        == "build"@
}

/// Whether a data row can be read back: at least three cells, the third
/// a decimal number that fits in a `u32`.
pub open spec fn row_ok(row: Seq<Seq<char>>) -> bool {
    row.len() >= 3 && row[2].len() > 0 && all_digits(row[2]) && dec_value(row[2]) <= u32::MAX
}

/// The match a data row denotes.
pub open spec fn parsed_row(row: Seq<Seq<char>>) -> MatchView {
    MatchView {
        pipeline_name: row[0],
        job_name: row[1],
        build_number: dec_value(row[2]) as u32,
    }
}

/// What parsing a table yields: the matches of its data rows, by column,
/// or nothing if the header or any row is malformed.
pub open spec fn parse_table_spec(t: Seq<Seq<Seq<char>>>) -> Option<Seq<MatchView>> {
    if header_ok(t) && (forall|i: int| 1 <= i < t.len() ==> row_ok(#[trigger] t[i])) {
        Some(Seq::new((t.len() - 1) as nat, |i: int| parsed_row(t[i + 1])))
    } else {
        None
    }
}

/// Reads a rendered table back into its match list, by column: cell one
/// is the pipeline name, cell two the job name, cell three the build
/// number.
pub fn parse_table(table: &Vec<Vec<String>>) -> (r: Option<Vec<MatchResult>>)
    ensures
        r is Some <==> parse_table_spec(table.deep_view()) is Some,
        r matches Some(v) ==> Some(v.deep_view()) == parse_table_spec(table.deep_view()),
{
    let ghost t = table.deep_view();
    if table.len() == 0 {
        return None;
    }
    let header = &table[0];
    proof {
        assert(t[0] == header.deep_view());
    }
    if header.len() < 3 {
        return None;
    }
    if !str_eq(header[0].as_str(), "pipeline") {
        return None;
    }
    if !str_eq(header[1].as_str(), "job") {
        return None;
    }
    if !str_eq(header[2].as_str(), "build") {
        return None;
    }
    let mut out: Vec<MatchResult> = Vec::new();
    let mut i: usize = 1;
    while i < table.len()
        invariant
            1 <= i <= table@.len(),
            t == table.deep_view(),
            header_ok(t),
            forall|k: int| 1 <= k < i ==> row_ok(#[trigger] t[k]),
            out.deep_view() == Seq::new((i - 1) as nat, |k: int| parsed_row(t[k + 1])),
        decreases table@.len() - i,
    {
        let row = &table[i];
        proof {
            assert(t[i as int] == row.deep_view());
        }
        if row.len() < 3 {
            return None;
        }
        let number = match parse_decimal(row[2].as_str()) {
            Some(n) => n,
            None => {
                return None;
            },
        };
        let ghost pre = out.deep_view();
        out.push(
            MatchResult {
                pipeline_name: row[0].clone(),
                job_name: row[1].clone(),
                build_number: number,
            },
        );
        proof {
            assert(row_ok(t[i as int]));
            assert(out.deep_view() =~= pre.push(parsed_row(t[i as int])));
            assert(out.deep_view() =~= Seq::new(i as nat, |k: int| parsed_row(t[k + 1])));
        }
        i = i + 1;
    }
    proof {
        assert(parse_table_spec(t) is Some);
        assert(out.deep_view() =~= parse_table_spec(t).unwrap());
    }
    Some(out)
}

/// Rendering a match list and parsing the visible table back recovers
/// the matches exactly, with or without a resolved artifact column.
pub proof fn lemma_table_round_trip(ms: Seq<MatchView>, arts: Seq<ArtifactView>)
    ensures
        parse_table_spec(table_cells(ms, arts)) == Some(ms),
{
    let t = table_cells(ms, arts);
    assert(t[0] == header_cells(arts.len() > 0));
    assert(header_ok(t));
    assert forall|i: int| 1 <= i < t.len() implies row_ok(#[trigger] t[i]) by {
        assert(t[i] == row_cells(ms[i - 1], artifact_cell_of(arts)));
        lemma_dec_seq_round_trip(ms[i - 1].build_number as nat);
    }
    assert forall|i: int| 0 <= i < ms.len() implies parsed_row(t[i + 1]) == ms[i] by {
        assert(t[i + 1] == row_cells(ms[i], artifact_cell_of(arts)));
        lemma_dec_seq_round_trip(ms[i].build_number as nat);
    }
    assert(parse_table_spec(t).unwrap() =~= ms);
}

} // verus!
