//! The hierarchical filter.
//!
//! A pipeline is visited only if its name matches the pipeline pattern;
//! within a visited pipeline, a job is visited only if its name matches
//! the job pattern; within a visited job, a build is emitted only if the
//! decimal string form of its number matches the build pattern. The
//! emitted triples follow the input order of the tree; the fetched tree is
//! never changed, only read.

use vstd::prelude::*;

use crate::model::{Build, BuildView, Job, JobView, MatchResult, MatchView, Pipeline, PipelineView};
use crate::pattern::{regex_matches, Pattern};
use crate::text::{dec_seq, number_to_string};

verus! {

/// The row a single build contributes: one match when the decimal form of
/// its number matches the build pattern, none otherwise.
pub open spec fn build_row(
    pipeline_name: Seq<char>,
    job_name: Seq<char>,
    b: BuildView,
    build_pat: Seq<char>,
) -> Seq<MatchView> {
    if regex_matches(build_pat, dec_seq(b.number as nat)) {
        seq![
            MatchView { pipeline_name: pipeline_name, job_name: job_name, build_number: b.number },
        ]
    } else {
        Seq::empty()
    }
}

/// The rows of a visited job's builds, in input order.
pub open spec fn builds_rows(
    pipeline_name: Seq<char>,
    job_name: Seq<char>,
    builds: Seq<BuildView>,
    build_pat: Seq<char>,
) -> Seq<MatchView>
    decreases builds.len(),
{
    if builds.len() == 0 {
        Seq::empty()
    } else {
        builds_rows(pipeline_name, job_name, builds.drop_last(), build_pat) + build_row(
            pipeline_name,
            job_name,
            builds.last(),
            build_pat,
        )
    }
}

/// The rows a single job contributes: its builds' rows when its name
/// matches the job pattern, none otherwise.
pub open spec fn job_rows(
    pipeline_name: Seq<char>,
    j: JobView,
    job_pat: Seq<char>,
    build_pat: Seq<char>,
) -> Seq<MatchView> {
    if regex_matches(job_pat, j.name) {
        builds_rows(pipeline_name, j.name, j.builds, build_pat)
    } else {
        Seq::empty()
    }
}

/// The rows of a visited pipeline's jobs, in input order.
pub open spec fn jobs_rows(
    pipeline_name: Seq<char>,
    jobs: Seq<JobView>,
    job_pat: Seq<char>,
    build_pat: Seq<char>,
) -> Seq<MatchView>
    decreases jobs.len(),
{
    if jobs.len() == 0 {
        Seq::empty()
    } else {
        jobs_rows(pipeline_name, jobs.drop_last(), job_pat, build_pat) + job_rows(
            pipeline_name,
            jobs.last(),
            job_pat,
            build_pat,
        )
    }
}

/// The rows a single pipeline contributes: its jobs' rows when its name
/// matches the pipeline pattern, none otherwise.
pub open spec fn pipeline_rows(
    p: PipelineView,
    pipeline_pat: Seq<char>,
    job_pat: Seq<char>,
    build_pat: Seq<char>,
) -> Seq<MatchView> {
    if regex_matches(pipeline_pat, p.name) {
        jobs_rows(p.name, p.jobs, job_pat, build_pat)
    } else {
        Seq::empty()
    }
}

/// All rows of the tree surviving the three filters, in input order.
pub open spec fn filter_rows(
    pipelines: Seq<PipelineView>,
    pipeline_pat: Seq<char>,
    job_pat: Seq<char>,
    build_pat: Seq<char>,
) -> Seq<MatchView>
    decreases pipelines.len(),
{
    if pipelines.len() == 0 {
        Seq::empty()
    } else {
        filter_rows(pipelines.drop_last(), pipeline_pat, job_pat, build_pat) + pipeline_rows(
            pipelines.last(),
            pipeline_pat,
            job_pat,
            build_pat,
        )
    }
}

/// Walks the fetched tree and flattens the surviving builds into
/// (pipeline, job, build) triples, in the tree's own order.
pub fn filter_tree(
    pipelines: &Vec<Pipeline>,
    pipeline_pat: &Pattern,
    job_pat: &Pattern,
    build_pat: &Pattern,
) -> (r: Vec<MatchResult>)
    ensures
        r.deep_view() == filter_rows(pipelines.deep_view(), pipeline_pat@, job_pat@, build_pat@),
{
    let ghost pv = pipelines.deep_view();
    let mut out: Vec<MatchResult> = Vec::new();
    let mut i: usize = 0;
    while i < pipelines.len()
        invariant
            i <= pipelines.len(),
            pv == pipelines.deep_view(),
            out.deep_view() == filter_rows(pv.take(i as int), pipeline_pat@, job_pat@, build_pat@),
        decreases pipelines.len() - i,
    {
        let pipeline = &pipelines[i];
        let ghost rows_before = out.deep_view();
        proof {
            assert(pv[i as int] == pipeline.deep_view());
        }
        if pipeline_pat.is_match(pipeline.name.as_str()) {
            let ghost jv = pipeline.jobs.deep_view();
            let mut j: usize = 0;
            while j < pipeline.jobs.len()
                invariant
                    j <= pipeline.jobs.len(),
                    jv == pipeline.jobs.deep_view(),
                    out.deep_view() == rows_before + jobs_rows(
                        pipeline.name@,
                        jv.take(j as int),
                        job_pat@,
                        build_pat@,
                    ),
                decreases pipeline.jobs.len() - j,
            {
                let job = &pipeline.jobs[j];
                let ghost job_rows_before = out.deep_view();
                proof {
                    assert(jv[j as int] == job.deep_view());
                }
                if job_pat.is_match(job.name.as_str()) {
                    let ghost bv = job.builds.deep_view();
                    let mut k: usize = 0;
                    while k < job.builds.len()
                        invariant
                            k <= job.builds.len(),
                            bv == job.builds.deep_view(),
                            out.deep_view() == job_rows_before + builds_rows(
                                pipeline.name@,
                                job.name@,
                                bv.take(k as int),
                                build_pat@,
                            ),
                        decreases job.builds.len() - k,
                    {
                        let build = &job.builds[k];
                        proof {
                            assert(bv[k as int] == build.deep_view());
                        }
                        let number_text = number_to_string(build.number);
                        if build_pat.is_match(number_text.as_str()) {
                            let ghost pre = out.deep_view();
                            out.push(
                                MatchResult {
                                    pipeline_name: pipeline.name.clone(),
                                    job_name: job.name.clone(),
                                    build_number: build.number,
                                },
                            );
                            proof {
                                assert(out.deep_view() =~= pre.push(
                                    MatchView {
                                        pipeline_name: pipeline.name@,
                                        job_name: job.name@,
                                        build_number: build.number,
                                    },
                                ));
                            }
                        }
                        proof {
                            assert(bv.take(k as int + 1).drop_last() =~= bv.take(k as int));
                            assert(bv.take(k as int + 1).last() == bv[k as int]);
                            assert(out.deep_view() =~= job_rows_before + builds_rows(
                                pipeline.name@,
                                job.name@,
                                bv.take(k as int + 1),
                                build_pat@,
                            ));
                        }
                        k = k + 1;
                    }
                    proof {
                        assert(bv.take(bv.len() as int) =~= bv);
                    }
                }
                proof {
                    assert(jv.take(j as int + 1).drop_last() =~= jv.take(j as int));
                    assert(jv.take(j as int + 1).last() == jv[j as int]);
                    assert(out.deep_view() =~= rows_before + jobs_rows(
                        pipeline.name@,
                        jv.take(j as int + 1),
                        job_pat@,
                        build_pat@,
                    ));
                }
                j = j + 1;
            }
            proof {
                assert(jv.take(jv.len() as int) =~= jv);
            }
        }
        proof {
            assert(pv.take(i as int + 1).drop_last() =~= pv.take(i as int));
            assert(pv.take(i as int + 1).last() == pv[i as int]);
            assert(out.deep_view() =~= filter_rows(
                pv.take(i as int + 1),
                pipeline_pat@,
                job_pat@,
                build_pat@,
            ));
        }
        i = i + 1;
    }
    proof {
        assert(pv.take(pv.len() as int) =~= pv);
    }
    out
}

/// `narrow` is matched by a subset of the strings that `wide` is matched
/// by.
pub open spec fn narrows(narrow: Seq<char>, wide: Seq<char>) -> bool {
    forall|t: Seq<char>| #[trigger] regex_matches(narrow, t) ==> regex_matches(wide, t)
}

/// Narrowing the build pattern never adds rows to a job's builds.
proof fn lemma_builds_monotonic(
    pipeline_name: Seq<char>,
    job_name: Seq<char>,
    builds: Seq<BuildView>,
    wide: Seq<char>,
    narrow: Seq<char>,
)
    requires
        narrows(narrow, wide),
    ensures
        builds_rows(pipeline_name, job_name, builds, narrow).len() <= builds_rows(
            pipeline_name,
            job_name,
            builds,
            wide,
        ).len(),
    decreases builds.len(),
{
    if builds.len() > 0 {
        lemma_builds_monotonic(pipeline_name, job_name, builds.drop_last(), wide, narrow);
    }
}

/// Narrowing the job or build pattern never adds rows to a pipeline's
/// jobs.
proof fn lemma_jobs_monotonic(
    pipeline_name: Seq<char>,
    jobs: Seq<JobView>,
    wide_job: Seq<char>,
    wide_build: Seq<char>,
    narrow_job: Seq<char>,
    narrow_build: Seq<char>,
)
    requires
        narrows(narrow_job, wide_job),
        narrows(narrow_build, wide_build),
    ensures
        jobs_rows(pipeline_name, jobs, narrow_job, narrow_build).len() <= jobs_rows(
            pipeline_name,
            jobs,
            wide_job,
            wide_build,
        ).len(),
    decreases jobs.len(),
{
    if jobs.len() > 0 {
        lemma_jobs_monotonic(
            pipeline_name,
            jobs.drop_last(),
            wide_job,
            wide_build,
            narrow_job,
            narrow_build,
        );
        let last = jobs.last();
        if regex_matches(narrow_job, last.name) {
            lemma_builds_monotonic(
                pipeline_name,
                last.name,
                last.builds,
                wide_build,
                narrow_build,
            );
        }
    }
}

/// Filtering is monotonic: replacing any of the three patterns by a
/// narrower one (one matched by a subset of strings) never increases the
/// number of rows.
pub proof fn lemma_filter_monotonic(
    pipelines: Seq<PipelineView>,
    wide_pipeline: Seq<char>,
    wide_job: Seq<char>,
    wide_build: Seq<char>,
    narrow_pipeline: Seq<char>,
    narrow_job: Seq<char>,
    narrow_build: Seq<char>,
)
    requires
        narrows(narrow_pipeline, wide_pipeline),
        narrows(narrow_job, wide_job),
        narrows(narrow_build, wide_build),
    ensures
        filter_rows(pipelines, narrow_pipeline, narrow_job, narrow_build).len() <= filter_rows(
            pipelines,
            wide_pipeline,
            wide_job,
            wide_build,
        ).len(),
    decreases pipelines.len(),
{
    if pipelines.len() > 0 {
        lemma_filter_monotonic(
            pipelines.drop_last(),
            wide_pipeline,
            wide_job,
            wide_build,
            narrow_pipeline,
            narrow_job,
            narrow_build,
        );
        let last = pipelines.last();
        if regex_matches(narrow_pipeline, last.name) {
            lemma_jobs_monotonic(
                last.name,
                last.jobs,
                wide_job,
                wide_build,
                narrow_job,
                narrow_build,
            );
        }
    }
}

/// A pipeline whose jobs all have no builds contributes no rows.
proof fn lemma_jobs_no_builds(
    pipeline_name: Seq<char>,
    jobs: Seq<JobView>,
    job_pat: Seq<char>,
    build_pat: Seq<char>,
)
    requires
        forall|j: int| 0 <= j < jobs.len() ==> #[trigger] jobs[j].builds.len() == 0,
    ensures
        jobs_rows(pipeline_name, jobs, job_pat, build_pat).len() == 0,
    decreases jobs.len(),
{
    if jobs.len() > 0 {
        lemma_jobs_no_builds(pipeline_name, jobs.drop_last(), job_pat, build_pat);
    }
}

/// An empty tree filters to an empty list, whatever the patterns: no
/// pipelines, or no jobs in any pipeline, or no builds in any job.
pub proof fn lemma_filter_empty_tree(
    pipelines: Seq<PipelineView>,
    pipeline_pat: Seq<char>,
    job_pat: Seq<char>,
    build_pat: Seq<char>,
)
    requires
        forall|i: int, j: int|
            0 <= i < pipelines.len() && 0 <= j < pipelines[i].jobs.len()
                ==> #[trigger] pipelines[i].jobs[j].builds.len() == 0,
    ensures
        filter_rows(pipelines, pipeline_pat, job_pat, build_pat).len() == 0,
    decreases pipelines.len(),
{
    if pipelines.len() > 0 {
        lemma_filter_empty_tree(pipelines.drop_last(), pipeline_pat, job_pat, build_pat);
        let last = pipelines.last();
        assert(forall|j: int| 0 <= j < last.jobs.len() ==> #[trigger] last.jobs[j].builds.len()
            == 0) by {
            assert(forall|j: int|
                0 <= j < last.jobs.len() ==> last.jobs[j] == pipelines[pipelines.len() - 1].jobs[j]);
        }
        lemma_jobs_no_builds(last.name, last.jobs, job_pat, build_pat);
    }
}

} // verus!
