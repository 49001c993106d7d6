//! The artifact resolver.
//!
//! Artifact lists are expensive to obtain: the server has no cheap
//! endpoint for "artifacts across many builds", so one is fetched only
//! when the filter selected exactly one build. [`resolve_action`] decides,
//! from the match list alone and before any network activity, whether an
//! artifact fetch may happen and for which build path; every other case is
//! a [`SkipReason`]. The fetched list is then narrowed by
//! [`filter_artifacts`].

use vstd::prelude::*;

use crate::escape::{escape_seq, escape_segment};
use crate::model::{Artifact, ArtifactView, MatchResult, MatchView};
use crate::pattern::{regex_matches, Pattern};
use crate::text::{dec_seq, number_to_string};

verus! {

/// Why no artifact fetch happens.
#[derive(Clone, Copy, PartialEq, Eq, Structural, Debug)]
pub enum SkipReason {
    /// The user supplied no artifact pattern.
    NotRequested,
    /// The filter selected no build.
    NoBuildSelected,
    /// The filter selected more than one build; the count says how many.
    AmbiguousBuild { count: usize },
}

/// The resolver's decision: skip for a stated reason, or fetch the
/// artifact list of the single selected build, addressed by its canonical
/// path.
pub enum ResolveAction {
    Skip { reason: SkipReason },
    FetchBuild { path: String },
}

/// The canonical path of a build on the server: escaped pipeline name and
/// escaped job name under `/job/` each, then the build number.
pub open spec fn build_path_spec(m: MatchView) -> Seq<char> {
    "/job/"@ + escape_seq(m.pipeline_name) + "/job/"@ + escape_seq(m.job_name) + "/"@ + dec_seq(
        m.build_number as nat,
    )
}

/// The canonical path of the build described by `m`.
pub fn build_path(m: &MatchResult) -> (r: String)
    ensures
        r@ == build_path_spec(m.deep_view()),
{
    let mut out = String::new();
    out.append("/job/");
    let pipeline_seg = escape_segment(m.pipeline_name.as_str());
    out.append(pipeline_seg.as_str());
    out.append("/job/");
    let job_seg = escape_segment(m.job_name.as_str());
    out.append(job_seg.as_str());
    out.append("/");
    let number_text = number_to_string(m.build_number);
    out.append(number_text.as_str());
    proof {
        assert(out@ =~= build_path_spec(m.deep_view()));
    }
    out
}

/// Decides whether the artifact list of a build may be fetched.
///
/// The decision reads only the match list and whether an artifact pattern
/// was supplied; it makes no network call itself, and a fetch is allowed
/// only for exactly one match, so a skipped resolution involves zero
/// artifact requests.
pub fn resolve_action(matches: &Vec<MatchResult>, artifact_requested: bool) -> (r: ResolveAction)
    ensures
        !artifact_requested ==> r == (ResolveAction::Skip { reason: SkipReason::NotRequested }),
        artifact_requested && matches@.len() == 0 ==> r == (ResolveAction::Skip {
            reason: SkipReason::NoBuildSelected,
        }),
        artifact_requested && matches@.len() > 1 ==> r == (ResolveAction::Skip {
            reason: SkipReason::AmbiguousBuild { count: matches@.len() as usize },
        }),
        artifact_requested && matches@.len() == 1 ==> (r matches ResolveAction::FetchBuild { path }
            && path@ == build_path_spec(matches.deep_view()[0])),
{
    if !artifact_requested {
        ResolveAction::Skip { reason: SkipReason::NotRequested }
    } else if matches.len() == 0 {
        ResolveAction::Skip { reason: SkipReason::NoBuildSelected }
    } else if matches.len() > 1 {
        ResolveAction::Skip { reason: SkipReason::AmbiguousBuild { count: matches.len() } }
    } else {
        ResolveAction::FetchBuild { path: build_path(&matches[0]) }
    }
}

/// Which artifacts survive the artifact filter: those whose file name the
/// pattern matches, in input order.
pub open spec fn filtered_artifacts(arts: Seq<ArtifactView>, pat: Seq<char>) -> Seq<ArtifactView> {
    arts.filter(|a: ArtifactView| regex_matches(pat, a.file_name))
}

/// Narrows a fetched artifact list to the artifacts whose file name
/// matches the artifact pattern. An empty result is not an error.
pub fn filter_artifacts(artifacts: &Vec<Artifact>, pat: &Pattern) -> (r: Vec<Artifact>)
    ensures
        r.deep_view() == filtered_artifacts(artifacts.deep_view(), pat@),
{
    let ghost av = artifacts.deep_view();
    let ghost pred = |a: ArtifactView| regex_matches(pat@, a.file_name);
    let mut out: Vec<Artifact> = Vec::new();
    let mut i: usize = 0;
    proof {
        reveal(Seq::filter);
        assert(out.deep_view() =~= av.take(0).filter(pred));
    }
    while i < artifacts.len()
        invariant
            i <= artifacts.len(),
            av == artifacts.deep_view(),
            pred == (|a: ArtifactView| regex_matches(pat@, a.file_name)),
            out.deep_view() == av.take(i as int).filter(pred),
        decreases artifacts.len() - i,
    {
        let artifact = &artifacts[i];
        proof {
            assert(av[i as int] == artifact.deep_view());
        }
        if pat.is_match(artifact.file_name.as_str()) {
            let ghost pre = out.deep_view();
            out.push(artifact.duplicate());
            proof {
                assert(out.deep_view() =~= pre.push(artifact.deep_view()));
            }
        }
        proof {
            reveal(Seq::filter);
            assert(av.take(i as int + 1).drop_last() =~= av.take(i as int));
            assert(av.take(i as int + 1).last() == av[i as int]);
            assert(out.deep_view() =~= av.take(i as int + 1).filter(pred));
        }
        i = i + 1;
    }
    proof {
        assert(av.take(av.len() as int) =~= av);
    }
    out
}

} // verus!
