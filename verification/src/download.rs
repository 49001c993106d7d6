//! Download planning and batch bookkeeping.
//!
//! The library decides everything about a download batch from plain
//! values: the full URL and target file name of every resolved artifact
//! ([`download_plan`]), whether the user's answer to the confirmation
//! prompt is an assent ([`is_affirmative`]), and which outcomes of an
//! attempted batch are failures ([`collect_failures`]). Performing the
//! requests and writing the files is left to the caller, which attempts
//! every planned item independently: one failed item never removes a
//! later one from the plan.

use vstd::prelude::*;

use crate::model::{Artifact, ArtifactView};
use crate::text::str_eq;

verus! {

/// One planned download: where to fetch from, and the file name to write
/// inside the download directory.
pub struct DownloadItem {
    pub url: String,
    pub file_name: String,
}

/// Mathematical image of a [`DownloadItem`].
pub struct DownloadItemView {
    pub url: Seq<char>,
    pub file_name: Seq<char>,
}

impl DeepView for DownloadItem {
    type V = DownloadItemView;

    open spec fn deep_view(&self) -> DownloadItemView {
        DownloadItemView { url: self.url@, file_name: self.file_name@ }
    }
}

/// The full download URL of one artifact: server base URL, the build's
/// canonical path, the artifact-download segment, and the artifact's
/// relative path.
pub open spec fn artifact_url_spec(base: Seq<char>, build_path: Seq<char>, rel: Seq<char>) -> Seq<
    char,
> {
    base + build_path + "/artifact/"@ + rel
}

/// The planned download of one artifact.
pub open spec fn plan_item(base: Seq<char>, build_path: Seq<char>, a: ArtifactView) -> DownloadItemView {
    DownloadItemView {
        url: artifact_url_spec(base, build_path, a.relative_path),
        file_name: a.file_name,
    }
}

/// The planned downloads of a whole batch, one per artifact, in order.
pub open spec fn download_plan_spec(
    base: Seq<char>,
    build_path: Seq<char>,
    arts: Seq<ArtifactView>,
) -> Seq<DownloadItemView> {
    arts.map_values(|a: ArtifactView| plan_item(base, build_path, a))
}

/// The full download URL of `artifact` under the given base URL and
/// build path.
pub fn artifact_url(base: &str, build_path: &str, artifact: &Artifact) -> (r: String)
    ensures
        r@ == artifact_url_spec(base@, build_path@, artifact.relative_path@),
{
    let mut out = String::new();
    out.append(base);
    out.append(build_path);
    out.append("/artifact/");
    out.append(artifact.relative_path.as_str());
    proof {
        assert(out@ =~= artifact_url_spec(base@, build_path@, artifact.relative_path@));
    }
    out
}

/// Plans the download of every resolved artifact: one item per artifact,
/// in the artifacts' order, regardless of how any attempt will fare.
pub fn download_plan(base: &str, build_path: &str, artifacts: &Vec<Artifact>) -> (r: Vec<
    DownloadItem,
>)
    ensures
        r.deep_view() == download_plan_spec(base@, build_path@, artifacts.deep_view()),
{
    let ghost av = artifacts.deep_view();
    let mut out: Vec<DownloadItem> = Vec::new();
    let mut i: usize = 0;
    while i < artifacts.len()
        invariant
            i <= artifacts.len(),
            av == artifacts.deep_view(),
            out.deep_view() == download_plan_spec(base@, build_path@, av.take(i as int)),
        decreases artifacts.len() - i,
    {
        let artifact = &artifacts[i];
        proof {
            assert(av[i as int] == artifact.deep_view());
        }
        let url = artifact_url(base, build_path, artifact);
        let ghost pre = out.deep_view();
        out.push(DownloadItem { url, file_name: artifact.file_name.clone() });
        proof {
            assert(out.deep_view() =~= pre.push(plan_item(base@, build_path@, av[i as int])));
            assert(out.deep_view() =~= download_plan_spec(base@, build_path@, av.take(i as int + 1)));
        }
        i = i + 1;
    }
    proof {
        assert(av.take(av.len() as int) =~= av);
    }
    out
}

/// How one attempted download ended.
pub enum DownloadOutcome {
    /// The artifact was fetched and written.
    Written,
    /// The request failed; the message says how.
    FetchFailed { message: String },
    /// The file could not be written; the message says how.
    WriteFailed { message: String },
}

/// Mathematical image of a [`DownloadOutcome`].
pub enum DownloadOutcomeView {
    Written,
    FetchFailed { message: Seq<char> },
    WriteFailed { message: Seq<char> },
}

impl DeepView for DownloadOutcome {
    type V = DownloadOutcomeView;

    open spec fn deep_view(&self) -> DownloadOutcomeView {
        match self {
            DownloadOutcome::Written => DownloadOutcomeView::Written,
            DownloadOutcome::FetchFailed { message } => DownloadOutcomeView::FetchFailed {
                message: message@,
            },
            DownloadOutcome::WriteFailed { message } => DownloadOutcomeView::WriteFailed {
                message: message@,
            },
        }
    }
}

impl DownloadOutcome {
    /// A copy of this outcome.
    pub fn duplicate(&self) -> (r: DownloadOutcome)
        ensures
            r.deep_view() == self.deep_view(),
    {
        match self {
            DownloadOutcome::Written => DownloadOutcome::Written,
            DownloadOutcome::FetchFailed { message } => DownloadOutcome::FetchFailed {
                message: message.clone(),
            },
            DownloadOutcome::WriteFailed { message } => DownloadOutcome::WriteFailed {
                message: message.clone(),
            },
        }
    }
}

/// Whether an outcome is a failure.
pub open spec fn is_failure(o: DownloadOutcomeView) -> bool {
    !(o is Written)
}

/// The failures among a batch's outcomes, in order.
pub open spec fn failures_of(outcomes: Seq<DownloadOutcomeView>) -> Seq<DownloadOutcomeView> {
    outcomes.filter(|o: DownloadOutcomeView| is_failure(o))
}

/// Collects the failures of an attempted batch, in order, for one report
/// after the batch completes. Failures are collected, never
/// short-circuited: each outcome is judged on its own.
pub fn collect_failures(outcomes: &Vec<DownloadOutcome>) -> (r: Vec<DownloadOutcome>)
    ensures
        r.deep_view() == failures_of(outcomes.deep_view()),
{
    let ghost ov = outcomes.deep_view();
    let ghost pred = |o: DownloadOutcomeView| is_failure(o);
    let mut out: Vec<DownloadOutcome> = Vec::new();
    let mut i: usize = 0;
    proof {
        reveal(Seq::filter);
        assert(out.deep_view() =~= ov.take(0).filter(pred));
    }
    while i < outcomes.len()
        invariant
            i <= outcomes.len(),
            ov == outcomes.deep_view(),
            pred == (|o: DownloadOutcomeView| is_failure(o)),
            out.deep_view() == ov.take(i as int).filter(pred),
        decreases outcomes.len() - i,
    {
        let outcome = &outcomes[i];
        proof {
            assert(ov[i as int] == outcome.deep_view());
        }
        let failed = match outcome {
            DownloadOutcome::Written => false,
            DownloadOutcome::FetchFailed { message: _ } => true,
            DownloadOutcome::WriteFailed { message: _ } => true,
        };
        if failed {
            let ghost pre = out.deep_view();
            out.push(outcome.duplicate());
            proof {
                assert(out.deep_view() =~= pre.push(outcome.deep_view()));
            }
        }
        proof {
            reveal(Seq::filter);
            assert(ov.take(i as int + 1).drop_last() =~= ov.take(i as int));
            assert(ov.take(i as int + 1).last() == ov[i as int]);
            assert(out.deep_view() =~= ov.take(i as int + 1).filter(pred));
        }
        i = i + 1;
    }
    proof {
        assert(ov.take(ov.len() as int) =~= ov);
    }
    out
}

/// A line of input with its trailing newline (and carriage return, if
/// any) removed.
pub open spec fn trimmed_line(s: Seq<char>) -> Seq<char> {
    let no_newline = if s.len() > 0 && s.last() == '\n' {
        s.drop_last()
    } else {
        s
    };
    if no_newline.len() > 0 && no_newline.last() == '\r' {
        no_newline.drop_last()
    } else {
        no_newline
    }
}

/// Whether a line read from the user assents to the download prompt:
/// exactly `y`, once the line break is stripped.
pub fn is_affirmative(answer: &str) -> (r: bool)
    ensures
        r == (trimmed_line(answer@) == "y"@),
{
    let len = answer.unicode_len();
    let end_nl = if len > 0 && answer.get_char(len - 1) == '\n' {
        len - 1
    } else {
        len
    };
    let end = if end_nl > 0 && answer.get_char(end_nl - 1) == '\r' {
        end_nl - 1
    } else {
        end_nl
    };
    let trimmed = answer.substring_char(0, end);
    proof {
        assert(answer@.take(end_nl as int) =~= (if answer@.len() > 0 && answer@.last() == '\n' {
            answer@.drop_last()
        } else {
            answer@
        }));
        assert(trimmed@ =~= trimmed_line(answer@));
    }
    str_eq(trimmed, "y")
}

} // verus!
