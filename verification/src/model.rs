//! Data model of the CI server tree: pipelines containing jobs containing
//! builds, artifacts of a build, and the flattened match triples that the
//! filter produces.

use vstd::prelude::*;

verus! {

/// One execution of a job, identified by its server-assigned number.
pub struct Build {
    /// True while the build is still running.
    pub building: bool,
    /// Server-assigned build number; not guaranteed contiguous.
    pub number: u32,
    /// Address of the build on the server.
    pub url: String,
}

/// A named, repeatable unit of work inside a pipeline.
pub struct Job {
    pub name: String,
    pub url: String,
    /// Builds in the order the server reported them.
    pub builds: Vec<Build>,
}

/// Top-level named grouping of jobs on the CI server.
pub struct Pipeline {
    pub name: String,
    /// Jobs in the order the server reported them.
    pub jobs: Vec<Job>,
}

/// A file produced by a build, retrievable under the build's path.
pub struct Artifact {
    /// File name, extension included.
    pub file_name: String,
    /// Path of the file relative to the build's artifact root.
    pub relative_path: String,
}

/// The flattened (pipeline, job, build) triple surviving all three
/// hierarchy filters. Holds copies, not references: the fetched tree may be
/// discarded after filtering.
pub struct MatchResult {
    pub pipeline_name: String,
    pub job_name: String,
    pub build_number: u32,
}

/// Mathematical image of a [`Build`].
pub struct BuildView {
    pub building: bool,
    pub number: u32,
    pub url: Seq<char>,
}

/// Mathematical image of a [`Job`].
pub struct JobView {
    pub name: Seq<char>,
    pub url: Seq<char>,
    pub builds: Seq<BuildView>,
}

/// Mathematical image of a [`Pipeline`].
pub struct PipelineView {
    pub name: Seq<char>,
    pub jobs: Seq<JobView>,
}

/// Mathematical image of an [`Artifact`].
pub struct ArtifactView {
    pub file_name: Seq<char>,
    pub relative_path: Seq<char>,
}

/// Mathematical image of a [`MatchResult`].
pub struct MatchView {
    pub pipeline_name: Seq<char>,
    pub job_name: Seq<char>,
    pub build_number: u32,
}

impl Artifact {
    /// A copy of this artifact record.
    pub fn duplicate(&self) -> (r: Artifact)
        ensures
            r.deep_view() == self.deep_view(),
    {
        Artifact { file_name: self.file_name.clone(), relative_path: self.relative_path.clone() }
    }
}

impl DeepView for Build {
    type V = BuildView;

    open spec fn deep_view(&self) -> BuildView {
        BuildView { building: self.building, number: self.number, url: self.url@ }
    }
}

impl DeepView for Job {
    type V = JobView;

    open spec fn deep_view(&self) -> JobView {
        JobView { name: self.name@, url: self.url@, builds: self.builds.deep_view() }
    }
}

impl DeepView for Pipeline {
    type V = PipelineView;

    open spec fn deep_view(&self) -> PipelineView {
        PipelineView { name: self.name@, jobs: self.jobs.deep_view() }
    }
}

impl DeepView for Artifact {
    type V = ArtifactView;

    open spec fn deep_view(&self) -> ArtifactView {
        ArtifactView { file_name: self.file_name@, relative_path: self.relative_path@ }
    }
}

impl DeepView for MatchResult {
    type V = MatchView;

    open spec fn deep_view(&self) -> MatchView {
        MatchView {
            pipeline_name: self.pipeline_name@,
            job_name: self.job_name@,
            build_number: self.build_number,
        }
    }
}

} // verus!
