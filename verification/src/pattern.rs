//! Compiled filter patterns.
//!
//! The four user filters (pipeline, job, build, artifact) are regular
//! expressions with *search* semantics: a pattern matches a string when a
//! match is found anywhere in it, so `"12"` matches build number `125`.
//! Compilation and matching are done by the `regex` crate; what a pattern
//! matches is named by the uninterpreted function [`regex_matches`], and
//! every contract of the library speaks through that name.

use vstd::prelude::*;

verus! {

/// Whether `pattern` is a valid regular expression, i.e. whether
/// compiling it succeeds. Compilation is a function of the pattern text
/// alone.
pub uninterp spec fn regex_compiles(pattern: Seq<char>) -> bool;

/// Whether the regular expression `pattern` finds a match anywhere in
/// `text`. The result is a function of the pattern and the text alone.
pub uninterp spec fn regex_matches(pattern: Seq<char>, text: Seq<char>) -> bool;

/// The text of the default pattern, `.*`.
pub open spec fn match_all_text() -> Seq<char> {
    seq!['.', '*']
}

/// True when `p` finds a match in every string.
pub open spec fn matches_everything(p: Seq<char>) -> bool {
    forall|t: Seq<char>| regex_matches(p, t)
}

#[verifier::external_type_specification]
#[verifier::external_body]
pub struct ExRegex(regex::Regex);

/// A compiled filter pattern.
///
/// The view of a `Pattern` is the pattern text it was compiled from; the
/// compiled expression is never built from anything else (`compile` and
/// `match_all` are the only constructors).
pub struct Pattern {
    re: regex::Regex,
    text: Ghost<Seq<char>>,
}

impl View for Pattern {
    type V = Seq<char>;

    closed spec fn view(&self) -> Seq<char> {
        self.text@
    }
}

/// Relies on `regex::Regex::new`: it returns `Ok` exactly for the valid
/// patterns, deterministically in the pattern text. The second clause
/// records that the pattern `.*` compiles and finds a match (the empty
/// one) in every haystack.
#[verifier::external_body]
fn regex_new(pattern: &str) -> (r: Option<regex::Regex>)
    ensures
        r is Some <==> regex_compiles(pattern@),
        r is Some ==> (pattern@ == match_all_text() ==> matches_everything(pattern@)),
        r is None ==> pattern@ != match_all_text(),
{
    regex::Regex::new(pattern).ok()
}

/// Relies on `regex::Regex::is_match`: it reports whether a match exists
/// anywhere in the haystack, as a function of the compiled pattern and the
/// haystack alone. `p.re` is always the expression compiled from `p@`.
#[verifier::external_body]
fn regex_is_match(p: &Pattern, text: &str) -> (r: bool)
    ensures
        r == regex_matches(p@, text@),
{
    p.re.is_match(text)
}

impl Pattern {
    /// Compiles `pattern`; `None` exactly when it is not a valid regular
    /// expression.
    pub fn compile(pattern: &str) -> (r: Option<Pattern>)
        ensures
            r is Some <==> regex_compiles(pattern@),
            r matches Some(p) ==> p@ == pattern@,
    {
        match regex_new(pattern) {
            Some(re) => Some(Pattern { re, text: Ghost(pattern@) }),
            None => None,
        }
    }

    /// The default pattern used when the user supplies no filter: `.*`,
    /// which matches every string.
    pub fn match_all() -> (r: Pattern)
        ensures
            matches_everything(r@),
    {
        let lit = ".*";
        proof {
            reveal_strlit(".*");
            assert(lit@ =~= match_all_text());
        }
        match regex_new(lit) {
            Some(re) => Pattern { re, text: Ghost(lit@) },
            None => vstd::pervasive::unreached(),
        }
    }

    /// Whether this pattern finds a match anywhere in `text`.
    pub fn is_match(&self, text: &str) -> (r: bool)
        ensures
            r == regex_matches(self@, text@),
    {
        regex_is_match(self, text)
    }
}

/// The four filter levels, used to report which filter's pattern was
/// invalid.
#[derive(Clone, Copy, PartialEq, Eq, Structural, Debug)]
pub enum FilterLevel {
    Pipeline,
    Job,
    Build,
    Artifact,
}

/// A supplied pattern did not compile; `level` says which filter it was
/// given for.
#[derive(Clone, Copy, PartialEq, Eq, Structural, Debug)]
pub struct InvalidPattern {
    pub level: FilterLevel,
}

/// What a compiled filter promises about an optional user pattern: the
/// supplied text when there was one, and match-everything otherwise.
pub open spec fn pattern_for(p: Seq<char>, supplied: Option<Seq<char>>) -> bool {
    match supplied {
        Some(s) => p == s,
        None => matches_everything(p),
    }
}

/// Whether an optional user pattern is acceptable: absent, or valid.
pub open spec fn opt_compiles(supplied: Option<Seq<char>>) -> bool {
    match supplied {
        Some(s) => regex_compiles(s),
        None => true,
    }
}

/// The four compiled filters of one run.
pub struct Filters {
    pub pipeline: Pattern,
    pub job: Pattern,
    pub build: Pattern,
    pub artifact: Pattern,
    /// True when the user asked for artifacts at all.
    pub artifact_requested: bool,
}

/// Compiles an optional user pattern, falling back to the
/// match-everything default when none was supplied.
pub fn compile_or_default(pattern: &Option<String>) -> (r: Option<Pattern>)
    ensures
        r is Some <==> opt_compiles(pattern.deep_view()),
        r matches Some(p) ==> pattern_for(p@, pattern.deep_view()),
{
    match pattern {
        Some(s) => Pattern::compile(s.as_str()),
        None => Some(Pattern::match_all()),
    }
}

/// Compiles the four user filters in a fixed order: pipeline, job, build,
/// artifact. Fails on the first invalid pattern, naming its level; this
/// happens before any network activity.
pub fn compile_filters(
    pipeline: &Option<String>,
    job: &Option<String>,
    build: &Option<String>,
    artifact: &Option<String>,
) -> (r: Result<Filters, InvalidPattern>)
    ensures
        r is Ok <==> opt_compiles(pipeline.deep_view()) && opt_compiles(job.deep_view())
            && opt_compiles(build.deep_view()) && opt_compiles(artifact.deep_view()),
        r matches Ok(f) ==> {
            &&& pattern_for(f.pipeline@, pipeline.deep_view())
            &&& pattern_for(f.job@, job.deep_view())
            &&& pattern_for(f.build@, build.deep_view())
            &&& pattern_for(f.artifact@, artifact.deep_view())
            &&& f.artifact_requested == (artifact is Some)
        },
        r matches Err(e) ==> match e.level {
            FilterLevel::Pipeline => !opt_compiles(pipeline.deep_view()),
            FilterLevel::Job => opt_compiles(pipeline.deep_view()) && !opt_compiles(
                job.deep_view(),
            ),
            FilterLevel::Build => opt_compiles(pipeline.deep_view()) && opt_compiles(
                job.deep_view(),
            ) && !opt_compiles(build.deep_view()),
            FilterLevel::Artifact => opt_compiles(pipeline.deep_view()) && opt_compiles(
                job.deep_view(),
            ) && opt_compiles(build.deep_view()) && !opt_compiles(artifact.deep_view()),
        },
{
    let pipeline_pat = match compile_or_default(pipeline) {
        Some(p) => p,
        None => {
            return Err(InvalidPattern { level: FilterLevel::Pipeline });
        },
    };
    let job_pat = match compile_or_default(job) {
        Some(p) => p,
        None => {
            return Err(InvalidPattern { level: FilterLevel::Job });
        },
    };
    let build_pat = match compile_or_default(build) {
        Some(p) => p,
        None => {
            return Err(InvalidPattern { level: FilterLevel::Build });
        },
    };
    let artifact_requested = artifact.is_some();
    let artifact_pat = match compile_or_default(artifact) {
        Some(p) => p,
        None => {
            return Err(InvalidPattern { level: FilterLevel::Artifact });
        },
    };
    Ok(
        Filters {
            pipeline: pipeline_pat,
            job: job_pat,
            build: build_pat,
            artifact: artifact_pat,
            artifact_requested,
        },
    )
}

} // verus!
