//! The decisions a release run makes: whether and when to refresh the
//! repository, whether the user must confirm, and which tag to create.
//! The surrounding program performs the I/O these decisions call for.

use vstd::prelude::*;
use vstd::string::*;

use crate::text::str_eq;
use crate::version::SemanticVersion;
use crate::version::ToVString;
use crate::version::VersionBump;
use crate::version::bump_spec;

verus! {

/// The options of one run.
#[derive(Debug)]
pub struct CliArgs {
    /// Bump the latest version by this component.
    pub bump: Option<VersionBump>,
    /// Override the auto-generated tag.
    pub tag: Option<String>,
    /// Extra suffix for the tag.
    pub suffix: Option<String>,
    /// Use commit ids in the changelog.
    pub use_sha: bool,
    /// Use pull-request markers in the changelog.
    pub use_pr: bool,
    /// Only print the tag command, do not create a tag.
    pub dry_run: bool,
    /// Path to the repository.
    pub path: String,
    /// Skip refreshing tags from the remote.
    pub no_fetch: bool,
    /// Token for the pull-request lookups.
    pub gh_token: Option<String>,
    /// Add additional debug logging.
    pub debug: bool,
}

/// When the repository refresh must be joined. It may only run beside the
/// pull-request enrichment; when nothing else runs concurrently it must be
/// awaited before tags are read, so that the tag data is fresh.
#[derive(Clone, Copy, PartialEq, Eq, Structural, Debug)]
pub enum FetchPlan {
    /// No refresh was requested.
    Skip,
    /// Refresh, and await it before resolving tags.
    AwaitBeforeResolve,
    /// Refresh concurrently with the enrichment; join both before
    /// formatting.
    JoinBeforeFormat,
}

/// Whether the run would create a tag (rather than only report).
pub open spec fn creates_tag_spec(args: CliArgs) -> bool {
    !args.dry_run && (args.bump is Some || args.tag is Some)
}

/// Decides when the repository refresh runs and when it is joined.
pub fn fetch_plan(args: &CliArgs) -> (r: FetchPlan)
    ensures
        args.no_fetch ==> r is Skip,
        !args.no_fetch && !args.use_pr ==> r is AwaitBeforeResolve,
        !args.no_fetch && args.use_pr ==> r is JoinBeforeFormat,
{
    if args.no_fetch {
        FetchPlan::Skip
    } else if args.use_pr {
        FetchPlan::JoinBeforeFormat
    } else {
        FetchPlan::AwaitBeforeResolve
    }
}

/// Whether a branch name is a conventional release branch.
pub fn is_release_branch(name: &str) -> (r: bool)
    ensures
        r == (name@ == "main"@ || name@ == "master"@),
{
    str_eq(name, "main") || str_eq(name, "master")
}

/// Whether the run must stop for an explicit confirmation: only a
/// tag-creating run on an unconventional branch needs one; a dry run or a
/// run with no bump and no tag override never does.
pub fn needs_confirmation(args: &CliArgs, branch_name: &str) -> (r: bool)
    ensures
        r == (!(branch_name@ == "main"@ || branch_name@ == "master"@) && creates_tag_spec(*args)),
{
    if is_release_branch(branch_name) {
        return false;
    }
    if args.dry_run {
        return false;
    }
    args.bump.is_some() || args.tag.is_some()
}

/// What a confirmation answer means: the empty answer and `n`/`no` decline,
/// `y`/`yes` accept, anything else means ask again. The answer is expected
/// lower-cased and trimmed.
pub open spec fn answer_spec(a: Seq<char>) -> Option<bool> {
    if a.len() == 0 || a == "n"@ || a == "no"@ {
        Some(false)
    } else if a == "y"@ || a == "yes"@ {
        Some(true)
    } else {
        None
    }
}

/// Interprets one confirmation answer; the default on empty input is no.
pub fn interpret_answer(answer: &str) -> (r: Option<bool>)
    ensures
        r == answer_spec(answer@),
{
    if answer.is_empty() || str_eq(answer, "n") || str_eq(answer, "no") {
        Some(false)
    } else if str_eq(answer, "y") || str_eq(answer, "yes") {
        Some(true)
    } else {
        None
    }
}

/// Which tag the run produces.
#[derive(Debug)]
pub enum TagDecision {
    /// No bump and no override were requested: only report.
    NoNewTag,
    /// A dry run: print the would-be tag, create nothing.
    DryRun { version: String },
    /// Create a tag under this name.
    Create { version: String },
}

/// The tag name a run asks for: an explicit override wins; otherwise the
/// bumped latest version, written with a `v` prefix.
pub open spec fn new_version_spec(args: CliArgs, latest: SemanticVersion) -> Seq<char> {
    match args.tag {
        Some(t) => t@,
        None => match args.bump {
            Some(b) => bump_spec(latest, b).v_string_spec(),
            None => Seq::empty(),
        },
    }
}

/// Decides which tag the run produces: the overridden name or the bumped
/// version, created only when the run is not dry.
pub fn decide_tag(args: &CliArgs, latest: &SemanticVersion) -> (r: TagDecision)
    requires
        args.tag is None && args.bump is Some ==> (args.bump->Some_0 is Major ==> latest.major
            < u64::MAX) && (args.bump->Some_0 is Minor ==> latest.minor < u64::MAX) && (
        args.bump->Some_0 is Patch ==> latest.patch < u64::MAX),
    ensures
        match r {
            TagDecision::NoNewTag => args.tag is None && args.bump is None,
            TagDecision::DryRun { version } => args.dry_run && (args.tag is Some
                || args.bump is Some) && version@ == new_version_spec(*args, *latest),
            TagDecision::Create { version } => !args.dry_run && (args.tag is Some
                || args.bump is Some) && version@ == new_version_spec(*args, *latest),
        },
{
    let version = if let Some(t) = &args.tag {
        t.clone()
    } else if let Some(b) = args.bump {
        latest.bump(b).to_v_string()
    } else {
        return TagDecision::NoNewTag;
    };
    if args.dry_run {
        TagDecision::DryRun { version }
    } else {
        TagDecision::Create { version }
    }
}

} // verus!
