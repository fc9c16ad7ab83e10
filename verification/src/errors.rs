//! The errors a release run can end with.

use vstd::prelude::*;
use vstd::string::*;

verus! {

/// Why a release run stopped. Per-item failures that are recovered — an
/// unreadable commit during the walk, one failed pull-request lookup — are
/// not errors and do not appear here.
#[derive(Clone, Copy, PartialEq, Eq, Structural, Debug)]
pub enum ReleaseError {
    /// The given path does not open as a repository.
    RepositoryNotFound,
    /// A fetch was requested but the repository has no remote.
    NoRemote,
    /// The repository has no resolvable branch head.
    MissingHead,
    /// The name that won the version scan is not an annotated tag.
    TagNotAnnotated,
    /// Pull-request enrichment was requested without credentials.
    MissingToken,
    /// The external signer failed; nothing may be reported as created.
    SigningFailed,
}

impl ReleaseError {
    /// The user-facing message for this error.
    pub fn message(&self) -> (r: String)
        ensures
            self is RepositoryNotFound ==> r@ == "Repository not found! Please check the path."@,
            self is NoRemote ==> r@ == "Could not find git remote origin!"@,
            self is MissingHead ==> r@ == "Failed to get HEAD!"@,
            self is TagNotAnnotated ==> r@
                == "The highest version tag is not an annotated tag!"@,
            self is MissingToken ==> r@ == "No GitHub token provided!"@,
            self is SigningFailed ==> r@ == "Failed to create the signed tag"@,
    {
        match self {
            ReleaseError::RepositoryNotFound => String::from_str(
                "Repository not found! Please check the path.",
            ),
            ReleaseError::NoRemote => String::from_str("Could not find git remote origin!"),
            ReleaseError::MissingHead => String::from_str("Failed to get HEAD!"),
            ReleaseError::TagNotAnnotated => String::from_str(
                "The highest version tag is not an annotated tag!",
            ),
            ReleaseError::MissingToken => String::from_str("No GitHub token provided!"),
            ReleaseError::SigningFailed => String::from_str("Failed to create the signed tag"),
        }
    }
}

} // verus!
