//! The failure taxonomy of one invocation: which stage failed and what
//! category the failure falls in, together with the mapping from the raw
//! causes that the version-control layer reports to that taxonomy.

use vstd::prelude::*;

verus! {

/// The stage of the pipeline in which a failure was observed.
#[derive(Clone, Copy, Debug, PartialEq, Eq, Structural)]
pub enum Stage {
    /// Fetching the remote branch tip.
    Fetch,
    /// Reading the local branch tip and comparing it.
    Compare,
    /// Merging the fetched tip into the current branch.
    Merge,
}

/// The categories in which every terminal failure falls.
#[derive(Clone, Copy, Debug, PartialEq, Eq, Structural)]
pub enum ErrorKind {
    /// The local repository path is missing or not a repository.
    PathError,
    /// A remote, branch or credential is not configured.
    ConfigError,
    /// The supplied credential was rejected.
    AuthError,
    /// The network transport failed during the fetch.
    NetworkError,
    /// The merge produced a conflicting hunk.
    ConflictError,
    /// HEAD or the fetch marker could not be read or resolved.
    RefError,
}

/// The raw causes that the surrounding version-control calls can report;
/// the unverified boundary translates its library's errors into these.
#[derive(Clone, Copy, Debug, PartialEq, Eq, Structural)]
pub enum FailCause {
    /// The repository could not be opened at the given path.
    RepositoryMissing,
    /// The named remote is not configured in the repository.
    RemoteMissing,
    /// The server rejected the offered credential.
    AuthRejected,
    /// The connection failed or was interrupted.
    TransportFailed,
    /// The repository has no readable HEAD commit.
    HeadMissing,
    /// A reference or fetch marker could not be resolved to a commit.
    RefUnreadable,
    /// The merge found conflicting changes to the same region.
    Conflict,
}

/// A terminal failure: the stage that failed and the category of the cause.
#[derive(Clone, Copy, Debug, PartialEq, Eq, Structural)]
pub struct PullError {
    pub stage: Stage,
    pub kind: ErrorKind,
}

/// The category that each raw cause falls in.
pub open spec fn kind_of_cause(cause: FailCause) -> ErrorKind {
    match cause {
        FailCause::RepositoryMissing => ErrorKind::PathError,
        FailCause::RemoteMissing => ErrorKind::ConfigError,
        FailCause::AuthRejected => ErrorKind::AuthError,
        FailCause::TransportFailed => ErrorKind::NetworkError,
        FailCause::HeadMissing => ErrorKind::RefError,
        FailCause::RefUnreadable => ErrorKind::RefError,
        FailCause::Conflict => ErrorKind::ConflictError,
    }
}

/// Builds the terminal failure for a raw cause observed in a given stage.
pub fn classify(stage: Stage, cause: FailCause) -> (r: PullError)
    ensures
        r.stage == stage,
        r.kind == kind_of_cause(cause),
{
    let kind = match cause {
        FailCause::RepositoryMissing => ErrorKind::PathError,
        FailCause::RemoteMissing => ErrorKind::ConfigError,
        FailCause::AuthRejected => ErrorKind::AuthError,
        FailCause::TransportFailed => ErrorKind::NetworkError,
        FailCause::HeadMissing => ErrorKind::RefError,
        FailCause::RefUnreadable => ErrorKind::RefError,
        FailCause::Conflict => ErrorKind::ConflictError,
    };
    PullError { stage, kind }
}

impl Stage {
    /// A fixed name for the stage, for error reporting.
    pub fn name(&self) -> (r: &'static str)
        ensures
            self is Fetch ==> r@ == "fetch"@,
            self is Compare ==> r@ == "compare"@,
            self is Merge ==> r@ == "merge"@,
    {
        match self {
            Stage::Fetch => "fetch",
            Stage::Compare => "compare",
            Stage::Merge => "merge",
        }
    }
}

impl ErrorKind {
    /// A fixed description of the category, for error reporting.
    pub fn describe(&self) -> (r: &'static str)
        ensures
            self is PathError ==> r@ == "local path is missing or not a repository"@,
            self is ConfigError ==> r@ == "a remote, branch or credential is not configured"@,
            self is AuthError ==> r@ == "the credential was rejected"@,
            self is NetworkError ==> r@ == "the network transport failed"@,
            self is ConflictError ==> r@ == "the merge found conflicting changes"@,
            self is RefError ==> r@ == "a reference could not be read"@,
    {
        match self {
            ErrorKind::PathError => "local path is missing or not a repository",
            ErrorKind::ConfigError => "a remote, branch or credential is not configured",
            ErrorKind::AuthError => "the credential was rejected",
            ErrorKind::NetworkError => "the network transport failed",
            ErrorKind::ConflictError => "the merge found conflicting changes",
            ErrorKind::RefError => "a reference could not be read",
        }
    }
}

} // verus!
