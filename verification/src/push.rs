//! The tag pusher's decisions: which commit a fork branch stands for, and
//! what the host's answer to the creation of a tag ref means.
use vstd::prelude::*;

verus! {

/// Mathematical value of a [`RefObject`].
pub enum RefObjectView {
    Commit { sha: Seq<char> },
    Tag { sha: Seq<char> },
    Other,
}

/// The object that a ref points to. A branch tip is expected to be a commit
/// or an annotated tag that points to one; every other kind is `Other`.
#[derive(Debug, PartialEq, Eq)]
pub enum RefObject {
    Commit { sha: String },
    Tag { sha: String },
    Other,
}

impl View for RefObject {
    type V = RefObjectView;

    open spec fn view(&self) -> RefObjectView {
        match self {
            RefObject::Commit { sha } => RefObjectView::Commit { sha: sha@ },
            RefObject::Tag { sha } => RefObjectView::Tag { sha: sha@ },
            RefObject::Other => RefObjectView::Other,
        }
    }
}

/// Why a tag was not created on the fork.
#[derive(Clone, Copy, Debug, PartialEq, Eq, Structural)]
pub enum PushError {
    /// The fork branch could not be read.
    BranchUnavailable,
    /// The fork branch points to something that is neither a commit nor a tag.
    InvalidObject,
    /// The fork already has a tag of that name.
    Conflict,
    /// The host refused to create the ref for another reason.
    Rejected,
}

impl PushError {
    /// A conflict leaves the fork in the state that the push was after, so
    /// it is the one error that needs no attention.
    pub open spec fn recoverable(self) -> bool {
        self == PushError::Conflict
    }

    /// Executable form of [`PushError::recoverable`].
    pub fn is_recoverable(&self) -> (yes: bool)
        ensures
            yes == self.recoverable(),
    {
        match self {
            PushError::Conflict => true,
            _ => false,
        }
    }
}

/// The host's answer to the creation of a ref.
#[derive(Clone, Copy, Debug, PartialEq, Eq, Structural)]
pub enum CreateOutcome {
    Created,
    Conflict,
    Failed,
}

/// The commit that a new tag is to point at, given the object at the fork
/// branch's tip.
pub open spec fn target_sha(object: RefObjectView) -> Result<Seq<char>, PushError> {
    match object {
        RefObjectView::Commit { sha } => Ok(sha),
        RefObjectView::Tag { sha } => Ok(sha),
        RefObjectView::Other => Err(PushError::InvalidObject),
    }
}

/// View of the result of [`commit_sha`].
pub open spec fn sha_view(sha: Result<String, PushError>) -> Result<Seq<char>, PushError> {
    match sha {
        Ok(s) => Ok(s@),
        Err(e) => Err(e),
    }
}

/// Extracts the commit from the object at a branch tip: a commit and an
/// annotated tag both give their SHA, any other kind is refused.
pub fn commit_sha(object: RefObject) -> (sha: Result<String, PushError>)
    ensures
        sha_view(sha) == target_sha(object@),
{
    match object {
        RefObject::Commit { sha } => Ok(sha),
        RefObject::Tag { sha } => Ok(sha),
        RefObject::Other => Err(PushError::InvalidObject),
    }
}

/// What the creation of the tag ref amounts to.
pub open spec fn push_verdict(outcome: CreateOutcome) -> Result<(), PushError> {
    match outcome {
        CreateOutcome::Created => Ok(()),
        CreateOutcome::Conflict => Err(PushError::Conflict),
        CreateOutcome::Failed => Err(PushError::Rejected),
    }
}

/// Executable form of [`push_verdict`].
pub fn push_result(outcome: CreateOutcome) -> (result: Result<(), PushError>)
    ensures
        result == push_verdict(outcome),
{
    match outcome {
        CreateOutcome::Created => Ok(()),
        CreateOutcome::Conflict => Err(PushError::Conflict),
        CreateOutcome::Failed => Err(PushError::Rejected),
    }
}

} // verus!
