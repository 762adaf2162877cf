//! The synchronisation engine for one repository pair and one poll.
//!
//! A cycle alternates between requests to the source host and decisions on
//! what came back. The engine makes the decisions only: [`Cycle::start`]
//! gives the first request, and [`Cycle::advance`] takes the reply to the
//! request that is outstanding and gives the next request or the outcome of
//! the cycle.
use crate::config::{Entry, EntryView};
use crate::push::{
    commit_sha, push_result, push_verdict, target_sha, CreateOutcome, PushError, RefObject,
    RefObjectView,
};
use crate::state::{State, TagInfo, TagInfoView, TagStateView, RepoKey};
use vstd::prelude::*;
use vstd::string::StringExecFns;

verus! {

/// Mathematical value of a [`Request`].
pub enum RequestView {
    ListTags { owner: Seq<char>, repo: Seq<char>, per_page: u8 },
    Compare { owner: Seq<char>, repo: Seq<char>, base: Seq<char>, head: Seq<char> },
    ReadBranchRef { owner: Seq<char>, repo: Seq<char>, branch: Seq<char> },
    CreateTagRef { owner: Seq<char>, repo: Seq<char>, tag_name: Seq<char>, sha: Seq<char> },
}

/// A call that the engine asks its caller to make on the source host.
#[derive(Debug, PartialEq, Eq)]
pub enum Request {
    /// List the most recent tags of a repository, most recent first.
    ListTags { owner: String, repo: String, per_page: u8 },
    /// Compare `head` against `base` in a repository.
    Compare { owner: String, repo: String, base: String, head: String },
    /// Read the ref of a branch.
    ReadBranchRef { owner: String, repo: String, branch: String },
    /// Create a tag ref that points at `sha`.
    CreateTagRef { owner: String, repo: String, tag_name: String, sha: String },
}

impl View for Request {
    type V = RequestView;

    open spec fn view(&self) -> RequestView {
        match self {
            Request::ListTags { owner, repo, per_page } => RequestView::ListTags {
                owner: owner@,
                repo: repo@,
                per_page: *per_page,
            },
            Request::Compare { owner, repo, base, head } => RequestView::Compare {
                owner: owner@,
                repo: repo@,
                base: base@,
                head: head@,
            },
            Request::ReadBranchRef { owner, repo, branch } => RequestView::ReadBranchRef {
                owner: owner@,
                repo: repo@,
                branch: branch@,
            },
            Request::CreateTagRef { owner, repo, tag_name, sha } => RequestView::CreateTagRef {
                owner: owner@,
                repo: repo@,
                tag_name: tag_name@,
                sha: sha@,
            },
        }
    }
}

/// How a cycle ended.
#[derive(Clone, Copy, Debug, PartialEq, Eq, Structural)]
pub enum Outcome {
    /// The tags of the upstream repository could not be listed.
    FetchFailed,
    /// The upstream repository has no tag.
    NoTags,
    /// The repository was seen for the first time: its tag is the baseline.
    Baseline,
    /// The latest tag is the one that was recorded before.
    Unchanged,
    /// The comparison of fork and upstream could not be made.
    FreshnessUnknown,
    /// The fork is behind upstream and gets no tag.
    ForkBehind,
    /// The tag was created on the fork.
    Pushed,
    /// The fork had the tag already.
    AlreadyPresent,
    /// The tag could not be created on the fork.
    PushFailed(PushError),
    /// A reply came that answers no outstanding request.
    OutOfTurn,
}

impl Outcome {
    /// The outcomes after which the fork is known to carry the tag.
    pub open spec fn tag_on_fork(self) -> bool {
        self == Outcome::Pushed || self == Outcome::AlreadyPresent
    }

    /// The outcomes that report trouble with this pair. None of them stops
    /// the pass: the next pair is processed whatever the outcome.
    pub open spec fn failure(self) -> bool {
        match self {
            Outcome::FetchFailed => true,
            Outcome::NoTags => true,
            Outcome::FreshnessUnknown => true,
            Outcome::PushFailed(_) => true,
            Outcome::OutOfTurn => true,
            _ => false,
        }
    }

    /// Executable form of [`Outcome::failure`].
    pub fn is_failure(&self) -> (yes: bool)
        ensures
            yes == self.failure(),
    {
        match self {
            Outcome::FetchFailed => true,
            Outcome::NoTags => true,
            Outcome::FreshnessUnknown => true,
            Outcome::PushFailed(_) => true,
            Outcome::OutOfTurn => true,
            _ => false,
        }
    }
}

/// Mathematical value of a [`Step`].
pub enum StepView {
    Call(RequestView),
    Stop(Outcome),
}

/// What the caller does next: make a call and come back with the reply, or
/// stop, the cycle having ended.
#[derive(Debug, PartialEq, Eq)]
pub enum Step {
    Call(Request),
    Stop(Outcome),
}

impl View for Step {
    type V = StepView;

    open spec fn view(&self) -> StepView {
        match self {
            Step::Call(request) => StepView::Call(request@),
            Step::Stop(outcome) => StepView::Stop(*outcome),
        }
    }
}

/// Mathematical value of a [`Reply`].
pub enum ReplyView {
    Tags(Seq<TagInfoView>),
    Comparison { behind_by: int, ahead_by: int },
    BranchRef(RefObjectView),
    RefCreated(CreateOutcome),
    Failed,
}

/// What came back from the call that the engine asked for.
#[derive(Debug)]
pub enum Reply {
    /// The tags that were listed, most recent first.
    Tags(Vec<TagInfo>),
    /// By how many commits the head is behind and ahead of the base.
    Comparison { behind_by: i64, ahead_by: i64 },
    /// The object that the branch ref points to.
    BranchRef(RefObject),
    /// The host's answer to the creation of the tag ref.
    RefCreated(CreateOutcome),
    /// The call did not complete.
    Failed,
}

/// Views of a sequence of tags, in the same order.
pub open spec fn tag_views(tags: Seq<TagInfo>) -> Seq<TagInfoView> {
    tags.map_values(|t: TagInfo| t@)
}

impl View for Reply {
    type V = ReplyView;

    open spec fn view(&self) -> ReplyView {
        match self {
            Reply::Tags(tags) => ReplyView::Tags(tag_views(tags@)),
            Reply::Comparison { behind_by, ahead_by } => ReplyView::Comparison {
                behind_by: *behind_by as int,
                ahead_by: *ahead_by as int,
            },
            Reply::BranchRef(object) => ReplyView::BranchRef(object@),
            Reply::RefCreated(outcome) => ReplyView::RefCreated(*outcome),
            Reply::Failed => ReplyView::Failed,
        }
    }
}

/// Mathematical value of a [`Phase`].
pub enum PhaseView {
    Fetch,
    Freshness { tag_name: Seq<char> },
    Resolve { tag_name: Seq<char> },
    Create,
    Done,
}

/// Where a cycle stands: which reply it waits for.
#[derive(Debug, PartialEq, Eq)]
pub enum Phase {
    /// Waiting for the upstream tags.
    Fetch,
    /// A new tag was seen; waiting for the comparison of fork and upstream.
    Freshness { tag_name: String },
    /// The fork is fresh; waiting for the ref of the fork branch.
    Resolve { tag_name: String },
    /// Waiting for the host's answer to the creation of the tag ref.
    Create,
    /// The cycle has ended.
    Done,
}

impl View for Phase {
    type V = PhaseView;

    open spec fn view(&self) -> PhaseView {
        match self {
            Phase::Fetch => PhaseView::Fetch,
            Phase::Freshness { tag_name } => PhaseView::Freshness { tag_name: tag_name@ },
            Phase::Resolve { tag_name } => PhaseView::Resolve { tag_name: tag_name@ },
            Phase::Create => PhaseView::Create,
            Phase::Done => PhaseView::Done,
        }
    }
}

/// A fork is fresh when it is behind upstream by no commit at all. Commits
/// that only the fork has do not count against it.
pub open spec fn fresh(behind_by: int) -> bool {
    behind_by == 0
}

/// Executable form of [`fresh`].
pub fn is_fork_fresh(behind_by: i64) -> (yes: bool)
    ensures
        yes == fresh(behind_by as int),
{
    behind_by == 0
}

/// The head of the comparison: the fork's owner, repository and branch,
/// joined by colons.
pub open spec fn compare_head(entry: EntryView) -> Seq<char> {
    entry.fork_owner + seq![':'] + entry.fork_repo + seq![':'] + entry.fork_branch
}

/// The key under which the tags of an entry's upstream are remembered.
pub open spec fn upstream_key(entry: EntryView) -> RepoKey {
    (entry.upstream_owner, entry.upstream_repo)
}

/// The request that opens a cycle: the single most recent upstream tag.
pub open spec fn list_request(entry: EntryView) -> RequestView {
    RequestView::ListTags { owner: entry.upstream_owner, repo: entry.upstream_repo, per_page: 1 }
}

/// The request that asks how far the fork branch is behind upstream.
pub open spec fn compare_request(entry: EntryView) -> RequestView {
    RequestView::Compare {
        owner: entry.upstream_owner,
        repo: entry.upstream_repo,
        base: entry.upstream_branch,
        head: compare_head(entry),
    }
}

/// The request that reads the tip of the fork branch.
pub open spec fn branch_request(entry: EntryView) -> RequestView {
    RequestView::ReadBranchRef {
        owner: entry.fork_owner,
        repo: entry.fork_repo,
        branch: entry.fork_branch,
    }
}

/// The request that creates the tag on the fork.
pub open spec fn create_request(entry: EntryView, tag_name: Seq<char>, sha: Seq<char>) -> RequestView {
    RequestView::CreateTagRef { owner: entry.fork_owner, repo: entry.fork_repo, tag_name, sha }
}

/// How a cycle ends on the result of a push: a tag that was created and a
/// tag that was there already both leave the fork with the tag; every other
/// error is a failed push.
pub open spec fn push_outcome(result: Result<(), PushError>) -> Outcome {
    match result {
        Ok(()) => Outcome::Pushed,
        Err(error) => if error.recoverable() {
            Outcome::AlreadyPresent
        } else {
            Outcome::PushFailed(error)
        },
    }
}

/// Executable form of [`push_outcome`].
pub fn outcome_of_push(result: Result<(), PushError>) -> (outcome: Outcome)
    ensures
        outcome == push_outcome(result),
{
    match result {
        Ok(()) => Outcome::Pushed,
        Err(error) => if error.is_recoverable() {
            Outcome::AlreadyPresent
        } else {
            Outcome::PushFailed(error)
        },
    }
}

/// The answer that ends a cycle out of turn.
pub open spec fn out_of_turn() -> (PhaseView, StepView) {
    (PhaseView::Done, StepView::Stop(Outcome::OutOfTurn))
}

/// The transition function of a cycle: the phase that follows `phase` and
/// the step to take when `reply` arrives, for the pair `entry` whose upstream
/// was remembered as `before` when the reply arrived.
pub open spec fn next(phase: PhaseView, entry: EntryView, before: TagStateView, reply: ReplyView) -> (
    PhaseView,
    StepView,
) {
    match phase {
        PhaseView::Fetch => match reply {
            ReplyView::Tags(tags) => if tags.len() == 0 {
                (PhaseView::Done, StepView::Stop(Outcome::NoTags))
            } else if before.verdict(tags[0]).is_first_observation {
                (PhaseView::Done, StepView::Stop(Outcome::Baseline))
            } else if !before.verdict(tags[0]).changed {
                (PhaseView::Done, StepView::Stop(Outcome::Unchanged))
            } else {
                (
                    PhaseView::Freshness { tag_name: tags[0].name },
                    StepView::Call(compare_request(entry)),
                )
            },
            ReplyView::Failed => (PhaseView::Done, StepView::Stop(Outcome::FetchFailed)),
            _ => out_of_turn(),
        },
        PhaseView::Freshness { tag_name } => match reply {
            ReplyView::Comparison { behind_by, ahead_by } => if fresh(behind_by) {
                (PhaseView::Resolve { tag_name }, StepView::Call(branch_request(entry)))
            } else {
                (PhaseView::Done, StepView::Stop(Outcome::ForkBehind))
            },
            ReplyView::Failed => (PhaseView::Done, StepView::Stop(Outcome::FreshnessUnknown)),
            _ => out_of_turn(),
        },
        PhaseView::Resolve { tag_name } => match reply {
            ReplyView::BranchRef(object) => match target_sha(object) {
                Ok(sha) => (PhaseView::Create, StepView::Call(create_request(entry, tag_name, sha))),
                Err(error) => (PhaseView::Done, StepView::Stop(Outcome::PushFailed(error))),
            },
            ReplyView::Failed => (
                PhaseView::Done,
                StepView::Stop(Outcome::PushFailed(PushError::BranchUnavailable)),
            ),
            _ => out_of_turn(),
        },
        PhaseView::Create => match reply {
            ReplyView::RefCreated(outcome) => (
                PhaseView::Done,
                StepView::Stop(push_outcome(push_verdict(outcome))),
            ),
            ReplyView::Failed => (
                PhaseView::Done,
                StepView::Stop(Outcome::PushFailed(PushError::Rejected)),
            ),
            _ => out_of_turn(),
        },
        PhaseView::Done => out_of_turn(),
    }
}

/// Whether `reply` in `phase` is an observation of a tag, which is the one
/// event that changes what is remembered.
pub open spec fn observes(phase: PhaseView, reply: ReplyView) -> bool {
    phase is Fetch && (reply matches ReplyView::Tags(tags) && tags.len() > 0)
}

/// What is remembered after `reply` arrived in `phase`: an observed tag is
/// shifted into the memory of the entry's upstream, whether or not it is new;
/// nothing else changes anything.
pub open spec fn store_after(
    phase: PhaseView,
    entry: EntryView,
    store: Map<RepoKey, TagStateView>,
    before: TagStateView,
    reply: ReplyView,
) -> Map<RepoKey, TagStateView> {
    if observes(phase, reply) {
        store.insert(upstream_key(entry), before.shifted(reply->Tags_0[0]))
    } else {
        store
    }
}

/// One poll of one repository pair.
#[derive(Debug)]
pub struct Cycle {
    pub phase: Phase,
}

impl Cycle {
    /// Opens a cycle for `entry`: the first thing to do is to list the most
    /// recent upstream tag.
    pub fn start(entry: &Entry) -> (opened: (Cycle, Request))
        ensures
            opened.0.phase@ == PhaseView::Fetch,
            opened.1@ == list_request(entry@),
    {
        (
            Cycle { phase: Phase::Fetch },
            Request::ListTags {
                owner: entry.upstream_owner.clone(),
                repo: entry.upstream_repo.clone(),
                per_page: 1,
            },
        )
    }

    /// Whether the cycle has ended.
    pub fn is_done(&self) -> (yes: bool)
        ensures
            yes == (self.phase@ is Done),
    {
        match &self.phase {
            Phase::Done => true,
            _ => false,
        }
    }

    /// Takes the reply to the outstanding request and decides what follows,
    /// as [`next`] says. An observed tag is recorded in `state` before
    /// anything is decided; no other reply touches `state`.
    pub fn advance(self, entry: &Entry, state: &mut State, reply: Reply) -> (moved: (Cycle, Step))
        requires
            old(state).wf(),
        ensures
            final(state).wf(),
            (moved.0.phase@, moved.1@) == next(
                self.phase@,
                entry@,
                old(state).remembered(upstream_key(entry@)),
                reply@,
            ),
            final(state)@ == store_after(
                self.phase@,
                entry@,
                old(state)@,
                old(state).remembered(upstream_key(entry@)),
                reply@,
            ),
    {
        match (self.phase, reply) {
            (Phase::Fetch, Reply::Tags(tags)) => {
                if tags.len() == 0 {
                    return (Cycle { phase: Phase::Done }, Step::Stop(Outcome::NoTags));
                }
                let tag = tags[0].clone();
                let tag_name = tag.name.clone();
                assert(tag_views(tags@)[0] == tag@);
                let seen = state.repo_mut(&entry.upstream_owner, &entry.upstream_repo).observe(tag);
                if seen.is_first_observation {
                    (Cycle { phase: Phase::Done }, Step::Stop(Outcome::Baseline))
                } else if !seen.changed {
                    (Cycle { phase: Phase::Done }, Step::Stop(Outcome::Unchanged))
                } else {
                    (Cycle { phase: Phase::Freshness { tag_name } }, Step::Call(compare(entry)))
                }
            },
            (Phase::Fetch, Reply::Failed) => (
                Cycle { phase: Phase::Done },
                Step::Stop(Outcome::FetchFailed),
            ),
            (Phase::Freshness { tag_name }, Reply::Comparison { behind_by, ahead_by }) => {
                if is_fork_fresh(behind_by) {
                    (
                        Cycle { phase: Phase::Resolve { tag_name } },
                        Step::Call(
                            Request::ReadBranchRef {
                                owner: entry.fork_owner.clone(),
                                repo: entry.fork_repo.clone(),
                                branch: entry.fork_branch.clone(),
                            },
                        ),
                    )
                } else {
                    (Cycle { phase: Phase::Done }, Step::Stop(Outcome::ForkBehind))
                }
            },
            (Phase::Freshness { tag_name }, Reply::Failed) => (
                Cycle { phase: Phase::Done },
                Step::Stop(Outcome::FreshnessUnknown),
            ),
            (Phase::Resolve { tag_name }, Reply::BranchRef(object)) => match commit_sha(object) {
                Ok(sha) => (
                    Cycle { phase: Phase::Create },
                    Step::Call(
                        Request::CreateTagRef {
                            owner: entry.fork_owner.clone(),
                            repo: entry.fork_repo.clone(),
                            tag_name,
                            sha,
                        },
                    ),
                ),
                Err(error) => (Cycle { phase: Phase::Done }, Step::Stop(Outcome::PushFailed(error))),
            },
            (Phase::Resolve { tag_name }, Reply::Failed) => (
                Cycle { phase: Phase::Done },
                Step::Stop(Outcome::PushFailed(PushError::BranchUnavailable)),
            ),
            (Phase::Create, Reply::RefCreated(outcome)) => (
                Cycle { phase: Phase::Done },
                Step::Stop(outcome_of_push(push_result(outcome))),
            ),
            (Phase::Create, Reply::Failed) => (
                Cycle { phase: Phase::Done },
                Step::Stop(Outcome::PushFailed(PushError::Rejected)),
            ),
            _ => (Cycle { phase: Phase::Done }, Step::Stop(Outcome::OutOfTurn)),
        }
    }
}

/// Builds the comparison request of `entry`.
pub fn compare(entry: &Entry) -> (request: Request)
    ensures
        request@ == compare_request(entry@),
{
    proof {
        reveal_strlit(":");
    }
    assert(":"@ =~= seq![':']);
    let head = entry.fork_owner.clone().concat(":").concat(entry.fork_repo.as_str()).concat(
        ":",
    ).concat(entry.fork_branch.as_str());
    Request::Compare {
        owner: entry.upstream_owner.clone(),
        repo: entry.upstream_repo.clone(),
        base: entry.upstream_branch.clone(),
        head,
    }
}

} // verus!
