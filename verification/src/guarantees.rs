//! What holds of the tag memory and of the engine on every input, stated
//! over the same spec functions as the contracts and proved from them.
use crate::config::EntryView;
use crate::engine::{
    branch_request, create_request, list_request, next, observes, Outcome, PhaseView, ReplyView, RequestView,
    StepView,
};
use crate::pass::{opening, pass_next, PassView};
use crate::push::{push_verdict, target_sha, CreateOutcome, PushError, RefObjectView};
use crate::state::{Observation, TagInfoView, TagStateView};
use vstd::prelude::*;

verus! {

/// The memory of a repository after the tags of `tags` were observed one
/// after the other, starting from `start`.
pub open spec fn observe_all(start: TagStateView, tags: Seq<TagInfoView>) -> TagStateView
    decreases tags.len(),
{
    if tags.len() == 0 {
        start
    } else {
        observe_all(start, tags.drop_last()).shifted(tags.last())
    }
}

/// What the observation of `tags[i]` reports when the tags before it were
/// observed first.
pub open spec fn verdict_at(start: TagStateView, tags: Seq<TagInfoView>, i: int) -> Observation {
    observe_all(start, tags.take(i)).verdict(tags[i])
}

/// How many of the observations of `tags` call for action.
pub open spec fn actions(start: TagStateView, tags: Seq<TagInfoView>) -> nat
    decreases tags.len(),
{
    if tags.len() == 0 {
        0
    } else {
        let rest = actions(start, tags.drop_last());
        if verdict_at(start, tags, tags.len() - 1).actionable() {
            rest + 1
        } else {
            rest
        }
    }
}

/// After any run of observations the newer slot holds the tag that was
/// observed last, and the older slot holds what the newer slot held just
/// before that: the tag observed before it, or the starting state's latest
/// tag where the run has one observation only.
pub proof fn lemma_slots_follow_observations(start: TagStateView, tags: Seq<TagInfoView>)
    requires
        tags.len() > 0,
    ensures
        observe_all(start, tags).latest == Some(tags.last()),
        observe_all(start, tags).previous == observe_all(start, tags.drop_last()).latest,
        tags.len() >= 2 ==> observe_all(start, tags).previous == Some(tags[tags.len() - 2]),
        tags.len() == 1 ==> observe_all(start, tags).previous == start.latest,
        observe_all(start, tags).wf(),
{
    if tags.len() >= 2 {
        let shorter = tags.drop_last();
        assert(observe_all(start, shorter).latest == Some(shorter.last()));
    } else {
        assert(tags.drop_last().len() == 0);
    }
}

/// An observation of the name that was observed just before is not
/// actionable, whatever the state was before that.
pub proof fn lemma_repeat_is_not_actionable(
    state: TagStateView,
    first: TagInfoView,
    second: TagInfoView,
)
    requires
        first.name == second.name,
    ensures
        !state.shifted(first).verdict(second).actionable(),
        !state.shifted(first).verdict(second).changed,
{
}

/// Polls that observe one and the same tag name again and again call for
/// action at most once, and only the first of them can.
pub proof fn lemma_same_tag_acts_at_most_once(start: TagStateView, tags: Seq<TagInfoView>)
    requires
        forall|i: int, j: int|
            0 <= i < tags.len() && 0 <= j < tags.len() ==> tags[i].name == tags[j].name,
    ensures
        actions(start, tags) <= 1,
        forall|i: int| 1 <= i < tags.len() ==> !verdict_at(start, tags, i).actionable(),
        tags.len() > 0 ==> (actions(start, tags) == 1 <==> start.verdict(tags[0]).actionable()),
    decreases tags.len(),
{
    assert forall|i: int| 1 <= i < tags.len() implies !verdict_at(start, tags, i).actionable() by {
        let seen = tags.take(i);
        assert(seen.last() == tags[i - 1]);
        lemma_slots_follow_observations(start, seen);
    }
    if tags.len() > 0 {
        let shorter = tags.drop_last();
        lemma_same_tag_acts_at_most_once(start, shorter);
        assert(tags.take(tags.len() - 1) == shorter);
        if tags.len() == 1 {
            assert(shorter.len() == 0);
            assert(actions(start, shorter) == 0);
            assert(verdict_at(start, tags, 0) == start.verdict(tags[0]));
        } else {
            assert(shorter[0] == tags[0]);
            assert(!verdict_at(start, tags, tags.len() - 1).actionable());
        }
    }
}

/// Whether a step asks for the tag to be created on the fork.
pub open spec fn is_push(step: StepView) -> bool {
    step matches StepView::Call(RequestView::CreateTagRef { .. })
}

/// The engine goes on from an observation exactly when the observation is
/// actionable; otherwise the cycle ends there.
pub proof fn lemma_cycle_continues_iff_actionable(
    entry: EntryView,
    before: TagStateView,
    tags: Seq<TagInfoView>,
)
    ensures
        next(PhaseView::Fetch, entry, before, ReplyView::Tags(tags)).1 is Call <==> tags.len() > 0
            && before.verdict(tags[0]).actionable(),
        !(next(PhaseView::Fetch, entry, before, ReplyView::Tags(tags)).1 is Call) ==> next(
            PhaseView::Fetch,
            entry,
            before,
            ReplyView::Tags(tags),
        ).0 is Done,
{
}

/// A repository of which nothing is remembered gets no push: whatever is
/// listed for it, the cycle ends at once, before the fork is even compared.
pub proof fn lemma_first_sight_takes_no_action(
    entry: EntryView,
    before: TagStateView,
    reply: ReplyView,
)
    requires
        before.latest is None,
    ensures
        next(PhaseView::Fetch, entry, before, reply).0 is Done,
        next(PhaseView::Fetch, entry, before, reply).1 is Stop,
        reply matches ReplyView::Tags(tags) && tags.len() > 0 ==> next(
            PhaseView::Fetch,
            entry,
            before,
            reply,
        ).1 == StepView::Stop(Outcome::Baseline),
{
}

/// A fork that is behind by any number of commits gets no tag; a fork that
/// is behind by none has its branch read, and the tag created on the commit
/// that the branch stands for.
pub proof fn lemma_freshness_gates_push(
    entry: EntryView,
    before: TagStateView,
    tag_name: Seq<char>,
    behind_by: int,
    ahead_by: int,
    object: RefObjectView,
)
    ensures
        behind_by != 0 ==> next(
            PhaseView::Freshness { tag_name },
            entry,
            before,
            ReplyView::Comparison { behind_by, ahead_by },
        ) == (PhaseView::Done, StepView::Stop(Outcome::ForkBehind)),
        behind_by == 0 ==> next(
            PhaseView::Freshness { tag_name },
            entry,
            before,
            ReplyView::Comparison { behind_by, ahead_by },
        ) == (PhaseView::Resolve { tag_name }, StepView::Call(branch_request(entry))),
        target_sha(object) matches Ok(sha) ==> next(
            PhaseView::Resolve { tag_name },
            entry,
            before,
            ReplyView::BranchRef(object),
        ) == (PhaseView::Create, StepView::Call(create_request(entry, tag_name, sha))),
{
}

/// How far a cycle has come.
pub open spec fn rank(phase: PhaseView) -> nat {
    match phase {
        PhaseView::Fetch => 0,
        PhaseView::Freshness { .. } => 1,
        PhaseView::Resolve { .. } => 2,
        PhaseView::Create => 3,
        PhaseView::Done => 4,
    }
}

/// A cycle never goes back: every reply moves it to a later phase, or leaves
/// it ended. The tag is asked for only on the way from reading the fork
/// branch to the creation of the ref, which is reached only through a fresh
/// comparison, which is reached only through an actionable observation.
pub proof fn lemma_phases_progress(
    phase: PhaseView,
    entry: EntryView,
    before: TagStateView,
    reply: ReplyView,
)
    ensures
        rank(next(phase, entry, before, reply).0) > rank(phase) || (phase is Done && next(
            phase,
            entry,
            before,
            reply,
        ).0 is Done),
        next(phase, entry, before, reply).1 is Stop <==> next(phase, entry, before, reply).0 is Done,
        is_push(next(phase, entry, before, reply).1) <==> next(phase, entry, before, reply).0 is Create,
        next(phase, entry, before, reply).0 is Create ==> phase is Resolve,
        next(phase, entry, before, reply).0 is Resolve ==> phase is Freshness && (
        reply matches ReplyView::Comparison { behind_by, .. } && behind_by == 0),
        next(phase, entry, before, reply).0 is Freshness ==> phase is Fetch && (
        reply matches ReplyView::Tags(tags) && tags.len() > 0 && before.verdict(tags[0]).actionable()),
{
}

/// What is remembered of the entry's upstream after `reply` arrived.
pub open spec fn memory_after(phase: PhaseView, before: TagStateView, reply: ReplyView) -> TagStateView {
    if observes(phase, reply) {
        before.shifted(reply->Tags_0[0])
    } else {
        before
    }
}

/// How often the tag is asked to be created while `replies` arrive one
/// after the other, starting in `phase`.
pub open spec fn pushes(
    phase: PhaseView,
    entry: EntryView,
    before: TagStateView,
    replies: Seq<ReplyView>,
) -> nat
    decreases replies.len(),
{
    if replies.len() == 0 {
        0
    } else {
        let moved = next(phase, entry, before, replies[0]);
        let rest = pushes(
            moved.0,
            entry,
            memory_after(phase, before, replies[0]),
            replies.drop_first(),
        );
        if is_push(moved.1) {
            rest + 1
        } else {
            rest
        }
    }
}

/// Whatever replies arrive, one cycle asks for the tag at most once, and
/// not at all once the ref was asked for or the cycle has ended.
pub proof fn lemma_at_most_one_push(
    phase: PhaseView,
    entry: EntryView,
    before: TagStateView,
    replies: Seq<ReplyView>,
)
    ensures
        pushes(phase, entry, before, replies) <= 1,
        rank(phase) >= 3 ==> pushes(phase, entry, before, replies) == 0,
    decreases replies.len(),
{
    if replies.len() > 0 {
        let moved = next(phase, entry, before, replies[0]);
        lemma_phases_progress(phase, entry, before, replies[0]);
        lemma_at_most_one_push(
            moved.0,
            entry,
            memory_after(phase, before, replies[0]),
            replies.drop_first(),
        );
    }
}

/// A tag that the fork has already is no failure: the cycle ends as it
/// does after a push, the error behind it is the recoverable one, and
/// nothing in the outcome tells the caller to stop.
pub proof fn lemma_conflict_is_not_failure(entry: EntryView, before: TagStateView)
    ensures
        next(PhaseView::Create, entry, before, ReplyView::RefCreated(CreateOutcome::Conflict)) == (
            PhaseView::Done,
            StepView::Stop(Outcome::AlreadyPresent),
        ),
        !Outcome::AlreadyPresent.failure(),
        Outcome::AlreadyPresent.tag_on_fork(),
        push_verdict(CreateOutcome::Conflict) == Err::<(), PushError>(PushError::Conflict),
        PushError::Conflict.recoverable(),
{
}

/// A cycle asks for the tag only after an actionable observation: where
/// the first reply is anything else, no later reply brings a push about.
pub proof fn lemma_push_needs_actionable_observation(
    entry: EntryView,
    before: TagStateView,
    replies: Seq<ReplyView>,
)
    requires
        pushes(PhaseView::Fetch, entry, before, replies) > 0,
    ensures
        replies.len() > 0,
        replies[0] matches ReplyView::Tags(tags) && tags.len() > 0 && before.verdict(
            tags[0],
        ).actionable(),
{
    let moved = next(PhaseView::Fetch, entry, before, replies[0]);
    lemma_phases_progress(PhaseView::Fetch, entry, before, replies[0]);
    if !(moved.0 is Freshness) {
        lemma_at_most_one_push(
            moved.0,
            entry,
            memory_after(PhaseView::Fetch, before, replies[0]),
            replies.drop_first(),
        );
    }
}

/// A new tag on a fork that is behind by no commit is pushed exactly once,
/// whatever replies follow the reading of the fork branch.
pub proof fn lemma_new_tag_on_fresh_fork_is_pushed_once(
    entry: EntryView,
    before: TagStateView,
    tags: Seq<TagInfoView>,
    ahead_by: int,
    object: RefObjectView,
    rest: Seq<ReplyView>,
)
    requires
        tags.len() > 0,
        before.verdict(tags[0]).actionable(),
        target_sha(object) is Ok,
    ensures
        pushes(
            PhaseView::Fetch,
            entry,
            before,
            seq![
                ReplyView::Tags(tags),
                ReplyView::Comparison { behind_by: 0, ahead_by },
                ReplyView::BranchRef(object),
            ] + rest,
        ) == 1,
{
    let r0 = seq![
        ReplyView::Tags(tags),
        ReplyView::Comparison { behind_by: 0, ahead_by },
        ReplyView::BranchRef(object),
    ] + rest;
    let r1 = r0.drop_first();
    let r2 = r1.drop_first();
    let r3 = r2.drop_first();
    let m0 = before.shifted(tags[0]);
    let name = tags[0].name;
    assert(r0[0] == ReplyView::Tags(tags));
    assert(r1[0] == ReplyView::Comparison { behind_by: 0, ahead_by });
    assert(r2[0] == ReplyView::BranchRef(object));
    lemma_at_most_one_push(PhaseView::Create, entry, m0, r3);
    assert(pushes(PhaseView::Resolve { tag_name: name }, entry, m0, r2) == 1);
    assert(pushes(PhaseView::Freshness { tag_name: name }, entry, m0, r1) == 1);
}

/// A new tag on a fork that is behind is not pushed, whatever replies follow
/// the comparison.
pub proof fn lemma_new_tag_on_stale_fork_is_not_pushed(
    entry: EntryView,
    before: TagStateView,
    tags: Seq<TagInfoView>,
    behind_by: int,
    ahead_by: int,
    rest: Seq<ReplyView>,
)
    requires
        behind_by != 0,
    ensures
        pushes(
            PhaseView::Fetch,
            entry,
            before,
            seq![ReplyView::Tags(tags), ReplyView::Comparison { behind_by, ahead_by }] + rest,
        ) == 0,
{
    let r0 = seq![ReplyView::Tags(tags), ReplyView::Comparison { behind_by, ahead_by }] + rest;
    let r1 = r0.drop_first();
    let r2 = r1.drop_first();
    let m0 = memory_after(PhaseView::Fetch, before, r0[0]);
    assert(r0[0] == ReplyView::Tags(tags));
    assert(r1[0] == ReplyView::Comparison { behind_by, ahead_by });
    let moved = next(PhaseView::Fetch, entry, before, r0[0]);
    if moved.0 is Freshness {
        lemma_at_most_one_push(PhaseView::Done, entry, m0, r2);
        assert(pushes(moved.0, entry, m0, r1) == 0);
    } else {
        lemma_phases_progress(PhaseView::Fetch, entry, before, r0[0]);
        lemma_at_most_one_push(moved.0, entry, m0, r1);
    }
}

/// What is remembered of the entry's upstream after `replies` arrived one
/// after the other, starting in `phase`.
pub open spec fn memory_through(
    phase: PhaseView,
    entry: EntryView,
    before: TagStateView,
    replies: Seq<ReplyView>,
) -> TagStateView
    decreases replies.len(),
{
    if replies.len() == 0 {
        before
    } else {
        memory_through(
            next(phase, entry, before, replies[0]).0,
            entry,
            memory_after(phase, before, replies[0]),
            replies.drop_first(),
        )
    }
}

/// A cycle changes the memory at most once, on its first reply: the memory
/// is shifted exactly once per poll that lists a tag, and never by what
/// follows in the same poll.
pub proof fn lemma_one_shift_per_cycle(
    phase: PhaseView,
    entry: EntryView,
    before: TagStateView,
    replies: Seq<ReplyView>,
)
    ensures
        !(phase is Fetch) ==> memory_through(phase, entry, before, replies) == before,
        phase is Fetch && replies.len() > 0 ==> memory_through(phase, entry, before, replies)
            == memory_after(phase, before, replies[0]),
        replies.len() == 0 ==> memory_through(phase, entry, before, replies) == before,
    decreases replies.len(),
{
    if replies.len() > 0 {
        lemma_phases_progress(phase, entry, before, replies[0]);
        lemma_one_shift_per_cycle(
            next(phase, entry, before, replies[0]).0,
            entry,
            memory_after(phase, before, replies[0]),
            replies.drop_first(),
        );
    }
}

/// How often the tag is asked to be created over a run of polls of one
/// entry, each poll a cycle of its own that starts from what the poll before
/// it left in memory.
pub open spec fn pushes_over_polls(
    entry: EntryView,
    start: TagStateView,
    polls: Seq<Seq<ReplyView>>,
) -> nat
    decreases polls.len(),
{
    if polls.len() == 0 {
        0
    } else {
        pushes(PhaseView::Fetch, entry, start, polls[0]) + pushes_over_polls(
            entry,
            memory_through(PhaseView::Fetch, entry, start, polls[0]),
            polls.drop_first(),
        )
    }
}

/// Whether a poll begins with the observation of a tag named `name`.
pub open spec fn poll_observes(poll: Seq<ReplyView>, name: Seq<char>) -> bool {
    poll.len() > 0 && (poll[0] matches ReplyView::Tags(tags) && tags.len() > 0 && tags[0].name
        == name)
}

/// Polls that observe one and the same tag name again and again bring
/// about at most one push, whatever the state at the start and whatever the
/// host replies in each of them; and none at all where that name was the
/// latest tag already.
pub proof fn lemma_no_duplicate_push(
    entry: EntryView,
    start: TagStateView,
    polls: Seq<Seq<ReplyView>>,
    name: Seq<char>,
)
    requires
        forall|i: int| 0 <= i < polls.len() ==> poll_observes(#[trigger] polls[i], name),
    ensures
        pushes_over_polls(entry, start, polls) <= 1,
        (start.latest matches Some(seen) && seen.name == name) ==> pushes_over_polls(
            entry,
            start,
            polls,
        ) == 0,
    decreases polls.len(),
{
    if polls.len() > 0 {
        let poll = polls[0];
        let later = polls.drop_first();
        assert(poll_observes(poll, name));
        assert forall|i: int| 0 <= i < later.len() implies poll_observes(
            #[trigger] later[i],
            name,
        ) by {
            assert(later[i] == polls[i + 1]);
        }
        lemma_at_most_one_push(PhaseView::Fetch, entry, start, poll);
        lemma_one_shift_per_cycle(PhaseView::Fetch, entry, start, poll);
        lemma_no_duplicate_push(
            entry,
            memory_through(PhaseView::Fetch, entry, start, poll),
            later,
            name,
        );
        if pushes(PhaseView::Fetch, entry, start, poll) > 0 {
            lemma_push_needs_actionable_observation(entry, start, poll);
        }
    }
}

/// However the cycle of an entry ends, the pass notes the outcome and takes
/// up the next entry: no outcome ends the pass before the last entry, and a
/// reply never sets the pass back or makes it skip an entry.
pub proof fn lemma_pass_survives_every_outcome(
    pass: PassView,
    entries: Seq<EntryView>,
    before: TagStateView,
    reply: ReplyView,
)
    requires
        pass.index < entries.len(),
    ensures
        next(pass.phase, entries[pass.index as int], before, reply).1 matches StepView::Stop(outcome)
            ==> pass_next(pass, entries, before, reply) == opening(
            entries,
            pass.index + 1,
            pass.outcomes.push(outcome),
        ),
        next(pass.phase, entries[pass.index as int], before, reply).1 is Call ==> pass_next(
            pass,
            entries,
            before,
            reply,
        ).0.index == pass.index && pass_next(pass, entries, before, reply).0.outcomes
            == pass.outcomes,
        pass.index <= pass_next(pass, entries, before, reply).0.index <= pass.index + 1,
        pass_next(pass, entries, before, reply).1 is None <==> pass_next(
            pass,
            entries,
            before,
            reply,
        ).0.index == entries.len(),
{
}

/// A tag that the fork has already does not end the pass: the entry's cycle
/// is noted as ended with the tag in place, and the next entry is taken up.
pub proof fn lemma_conflict_does_not_end_pass(
    pass: PassView,
    entries: Seq<EntryView>,
    before: TagStateView,
)
    requires
        pass.index < entries.len(),
        pass.phase is Create,
    ensures
        pass_next(pass, entries, before, ReplyView::RefCreated(CreateOutcome::Conflict)) == opening(
            entries,
            pass.index + 1,
            pass.outcomes.push(Outcome::AlreadyPresent),
        ),
        pass.index + 1 < entries.len() ==> pass_next(
            pass,
            entries,
            before,
            ReplyView::RefCreated(CreateOutcome::Conflict),
        ).1 == Some(list_request(entries[pass.index as int + 1])),
{
}

} // verus!
