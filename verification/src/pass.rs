//! One synchronisation pass: the cycles of all configured entries, one after
//! the other, in the order of the configuration.
//!
//! The pass hands out one request at a time. When the cycle of an entry ends,
//! however it ends, the outcome is noted and the cycle of the next entry is
//! opened.
use crate::config::{Config, Entry, EntryView};
use crate::engine::{
    list_request, next, store_after, upstream_key, Cycle, Outcome, Phase, PhaseView, Reply,
    ReplyView, Request, RequestView, Step, StepView,
};
use crate::state::{RepoKey, State, TagStateView};
use vstd::prelude::*;

verus! {

/// Mathematical value of a [`Pass`].
pub struct PassView {
    /// The entry whose cycle is running; the number of entries when none is.
    pub index: nat,
    /// Where that cycle stands.
    pub phase: PhaseView,
    /// How the cycles of the entries before it ended, in their order.
    pub outcomes: Seq<Outcome>,
}

/// A pass over the entries of a configuration.
#[derive(Debug)]
pub struct Pass {
    pub index: usize,
    pub cycle: Cycle,
    pub outcomes: Vec<Outcome>,
}

impl View for Pass {
    type V = PassView;

    open spec fn view(&self) -> PassView {
        PassView { index: self.index as nat, phase: self.cycle.phase@, outcomes: self.outcomes@ }
    }
}

/// Views of a sequence of entries, in the same order.
pub open spec fn entry_views(entries: Seq<Entry>) -> Seq<EntryView> {
    entries.map_values(|e: Entry| e@)
}

/// View of an optional request.
pub open spec fn request_view(request: Option<Request>) -> Option<RequestView> {
    match request {
        Some(r) => Some(r@),
        None => None,
    }
}

/// The pass as it stands when the entry at `index` is taken up: its cycle is
/// opened with the listing of its tags, or, past the last entry, the pass is
/// over and asks for nothing.
pub open spec fn opening(entries: Seq<EntryView>, index: nat, outcomes: Seq<Outcome>) -> (
    PassView,
    Option<RequestView>,
) {
    if index < entries.len() {
        (
            PassView { index, phase: PhaseView::Fetch, outcomes },
            Some(list_request(entries[index as int])),
        )
    } else {
        (PassView { index: entries.len(), phase: PhaseView::Done, outcomes }, None)
    }
}

/// The transition function of a pass. A reply is handed to the running
/// cycle; where the cycle goes on, so does the pass, and where the cycle
/// stops, its outcome is noted and the next entry is taken up. A pass that
/// is over stays as it is.
pub open spec fn pass_next(
    pass: PassView,
    entries: Seq<EntryView>,
    before: TagStateView,
    reply: ReplyView,
) -> (PassView, Option<RequestView>) {
    if pass.index >= entries.len() {
        (pass, None)
    } else {
        let moved = next(pass.phase, entries[pass.index as int], before, reply);
        match moved.1 {
            StepView::Call(request) => (PassView { phase: moved.0, ..pass }, Some(request)),
            StepView::Stop(outcome) => opening(entries, pass.index + 1, pass.outcomes.push(outcome)),
        }
    }
}

/// The key whose memory the running cycle reads; any key once the pass is
/// over, when nothing is read.
pub open spec fn running_key(pass: PassView, entries: Seq<EntryView>) -> RepoKey {
    if pass.index < entries.len() {
        upstream_key(entries[pass.index as int])
    } else {
        (Seq::empty(), Seq::empty())
    }
}

/// What is remembered after a reply was handed to the pass.
pub open spec fn pass_store_after(
    pass: PassView,
    entries: Seq<EntryView>,
    store: Map<RepoKey, TagStateView>,
    before: TagStateView,
    reply: ReplyView,
) -> Map<RepoKey, TagStateView> {
    if pass.index >= entries.len() {
        store
    } else {
        store_after(pass.phase, entries[pass.index as int], store, before, reply)
    }
}

impl Pass {
    /// Takes up the entry at `index`.
    fn open(config: &Config, index: usize, outcomes: Vec<Outcome>) -> (opened: (Pass, Option<Request>))
        ensures
            (opened.0@, request_view(opened.1)) == opening(
                entry_views(config.entries@),
                index as nat,
                outcomes@,
            ),
    {
        if index < config.entries.len() {
            let (cycle, request) = Cycle::start(&config.entries[index]);
            (Pass { index, cycle, outcomes }, Some(request))
        } else {
            (
                Pass { index: config.entries.len(), cycle: Cycle { phase: Phase::Done }, outcomes },
                None,
            )
        }
    }

    /// Begins a pass over the entries of `config`: the first entry is taken
    /// up, and no outcome is noted yet. With no entry the pass is over at once.
    pub fn start(config: &Config) -> (opened: (Pass, Option<Request>))
        ensures
            (opened.0@, request_view(opened.1)) == opening(
                entry_views(config.entries@),
                0,
                Seq::empty(),
            ),
    {
        Pass::open(config, 0, Vec::new())
    }

    /// Whether every entry of `config` has had its cycle.
    pub fn is_finished(&self, config: &Config) -> (yes: bool)
        ensures
            yes == (self@.index >= config.entries@.len()),
    {
        self.index >= config.entries.len()
    }

    /// Hands the reply to the outstanding request to the pass and gives the
    /// next request, or `None` when the pass is over, as [`pass_next`] says.
    pub fn advance(self, config: &Config, state: &mut State, reply: Reply) -> (moved: (
        Pass,
        Option<Request>,
    ))
        requires
            old(state).wf(),
        ensures
            final(state).wf(),
            (moved.0@, request_view(moved.1)) == pass_next(
                self@,
                entry_views(config.entries@),
                old(state).remembered(running_key(self@, entry_views(config.entries@))),
                reply@,
            ),
            final(state)@ == pass_store_after(
                self@,
                entry_views(config.entries@),
                old(state)@,
                old(state).remembered(running_key(self@, entry_views(config.entries@))),
                reply@,
            ),
    {
        if self.index >= config.entries.len() {
            return (self, None);
        }
        let Pass { index, cycle, outcomes } = self;
        let mut outcomes = outcomes;
        let (cycle, step) = cycle.advance(&config.entries[index], state, reply);
        match step {
            Step::Call(request) => (Pass { index, cycle, outcomes }, Some(request)),
            Step::Stop(outcome) => {
                outcomes.push(outcome);
                Pass::open(config, index + 1, outcomes)
            },
        }
    }
}

} // verus!
