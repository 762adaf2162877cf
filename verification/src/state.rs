//! Tags, the two-slot memory that is kept of them for each repository, and
//! the store that holds that memory for every tracked repository.
use vstd::prelude::*;

verus! {

/// Mathematical value of a [`TagInfo`].
pub struct TagInfoView {
    pub name: Seq<char>,
    pub commit_sha: Seq<char>,
}

/// A tag as it was seen upstream: its name and the commit it points to.
///
/// Two tags are the same release when their names are equal; the commit is
/// kept for traceability only.
#[derive(Debug, PartialEq, Eq)]
pub struct TagInfo {
    pub name: String,
    pub commit_sha: String,
}

impl View for TagInfo {
    type V = TagInfoView;

    open spec fn view(&self) -> TagInfoView {
        TagInfoView { name: self.name@, commit_sha: self.commit_sha@ }
    }
}

impl Clone for TagInfo {
    fn clone(&self) -> (copy: Self)
        ensures
            copy@ == self@,
    {
        TagInfo { name: self.name.clone(), commit_sha: self.commit_sha.clone() }
    }
}

impl TagInfo {
    /// Builds a tag from its name and the commit it points to.
    pub fn new(name: String, commit_sha: String) -> (tag: Self)
        ensures
            tag@.name == name@,
            tag@.commit_sha == commit_sha@,
    {
        TagInfo { name, commit_sha }
    }
}

/// Mathematical value of a [`TagState`].
pub struct TagStateView {
    pub latest: Option<TagInfoView>,
    pub previous: Option<TagInfoView>,
}

/// What one observation found out about the tag it was given.
#[derive(Clone, Copy, Debug, PartialEq, Eq, Structural)]
pub struct Observation {
    /// No tag had been recorded for the repository before.
    pub is_first_observation: bool,
    /// The tag's name differs from the one recorded before, or there was none.
    pub changed: bool,
}

impl Observation {
    /// An observation calls for action only when there was a baseline to
    /// compare against and the name moved away from it.
    pub open spec fn actionable(self) -> bool {
        !self.is_first_observation && self.changed
    }

    /// Executable form of [`Observation::actionable`].
    pub fn is_actionable(&self) -> (yes: bool)
        ensures
            yes == self.actionable(),
    {
        !self.is_first_observation && self.changed
    }
}

impl TagStateView {
    /// The state of a repository that was never observed.
    pub open spec fn empty() -> TagStateView {
        TagStateView { latest: None, previous: None }
    }

    /// The older slot is only ever filled from the newer one.
    pub open spec fn wf(self) -> bool {
        self.previous is Some ==> self.latest is Some
    }

    /// The state after `tag` has been observed: the newer slot moves to the
    /// older one and `tag` takes its place.
    pub open spec fn shifted(self, tag: TagInfoView) -> TagStateView {
        TagStateView { latest: Some(tag), previous: self.latest }
    }

    /// What observing `tag` in this state reports.
    pub open spec fn verdict(self, tag: TagInfoView) -> Observation {
        Observation {
            is_first_observation: self.latest is None,
            changed: match self.latest {
                Some(seen) => seen.name != tag.name,
                None => true,
            },
        }
    }
}

/// The two most recently observed tags of one repository.
#[derive(Debug, PartialEq, Eq)]
pub struct TagState {
    pub latest_tag: Option<TagInfo>,
    pub previous_tag: Option<TagInfo>,
}

/// View of an optional tag.
pub open spec fn tag_view(tag: Option<TagInfo>) -> Option<TagInfoView> {
    match tag {
        Some(t) => Some(t@),
        None => None,
    }
}

impl View for TagState {
    type V = TagStateView;

    open spec fn view(&self) -> TagStateView {
        TagStateView { latest: tag_view(self.latest_tag), previous: tag_view(self.previous_tag) }
    }
}

/// Copies an optional tag.
fn clone_tag(tag: &Option<TagInfo>) -> (copy: Option<TagInfo>)
    ensures
        tag_view(copy) == tag_view(*tag),
{
    match tag {
        Some(t) => Some(t.clone()),
        None => None,
    }
}

impl Clone for TagState {
    fn clone(&self) -> (copy: Self)
        ensures
            copy@ == self@,
    {
        TagState {
            latest_tag: clone_tag(&self.latest_tag),
            previous_tag: clone_tag(&self.previous_tag),
        }
    }
}

impl Default for TagState {
    fn default() -> (state: Self)
        ensures
            state@ == TagStateView::empty(),
    {
        TagState { latest_tag: None, previous_tag: None }
    }
}

impl TagState {
    /// Records `new_tag` as the latest tag and moves the tag that was latest
    /// until now into the older slot, whether or not the two differ.
    pub fn swap_with_new(&mut self, new_tag: &TagInfo)
        ensures
            final(self)@ == old(self)@.shifted(new_tag@),
            final(self)@.wf(),
    {
        self.previous_tag = self.latest_tag.take();
        self.latest_tag = Some(new_tag.clone());
    }

    /// Observes `new_tag`: shifts the slots as [`TagState::swap_with_new`]
    /// does and reports how the tag relates to the one recorded before.
    pub fn observe(&mut self, new_tag: TagInfo) -> (seen: Observation)
        ensures
            final(self)@ == old(self)@.shifted(new_tag@),
            final(self)@.wf(),
            seen == old(self)@.verdict(new_tag@),
    {
        let seen = match &self.latest_tag {
            Some(current) => Observation {
                is_first_observation: false,
                changed: current.name != new_tag.name,
            },
            None => Observation { is_first_observation: true, changed: true },
        };
        self.swap_with_new(&new_tag);
        seen
    }
}

/// Identifies a repository: its owner and its name.
pub type RepoKey = (Seq<char>, Seq<char>);

/// Mathematical value of a [`RepoRecord`].
pub struct RepoRecordView {
    pub owner: Seq<char>,
    pub repo: Seq<char>,
    pub tags: TagStateView,
}

impl RepoRecordView {
    pub open spec fn key(self) -> RepoKey {
        (self.owner, self.repo)
    }
}

/// The tag memory of one repository together with the repository's key.
#[derive(Debug, PartialEq, Eq)]
pub struct RepoRecord {
    pub owner: String,
    pub repo: String,
    pub tags: TagState,
}

impl View for RepoRecord {
    type V = RepoRecordView;

    open spec fn view(&self) -> RepoRecordView {
        RepoRecordView { owner: self.owner@, repo: self.repo@, tags: self.tags@ }
    }
}

impl Clone for RepoRecord {
    fn clone(&self) -> (copy: Self)
        ensures
            copy@ == self@,
    {
        RepoRecord { owner: self.owner.clone(), repo: self.repo.clone(), tags: self.tags.clone() }
    }
}

/// Views of a sequence of records, in the same order.
pub open spec fn record_views(records: Seq<RepoRecord>) -> Seq<RepoRecordView> {
    records.map_values(|r: RepoRecord| r@)
}

/// The mapping that a sequence of records stands for. Where a key occurs more
/// than once the record that comes last decides.
pub open spec fn store_map(records: Seq<RepoRecordView>) -> Map<RepoKey, TagStateView>
    decreases records.len(),
{
    if records.len() == 0 {
        Map::empty()
    } else {
        store_map(records.drop_last()).insert(records.last().key(), records.last().tags)
    }
}

/// No repository has two records.
pub open spec fn distinct_keys(records: Seq<RepoRecordView>) -> bool {
    forall|i: int, j: int|
        0 <= i < j < records.len() ==> (#[trigger] records[i]).key() != (#[trigger] records[j]).key()
}

/// A key that no record carries is not in the mapping.
pub proof fn lemma_store_map_absent(records: Seq<RepoRecordView>, key: RepoKey)
    requires
        forall|i: int| 0 <= i < records.len() ==> (#[trigger] records[i]).key() != key,
    ensures
        !store_map(records).contains_key(key),
    decreases records.len(),
{
    if records.len() > 0 {
        lemma_store_map_absent(records.drop_last(), key);
    }
}

/// With distinct keys every record is found under its key.
pub proof fn lemma_store_map_lookup(records: Seq<RepoRecordView>, i: int)
    requires
        distinct_keys(records),
        0 <= i < records.len(),
    ensures
        store_map(records).contains_key(records[i].key()),
        store_map(records)[records[i].key()] == records[i].tags,
    decreases records.len(),
{
    if i < records.len() - 1 {
        lemma_store_map_lookup(records.drop_last(), i);
        assert(records.drop_last()[i] == records[i]);
        assert(records[i].key() != records[records.len() - 1].key());
    }
}

/// With distinct keys, replacing the tags of one record replaces the value
/// under its key and leaves every other key alone.
pub proof fn lemma_store_map_update(records: Seq<RepoRecordView>, i: int, tags: TagStateView)
    requires
        distinct_keys(records),
        0 <= i < records.len(),
    ensures
        distinct_keys(records.update(i, RepoRecordView { tags, ..records[i] })),
        store_map(records.update(i, RepoRecordView { tags, ..records[i] })) == store_map(
            records,
        ).insert(records[i].key(), tags),
    decreases records.len(),
{
    let key = records[i].key();
    let changed = records.update(i, RepoRecordView { tags, ..records[i] });
    assert(distinct_keys(changed)) by {
        assert forall|a: int, b: int| 0 <= a < b < changed.len() implies (#[trigger] changed[a]).key()
            != (#[trigger] changed[b]).key() by {
            assert(changed[a].key() == records[a].key());
            assert(changed[b].key() == records[b].key());
        }
    }
    let last = records.len() - 1;
    if i == last {
        assert(changed.drop_last() == records.drop_last());
        assert(store_map(changed) == store_map(records).insert(key, tags));
    } else {
        let shorter = records.drop_last();
        assert(distinct_keys(shorter)) by {
            assert forall|a: int, b: int| 0 <= a < b < shorter.len() implies (
            #[trigger] shorter[a]).key() != (#[trigger] shorter[b]).key() by {
                assert(shorter[a] == records[a]);
                assert(shorter[b] == records[b]);
            }
        }
        assert(shorter[i] == records[i]);
        lemma_store_map_update(shorter, i, tags);
        assert(changed.drop_last() == shorter.update(i, RepoRecordView { tags, ..shorter[i] }));
        assert(changed.last() == records.last());
        assert(records[last].key() != key);
        assert(store_map(changed) == store_map(records).insert(key, tags));
    }
}

/// With distinct keys the mapping has as many keys as there are records.
pub proof fn lemma_store_map_size(records: Seq<RepoRecordView>)
    requires
        distinct_keys(records),
    ensures
        store_map(records).dom().finite(),
        store_map(records).dom().len() == records.len(),
    decreases records.len(),
{
    if records.len() > 0 {
        let shorter = records.drop_last();
        let last = records.last();
        assert(distinct_keys(shorter)) by {
            assert forall|a: int, b: int| 0 <= a < b < shorter.len() implies (
            #[trigger] shorter[a]).key() != (#[trigger] shorter[b]).key() by {
                assert(shorter[a] == records[a]);
                assert(shorter[b] == records[b]);
            }
        }
        lemma_store_map_size(shorter);
        assert forall|i: int| 0 <= i < shorter.len() implies (#[trigger] shorter[i]).key()
            != last.key() by {
            assert(shorter[i] == records[i]);
            assert(last == records[records.len() - 1]);
        }
        lemma_store_map_absent(shorter, last.key());
        assert(store_map(records).dom() == store_map(shorter).dom().insert(last.key()));
    }
}

/// The tag memory of every tracked repository, keyed by owner and name.
///
/// Entries come into being when a repository is first looked up and are never
/// removed.
#[derive(Debug)]
pub struct State {
    pub repos: Vec<RepoRecord>,
}

impl View for State {
    type V = Map<RepoKey, TagStateView>;

    open spec fn view(&self) -> Map<RepoKey, TagStateView> {
        store_map(record_views(self.repos@))
    }
}

impl Default for State {
    fn default() -> (state: Self)
        ensures
            state.wf(),
            state@ == Map::<RepoKey, TagStateView>::empty(),
    {
        State { repos: Vec::new() }
    }
}

impl State {
    /// No repository is recorded twice.
    pub open spec fn wf(&self) -> bool {
        distinct_keys(record_views(self.repos@))
    }

    /// What the store remembers of a repository: its entry, or the empty
    /// state where it has none.
    pub open spec fn remembered(&self, key: RepoKey) -> TagStateView {
        if self@.contains_key(key) {
            self@[key]
        } else {
            TagStateView::empty()
        }
    }

    /// A store that tracks no repository.
    pub fn new() -> (state: Self)
        ensures
            state.wf(),
            state@ == Map::<RepoKey, TagStateView>::empty(),
    {
        State { repos: Vec::new() }
    }

    /// Rebuilds the store from what was kept of it. `None` stands for a
    /// durable form that is missing or cannot be read: the store then starts
    /// empty rather than failing. Where the records name a repository more
    /// than once, the last record decides.
    pub fn load(stored: Option<Vec<RepoRecord>>) -> (state: Self)
        ensures
            state.wf(),
            state@ == match stored {
                Some(records) => store_map(record_views(records@)),
                None => Map::empty(),
            },
    {
        let mut state = State::new();
        let records = match stored {
            Some(records) => records,
            None => {
                return state;
            },
        };
        let mut i: usize = 0;
        while i < records.len()
            invariant
                i <= records@.len(),
                state.wf(),
                state@ == store_map(record_views(records@.subrange(0, i as int))),
            decreases records@.len() - i,
        {
            let tags = records[i].tags.clone();
            let slot = state.repo_mut(&records[i].owner, &records[i].repo);
            *slot = tags;
            proof {
                let upto = record_views(records@.subrange(0, i + 1));
                assert(upto.drop_last() == record_views(records@.subrange(0, i as int)));
                assert(upto.last() == records@[i as int]@);
            }
            i += 1;
        }
        assert(records@.subrange(0, i as int) == records@);
        state
    }

    /// Hands out every record of the store, in the order in which the
    /// repositories were first looked up, for the caller to keep.
    pub fn save(&self) -> (records: Vec<RepoRecord>)
        ensures
            record_views(records@) == record_views(self.repos@),
            store_map(record_views(records@)) == self@,
    {
        let mut records: Vec<RepoRecord> = Vec::new();
        let mut i: usize = 0;
        while i < self.repos.len()
            invariant
                i <= self.repos@.len(),
                record_views(records@) == record_views(self.repos@.subrange(0, i as int)),
            decreases self.repos@.len() - i,
        {
            let ghost kept = records@;
            records.push(self.repos[i].clone());
            proof {
                let upto = record_views(self.repos@.subrange(0, i + 1));
                assert(upto.drop_last() == record_views(self.repos@.subrange(0, i as int)));
                assert(record_views(records@).drop_last() == record_views(kept));
                assert(record_views(records@).last() == upto.last());
                assert(record_views(records@) == record_views(records@).drop_last().push(
                    upto.last(),
                ));
                assert(upto == upto.drop_last().push(upto.last()));
            }
            i += 1;
        }
        assert(self.repos@.subrange(0, i as int) == self.repos@);
        records
    }

    /// Executable form of [`State::wf`], for a store whose records were put
    /// together by hand.
    pub fn is_well_formed(&self) -> (yes: bool)
        ensures
            yes == self.wf(),
    {
        let ghost views = record_views(self.repos@);
        let mut j: usize = 0;
        while j < self.repos.len()
            invariant
                j <= self.repos@.len(),
                views == record_views(self.repos@),
                forall|a: int, b: int|
                    0 <= a < b < j ==> (#[trigger] views[a]).key() != (#[trigger] views[b]).key(),
            decreases self.repos@.len() - j,
        {
            let mut i: usize = 0;
            while i < j
                invariant
                    i <= j < self.repos@.len(),
                    views == record_views(self.repos@),
                    forall|a: int| 0 <= a < i ==> (#[trigger] views[a]).key() != views[j as int].key(),
                decreases j - i,
            {
                if self.repos[i].owner == self.repos[j].owner && self.repos[i].repo
                    == self.repos[j].repo {
                    assert(views[i as int].key() == views[j as int].key());
                    return false;
                }
                i += 1;
            }
            j += 1;
        }
        true
    }

    /// Looks a repository up without creating an entry for it.
    pub fn get(&self, owner: &String, repo: &String) -> (found: Option<&TagState>)
        requires
            self.wf(),
        ensures
            match found {
                Some(tags) => self@.contains_key((owner@, repo@)) && tags@ == self@[(owner@, repo@)],
                None => !self@.contains_key((owner@, repo@)),
            },
    {
        match self.position(owner, repo) {
            Some(i) => {
                proof {
                    lemma_store_map_lookup(record_views(self.repos@), i as int);
                }
                Some(&self.repos[i].tags)
            },
            None => {
                proof {
                    lemma_store_map_absent(record_views(self.repos@), (owner@, repo@));
                }
                None
            },
        }
    }

    /// Number of records in the store, which is the number of repositories
    /// that it tracks where no repository is recorded twice.
    pub fn len(&self) -> (n: usize)
        ensures
            n == self.repos@.len(),
            self.wf() ==> self@.dom().finite() && n == self@.dom().len(),
    {
        proof {
            if self.wf() {
                lemma_store_map_size(record_views(self.repos@));
            }
        }
        self.repos.len()
    }

    /// Position of the record of `owner`/`repo`, if there is one.
    fn position(&self, owner: &String, repo: &String) -> (found: Option<usize>)
        ensures
            match found {
                Some(i) => i < self.repos@.len() && self.repos@[i as int]@.key() == (
                    owner@,
                    repo@,
                ),
                None => forall|i: int|
                    0 <= i < self.repos@.len() ==> (#[trigger] self.repos@[i])@.key() != (
                        owner@,
                        repo@,
                    ),
            },
    {
        let mut i: usize = 0;
        while i < self.repos.len()
            invariant
                i <= self.repos@.len(),
                forall|j: int|
                    0 <= j < i ==> (#[trigger] self.repos@[j])@.key() != (owner@, repo@),
            decreases self.repos@.len() - i,
        {
            if self.repos[i].owner == *owner && self.repos[i].repo == *repo {
                return Some(i);
            }
            i += 1;
        }
        None
    }

    /// Gives access to the tag memory of `owner`/`repo`, creating an empty
    /// entry where the repository was never looked up before. Every other
    /// entry stays as it was.
    pub fn repo_mut(&mut self, owner: &String, repo: &String) -> (slot: &mut TagState)
        requires
            old(self).wf(),
        ensures
            (*slot)@ == old(self).remembered((owner@, repo@)),
            final(self).wf(),
            final(self)@ == old(self)@.insert((owner@, repo@), (*final(slot))@),
    {
        let ghost key = (owner@, repo@);
        let ghost before = record_views(self.repos@);
        let at = match self.position(owner, repo) {
            Some(i) => {
                proof {
                    lemma_store_map_lookup(before, i as int);
                }
                i
            },
            None => {
                self.repos.push(
                    RepoRecord { owner: owner.clone(), repo: repo.clone(), tags: TagState::default() },
                );
                proof {
                    let after = record_views(self.repos@);
                    assert(after.drop_last() == before);
                    assert(after.last().key() == key);
                    assert forall|i: int| 0 <= i < before.len() implies (#[trigger] before[i]).key()
                        != key by {
                        assert(before[i] == old(self).repos@[i]@);
                    }
                    lemma_store_map_absent(before, key);
                    assert(distinct_keys(after)) by {
                        assert forall|a: int, b: int| 0 <= a < b < after.len() implies (
                        #[trigger] after[a]).key() != (#[trigger] after[b]).key() by {
                            if b < before.len() {
                                assert(after[a] == before[a]);
                                assert(after[b] == before[b]);
                            } else {
                                assert(after[a] == before[a]);
                            }
                        }
                    }
                }
                self.repos.len() - 1
            },
        };
        let ghost mid = record_views(self.repos@);
        proof {
            lemma_store_map_lookup(mid, at as int);
            assert(store_map(mid) == old(self)@.insert(key, old(self).remembered(key)));
        }
        let ghost records = self.repos@;
        let slot = &mut self.repos[at].tags;
        proof {
            let record = RepoRecord { tags: *final(slot), ..records[at as int] };
            assert(record_views(records.update(at as int, record)) == mid.update(
                at as int,
                RepoRecordView { tags: (*final(slot))@, ..mid[at as int] },
            ));
            lemma_store_map_update(mid, at as int, (*final(slot))@);
        }
        slot
    }
}

} // verus!
