//! The list of repository pairs to keep in step.
use vstd::prelude::*;

verus! {

/// The branch that is used where an entry names none.
pub open spec fn default_branch_name() -> Seq<char> {
    seq!['m', 'a', 'i', 'n']
}

/// The branch that is used where an entry names none: `main`.
pub fn default_branch() -> (branch: String)
    ensures
        branch@ == default_branch_name(),
{
    proof {
        reveal_strlit("main");
    }
    let branch = "main".to_owned();
    assert(branch@ =~= default_branch_name());
    branch
}

/// Mathematical value of an [`Entry`].
pub struct EntryView {
    pub upstream_owner: Seq<char>,
    pub upstream_repo: Seq<char>,
    pub upstream_branch: Seq<char>,
    pub fork_owner: Seq<char>,
    pub fork_repo: Seq<char>,
    pub fork_branch: Seq<char>,
}

/// One synchronisation target: an upstream repository and branch, and the
/// fork and branch that follow it.
#[derive(Debug, PartialEq, Eq)]
pub struct Entry {
    pub upstream_owner: String,
    pub upstream_repo: String,
    pub upstream_branch: String,
    pub fork_owner: String,
    pub fork_repo: String,
    pub fork_branch: String,
}

impl View for Entry {
    type V = EntryView;

    open spec fn view(&self) -> EntryView {
        EntryView {
            upstream_owner: self.upstream_owner@,
            upstream_repo: self.upstream_repo@,
            upstream_branch: self.upstream_branch@,
            fork_owner: self.fork_owner@,
            fork_repo: self.fork_repo@,
            fork_branch: self.fork_branch@,
        }
    }
}

impl Clone for Entry {
    fn clone(&self) -> (copy: Self)
        ensures
            copy@ == self@,
    {
        Entry {
            upstream_owner: self.upstream_owner.clone(),
            upstream_repo: self.upstream_repo.clone(),
            upstream_branch: self.upstream_branch.clone(),
            fork_owner: self.fork_owner.clone(),
            fork_repo: self.fork_repo.clone(),
            fork_branch: self.fork_branch.clone(),
        }
    }
}

/// An entry as it is written down: either branch may be left out.
#[derive(Debug, PartialEq, Eq)]
pub struct EntrySource {
    pub upstream_owner: String,
    pub upstream_repo: String,
    pub upstream_branch: Option<String>,
    pub fork_owner: String,
    pub fork_repo: String,
    pub fork_branch: Option<String>,
}

/// The branch that `written` stands for.
pub open spec fn branch_or_default(written: Option<String>) -> Seq<char> {
    match written {
        Some(branch) => branch@,
        None => default_branch_name(),
    }
}

impl EntrySource {
    /// The entry that this source stands for.
    pub open spec fn resolved(&self) -> EntryView {
        EntryView {
            upstream_owner: self.upstream_owner@,
            upstream_repo: self.upstream_repo@,
            upstream_branch: branch_or_default(self.upstream_branch),
            fork_owner: self.fork_owner@,
            fork_repo: self.fork_repo@,
            fork_branch: branch_or_default(self.fork_branch),
        }
    }

    /// Fills in the default branch where none is written.
    pub fn resolve(&self) -> (entry: Entry)
        ensures
            entry@ == self.resolved(),
    {
        Entry {
            upstream_owner: self.upstream_owner.clone(),
            upstream_repo: self.upstream_repo.clone(),
            upstream_branch: match &self.upstream_branch {
                Some(branch) => branch.clone(),
                None => default_branch(),
            },
            fork_owner: self.fork_owner.clone(),
            fork_repo: self.fork_repo.clone(),
            fork_branch: match &self.fork_branch {
                Some(branch) => branch.clone(),
                None => default_branch(),
            },
        }
    }
}

/// The access token and the entries to process, in the order in which they
/// are processed.
#[derive(Debug)]
pub struct Config {
    pub github_token: String,
    pub entries: Vec<Entry>,
}

impl Default for Config {
    fn default() -> (config: Self)
        ensures
            config.github_token@ == Seq::<char>::empty(),
            config.entries@.len() == 0,
    {
        Config { github_token: String::new(), entries: Vec::new() }
    }
}

impl Config {
    /// Builds the configuration from the values that were read: the token is
    /// kept, and every entry is resolved in place, in the same order.
    pub fn load(github_token: String, sources: Vec<EntrySource>) -> (config: Self)
        ensures
            config.github_token@ == github_token@,
            config.entries@.len() == sources@.len(),
            forall|i: int|
                0 <= i < sources@.len() ==> (#[trigger] config.entries@[i])@ == sources@[i].resolved(),
    {
        let mut entries: Vec<Entry> = Vec::new();
        let mut i: usize = 0;
        while i < sources.len()
            invariant
                i <= sources@.len(),
                entries@.len() == i,
                forall|j: int| 0 <= j < i ==> (#[trigger] entries@[j])@ == sources@[j].resolved(),
            decreases sources@.len() - i,
        {
            entries.push(sources[i].resolve());
            i += 1;
        }
        Config { github_token, entries }
    }
}

} // verus!
