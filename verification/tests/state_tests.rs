use tag_sync::state::{Observation, RepoRecord, State, TagInfo, TagState};

fn tag(name: &str, sha: &str) -> TagInfo {
    TagInfo::new(name.to_string(), sha.to_string())
}

fn record(owner: &str, repo: &str, latest: Option<TagInfo>, previous: Option<TagInfo>) -> RepoRecord {
    RepoRecord {
        owner: owner.to_string(),
        repo: repo.to_string(),
        tags: TagState { latest_tag: latest, previous_tag: previous },
    }
}

#[test]
fn first_observation_sets_baseline() {
    let mut state = TagState::default();
    assert_eq!(state.latest_tag, None);
    assert_eq!(state.previous_tag, None);
    let seen = state.observe(tag("v1.0", "shaA"));
    assert_eq!(seen, Observation { is_first_observation: true, changed: true });
    assert!(!seen.is_actionable());
    assert_eq!(state.latest_tag, Some(tag("v1.0", "shaA")));
    assert_eq!(state.previous_tag, None);
}

#[test]
fn second_observation_of_a_new_name_is_actionable() {
    let mut state = TagState::default();
    state.observe(tag("v1.0", "shaA"));
    let seen = state.observe(tag("v1.1", "shaB"));
    assert_eq!(seen, Observation { is_first_observation: false, changed: true });
    assert!(seen.is_actionable());
    assert_eq!(state.latest_tag, Some(tag("v1.1", "shaB")));
    assert_eq!(state.previous_tag, Some(tag("v1.0", "shaA")));
}

#[test]
fn same_name_is_unchanged_even_with_another_commit() {
    let mut state = TagState {
        latest_tag: Some(tag("v1.0", "shaA")),
        previous_tag: Some(tag("v0.9", "shaZ")),
    };
    let seen = state.observe(tag("v1.0", "shaOther"));
    assert_eq!(seen, Observation { is_first_observation: false, changed: false });
    assert!(!seen.is_actionable());
    assert_eq!(state.latest_tag, Some(tag("v1.0", "shaOther")));
    assert_eq!(state.previous_tag, Some(tag("v1.0", "shaA")));
}

#[test]
fn empty_tag_name_is_a_tag_like_any_other() {
    let mut state = TagState::default();
    let first = state.observe(tag("", "shaA"));
    assert!(first.is_first_observation);
    let second = state.observe(tag("", "shaA"));
    assert_eq!(second, Observation { is_first_observation: false, changed: false });
    let third = state.observe(tag("v1", "shaB"));
    assert_eq!(third, Observation { is_first_observation: false, changed: true });
}

#[test]
fn swap_with_new_shifts_the_slots() {
    let mut state = TagState {
        latest_tag: Some(tag("v1.0", "shaA")),
        previous_tag: Some(tag("v0.9", "shaZ")),
    };
    state.swap_with_new(&tag("v1.1", "shaB"));
    assert_eq!(state.latest_tag, Some(tag("v1.1", "shaB")));
    assert_eq!(state.previous_tag, Some(tag("v1.0", "shaA")));
    state.swap_with_new(&tag("v1.1", "shaB"));
    assert_eq!(state.latest_tag, Some(tag("v1.1", "shaB")));
    assert_eq!(state.previous_tag, Some(tag("v1.1", "shaB")));
}

#[test]
fn slots_follow_a_run_of_observations() {
    let mut state = TagState::default();
    let names = ["a", "b", "b", "c", "a"];
    let mut before: Option<TagInfo> = None;
    for (i, name) in names.iter().enumerate() {
        let t = tag(name, &format!("sha{}", i));
        state.observe(t.clone());
        assert_eq!(state.latest_tag, Some(t.clone()));
        assert_eq!(state.previous_tag, before);
        before = Some(t);
    }
}

#[test]
fn repeated_tag_is_actionable_at_most_once() {
    let mut state = TagState {
        latest_tag: Some(tag("v0.9", "shaZ")),
        previous_tag: None,
    };
    let mut actions: u32 = 0;
    let mut verdicts = Vec::new();
    for _ in 0..5 {
        let seen = state.observe(tag("v1.0", "shaA"));
        verdicts.push(seen.is_actionable());
        if seen.is_actionable() {
            actions += 1;
        }
    }
    assert_eq!(actions, 1);
    assert_eq!(verdicts, vec![true, false, false, false, false]);
}

#[test]
fn flapping_tag_is_seen_as_changes() {
    let mut state = TagState::default();
    state.observe(tag("new", "1"));
    assert!(state.observe(tag("old", "2")).is_actionable());
    assert!(state.observe(tag("new", "1")).is_actionable());
}

#[test]
fn clone_of_tag_state_is_equal() {
    let state = TagState {
        latest_tag: Some(tag("v1.0", "shaA")),
        previous_tag: Some(tag("v0.9", "shaZ")),
    };
    assert_eq!(state.clone(), state);
}

#[test]
fn repo_mut_creates_an_empty_entry() {
    let mut state = State::new();
    assert_eq!(state.len(), 0);
    let owner = "octo".to_string();
    let repo = "cat".to_string();
    assert_eq!(state.get(&owner, &repo), None);
    {
        let slot = state.repo_mut(&owner, &repo);
        assert_eq!(*slot, TagState::default());
    }
    assert_eq!(state.len(), 1);
    assert_eq!(state.get(&owner, &repo), Some(&TagState::default()));
}

#[test]
fn repo_mut_returns_the_existing_entry() {
    let mut state = State::new();
    let owner = "octo".to_string();
    let repo = "cat".to_string();
    state.repo_mut(&owner, &repo).observe(tag("v1.0", "shaA"));
    state.repo_mut(&owner, &repo).observe(tag("v1.1", "shaB"));
    assert_eq!(state.len(), 1);
    let kept = state.get(&owner, &repo).unwrap();
    assert_eq!(kept.latest_tag, Some(tag("v1.1", "shaB")));
    assert_eq!(kept.previous_tag, Some(tag("v1.0", "shaA")));
}

#[test]
fn repo_mut_keeps_repositories_apart() {
    let mut state = State::new();
    let a = "a".to_string();
    let b = "b".to_string();
    let ab = "ab".to_string();
    let empty = "".to_string();
    state.repo_mut(&a, &b).observe(tag("one", "1"));
    state.repo_mut(&b, &a).observe(tag("two", "2"));
    state.repo_mut(&ab, &empty).observe(tag("three", "3"));
    state.repo_mut(&empty, &ab).observe(tag("four", "4"));
    state.repo_mut(&a, &a).observe(tag("five", "5"));
    assert_eq!(state.len(), 5);
    assert_eq!(state.get(&a, &b).unwrap().latest_tag, Some(tag("one", "1")));
    assert_eq!(state.get(&b, &a).unwrap().latest_tag, Some(tag("two", "2")));
    assert_eq!(state.get(&ab, &empty).unwrap().latest_tag, Some(tag("three", "3")));
    assert_eq!(state.get(&empty, &ab).unwrap().latest_tag, Some(tag("four", "4")));
    assert_eq!(state.get(&a, &a).unwrap().latest_tag, Some(tag("five", "5")));
    assert_eq!(state.get(&b, &b), None);
    state.repo_mut(&a, &b).observe(tag("six", "6"));
    assert_eq!(state.get(&a, &b).unwrap().previous_tag, Some(tag("one", "1")));
    assert_eq!(state.get(&b, &a).unwrap().previous_tag, None);
}

#[test]
fn default_state_is_empty() {
    let state = State::default();
    assert_eq!(state.len(), 0);
    assert!(state.repos.is_empty());
}

#[test]
fn load_without_stored_records_is_empty() {
    let state = State::load(None);
    assert_eq!(state.len(), 0);
}

#[test]
fn load_restores_records() {
    let state = State::load(Some(vec![
        record("o", "r1", Some(tag("v2", "b")), Some(tag("v1", "a"))),
        record("o", "r2", Some(tag("x", "c")), None),
        record("p", "r1", None, None),
    ]));
    assert_eq!(state.len(), 3);
    let o = "o".to_string();
    let p = "p".to_string();
    let r1 = "r1".to_string();
    let r2 = "r2".to_string();
    assert_eq!(
        state.get(&o, &r1),
        Some(&TagState { latest_tag: Some(tag("v2", "b")), previous_tag: Some(tag("v1", "a")) })
    );
    assert_eq!(
        state.get(&o, &r2),
        Some(&TagState { latest_tag: Some(tag("x", "c")), previous_tag: None })
    );
    assert_eq!(state.get(&p, &r1), Some(&TagState::default()));
    assert_eq!(state.get(&p, &r2), None);
}

#[test]
fn load_lets_the_last_record_of_a_repository_decide() {
    let state = State::load(Some(vec![
        record("o", "r", Some(tag("v1", "a")), None),
        record("o", "s", Some(tag("w", "c")), None),
        record("o", "r", Some(tag("v2", "b")), Some(tag("v1", "a"))),
    ]));
    assert_eq!(state.len(), 2);
    let o = "o".to_string();
    let r = "r".to_string();
    assert_eq!(
        state.get(&o, &r),
        Some(&TagState { latest_tag: Some(tag("v2", "b")), previous_tag: Some(tag("v1", "a")) })
    );
}

#[test]
fn save_hands_out_every_record_in_order() {
    let mut state = State::new();
    let o = "o".to_string();
    let r1 = "r1".to_string();
    let r2 = "r2".to_string();
    state.repo_mut(&o, &r2).observe(tag("x", "c"));
    state.repo_mut(&o, &r1).observe(tag("v1", "a"));
    state.repo_mut(&o, &r1).observe(tag("v2", "b"));
    let records = state.save();
    assert_eq!(
        records,
        vec![
            record("o", "r2", Some(tag("x", "c")), None),
            record("o", "r1", Some(tag("v2", "b")), Some(tag("v1", "a"))),
        ]
    );
}

#[test]
fn save_then_load_gives_the_same_store() {
    let mut state = State::new();
    let o = "o".to_string();
    let r1 = "r1".to_string();
    let r2 = "r2".to_string();
    state.repo_mut(&o, &r1).observe(tag("v1", "a"));
    state.repo_mut(&o, &r2);
    let restored = State::load(Some(state.save()));
    assert_eq!(restored.repos, state.repos);
    assert_eq!(restored.get(&o, &r1), state.get(&o, &r1));
    assert_eq!(restored.get(&o, &r2), Some(&TagState::default()));
}

#[test]
fn well_formed_store_names_no_repository_twice() {
    let mut state = State::new();
    assert!(state.is_well_formed());
    state.repo_mut(&"o".to_string(), &"r".to_string());
    state.repo_mut(&"o".to_string(), &"s".to_string());
    state.repo_mut(&"r".to_string(), &"o".to_string());
    assert!(state.is_well_formed());
    let twice = State {
        repos: vec![
            record("o", "r", None, None),
            record("o", "s", None, None),
            record("o", "r", Some(tag("v1", "a")), None),
        ],
    };
    assert!(!twice.is_well_formed());
    assert!(State::load(Some(twice.save())).is_well_formed());
}
