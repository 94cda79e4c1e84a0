use repo_scan::merge::{merge_tier0, merge_tier1, merge_tier2, without_tier2};
use repo_scan::model::{
    DiscoveredRepo, FileCounts, Head, RepoKind, RepoState, RepoStatus, ScanError, ScanId,
    SubmoduleStatus,
};
use repo_scan::state::AppState;
use repo_scan::status::tier1::Tier1;
use repo_scan::status::tier2::Tier2;

/// A minimal row. Every field is public, so a test overrides only what it is about.
fn row(path: &str) -> RepoStatus {
    RepoStatus {
        path: path.to_string(),
        name: "repo".into(),
        parent: "C:/work".to_string(),
        kind: RepoKind::Normal,
        head: Head::Branch { name: "main".into() },
        upstream: None,
        ahead: None,
        behind: None,
        last_commit: None,
        stash_count: 0,
        state: RepoState::Clean,
        last_fetched_ms: None,
        dirty: None,
        conflicted: None,
        counts: None,
        submodules: None,
        scanned_at_ms: 1_000,
        error: None,
    }
}

fn found(path: &str) -> DiscoveredRepo {
    DiscoveredRepo {
        path: path.to_string(),
        name: path.rsplit('/').next().unwrap_or(path).to_string(),
        parent: "C:/work".to_string(),
        kind: RepoKind::Normal,
        git_dir: format!("{path}/.git"),
        common_dir: format!("{path}/.git"),
    }
}

fn tier1(path: &str, dirty: bool, conflicted: u32) -> Tier1 {
    Tier1 {
        path: path.to_string(),
        dirty,
        conflicted,
        error: None,
    }
}

fn counts() -> FileCounts {
    FileCounts {
        staged: 1,
        unstaged: 2,
        untracked: 3,
        conflicted: 4,
    }
}

fn tier2(path: &str) -> Tier2 {
    Tier2 {
        path: path.to_string(),
        counts: Some(counts()),
        submodules: Some(Vec::new()),
        error: None,
    }
}

#[test]
fn tier0_merge_keeps_a_tier1_value_the_new_row_does_not_carry() {
    let mut existing = row("C:/work/a");
    existing.dirty = Some(true);
    existing.conflicted = Some(2);
    existing.counts = Some(FileCounts::default());
    existing.submodules = Some(Vec::new());

    let merged = merge_tier0(Some(&existing), row("C:/work/a"));

    assert_eq!(merged.dirty, Some(true));
    assert_eq!(merged.conflicted, Some(2));
    assert_eq!(merged.counts, Some(FileCounts::default()));
    assert_eq!(merged.submodules, Some(Vec::new()));
}

#[test]
fn tier0_merge_clears_an_upstream_that_is_gone() {
    let mut existing = row("C:/work/a");
    existing.upstream = Some("origin/main".into());
    existing.ahead = Some(3);
    existing.behind = Some(0);
    existing.last_fetched_ms = Some(500);

    let merged = merge_tier0(Some(&existing), row("C:/work/a"));

    assert_eq!(merged.upstream, None);
    assert_eq!(merged.ahead, None);
    assert_eq!(merged.behind, None);
    assert_eq!(merged.last_fetched_ms, None);
}

#[test]
fn tier0_merge_of_an_unknown_path_inserts_the_row_unchanged() {
    let incoming = row("C:/work/new");
    assert_eq!(merge_tier0(None, incoming.clone()), incoming);
}

#[test]
fn tier0_merge_takes_the_later_scanned_at() {
    let mut existing = row("C:/work/a");
    existing.scanned_at_ms = 9_000;

    let merged = merge_tier0(Some(&existing), row("C:/work/a"));

    assert_eq!(merged.scanned_at_ms, 9_000);
}

#[test]
fn tier0_merge_replaces_the_error_from_the_tier_that_produced_it() {
    let mut existing = row("C:/work/a");
    existing.error = Some("stash read failed".into());

    let merged = merge_tier0(Some(&existing), row("C:/work/a"));

    assert_eq!(merged.error, None);
}

#[test]
fn merge_tier0_batch_returns_exactly_what_the_map_now_holds() {
    let mut state = AppState::default();
    let mut first = row("C:/work/a");
    first.dirty = Some(true);
    state.merge_tier0_batch(vec![first, row("C:/work/b")]);

    let returned = state.merge_tier0_batch(vec![row("C:/work/a"), row("C:/work/c")]);

    assert_eq!(returned.len(), 2);
    assert_eq!(returned[0].dirty, Some(true), "the Tier 1 value survived");
    let held = state.snapshot();
    for row in &returned {
        assert!(held.contains(row), "returned row is not what the map holds");
    }
    assert_eq!(held.len(), 3);
}

#[test]
fn remove_root_evicts_only_rows_beneath_it() {
    let mut state = AppState::default();
    state.add_root("C:/work".to_string());
    state.add_root("C:/other".to_string());
    state.merge_tier0_batch(vec![row("C:/work/a"), row("C:/work/b"), row("C:/other/c")]);

    let (roots, evicted) = state.remove_root("C:/work");

    assert_eq!(roots, vec!["C:/other".to_string()]);
    assert_eq!(evicted.len(), 2);
    assert!(evicted.iter().all(|path| path.starts_with("C:/work")));
    let held = state.snapshot();
    assert_eq!(held.len(), 1);
    assert_eq!(held[0].path, "C:/other/c");
}

#[test]
fn a_root_is_a_component_prefix_not_a_string_prefix() {
    let mut state = AppState::default();
    state.add_root("C:/work".to_string());
    state.merge_tier0_batch(vec![row("C:/work/a"), row("C:/workshop/b")]);

    let (_, evicted) = state.remove_root("C:/work");

    assert_eq!(evicted, vec!["C:/work/a".to_string()]);
    assert!(state.has_repo("C:/workshop/b"));
}

#[test]
fn scan_ids_are_unique_and_start_at_one() {
    let mut state = AppState::default();
    let first = state.begin_scan();
    let second = state.begin_scan();

    assert_eq!(first, ScanId(1));
    assert_eq!(second, ScanId(2));
}

#[test]
fn cancel_scan_flips_only_that_scan() {
    let mut state = AppState::default();
    let first = state.begin_scan();
    let second = state.begin_scan();

    state.cancel_scan(first);

    assert!(state.is_cancelled(first));
    assert!(!state.is_cancelled(second));
}

#[test]
fn cancel_all_flips_every_live_scan() {
    let mut state = AppState::default();
    let first = state.begin_scan();
    let second = state.begin_scan();

    state.cancel_all();

    assert!(state.is_cancelled(first));
    assert!(state.is_cancelled(second));
}

#[test]
fn a_scan_is_in_flight_only_while_it_is_registered() {
    let mut state = AppState::default();
    assert!(!state.scan_in_flight());

    let id = state.begin_scan();
    assert!(state.scan_in_flight());

    state.finish_scan(id);
    assert!(!state.scan_in_flight());
}

#[test]
fn finish_scan_removes_the_entry_and_is_idempotent() {
    let mut state = AppState::default();
    let id = state.begin_scan();

    state.finish_scan(id);
    state.finish_scan(id);
    state.cancel_scan(id);
    assert!(!state.scan_in_flight());
}

#[test]
fn tier1_merge_leaves_every_tier0_field_alone() {
    let mut existing = row("C:/work/a");
    existing.upstream = Some("origin/main".into());
    existing.ahead = Some(2);
    existing.stash_count = 3;

    let merged = merge_tier1(&existing, tier1("C:/work/a", true, 1));

    assert_eq!(merged.upstream, Some("origin/main".into()));
    assert_eq!(merged.ahead, Some(2));
    assert_eq!(merged.stash_count, 3);
    assert_eq!(merged.head, existing.head);
    assert_eq!(merged.dirty, Some(true));
    assert_eq!(merged.conflicted, Some(1));
}

#[test]
fn tier1_merge_keeps_a_tier2_value() {
    let mut existing = row("C:/work/a");
    existing.counts = Some(FileCounts::default());

    let merged = merge_tier1(&existing, tier1("C:/work/a", false, 0));

    assert_eq!(merged.counts, Some(FileCounts::default()));
}

#[test]
fn a_clean_worktree_is_a_computed_false_not_an_unknown() {
    let merged = merge_tier1(&row("C:/work/a"), tier1("C:/work/a", false, 0));

    assert_eq!(merged.dirty, Some(false));
    assert_eq!(merged.conflicted, Some(0));
}

#[test]
fn both_tiers_causes_survive_in_the_one_error_slot() {
    let mut existing = row("C:/work/a");
    existing.error = Some("stash count failed".into());
    let mut incoming = tier1("C:/work/a", true, 0);
    incoming.error = Some("index unreadable".into());

    let merged = merge_tier1(&existing, incoming);

    let error = merged.error.expect("both causes are recorded");
    assert!(error.contains("stash count failed"));
    assert!(error.contains("index unreadable"));
    assert_eq!(error, "stash count failed; index unreadable");
}

#[test]
fn merge_tier1_batch_drops_a_result_for_a_path_with_no_row() {
    let mut state = AppState::default();

    let merged = state.merge_tier1_batch(vec![tier1("C:/work/ghost", true, 0)]);

    assert!(merged.is_empty());
    assert!(state.snapshot().is_empty());
}

#[test]
fn merge_tier1_batch_returns_exactly_what_the_map_now_holds() {
    let mut state = AppState::default();
    state.merge_tier0_batch(vec![row("C:/work/a"), row("C:/work/b")]);

    let merged = state.merge_tier1_batch(vec![tier1("C:/work/a", true, 0), tier1("C:/work/b", false, 0)]);

    assert_eq!(merged.len(), 2);
    let held = state.snapshot();
    for row in &merged {
        assert!(held.contains(row), "returned row is not what the map holds");
    }
}

#[test]
fn tier2_merge_leaves_the_earlier_tiers_alone() {
    let mut existing = row("C:/work/a");
    existing.upstream = Some("origin/main".into());
    existing.ahead = Some(2);
    existing.dirty = Some(true);
    existing.conflicted = Some(9);

    let merged = merge_tier2(&existing, tier2("C:/work/a"));

    assert_eq!(merged.upstream, Some("origin/main".into()));
    assert_eq!(merged.ahead, Some(2));
    assert_eq!(merged.dirty, Some(true));
    assert_eq!(merged.counts, Some(counts()));
    assert_eq!(merged.submodules, Some(Vec::new()));
}

#[test]
fn tier2_merge_does_not_write_the_tier1_conflicted_field() {
    let mut existing = row("C:/work/a");
    existing.conflicted = Some(9);

    let merged = merge_tier2(&existing, tier2("C:/work/a"));

    assert_eq!(merged.conflicted, Some(9), "still Tier 1's value");
    assert_eq!(merged.counts.expect("counts were merged").conflicted, 4);
}

#[test]
fn tier2_merge_never_touches_the_error_slot() {
    let mut existing = row("C:/work/a");
    existing.error = Some("stash count failed".into());
    let mut incoming = tier2("C:/work/a");
    incoming.error = Some("status iterator failed".into());

    let merged = merge_tier2(&existing, incoming);

    assert_eq!(merged.error, Some("stash count failed".into()));
}

#[test]
fn a_failed_tier2_read_merges_as_unknown_not_as_zero() {
    let existing = row("C:/work/a");
    let incoming = Tier2 {
        path: "C:/work/a".to_string(),
        counts: None,
        submodules: None,
        error: Some("index unreadable".into()),
    };

    let merged = merge_tier2(&existing, incoming);

    assert_eq!(merged.counts, None);
    assert_eq!(merged.submodules, None);
}

#[test]
fn an_empty_submodule_list_is_distinct_from_an_unread_one() {
    let existing = row("C:/work/a");
    let mut incoming = tier2("C:/work/a");
    incoming.submodules = Some(vec![SubmoduleStatus {
        name: "sub".into(),
        path: "sub".to_string(),
        recorded_id: None,
        head_id: None,
    }]);

    let listed = merge_tier2(&existing, incoming).submodules.expect("the list was read");
    assert_eq!(listed.len(), 1);
    assert_eq!(merge_tier2(&existing, tier2("C:/work/a")).submodules, Some(Vec::new()));
}

#[test]
fn invalidate_tier2_clears_the_counts_and_the_submodules() {
    let mut state = AppState::default();
    state.merge_tier0_batch(vec![row("C:/work/a"), row("C:/work/b")]);
    state.merge_tier2(tier2("C:/work/a"));
    state.merge_tier2(tier2("C:/work/b"));

    state.invalidate_tier2(&["C:/work/a".to_string()]);

    let cleared = state.row("C:/work/a").expect("the row is still here");
    assert_eq!(cleared.counts, None, "the counts are gone");
    assert_eq!(cleared.submodules, None, "and so is the submodule list");
    assert_eq!(
        state.row("C:/work/b").expect("b is untouched").counts,
        Some(counts()),
        "only the paths named are invalidated"
    );
}

#[test]
fn invalidate_tier2_leaves_every_other_tier_alone() {
    let mut state = AppState::default();
    let mut existing = row("C:/work/a");
    existing.dirty = Some(true);
    existing.conflicted = Some(2);
    state.merge_tier0_batch(vec![existing]);
    state.merge_tier2(tier2("C:/work/a"));

    state.invalidate_tier2(&["C:/work/a".to_string()]);

    let cleared = state.row("C:/work/a").expect("the row is still here");
    assert_eq!(cleared.dirty, Some(true), "Tier 1's flag is not Tier 2's");
    assert_eq!(cleared.conflicted, Some(2));
    assert_eq!(cleared.head, row("C:/work/a").head, "and neither is Tier 0's");
}

#[test]
fn invalidate_tier2_inserts_nothing_for_an_unknown_path() {
    let mut state = AppState::default();

    state.invalidate_tier2(&["C:/work/ghost".to_string()]);

    assert!(state.snapshot().is_empty());
}

#[test]
fn merge_tier2_drops_a_result_for_a_path_with_no_row() {
    let mut state = AppState::default();

    assert!(state.merge_tier2(tier2("C:/work/ghost")).is_none());
    assert!(state.snapshot().is_empty());
}

#[test]
fn discovered_is_a_superset_of_the_rows() {
    let mut state = AppState::default();
    state.record_found(&[found("C:/work/broken")]);

    assert!(!state.has_repo("C:/work/broken"), "no row exists");
    assert!(
        state.discovered("C:/work/broken").is_some(),
        "but the walk found it, so a refresh can retry it"
    );
    assert_eq!(
        state.discovered("C:/work/broken").expect("found").git_dir,
        "C:/work/broken/.git",
        "and the resolved git dir is what a per-row read needs"
    );
}

#[test]
fn remove_root_evicts_the_discovered_map_too() {
    let mut state = AppState::default();
    state.add_root("C:/work".to_string());
    state.record_found(&[found("C:/work/a")]);
    state.merge_tier0_batch(vec![row("C:/work/a")]);

    state.remove_root("C:/work");

    assert!(state.discovered("C:/work/a").is_none());
    assert!(!state.has_repo("C:/work/a"));
}

#[test]
fn restore_seeds_both_maps_without_touching_the_ages() {
    let mut state = AppState::default();
    let mut cached = row("C:/work/a");
    cached.scanned_at_ms = 42;

    state.restore(vec![cached], vec![found("C:/work/a")]);

    assert_eq!(state.row("C:/work/a").expect("restored").scanned_at_ms, 42);
    assert!(state.discovered("C:/work/a").is_some());
}

#[test]
fn retain_scanned_evicts_a_row_the_scan_did_not_see() {
    let mut state = AppState::default();
    state.add_root("C:/work".to_string());
    state.merge_tier0_batch(vec![row("C:/work/gone"), row("C:/work/still-here")]);

    let evicted = state.retain_scanned(&["C:/work".to_string()], &["C:/work/still-here".to_string()]);

    assert_eq!(evicted, vec!["C:/work/gone".to_string()]);
    assert!(!state.has_repo("C:/work/gone"));
    assert!(state.has_repo("C:/work/still-here"));
}

#[test]
fn retain_scanned_leaves_rows_under_a_root_it_did_not_walk() {
    let mut state = AppState::default();
    state.merge_tier0_batch(vec![row("C:/work/a"), row("C:/other/b")]);

    let evicted = state.retain_scanned(&["C:/work".to_string()], &["C:/work/a".to_string()]);

    assert!(evicted.is_empty());
    assert!(state.has_repo("C:/other/b"));
}

#[test]
fn retain_scanned_evicts_the_discovered_map_too() {
    let mut state = AppState::default();
    state.record_found(&[found("C:/work/gone")]);

    state.retain_scanned(&["C:/work".to_string()], &[]);

    assert!(state.discovered("C:/work/gone").is_none());
}

#[test]
fn a_cached_row_keeps_its_age_and_loses_its_counts() {
    let cached = RepoStatus {
        counts: Some(FileCounts::default()),
        submodules: Some(Vec::new()),
        dirty: Some(true),
        ..row("C:/work/alpha")
    };

    let loaded = without_tier2(cached.clone());

    assert_eq!(loaded.scanned_at_ms, cached.scanned_at_ms);
    assert_eq!(loaded.dirty, Some(true), "Tier 1 is cached, age and all");
    assert_eq!(loaded.counts, None);
    assert_eq!(loaded.submodules, None);
}

#[test]
fn a_failed_read_flags_the_row_and_keeps_everything_else() {
    let mut state = AppState::default();
    let mut existing = row("C:/work/a");
    existing.dirty = Some(true);
    state.merge_tier0_batch(vec![existing]);

    let flagged = state.record_errors(&[
        ScanError { path: "C:/work/a".to_string(), message: "cannot open".to_string() },
        ScanError { path: "C:/work/ghost".to_string(), message: "gone".to_string() },
    ]);

    assert_eq!(flagged.len(), 1);
    assert_eq!(flagged[0].error.as_deref(), Some("cannot open"));
    assert_eq!(flagged[0].dirty, Some(true));
    assert_eq!(state.row("C:/work/a").expect("kept").error.as_deref(), Some("cannot open"));
    assert!(!state.has_repo("C:/work/ghost"));
}

#[test]
fn the_snapshot_comes_back_in_path_order() {
    let mut state = AppState::default();
    state.merge_tier0_batch(vec![row("C:/work/b"), row("C:/work/a-b"), row("C:/work/a/c")]);

    let paths: Vec<String> = state.snapshot().into_iter().map(|row| row.path).collect();

    assert_eq!(paths, vec!["C:/work/a/c", "C:/work/a-b", "C:/work/b"]);
}
