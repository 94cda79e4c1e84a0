use std::sync::mpsc;
use std::time::Duration;

use repo_scan::discover::{found_repo, probe_plan, sort_found, Probe};
use repo_scan::error::ReadError;
use repo_scan::exe::{as_given, used_as_given};
use repo_scan::fetch::{FetchStatus, FetchSummary};
use repo_scan::pipeline::{count_fetch, tier0_events, updated};
use repo_scan::watch::{watches_from, WatchMode};
use repo_scan::model::{CommitSummary, DiscoveredRepo, Head, RepoKind, RepoState, ScanError, ScanEvent, ScanId};
use repo_scan::status::repo::StatusItem;
use repo_scan::status::tier0::{tier0_from_reads, tier0_row_of, HeadKind, HeadRead, Operation, Tracking};
use repo_scan::status::tier1::dirty_of;
use repo_scan::status::tier2::{change_of, StatusChange};
use repo_scan::stream::{batch_wait, fill_batch, Inbox};

fn alpha() -> DiscoveredRepo {
    DiscoveredRepo {
        path: "/work/alpha".into(),
        name: "alpha".into(),
        parent: "/work".into(),
        kind: RepoKind::Normal,
        git_dir: "/work/alpha/.git".into(),
        common_dir: "/work/alpha/.git".into(),
    }
}

#[test]
fn a_dot_git_is_asked_about_before_the_bare_shape() {
    assert_eq!(probe_plan(true, true, true, true), Probe::DotGit);
    assert_eq!(probe_plan(true, false, false, false), Probe::DotGit);
    assert_eq!(probe_plan(false, true, true, true), Probe::Bare);
    assert_eq!(probe_plan(false, true, true, false), Probe::Ordinary);
    assert_eq!(probe_plan(false, true, false, true), Probe::Ordinary);
    assert_eq!(probe_plan(false, false, true, true), Probe::Ordinary);
}

#[test]
fn a_found_repository_sits_in_its_parent_directory() {
    let nested = found_repo("/work/alpha".into(), RepoKind::Normal, "/work/alpha/.git".into(), "/work/alpha/.git".into());
    assert_eq!(nested.parent, "/work");
    assert_eq!(nested.name, "alpha");
    let top = found_repo("/alpha".into(), RepoKind::Bare, "/alpha".into(), "/alpha".into());
    assert_eq!(top.parent, "/");
}

#[test]
fn the_first_status_item_decides_the_dirty_flag() {
    assert!(matches!(dirty_of(None, "/g"), Ok(false)));
    assert!(matches!(dirty_of(Some(Ok(StatusItem::Staged)), "/g"), Ok(true)));
    assert!(matches!(dirty_of(Some(Ok(StatusItem::Worktree(None))), "/g"), Ok(true)));
    match dirty_of(Some(Err("walk failed".into())), "/g") {
        Err(ReadError::Worktree { path, what, message }) => {
            assert_eq!(path, "/g");
            assert_eq!(what, "status");
            assert_eq!(message, "walk failed");
        }
        other => panic!("expected a worktree failure, got {:?}", other.map_err(|e| e.message())),
    }
}

#[test]
fn a_status_item_is_counted_in_its_column() {
    assert_eq!(change_of(StatusItem::Staged), StatusChange::Staged);
    assert_eq!(change_of(StatusItem::Worktree(None)), StatusChange::Unreported);
}

#[test]
fn a_tier0_row_keeps_ahead_and_behind_apart() {
    let commit = CommitSummary { id: "abc".into(), summary: "tip".into(), author: "me".into(), time_ms: 5_000 };
    let failures = vec!["one".to_string(), "two".to_string()];
    let row = tier0_row_of(
        &alpha(),
        HeadKind::Symbolic,
        Some("main".into()),
        Some("abc".into()),
        Some("origin/main".into()),
        Some((2, 3)),
        Some(commit.clone()),
        4,
        Some(Operation::RebaseInteractive),
        Some(77),
        &failures,
        99,
    );
    assert_eq!(row.path, "/work/alpha");
    assert_eq!(row.parent, "/work");
    assert_eq!(row.head, Head::Branch { name: "main".into() });
    assert_eq!(row.upstream.as_deref(), Some("origin/main"));
    assert_eq!(row.ahead, Some(2));
    assert_eq!(row.behind, Some(3));
    assert_eq!(row.last_commit, Some(commit));
    assert_eq!(row.stash_count, 4);
    assert_eq!(row.state, RepoState::Rebasing);
    assert_eq!(row.last_fetched_ms, Some(77));
    assert_eq!(row.error.as_deref(), Some("one; two"));
    assert_eq!(row.scanned_at_ms, 99);
    assert_eq!(row.dirty, None);
    assert_eq!(row.counts, None);

    let detached = tier0_row_of(&alpha(), HeadKind::Detached, None, Some("abc".into()), None, None, None, 0, None, None, &Vec::new(), 1);
    assert_eq!(detached.head, Head::Detached { id: "abc".into() });
    assert_eq!(detached.ahead, None);
    assert_eq!(detached.behind, None);
    assert_eq!(detached.state, RepoState::Clean);
    assert_eq!(detached.error, None);
}

#[test]
fn a_batch_waits_only_while_it_has_room_and_time() {
    let left = Some(Duration::from_millis(30));
    assert_eq!(batch_wait(3, 25, left), left);
    assert_eq!(batch_wait(25, 25, left), None);
    assert_eq!(batch_wait(3, 25, None), None);
    assert_eq!(batch_wait(1, 0, left), None);
}

#[test]
fn a_batch_opens_with_its_first_item() {
    let (tx, rx) = mpsc::channel::<u32>();
    let mut rx = Inbox::new(rx);
    drop(tx);
    assert_eq!(fill_batch(&mut rx, None, 25, Duration::from_millis(10)), None);
    assert_eq!(fill_batch(&mut rx, Some(7), 25, Duration::from_millis(10)), Some(vec![7]));

    let (tx, rx) = mpsc::channel::<u32>();
    let mut rx = Inbox::new(rx);
    tx.send(8).unwrap();
    tx.send(9).unwrap();
    assert_eq!(fill_batch(&mut rx, Some(7), 2, Duration::from_millis(500)), Some(vec![7, 8]));
}

#[test]
fn found_repositories_come_back_in_path_order() {
    let at = |path: &str| found_repo(path.into(), RepoKind::Normal, format!("{path}/.git"), format!("{path}/.git"));
    let sorted = sort_found(vec![at("/work/b"), at("/work/a-b"), at("/work/a/z"), at("/work/a")]);
    let paths: Vec<&str> = sorted.iter().map(|repo| repo.path.as_str()).collect();
    assert_eq!(paths, vec!["/work/a", "/work/a/z", "/work/a-b", "/work/b"]);
}

#[test]
fn a_path_or_a_name_with_an_extension_is_run_as_named() {
    assert!(!as_given(1, false));
    assert!(as_given(2, false));
    assert!(as_given(1, true));
    assert!(!used_as_given("git"));
    assert!(used_as_given("/usr/bin/git"));
    assert!(used_as_given("tools/git"));
    assert!(used_as_given("git.exe"));
}

#[test]
fn a_fetch_pass_counts_every_outcome_once() {
    let statuses = [
        FetchStatus::Succeeded,
        FetchStatus::Failed,
        FetchStatus::TooSoon,
        FetchStatus::Succeeded,
        FetchStatus::NoRemote,
        FetchStatus::Cancelled,
        FetchStatus::Network,
    ];
    let mut summary = FetchSummary::default();
    for status in statuses {
        count_fetch(&mut summary, status);
    }
    assert_eq!(summary.attempted + summary.skipped, statuses.len() as u32);
    assert_eq!(summary.attempted, summary.succeeded + summary.failed);
    assert_eq!(summary.succeeded, 2);
}

#[test]
fn the_watch_set_keeps_exactly_the_candidates_that_exist() {
    let linked = DiscoveredRepo {
        git_dir: "/r/.git/worktrees/w".into(),
        common_dir: "/r/.git".into(),
        ..alpha()
    };
    let watches = watches_from(&linked, &[true, false, true, true, true, false]);
    let paths: Vec<(&str, WatchMode)> = watches.iter().map(|(p, m)| (p.as_str(), *m)).collect();
    assert_eq!(
        paths,
        vec![
            ("/r/.git/worktrees/w", WatchMode::NonRecursive),
            ("/r/.git/worktrees/w/logs/HEAD", WatchMode::NonRecursive),
            ("/r/.git", WatchMode::NonRecursive),
            ("/r/.git/refs", WatchMode::Recursive),
        ]
    );
    let plain = watches_from(&alpha(), &[true, true, false]);
    assert_eq!(plain.len(), 2);
    assert_eq!(plain[1], ("/work/alpha/.git/refs".to_string(), WatchMode::Recursive));
}

/// A configured absolute path is not a `PATH` lookup and must not be turned into one.
#[test]
fn exe_a_program_given_as_a_path_is_used_as_given() {
    assert!(used_as_given("C:/Program Files/Editor/editor.exe"));
}

/// The same rule, as the open command resolves its configured tools.
#[test]
fn open_a_program_given_as_a_path_is_used_as_given() {
    assert!(used_as_given("C:/Program Files/Editor/editor.exe"));
}

#[test]
fn a_batch_says_what_failed_what_merged_and_how_far_the_scan_is() {
    let quiet = tier0_events(ScanId(7), Vec::new(), Vec::new(), 3, 2);
    assert_eq!(quiet, vec![ScanEvent::Progress { scan_id: ScanId(7), found: 3, read: 2 }]);

    let failure = ScanError { path: "/work/broken".into(), message: "no HEAD".into() };
    let noisy = tier0_events(ScanId(7), vec![failure.clone()], Vec::new(), 3, 2);
    assert_eq!(
        noisy,
        vec![
            ScanEvent::RepoErrors { scan_id: ScanId(7), errors: vec![failure] },
            ScanEvent::Progress { scan_id: ScanId(7), found: 3, read: 2 },
        ]
    );
    assert!(updated(ScanId(7), Vec::new()).is_empty());
}

#[test]
fn a_tier0_row_is_built_from_what_the_reads_gave() {
    let tip = gix::ObjectId::from_hex(b"0123456789abcdef0123456789abcdef01234567").expect("an id");
    let branch = gix::refs::FullName::try_from("refs/heads/feature/x").expect("a ref name");
    let head = HeadRead { kind: HeadKind::Symbolic, tip: Some(tip), branch: Some(branch) };
    let failed = ReadError::Refs { path: "/work/alpha/.git".into(), what: "tip commit".into(), message: "gone".into() };
    let expected_error = failed.message();
    let row = tier0_from_reads(
        &alpha(),
        &head,
        Ok(Some(Tracking { name: "origin/feature/x".into(), id: None })),
        None,
        Some(Err(failed)),
        Ok(2),
        None,
        Some(10),
        20,
    );
    assert_eq!(row.head, Head::Branch { name: "feature/x".into() });
    assert_eq!(row.upstream.as_deref(), Some("origin/feature/x"));
    assert_eq!(row.ahead, None);
    assert_eq!(row.behind, None);
    assert_eq!(row.last_commit, None);
    assert_eq!(row.stash_count, 2);
    assert_eq!(row.error, Some(expected_error));
    assert_eq!(row.last_fetched_ms, Some(10));

    let detached = HeadRead { kind: HeadKind::Detached, tip: Some(tip), branch: None };
    let row = tier0_from_reads(&alpha(), &detached, Ok(None), None, None, Err(ReadError::Io("stash".into())), None, None, 1);
    assert_eq!(row.head, Head::Detached { id: "0123456789abcdef0123456789abcdef01234567".into() });
    assert_eq!(row.stash_count, 0);
    assert!(row.error.is_some());
}
