use std::collections::HashMap;
use std::io::Write;
use std::path::{Path, PathBuf};
use std::sync::atomic::{AtomicBool, AtomicU64, Ordering};
use std::sync::{Arc, OnceLock};

use repo_scan::discover::{classify, found_repo};
use repo_scan::model::{DiscoveredRepo, FileCounts, Head, RepoKind, RepoState, RepoStatus, Tier};
use repo_scan::refresh::{read_full, refresh_one};
use repo_scan::state::AppState;
use repo_scan::status::tier0::{ahead_behind, read_tier0, AHEAD_BEHIND_CAP};
use repo_scan::status::tier1::{read_tier1, Tier1};
use repo_scan::status::tier2::{read_tier2, Tier2};
use tempfile::TempDir;

/// Arguments prepended to every `git` invocation, so the developer's own configuration cannot
/// change the shape of the tree and a local submodule is allowed.
const BASE_ARGS: &[&str] = &[
    "-c",
    "init.defaultBranch=main",
    "-c",
    "user.name=repo-scan tests",
    "-c",
    "user.email=tests@example.invalid",
    "-c",
    "commit.gpgsign=false",
    "-c",
    "protocol.file.allow=always",
];

/// The fixture tree, deleted when this is dropped.
struct Fixture {
    _dir: TempDir,
    root: PathBuf,
}

/// Run `git` in `cwd`, with the developer's own configuration shut out. Returns whether it
/// succeeded and what it printed.
/// A commit date one second after the last one handed out. Every commit the fixtures make
/// gets its own second, as commits made by hand do; histories whose commits share a
/// timestamp are ordered by the walk in ways no real repository shows.
fn next_date() -> String {
    static CLOCK: AtomicU64 = AtomicU64::new(1_700_000_000);
    format!("@{} +0000", CLOCK.fetch_add(1, Ordering::Relaxed))
}

fn run(cwd: &Path, args: &[&str]) -> (bool, String) {
    let missing_config = cwd.join("no-such-gitconfig");
    let date = next_date();
    let child = gix::command::prepare("git")
        .arg("-C")
        .arg(cwd)
        .args(BASE_ARGS.iter().copied())
        .args(args.iter().copied())
        .env("GIT_CONFIG_GLOBAL", missing_config.as_os_str())
        .env("GIT_CONFIG_SYSTEM", missing_config.as_os_str())
        .env("GIT_TERMINAL_PROMPT", "0")
        .env("GIT_AUTHOR_DATE", &date)
        .env("GIT_COMMITTER_DATE", &date)
        .stderr(tempfile::tempfile().expect("a file for git's chatter").into())
        .spawn()
        .expect("run git — the fixtures need it on PATH");
    let output = child.wait_with_output().expect("wait for git");
    (output.status.success(), String::from_utf8_lossy(&output.stdout).into_owned())
}

fn git(cwd: &Path, args: &[&str]) {
    assert!(run(cwd, args).0, "git {args:?} in {} failed", cwd.display());
}

/// For the operations whose whole point is to stop half-way: a conflicting revert,
/// cherry-pick or rebase is what parks the state being tested.
fn git_may_fail(cwd: &Path, args: &[&str]) {
    let _ = run(cwd, args);
}

/// What `git` printed, untrimmed: a leading space in porcelain output is data.
fn git_out_raw(cwd: &Path, args: &[&str]) -> String {
    let (ok, out) = run(cwd, args);
    assert!(ok, "git {args:?} in {} failed", cwd.display());
    out
}

fn git_out(cwd: &Path, args: &[&str]) -> String {
    git_out_raw(cwd, args).trim().to_string()
}

/// Write `contents` to `path`, replacing whatever is there.
fn write(path: &Path, contents: &str) {
    let dir = path.parent().expect("a file has a directory");
    let mut file = tempfile::NamedTempFile::new_in(dir).expect("create a file");
    file.write_all(contents.as_bytes()).expect("write fixture file");
    file.persist(path).expect("put the file in place");
}

/// Create the directory `name` inside `parent`.
fn make_dir(parent: &Path, name: &str) -> PathBuf {
    tempfile::Builder::new()
        .prefix(name)
        .rand_bytes(0)
        .tempdir_in(parent)
        .expect("create a directory")
        .keep()
}

fn commit(repo: &Path, file: &str) {
    write(&repo.join(file), "fixture\n");
    git(repo, &["add", file]);
    git(repo, &["commit", "-m", "fixture"]);
}

fn write_commit(repo: &Path, file: &str, contents: &str, message: &str) {
    write(&repo.join(file), contents);
    git(repo, &["add", file]);
    git(repo, &["commit", "-m", message]);
}

/// The tree, built once per test binary.
fn tree() -> &'static Fixture {
    static TREE: OnceLock<Fixture> = OnceLock::new();
    TREE.get_or_init(build)
}

/// Every repository the tree holds at its top level.
const NAMES: &[&str] = &[
    "origin.git",
    "seed",
    "pusher",
    "synced",
    "ahead",
    "behind",
    "diverged",
    "merged",
    "crisscross",
    "noupstream",
    "gone",
    "detached",
    "taggedhead",
    "unborn",
    "stashed",
    "merging",
    "reverting",
    "cherrypicking",
    "bisecting",
    "rebasing",
    "bare.git",
    "wt",
    "untracked",
    "stagedonly",
    "unstaged",
    "conflicted",
    "counts",
    "intentadd",
    "stagedthenmodified",
    "renamed",
    "untrackeddir",
    "submodnone",
    "submodparent",
];

fn build() -> Fixture {
    let dir = TempDir::new().expect("create temp dir");
    let root = dir.path().canonicalize().expect("canonicalise temp dir");

    git(&root, &["init", "--bare", "origin.git"]);
    let origin = root.join("origin.git").to_string_lossy().replace('\\', "/");

    let seed = make_dir(&root, "seed");
    git(&seed, &["init"]);
    commit(&seed, "a.txt");
    git(&seed, &["remote", "add", "origin", &origin]);
    commit(&seed, "b.txt");
    git(&seed, &["push", "-u", "origin", "main"]);

    for name in [
        "synced",
        "ahead",
        "behind",
        "diverged",
        "merged",
        "crisscross",
        "gone",
        "detached",
        "taggedhead",
    ] {
        git(&root, &["clone", &origin, name]);
    }

    let ahead = root.join("ahead");
    commit(&ahead, "local-1.txt");
    commit(&ahead, "local-2.txt");

    for file in ["up-1.txt", "up-2.txt", "up-3.txt"] {
        commit(&seed, file);
    }
    git(&seed, &["push", "origin", "main"]);
    git(&root.join("behind"), &["fetch"]);

    let diverged = root.join("diverged");
    commit(&diverged, "local-1.txt");
    commit(&diverged, "local-2.txt");
    git(&diverged, &["fetch"]);

    let merged = root.join("merged");
    commit(&merged, "local-1.txt");
    git(&merged, &["fetch"]);
    git(&merged, &["merge", "--no-edit", "origin/main"]);

    build_crisscross(&root, &origin);

    git(&root, &["init", "noupstream"]);
    commit(&root.join("noupstream"), "a.txt");

    git(&root.join("gone"), &["update-ref", "-d", "refs/remotes/origin/main"]);
    git(&root.join("detached"), &["checkout", "--detach", "HEAD~1"]);

    let tagged = root.join("taggedhead");
    git(&tagged, &["tag", "-a", "v1", "-m", "annotated"]);
    let tag_id = git_out(&tagged, &["rev-parse", "v1"]);
    write(&tagged.join(".git").join("HEAD"), &format!("{tag_id}\n"));

    git(&root, &["init", "unborn"]);

    git(&root, &["init", "stashed"]);
    let stashed = root.join("stashed");
    commit(&stashed, "a.txt");
    for contents in ["one\n", "two\n"] {
        write(&stashed.join("a.txt"), contents);
        git(&stashed, &["stash", "push", "-m", "fixture"]);
    }

    build_parked_states(&root);
    build_worktree_states(&root, &origin);

    git(&root, &["init", "--bare", "bare.git"]);
    git(&root.join("behind"), &["worktree", "add", "../wt"]);

    Fixture { _dir: dir, root }
}

/// A history with two merge bases: each side merges the other's first commit.
fn build_crisscross(root: &Path, origin: &str) {
    let local = root.join("crisscross");
    let pusher = root.join("pusher");

    commit(&local, "local-1.txt");
    git(&local, &["push", "origin", "main:refs/heads/side"]);

    git(root, &["clone", origin, "pusher"]);
    commit(&pusher, "pusher-1.txt");
    git(&pusher, &["push", "origin", "main"]);

    git(&local, &["fetch"]);
    git(&local, &["merge", "--no-edit", "origin/main"]);

    git(&pusher, &["fetch"]);
    git(&pusher, &["merge", "--no-edit", "origin/side"]);
    git(&pusher, &["push", "origin", "main"]);

    git(&local, &["fetch"]);
    commit(&local, "local-2.txt");
}

/// One repository per parked operation.
fn build_parked_states(root: &Path) {
    git(root, &["init", "merging"]);
    let merging = root.join("merging");
    commit(&merging, "base.txt");
    git(&merging, &["checkout", "-b", "other"]);
    commit(&merging, "other.txt");
    git(&merging, &["checkout", "main"]);
    commit(&merging, "main.txt");
    git(&merging, &["merge", "--no-commit", "--no-ff", "other"]);

    for name in ["reverting", "cherrypicking", "rebasing"] {
        git(root, &["init", name]);
        let repo = root.join(name);
        write_commit(&repo, "c.txt", "base\n", "base");
        git(&repo, &["checkout", "-b", "side"]);
        write_commit(&repo, "c.txt", "side\n", "side");
        git(&repo, &["checkout", "main"]);
        write_commit(&repo, "c.txt", "main-one\n", "main one");
        write_commit(&repo, "c.txt", "main-two\n", "main two");
        match name {
            "reverting" => git_may_fail(&repo, &["revert", "HEAD~1"]),
            "cherrypicking" => git_may_fail(&repo, &["cherry-pick", "side"]),
            _ => {
                git(&repo, &["checkout", "side"]);
                git_may_fail(&repo, &["rebase", "main"]);
            }
        }
    }

    git(root, &["init", "bisecting"]);
    let bisecting = root.join("bisecting");
    commit(&bisecting, "a.txt");
    let first = git_out(&bisecting, &["rev-parse", "HEAD"]);
    commit(&bisecting, "b.txt");
    commit(&bisecting, "c.txt");
    git(&bisecting, &["bisect", "start"]);
    git(&bisecting, &["bisect", "bad"]);
    git_may_fail(&bisecting, &["bisect", "good", &first]);
}

/// The worktree states Tier 1 and Tier 2 are read from.
fn build_worktree_states(root: &Path, origin: &str) {
    for name in [
        "untracked",
        "stagedonly",
        "unstaged",
        "conflicted",
        "counts",
        "intentadd",
        "stagedthenmodified",
        "renamed",
        "untrackeddir",
        "submodnone",
        "submodparent",
    ] {
        git(root, &["clone", origin, name]);
    }

    write(&root.join("untracked").join("new.txt"), "untracked\n");

    let staged = root.join("stagedonly");
    write(&staged.join("staged.txt"), "staged\n");
    git(&staged, &["add", "staged.txt"]);

    write(&root.join("unstaged").join("a.txt"), "modified\n");

    let conflicted = root.join("conflicted");
    for file in ["c1.txt", "c2.txt"] {
        write(&conflicted.join(file), "base\n");
    }
    git(&conflicted, &["add", "c1.txt", "c2.txt"]);
    git(&conflicted, &["commit", "-m", "conflict base"]);
    git(&conflicted, &["checkout", "-b", "other"]);
    for file in ["c1.txt", "c2.txt"] {
        write(&conflicted.join(file), "theirs\n");
    }
    git(&conflicted, &["add", "c1.txt", "c2.txt"]);
    git(&conflicted, &["commit", "-m", "theirs"]);
    git(&conflicted, &["checkout", "main"]);
    for file in ["c1.txt", "c2.txt"] {
        write(&conflicted.join(file), "ours\n");
    }
    git(&conflicted, &["add", "c1.txt", "c2.txt"]);
    git(&conflicted, &["commit", "-m", "ours"]);
    git_may_fail(&conflicted, &["merge", "other"]);

    let counts = root.join("counts");
    write(&counts.join("a.txt"), "modified\n");
    write(&counts.join("added.txt"), "added\n");
    git(&counts, &["add", "added.txt"]);
    write(&counts.join("loose.txt"), "untracked\n");

    let intent = root.join("intentadd");
    write(&intent.join("promised.txt"), "promised\n");
    git(&intent, &["add", "-N", "promised.txt"]);

    let twice = root.join("stagedthenmodified");
    write(&twice.join("a.txt"), "staged\n");
    git(&twice, &["add", "a.txt"]);
    write(&twice.join("a.txt"), "and then modified\n");

    git(&root.join("renamed"), &["mv", "a.txt", "renamed.txt"]);

    let nested = make_dir(&root.join("untrackeddir"), "fresh");
    for file in ["one.txt", "two.txt", "three.txt"] {
        write(&nested.join(file), "untracked\n");
    }

    let parent = root.join("submodparent");
    git(&parent, &["submodule", "add", origin, "sub"]);
    git(&parent, &["commit", "-m", "add submodule"]);
}

/// Canonical, as discovery reports every path.
fn canonical(path: &str) -> String {
    Path::new(path)
        .canonicalize()
        .unwrap_or_else(|err| panic!("canonicalise {path}: {err}"))
        .to_string_lossy()
        .into_owned()
}

/// The repository at `path`, classified and canonicalised as discovery reports it.
fn discovered(path: &Path) -> DiscoveredRepo {
    let text = path.to_string_lossy().into_owned();
    let found = classify(&text)
        .unwrap_or_else(|err| panic!("{text} could not be classified: {err}"))
        .unwrap_or_else(|| panic!("{text} is not a repository"));
    found_repo(text, found.kind, canonical(&found.git_dir), canonical(&found.common_dir))
}

/// The fixture repository `name`.
fn repo(name: &str) -> DiscoveredRepo {
    discovered(&tree().root.join(name))
}

/// Every repository in the tree.
fn all_repos() -> Vec<DiscoveredRepo> {
    NAMES.iter().map(|name| repo(name)).collect()
}

/// Tier 0 for every repository in the tree, keyed by name.
fn rows() -> HashMap<String, RepoStatus> {
    all_repos()
        .iter()
        .map(|found| {
            let row = read_tier0(found)
                .unwrap_or_else(|err| panic!("Tier 0 failed for {}: {}", found.path, err.message()));
            (found.name.clone(), row)
        })
        .collect()
}

fn row<'a>(rows: &'a HashMap<String, RepoStatus>, name: &str) -> &'a RepoStatus {
    rows.get(name).unwrap_or_else(|| panic!("no `{name}` row"))
}

/// Git's own ahead/behind for a repository: `rev-list --left-right --count` prints the left
/// side (what HEAD has and upstream does not) first.
fn oracle(rows: &HashMap<String, RepoStatus>, name: &str) -> (u32, u32) {
    let path = PathBuf::from(&row(rows, name).path);
    let counts = git_out(&path, &["rev-list", "--left-right", "--count", "HEAD...@{upstream}"]);
    let mut parts = counts.split_whitespace();
    let ahead = parts.next().expect("ahead count").parse().expect("a number");
    let behind = parts.next().expect("behind count").parse().expect("a number");
    (ahead, behind)
}

#[test]
fn ahead_behind_matches_git_rev_list() {
    let rows = rows();

    let mut compared = 0;
    for (name, status) in &rows {
        if status.upstream.is_none() || status.ahead.is_none() {
            continue;
        }
        let (ahead, behind) = oracle(&rows, name);
        assert_eq!(
            (status.ahead, status.behind),
            (Some(ahead), Some(behind)),
            "`{name}` disagrees with git rev-list"
        );
        compared += 1;
    }
    assert!(compared >= 6, "only {compared} rows were compared against the oracle");

    assert_eq!(row(&rows, "ahead").ahead, Some(2));
    assert_eq!(row(&rows, "ahead").behind, Some(0));
    assert_eq!(row(&rows, "behind").ahead, Some(0));
    assert_eq!(row(&rows, "behind").behind, Some(3));
    assert_eq!(row(&rows, "diverged").ahead, Some(2));
    assert_eq!(row(&rows, "diverged").behind, Some(3));
}

#[test]
fn a_merge_from_upstream_is_not_overcounted() {
    let rows = rows();
    let merged = row(&rows, "merged");

    assert_eq!(merged.behind, Some(0), "upstream is fully merged in");
    assert_eq!(merged.ahead, Some(2), "only the local commit and the merge itself are ahead");
}

#[test]
fn a_criss_cross_merge_is_counted_correctly() {
    let rows = rows();
    let crisscross = row(&rows, "crisscross");

    let bases = git_out(
        Path::new(&crisscross.path),
        &["merge-base", "--all", "HEAD", "@{upstream}"],
    );
    assert_eq!(bases.lines().count(), 2, "the fixture should have two merge bases, got:\n{bases}");

    let (ahead, behind) = oracle(&rows, "crisscross");
    assert_eq!(crisscross.ahead, Some(ahead));
    assert_eq!(crisscross.behind, Some(behind));
    assert!(ahead > 0 && behind > 0, "both sides should have unique commits, got {ahead}/{behind}");
}

#[test]
fn the_walk_is_capped() {
    let found = repo("ahead");
    let repo = gix::open(&found.git_dir).expect("open the ahead fixture");

    let local = repo.head_id().expect("local tip").detach();
    let upstream = repo
        .find_reference("refs/remotes/origin/main")
        .expect("tracking ref")
        .into_fully_peeled_id()
        .expect("peel the tracking ref")
        .detach();

    let (ahead, behind) = ahead_behind(&repo, &found.git_dir, &local, &upstream, 1)
        .unwrap_or_else(|err| panic!("count with a cap of one: {}", err.message()));
    assert_eq!((ahead.count, behind.count), (1, 0), "the walk stops at the cap");

    let (ahead, behind) = ahead_behind(&repo, &found.git_dir, &local, &upstream, 10)
        .unwrap_or_else(|err| panic!("count with room to spare: {}", err.message()));
    assert_eq!((ahead.count, behind.count), (2, 0), "below the cap the count is exact");

    assert_eq!(AHEAD_BEHIND_CAP, 1000);
}

#[test]
fn an_equal_upstream_is_zero_and_not_unknown() {
    let rows = rows();
    let synced = row(&rows, "synced");

    assert_eq!(synced.ahead, Some(0));
    assert_eq!(synced.behind, Some(0));
    assert_eq!(synced.upstream.as_deref(), Some("origin/main"));
}

#[test]
fn no_upstream_leaves_the_counts_unknown() {
    let rows = rows();
    let noupstream = row(&rows, "noupstream");

    assert_eq!(noupstream.upstream, None);
    assert_eq!(noupstream.ahead, None);
    assert_eq!(noupstream.behind, None);
}

#[test]
fn a_missing_tracking_ref_reports_the_name_but_no_counts() {
    let rows = rows();
    let gone = row(&rows, "gone");

    assert_eq!(gone.upstream.as_deref(), Some("origin/main"));
    assert_eq!(gone.ahead, None);
    assert_eq!(gone.behind, None);
    assert_eq!(gone.error, None, "a deleted tracking ref is a state, not a failure");
}

#[test]
fn head_shapes_are_reported() {
    let rows = rows();

    assert_eq!(
        row(&rows, "synced").head,
        Head::Branch { name: "main".to_string() },
        "the short branch name, not refs/heads/main"
    );
    assert_eq!(row(&rows, "unborn").head, Head::Unborn);

    let detached = row(&rows, "detached");
    let expected = git_out(Path::new(&detached.path), &["rev-parse", "HEAD"]);
    assert_eq!(detached.head, Head::Detached { id: expected });
}

#[test]
fn a_detached_tag_checkout_reports_the_commit_not_the_tag() {
    let rows = rows();
    let tagged = row(&rows, "taggedhead");
    let path = Path::new(&tagged.path);

    let tag = git_out(path, &["rev-parse", "v1"]);
    let commit = git_out(path, &["rev-parse", "v1^{commit}"]);
    assert_ne!(tag, commit, "the fixture needs an annotated tag");

    assert_eq!(tagged.head, Head::Detached { id: commit });
}

#[test]
fn the_tip_commit_uses_author_time_and_the_message_summary() {
    let rows = rows();
    let synced = row(&rows, "synced");
    let path = Path::new(&synced.path);

    let commit = synced.last_commit.as_ref().expect("a tip commit");
    assert_eq!(commit.id, git_out(path, &["rev-parse", "HEAD"]));
    assert_eq!(commit.summary, "fixture");
    assert_eq!(commit.author, "repo-scan tests");

    let author_seconds: u64 =
        git_out(path, &["log", "-1", "--format=%at"]).parse().expect("author time");
    assert_eq!(commit.time_ms, author_seconds * 1_000);
}

#[test]
fn an_unborn_head_has_no_tip_commit() {
    let rows = rows();
    let unborn = row(&rows, "unborn");

    assert_eq!(unborn.head, Head::Unborn);
    assert_eq!(unborn.last_commit, None);
    assert_eq!(unborn.error, None, "an unborn branch is not a failure");
}

#[test]
fn stash_entries_are_counted() {
    let rows = rows();

    assert_eq!(row(&rows, "stashed").stash_count, 2);
    assert_eq!(row(&rows, "synced").stash_count, 0, "no refs/stash at all");
}

#[test]
fn every_in_progress_state_is_mapped() {
    let rows = rows();

    assert_eq!(row(&rows, "synced").state, RepoState::Clean);
    assert_eq!(row(&rows, "merging").state, RepoState::Merging);
    assert_eq!(row(&rows, "bisecting").state, RepoState::Bisecting);
    assert_eq!(row(&rows, "cherrypicking").state, RepoState::CherryPicking);
    assert_eq!(row(&rows, "rebasing").state, RepoState::Rebasing);
    assert_eq!(row(&rows, "reverting").state, RepoState::Reverting);
}

#[test]
fn last_fetched_comes_from_the_common_directory() {
    let rows = rows();

    assert!(row(&rows, "behind").last_fetched_ms.is_some(), "behind/ was fetched during setup");
    assert!(
        row(&rows, "wt").last_fetched_ms.is_some(),
        "a linked worktree shares its parent's FETCH_HEAD"
    );
    assert_eq!(row(&rows, "noupstream").last_fetched_ms, None);
}

#[test]
fn a_linked_worktree_has_its_own_head() {
    let rows = rows();
    let worktree = row(&rows, "wt");

    assert_eq!(worktree.kind, RepoKind::LinkedWorktree);
    assert_eq!(worktree.head, Head::Branch { name: "wt".to_string() });
    assert_eq!(row(&rows, "ahead").head, Head::Branch { name: "main".to_string() });
}

#[test]
fn a_bare_repository_reads_tier_0_and_leaves_the_later_tiers_unknown() {
    let rows = rows();
    let bare = row(&rows, "bare.git");

    assert_eq!(bare.kind, RepoKind::Bare);
    assert_eq!(bare.state, RepoState::Clean);
    assert_eq!(bare.stash_count, 0);
    assert_eq!(bare.error, None);
    assert_eq!(bare.dirty, None);
    assert_eq!(bare.conflicted, None);
    assert_eq!(bare.counts, None);
}

#[test]
fn tier_0_leaves_every_later_tier_unknown() {
    let rows = rows();

    for (name, status) in &rows {
        assert_eq!(status.dirty, None, "`{name}` computed a Tier 1 dirty flag");
        assert_eq!(status.conflicted, None, "`{name}` computed a Tier 1 count");
        assert_eq!(status.counts, None, "`{name}` computed Tier 2 counts");
        assert_eq!(status.submodules, None, "`{name}` computed a Tier 2 submodule list");
    }
}

#[test]
fn a_repository_that_cannot_be_opened_produces_no_row() {
    let root = tree().root.to_string_lossy().into_owned();
    let bogus = DiscoveredRepo {
        path: format!("{root}/notrepo"),
        name: "notrepo".to_string(),
        parent: root.clone(),
        kind: RepoKind::Normal,
        git_dir: format!("{root}/notrepo/.git"),
        common_dir: format!("{root}/notrepo/.git"),
    };

    let failure = read_tier0(&bogus).expect_err("a non-repository cannot produce a row");
    let message = failure.message();
    assert!(message.contains("notrepo"), "the failure should name the path, got: {message}");
}

// Tier 1

/// Tier 1 for one named repository, with a flag of its own.
fn tier1(name: &str) -> Option<Tier1> {
    read_tier1(&repo(name), &Arc::new(AtomicBool::new(false)))
        .unwrap_or_else(|err| panic!("Tier 1 failed for {name}: {}", err.message()))
}

fn tier1_row(name: &str) -> Tier1 {
    tier1(name).unwrap_or_else(|| panic!("{name} was skipped as having no worktree"))
}

#[test]
fn a_repo_whose_only_change_is_an_untracked_file_is_dirty() {
    assert!(tier1_row("untracked").dirty, "an untracked file is a change");
}

#[test]
fn a_repo_whose_only_change_is_staged_is_dirty() {
    assert!(tier1_row("stagedonly").dirty, "a staged change is uncommitted work");
}

#[test]
fn a_repo_with_an_unstaged_modification_is_dirty() {
    assert!(tier1_row("unstaged").dirty);
}

#[test]
fn an_untouched_clone_is_clean() {
    let synced = tier1_row("synced");
    assert!(!synced.dirty, "a pristine clone has nothing uncommitted");
    assert_eq!(synced.conflicted, 0);
    assert_eq!(synced.error, None);
}

#[test]
fn tier1_a_conflicted_merge_counts_files_not_index_entries() {
    let conflicted = tier1_row("conflicted");
    assert_eq!(conflicted.conflicted, 2, "two files conflict; six index entries describe them");
    assert!(conflicted.dirty, "a parked conflict is uncommitted work");
}

#[test]
fn an_unconflicted_repo_reports_zero_conflicts() {
    assert_eq!(tier1_row("untracked").conflicted, 0);
}

#[test]
fn a_bare_repository_is_skipped_rather_than_reported_clean() {
    assert_eq!(repo("bare.git").kind, RepoKind::Bare);
    assert!(tier1("bare.git").is_none(), "a bare repository must produce no Tier 1 row");
}

#[test]
fn a_linked_worktree_reads_tier_1() {
    assert!(tier1("wt").is_some());
}

#[test]
fn every_worktree_repository_is_read() {
    let found = all_repos();
    let mut rows = 0;
    let mut bare = 0;
    for repo in &found {
        match read_tier1(repo, &Arc::new(AtomicBool::new(false))) {
            Ok(Some(read)) => {
                assert_eq!(read.path, repo.path);
                rows += 1;
            }
            Ok(None) => bare += 1,
            Err(err) => panic!("unexpected Tier 1 failure: {}", err.message()),
        }
    }
    let with_worktree = found.iter().filter(|repo| repo.kind != RepoKind::Bare).count();
    assert_eq!(rows, with_worktree);
    assert_eq!(rows + bare, found.len());
}

#[test]
fn the_dirty_flag_matches_git_status() {
    for repo in &all_repos() {
        if repo.kind == RepoKind::Bare {
            continue;
        }
        let porcelain = git_out(Path::new(&repo.path), &["status", "--porcelain"]);
        let expected = !porcelain.trim().is_empty();
        let read = read_tier1(repo, &Arc::new(AtomicBool::new(false)))
            .unwrap_or_else(|err| panic!("Tier 1 failed: {}", err.message()))
            .expect("a non-bare repository is read");

        assert_eq!(
            read.dirty, expected,
            "dirty flag disagrees with `git status --porcelain` for {}:\n{porcelain}",
            repo.path
        );
    }
}

// Tier 2

fn read(name: &str) -> Tier2 {
    read_tier2(&repo(name), &Arc::new(AtomicBool::new(false)))
        .unwrap_or_else(|err| panic!("Tier 2 failed for {name}: {}", err.message()))
        .unwrap_or_else(|| panic!("{name} was skipped as having no worktree"))
}

fn counts(name: &str) -> FileCounts {
    read(name).counts.unwrap_or_else(|| panic!("no counts for {name}"))
}

#[test]
fn the_two_tiers_agree_on_the_conflicted_count() {
    let repo = repo("conflicted");
    let flag = Arc::new(AtomicBool::new(false));

    let tier1 = read_tier1(&repo, &flag)
        .unwrap_or_else(|err| panic!("Tier 1: {}", err.message()))
        .expect("it has a worktree");
    let tier2 = read_tier2(&repo, &flag)
        .unwrap_or_else(|err| panic!("Tier 2: {}", err.message()))
        .expect("it has a worktree")
        .counts
        .expect("with counts");

    assert_eq!(tier1.conflicted, tier2.conflicted);
}

#[test]
fn a_linked_worktree_reads_tier_2() {
    let worktree = repo("wt");
    assert_eq!(worktree.kind, RepoKind::LinkedWorktree);

    let read = read_tier2(&worktree, &Arc::new(AtomicBool::new(false)))
        .unwrap_or_else(|err| panic!("a linked worktree reads: {}", err.message()))
        .expect("and is not skipped");

    assert!(read.counts.is_some());
    assert_eq!(read.error, None);
}

#[test]
fn cancellation_leaves_the_counts_unknown_rather_than_zero() {
    let flag = Arc::new(AtomicBool::new(false));
    flag.store(true, Ordering::Relaxed);
    let read = read_tier2(&repo("counts"), &flag)
        .unwrap_or_else(|err| panic!("cancelling is not a total failure: {}", err.message()))
        .expect("the repository has a worktree");

    if read.counts.is_none() {
        assert!(read.error.is_some(), "an absent count says why");
    }
}

#[test]
fn the_counts_match_git_status() {
    let flag = Arc::new(AtomicBool::new(false));

    for repo in &all_repos() {
        if repo.kind == RepoKind::Bare {
            continue;
        }
        let read = read_tier2(repo, &flag)
            .unwrap_or_else(|err| panic!("Tier 2 failed for {}: {}", repo.path, err.message()))
            .expect("a non-bare repository is not skipped");
        let counted = read.counts.unwrap_or_else(|| panic!("no counts for {}", repo.path));

        let porcelain = git_out_raw(Path::new(&repo.path), &["status", "--porcelain"]);
        let expected = parse_porcelain(&porcelain);

        assert_eq!(
            counted, expected,
            "counts disagree with `git status --porcelain` for {}:\n{porcelain}",
            repo.path
        );
    }
}

/// `git status --porcelain` as the four column totals: the first two characters are the
/// index and worktree status of one path, except for the unmerged codes, which all mean
/// "conflicted".
fn parse_porcelain(output: &str) -> FileCounts {
    let mut counts = FileCounts::default();

    for line in output.lines() {
        if line.len() < 2 {
            continue;
        }
        let mut chars = line.chars();
        let index = chars.next().unwrap_or(' ');
        let worktree = chars.next().unwrap_or(' ');

        match (index, worktree) {
            ('?', '?') => counts.untracked += 1,
            ('!', '!') => {}
            ('U', _) | (_, 'U') | ('A', 'A') | ('D', 'D') => counts.conflicted += 1,
            _ => {
                if index != ' ' {
                    counts.staged += 1;
                }
                if worktree != ' ' {
                    counts.unstaged += 1;
                }
            }
        }
    }

    counts
}

#[test]
fn one_change_of_each_kind_lands_in_its_own_column() {
    assert_eq!(
        counts("counts"),
        FileCounts {
            staged: 1,
            unstaged: 1,
            untracked: 1,
            conflicted: 0,
        }
    );
}

#[test]
fn an_intent_to_add_path_counts_as_unstaged_only() {
    assert_eq!(
        counts("intentadd"),
        FileCounts {
            staged: 0,
            unstaged: 1,
            untracked: 0,
            conflicted: 0,
        },
        "git prints ` A` for an intent-to-add path: worktree column only"
    );
}

#[test]
fn one_path_can_count_in_two_columns_at_once() {
    let counted = counts("stagedthenmodified");

    assert_eq!(counted.staged, 1, "HEAD's tree differs from the index");
    assert_eq!(counted.unstaged, 1, "and the index differs from the worktree");
    assert_eq!(
        counted.staged + counted.unstaged,
        2,
        "two column entries for one path — the sum is not a file count"
    );
}

#[test]
fn a_staged_rename_counts_once_not_twice() {
    assert_eq!(
        counts("renamed"),
        FileCounts {
            staged: 1,
            unstaged: 0,
            untracked: 0,
            conflicted: 0,
        }
    );
}

#[test]
fn an_untracked_directory_counts_as_one_entry_not_one_per_file() {
    assert_eq!(
        counts("untrackeddir").untracked,
        1,
        "the directory is one entry, as `git status` reports it"
    );
}

#[test]
fn tier2_a_conflicted_merge_counts_files_not_index_entries() {
    assert_eq!(counts("conflicted").conflicted, 2);
}

#[test]
fn an_untouched_clone_counts_zero_in_every_column() {
    assert_eq!(counts("synced"), FileCounts::default());
}

#[test]
fn a_repository_with_no_submodules_reports_an_empty_list_not_an_unknown_one() {
    assert_eq!(read("submodnone").submodules, Some(Vec::new()));
}

#[test]
fn a_recorded_submodule_is_listed_with_its_path_and_ids() {
    let listed = read("submodparent").submodules.expect("the list was read");

    assert_eq!(listed.len(), 1, "got {listed:?}");
    let sub = &listed[0];
    assert_eq!(sub.path, "sub");
    assert_eq!(sub.name, "sub");
    assert!(sub.recorded_id.is_some(), "the parent's index records a commit for it");
    assert!(sub.head_id.is_some(), "and it is checked out, so it has its own HEAD");
}

#[test]
fn a_bare_repository_is_skipped_rather_than_counted_as_clean() {
    let bare = repo("bare.git");
    assert_eq!(bare.kind, RepoKind::Bare);

    let read = read_tier2(&bare, &Arc::new(AtomicBool::new(false)))
        .unwrap_or_else(|err| panic!("skipping is not a failure: {}", err.message()));

    assert!(read.is_none());
}

#[test]
fn a_repository_that_will_not_open_is_an_open_failure() {
    let mut missing = repo("synced");
    missing.git_dir = format!("{}/no-such-dir", missing.path);

    let error = read_tier2(&missing, &Arc::new(AtomicBool::new(false)))
        .expect_err("nothing to open");

    assert!(error.message().starts_with("cannot open `"), "got {}", error.message());
}

#[test]
fn a_clean_read_carries_no_error_and_keys_the_row() {
    let read = read("synced");

    assert_eq!(read.error, None);
    assert_eq!(read.path, repo("synced").path);
}

// Reading one row on demand

/// A state holding one real repository, discovered and read through Tier 0.
fn seeded() -> (AppState, DiscoveredRepo) {
    let repo = repo("synced");
    let mut state = AppState::default();
    state.record_found(std::slice::from_ref(&repo));
    let row = read_tier0(&repo).unwrap_or_else(|err| panic!("this repository reads: {}", err.message()));
    state.merge_tier0_batch(vec![row]);
    (state, repo)
}

#[test]
fn full_status_merges_the_counts_onto_the_canonical_row() {
    let (mut state, repo) = seeded();

    assert_eq!(state.row(&repo.path).expect("a row exists").counts, None, "Tier 2 has not run yet");

    let returned = read_full(&mut state, &repo)
        .unwrap_or_else(|err| panic!("Tier 2 reads this repository: {}", err.message()));

    assert!(returned.counts.is_some(), "the returned row carries counts");
    assert_eq!(
        state.row(&repo.path).expect("a row exists").counts,
        returned.counts,
        "and the map holds exactly what was returned"
    );
    assert!(returned.submodules.is_some(), "an empty submodule list is still a read one");
}

#[test]
fn a_tier0_refresh_keeps_the_counts_tier2_produced() {
    let (mut state, repo) = seeded();
    read_full(&mut state, &repo).unwrap_or_else(|err| panic!("Tier 2 reads: {}", err.message()));

    let refreshed = refresh_one(&mut state, &repo, Tier::Zero)
        .unwrap_or_else(|err| panic!("Tier 0 re-reads: {}", err.message()));

    assert!(refreshed.counts.is_some(), "a Tier 0 refresh does not own `counts`");
    assert_eq!(refreshed.dirty, None, "and it did not run Tier 1");
}

#[test]
fn refreshing_at_tier_two_fills_in_every_tier() {
    let (mut state, repo) = seeded();

    let refreshed = refresh_one(&mut state, &repo, Tier::Two)
        .unwrap_or_else(|err| panic!("all three tiers read: {}", err.message()));

    assert!(refreshed.dirty.is_some(), "Tier 1 ran");
    assert!(refreshed.counts.is_some(), "and so did Tier 2");
    assert!(refreshed.submodules.is_some());
}

#[test]
fn refreshing_at_tier_one_stops_before_tier_two() {
    let (mut state, repo) = seeded();

    let refreshed = refresh_one(&mut state, &repo, Tier::One)
        .unwrap_or_else(|err| panic!("two tiers read: {}", err.message()));

    assert!(refreshed.dirty.is_some(), "Tier 1 ran");
    assert_eq!(refreshed.counts, None, "Tier 2 did not");
}

#[test]
fn an_unknown_path_is_refused_by_both_domains() {
    let state = AppState::default();
    let stranger = "C:/nowhere/at/all";

    assert!(!state.has_repo(stranger));
    assert!(state.discovered(stranger).is_none());
}

#[test]
fn a_row_less_repository_is_refreshable_but_not_expandable() {
    let (_, repo) = seeded();
    let mut state = AppState::default();
    state.record_found(std::slice::from_ref(&repo));

    assert!(!state.has_repo(&repo.path), "no Tier 0 row was ever merged");
    assert!(state.discovered(&repo.path).is_some(), "but a refresh can produce one");

    let refreshed = refresh_one(&mut state, &repo, Tier::Zero)
        .unwrap_or_else(|err| panic!("Tier 0 creates the row: {}", err.message()));
    assert!(state.has_repo(&repo.path), "and the retry inserted it where there was none");
    assert_eq!(refreshed.path, repo.path);
}

#[test]
fn a_failed_tier_two_read_answers_in_context_and_changes_nothing() {
    let (mut state, mut repo) = seeded();
    repo.git_dir = format!("{}/no-such-dir", repo.path);
    let before = state.row(&repo.path);

    let error = read_full(&mut state, &repo).expect_err("nothing to open");

    assert!(
        error.message().starts_with("could not read the file counts: cannot open `"),
        "got {}",
        error.message()
    );
    assert_eq!(state.row(&repo.path), before);
}

#[test]
fn a_bare_repository_expands_to_its_row_as_it_stands() {
    let bare = repo("bare.git");
    let mut state = AppState::default();
    state.record_found(std::slice::from_ref(&bare));
    let row = read_tier0(&bare).unwrap_or_else(|err| panic!("the bare repository reads: {}", err.message()));
    state.merge_tier0_batch(vec![row.clone()]);

    let answered = read_full(&mut state, &bare)
        .unwrap_or_else(|err| panic!("skipping is not a failure: {}", err.message()));
    assert_eq!(answered, row);
    assert_eq!(answered.counts, None);
}

#[test]
fn a_tier_two_read_of_a_row_less_repository_says_so() {
    let found = repo("synced");
    let mut state = AppState::default();

    let error = read_full(&mut state, &found).expect_err("there is no row to merge into");
    assert_eq!(error.message(), format!("`{}` no longer has a row", found.path));
}
