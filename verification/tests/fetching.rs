use std::io::{Read, Seek, SeekFrom, Write};
use std::path::{Path, PathBuf};
use std::sync::atomic::{AtomicBool, AtomicU64, Ordering};
use std::time::{Duration, Instant};

use repo_scan::discover::{classify, found_repo};
use repo_scan::fetch::{args_for, fetch_one, Ending};
use repo_scan::fetch::{FetchOpts, FetchOutcome, FetchStatus, FetchSummary};
use repo_scan::model::{DiscoveredRepo, RepoKind};
use repo_scan::pipeline::count_fetch;
use repo_scan::status::tier0::read_tier0;
use tempfile::TempDir;

/// Arguments prepended to every fixture `git` invocation, so the developer's own configuration
/// cannot change the shape of the tree.
const BASE_ARGS: &[&str] = &[
    "-c",
    "init.defaultBranch=main",
    "-c",
    "user.name=repo-scan tests",
    "-c",
    "user.email=tests@example.invalid",
    "-c",
    "commit.gpgsign=false",
    "-c",
    "protocol.file.allow=always",
];

/// A throwaway origin and the clones a test makes of it. Not shared between tests: a fetch
/// moves the refs of the repository it runs in.
struct FetchFixture {
    _dir: TempDir,
    root: PathBuf,
}

/// A commit date one second after the last one handed out. Every commit the fixtures make
/// gets its own second, as commits made by hand do; histories whose commits share a
/// timestamp are ordered by the walk in ways no real repository shows.
fn next_date() -> String {
    static CLOCK: AtomicU64 = AtomicU64::new(1_700_000_000);
    format!("@{} +0000", CLOCK.fetch_add(1, Ordering::Relaxed))
}

fn run(cwd: &Path, args: &[&str]) -> (bool, String) {
    let missing_config = cwd.join("no-such-gitconfig");
    let date = next_date();
    let child = gix::command::prepare("git")
        .arg("-C")
        .arg(cwd)
        .args(BASE_ARGS.iter().copied())
        .args(args.iter().copied())
        .env("GIT_CONFIG_GLOBAL", missing_config.as_os_str())
        .env("GIT_CONFIG_SYSTEM", missing_config.as_os_str())
        .env("GIT_TERMINAL_PROMPT", "0")
        .env("GIT_AUTHOR_DATE", &date)
        .env("GIT_COMMITTER_DATE", &date)
        .stderr(tempfile::tempfile().expect("a file for git's chatter").into())
        .spawn()
        .expect("run git — the fixtures need it on PATH");
    let output = child.wait_with_output().expect("wait for git");
    (output.status.success(), String::from_utf8_lossy(&output.stdout).into_owned())
}

fn git(cwd: &Path, args: &[&str]) {
    assert!(run(cwd, args).0, "git {args:?} in {} failed", cwd.display());
}

fn git_out(cwd: &Path, args: &[&str]) -> String {
    let (ok, out) = run(cwd, args);
    assert!(ok, "git {args:?} in {} failed", cwd.display());
    out.trim().to_string()
}

fn write_commit(repo: &Path, file: &str, contents: &str, message: &str) {
    let mut handle = tempfile::NamedTempFile::new_in(repo).expect("create a file");
    handle.write_all(contents.as_bytes()).expect("write fixture file");
    handle.persist(repo.join(file)).expect("put the file in place");
    git(repo, &["add", file]);
    git(repo, &["commit", "-m", message]);
}

fn local_url(path: &Path) -> String {
    path.to_string_lossy().replace('\\', "/")
}

impl FetchFixture {
    fn path(&self, name: &str) -> PathBuf {
        self.root.join(name)
    }

    fn origin(&self) -> String {
        local_url(&self.path("origin.git"))
    }

    fn clone_origin(&self, name: &str) -> PathBuf {
        git(&self.root, &["clone", &self.origin(), name]);
        self.path(name)
    }

    fn clone_origin_bare(&self, name: &str) -> PathBuf {
        git(&self.root, &["clone", "--bare", &self.origin(), name]);
        self.path(name)
    }

    fn init_without_remote(&self, name: &str) -> PathBuf {
        git(&self.root, &["init", name]);
        let path = self.path(name);
        write_commit(&path, "a.txt", "one\n", "seed");
        path
    }

    fn advance_origin(&self, count: usize) {
        let seed = self.path("seed");
        for index in 0..count {
            write_commit(
                &seed,
                &format!("ahead-{index}.txt"),
                "upstream\n",
                &format!("upstream commit {index}"),
            );
        }
        git(&seed, &["push", "origin", "main"]);
    }

    fn push_branch(&self, name: &str) {
        let seed = self.path("seed");
        git(&seed, &["branch", name]);
        git(&seed, &["push", "origin", name]);
    }

    fn delete_branch(&self, name: &str) {
        git(&self.path("seed"), &["push", "origin", "--delete", name]);
    }

    /// Point a clone's `origin` at loopback port 1, where a connection is refused at once.
    fn break_remote(&self, repo: &Path) {
        git(repo, &["remote", "set-url", "origin", "http://127.0.0.1:1/nothing.git"]);
    }
}

/// A fresh origin with one commit, and a `seed` clone that can push to it.
fn fetch_tree() -> FetchFixture {
    let dir = TempDir::new().expect("create temp dir");
    let root = dir.path().canonicalize().expect("canonicalise temp dir");

    git(&root, &["init", "--bare", "origin.git"]);
    let origin = local_url(&root.join("origin.git"));
    git(&root, &["clone", &origin, "seed"]);
    let seed = root.join("seed");
    write_commit(&seed, "a.txt", "one\n", "seed");
    git(&seed, &["push", "-u", "origin", "main"]);

    FetchFixture { _dir: dir, root }
}

fn canonical(path: &str) -> String {
    Path::new(path)
        .canonicalize()
        .unwrap_or_else(|err| panic!("canonicalise {path}: {err}"))
        .to_string_lossy()
        .into_owned()
}

/// The repository at `path`, classified and canonicalised as discovery reports it.
fn discovered(path: &Path) -> DiscoveredRepo {
    let text = path.to_string_lossy().into_owned();
    let found = classify(&text)
        .unwrap_or_else(|err| panic!("{text} could not be classified: {err}"))
        .unwrap_or_else(|| panic!("{text} is not a repository"));
    found_repo(text, found.kind, canonical(&found.git_dir), canonical(&found.common_dir))
}

fn opts() -> FetchOpts {
    FetchOpts { timeout: Duration::from_secs(60), ..FetchOpts::default() }
}

/// Run the planned `git fetch` to completion and report how it ended and how long it took. A
/// program that cannot be started reads as not found.
fn run_fetch(repo: &DiscoveredRepo, opts: &FetchOpts) -> (Ending, u64) {
    let started = Instant::now();
    let mut stderr = tempfile::tempfile().expect("a file for stderr");
    let sink = stderr.try_clone().expect("a second handle");
    let spawned = gix::command::prepare(&opts.program)
        .args(args_for(repo, opts))
        .env("GIT_TERMINAL_PROMPT", "0")
        .stderr(sink.into())
        .spawn();
    let child = match spawned {
        Ok(child) => child,
        Err(_) => {
            let elapsed = u64::try_from(started.elapsed().as_millis()).unwrap_or(u64::MAX);
            return (Ending::NotFound, elapsed);
        }
    };
    let code = child.wait_with_output().expect("wait for git").status.code();
    let mut text = String::new();
    stderr.seek(SeekFrom::Start(0)).expect("rewind stderr");
    stderr.read_to_string(&mut text).expect("read stderr");
    let elapsed = u64::try_from(started.elapsed().as_millis()).unwrap_or(u64::MAX);
    (Ending::Exited { code, stderr: text }, elapsed)
}

fn fetch_with(repo: &DiscoveredRepo, opts: &FetchOpts, interrupted: bool) -> FetchOutcome {
    fetch_one(repo, opts, &AtomicBool::new(interrupted), run_fetch)
}

fn fetch(repo: &DiscoveredRepo, opts: &FetchOpts) -> FetchOutcome {
    fetch_with(repo, opts, false)
}

#[test]
fn a_fetch_writes_fetch_head_so_the_row_can_report_an_age() {
    let tree = fetch_tree();
    let repo = discovered(&tree.clone_origin("alpha"));

    assert!(
        read_tier0(&repo).expect("a row").last_fetched_ms.is_none(),
        "a fresh clone has not fetched"
    );

    let result = fetch(&repo, &opts());

    assert_eq!(result.status, FetchStatus::Succeeded, "detail: {:?}", result.detail);
    assert!(
        read_tier0(&repo).expect("a row").last_fetched_ms.is_some(),
        "the fetch must leave an age the table can show"
    );
}

#[test]
fn a_fetch_moves_the_behind_count() {
    let tree = fetch_tree();
    let repo = discovered(&tree.clone_origin("alpha"));

    assert_eq!(read_tier0(&repo).expect("a row").behind, Some(0));

    tree.advance_origin(3);
    let result = fetch(&repo, &opts());

    assert_eq!(result.status, FetchStatus::Succeeded, "detail: {:?}", result.detail);
    assert_eq!(read_tier0(&repo).expect("a row").behind, Some(3), "the whole point of fetching");
}

#[test]
fn prune_drops_a_dead_tracking_ref_and_leaves_local_tags_alone() {
    let tree = fetch_tree();
    tree.push_branch("doomed");
    let path = tree.clone_origin("alpha");
    let repo = discovered(&path);

    git_out(&path, &["tag", "my-local-tag"]);
    assert!(git_out(&path, &["branch", "-r"]).contains("origin/doomed"));

    tree.delete_branch("doomed");
    let result = fetch(&repo, &opts());

    assert_eq!(result.status, FetchStatus::Succeeded, "detail: {:?}", result.detail);
    assert!(
        !git_out(&path, &["branch", "-r"]).contains("origin/doomed"),
        "a tracking ref for a branch that is gone must not survive"
    );
    assert!(
        git_out(&path, &["tag"]).contains("my-local-tag"),
        "a local tag is the user's own object and is not the remote's to delete"
    );
}

#[test]
fn a_repository_with_no_remote_is_answered_without_spawning_anything() {
    let tree = fetch_tree();
    let repo = discovered(&tree.init_without_remote("lonely"));

    let result = fetch(
        &repo,
        &FetchOpts { program: "definitely-not-a-real-program".into(), ..opts() },
    );

    assert_eq!(
        result.status,
        FetchStatus::NoRemote,
        "a bogus program would have produced GitMissing had anything been spawned"
    );
    assert_eq!(result.elapsed_ms, 0);
}

#[test]
fn an_unreachable_remote_reads_as_a_network_failure() {
    let tree = fetch_tree();
    let path = tree.clone_origin("alpha");
    tree.break_remote(&path);
    let repo = discovered(&path);

    let result = fetch(&repo, &FetchOpts { timeout: Duration::from_secs(20), ..opts() });

    assert_eq!(result.status, FetchStatus::Network, "detail: {:?}", result.detail);
    assert!(
        result.detail.is_some_and(|detail| !detail.is_empty()),
        "git's own words are what the user reads"
    );
}

#[test]
fn an_interrupt_set_before_the_pass_runs_nothing() {
    let tree = fetch_tree();
    let repos: Vec<DiscoveredRepo> = (0..4)
        .map(|index| discovered(&tree.clone_origin(&format!("clone-{index}"))))
        .collect();
    let bogus = FetchOpts { program: "definitely-not-a-real-program".into(), ..opts() };

    let mut summary = FetchSummary::default();
    let mut outcomes = Vec::new();
    for repo in &repos {
        let result = fetch_with(repo, &bogus, true);
        count_fetch(&mut summary, result.status);
        outcomes.push(result);
    }

    assert_eq!(summary.attempted, 0, "no process was spawned");
    assert_eq!(summary.skipped, 4);
    assert_eq!(outcomes.len(), 4, "every repository is still accounted for");
    assert!(
        outcomes.iter().all(|result| result.status == FetchStatus::Cancelled),
        "got {:?}",
        outcomes.iter().map(|r| r.status).collect::<Vec<_>>()
    );
}

#[test]
fn the_repeat_guard_skips_a_bulk_refetch_and_never_a_single_one() {
    let tree = fetch_tree();
    let repo = discovered(&tree.clone_origin("alpha"));

    let guarded = FetchOpts { min_interval: Some(Duration::from_secs(3_600)), ..opts() };

    assert_eq!(fetch(&repo, &guarded).status, FetchStatus::Succeeded);
    assert_eq!(
        fetch(&repo, &guarded).status,
        FetchStatus::TooSoon,
        "a second bulk pass must not fetch it again"
    );
    assert_eq!(
        fetch(&repo, &opts()).status,
        FetchStatus::Succeeded,
        "a user clicking one repository's button is expressing intent"
    );
}

#[test]
fn a_bare_repository_fetches() {
    let tree = fetch_tree();
    let repo = discovered(&tree.clone_origin_bare("mirror.git"));
    assert_eq!(repo.kind, RepoKind::Bare, "the fixture is bare");

    let result = fetch(&repo, &opts());

    assert_eq!(result.status, FetchStatus::Succeeded, "detail: {:?}", result.detail);
}

#[test]
fn fetching_a_worktree_moves_its_parents_counts_too() {
    let tree = fetch_tree();
    let parent_path = tree.clone_origin("alpha");
    git_out(&parent_path, &["worktree", "add", "-b", "side", "../wt"]);
    let parent = discovered(&parent_path);
    let worktree = discovered(&tree.path("wt"));
    assert_eq!(worktree.kind, RepoKind::LinkedWorktree);
    assert_ne!(worktree.git_dir, worktree.common_dir, "a linked worktree's two directories differ");

    tree.advance_origin(2);
    let result = fetch(&worktree, &opts());

    assert_eq!(result.status, FetchStatus::Succeeded, "detail: {:?}", result.detail);
    assert_eq!(
        read_tier0(&parent).expect("a row").behind,
        Some(2),
        "the remote-tracking refs are shared, so the parent moved without being fetched itself"
    );
}

#[test]
fn a_worktree_fetch_is_visible_as_an_age_even_though_it_writes_privately() {
    let tree = fetch_tree();
    let parent_path = tree.clone_origin("alpha");
    git_out(&parent_path, &["worktree", "add", "-b", "side", "../wt"]);
    let worktree = discovered(&tree.path("wt"));

    let result = fetch(&worktree, &opts());
    assert_eq!(result.status, FetchStatus::Succeeded, "detail: {:?}", result.detail);

    assert!(
        Path::new(&worktree.git_dir).join("FETCH_HEAD").is_file(),
        "git writes it into the worktree's own directory"
    );
    assert!(
        !Path::new(&worktree.common_dir).join("FETCH_HEAD").is_file(),
        "and not into the common one"
    );
    assert!(
        read_tier0(&worktree).expect("a row").last_fetched_ms.is_some(),
        "the row still has to report an age"
    );
}

#[test]
fn a_parents_fetch_is_visible_from_its_worktree() {
    let tree = fetch_tree();
    let parent_path = tree.clone_origin("alpha");
    git_out(&parent_path, &["worktree", "add", "-b", "side", "../wt"]);
    let parent = discovered(&parent_path);
    let worktree = discovered(&tree.path("wt"));

    assert_eq!(fetch(&parent, &opts()).status, FetchStatus::Succeeded);

    assert!(
        !Path::new(&worktree.git_dir).join("FETCH_HEAD").is_file(),
        "the worktree ran no fetch of its own"
    );
    assert!(
        read_tier0(&worktree).expect("a row").last_fetched_ms.is_some(),
        "it shares the refs, so it shares their age"
    );
}
