use std::io::Write;
use std::path::{Path, PathBuf};

use repo_scan::discover::{classify, found_repo};
use repo_scan::model::{DiscoveredRepo, RepoKind, ScanError};
use repo_scan::watch::{watch_set, WatchMode, WatchRegistry};
use tempfile::TempDir;

/// Arguments prepended to every `git` invocation, so the developer's own configuration cannot
/// change the shape of the tree and a local submodule is allowed.
const BASE_ARGS: &[&str] = &[
    "-c",
    "init.defaultBranch=main",
    "-c",
    "user.name=repo-scan tests",
    "-c",
    "user.email=tests@example.invalid",
    "-c",
    "commit.gpgsign=false",
    "-c",
    "protocol.file.allow=always",
];

/// The discovery tree, deleted when this is dropped.
///
/// ```text
/// root/
///   plain/          a normal repository, with one commit
///     nested/       a normal repository with no commits
///   parent/         a normal repository owning a submodule
///     sub/          the submodule; its .git is a file
///   wt/             a linked worktree of plain/; its .git is a file too
///   mirror.git/     a bare repository
/// ```
struct Fixture {
    _dir: TempDir,
    root: PathBuf,
}

impl Fixture {
    /// A path inside the tree, from `/`-separated components.
    fn path(&self, relative: &str) -> String {
        let mut path = self.root.clone();
        for part in relative.split('/') {
            path.push(part);
        }
        path.to_string_lossy().into_owned()
    }
}

fn git(cwd: &Path, args: &[&str]) {
    let missing_config = cwd.join("no-such-gitconfig");
    let child = gix::command::prepare("git")
        .arg("-C")
        .arg(cwd)
        .args(BASE_ARGS.iter().copied())
        .args(args.iter().copied())
        .env("GIT_CONFIG_GLOBAL", missing_config.as_os_str())
        .env("GIT_CONFIG_SYSTEM", missing_config.as_os_str())
        .env("GIT_TERMINAL_PROMPT", "0")
        .stderr(tempfile::tempfile().expect("a file for git's chatter").into())
        .spawn()
        .expect("run git — the fixtures need it on PATH");
    let output = child.wait_with_output().expect("wait for git");
    assert!(output.status.success(), "git {args:?} in {} failed", cwd.display());
}

/// Write `contents` to `path`, replacing whatever is there.
fn write(path: &Path, contents: &str) {
    let dir = path.parent().expect("a file has a directory");
    let mut file = tempfile::NamedTempFile::new_in(dir).expect("create a file");
    file.write_all(contents.as_bytes()).expect("write fixture file");
    file.persist(path).expect("put the file in place");
}

fn commit(repo: &Path, file: &str) {
    write(&repo.join(file), "fixture\n");
    git(repo, &["add", file]);
    git(repo, &["commit", "-m", "fixture"]);
}

fn build() -> Fixture {
    let dir = TempDir::new().expect("create temp dir");
    let root = dir.path().canonicalize().expect("canonicalise temp dir");

    git(&root, &["init", "plain"]);
    let plain = root.join("plain");
    commit(&plain, "a.txt");
    git(&plain, &["init", "nested"]);

    git(&root, &["init", "parent"]);
    let parent = root.join("parent");
    commit(&parent, "b.txt");
    let source = plain.to_string_lossy().replace('\\', "/");
    git(&parent, &["submodule", "add", &source, "sub"]);

    git(&plain, &["worktree", "add", "../wt"]);
    // A per-worktree ref, which lives under the worktree's private `refs/`: some versions of
    // git create that directory with the worktree, others only when the first such ref is
    // written.
    git(&root.join("wt"), &["update-ref", "refs/worktree/marker", "HEAD"]);
    git(&root, &["init", "--bare", "mirror.git"]);

    Fixture { _dir: dir, root }
}

/// Canonical, as discovery reports every path.
fn canonical(path: &str) -> String {
    Path::new(path)
        .canonicalize()
        .unwrap_or_else(|err| panic!("canonicalise {path}: {err}"))
        .to_string_lossy()
        .into_owned()
}

/// The repository at `path`, classified and canonicalised as discovery reports it.
fn discovered(path: &str) -> DiscoveredRepo {
    let found = classify(path)
        .unwrap_or_else(|err| panic!("{path} could not be classified: {err}"))
        .unwrap_or_else(|| panic!("{path} is not a repository"));
    found_repo(
        path.to_string(),
        found.kind,
        canonical(&found.git_dir),
        canonical(&found.common_dir),
    )
}

/// Every repository in the tree, the submodule included.
fn repos(fixture: &Fixture) -> Vec<DiscoveredRepo> {
    ["plain", "plain/nested", "parent", "parent/sub", "wt", "mirror.git"]
        .iter()
        .map(|relative| discovered(&fixture.path(relative)))
        .collect()
}

fn row<'a>(repos: &'a [DiscoveredRepo], path: &str) -> &'a DiscoveredRepo {
    repos
        .iter()
        .find(|repo| repo.path == path)
        .unwrap_or_else(|| panic!("no row for {path}"))
}

/// The mode registered for `path`, or `None` when it is not in the set.
fn mode_of(watches: &[(String, WatchMode)], path: &str) -> Option<WatchMode> {
    watches.iter().find(|(watched, _)| watched == path).map(|(_, mode)| *mode)
}

/// Bring the registry in line with `repos`, the way the watcher does, with every
/// registration taking: forget whoever is gone, then record whoever is new.
fn sync(registry: &mut WatchRegistry, repos: &[DiscoveredRepo]) -> Vec<ScanError> {
    let wanted: Vec<String> = repos.iter().map(|repo| repo.path.clone()).collect();
    for gone in registry.gone(&wanted) {
        registry.forget(&gone);
    }
    let mut errors = Vec::new();
    for repo in repos {
        if registry.is_registered(&repo.path) {
            continue;
        }
        let set = watch_set(repo);
        let failures = vec![None; set.len()];
        errors.extend(registry.record(&repo.path, &set, &failures));
    }
    errors
}

/// The path of a loose ref written under `plain/.git/refs/heads/`.
fn ref_path(fixture: &Fixture, name: &str) -> String {
    fixture.path(&format!("plain/.git/refs/heads/{name}"))
}

#[test]
fn the_watch_set_is_the_git_dir_root_refs_recursively_and_the_head_log() {
    let fixture = build();
    let repos = repos(&fixture);
    let plain = row(&repos, &fixture.path("plain"));

    let watches = watch_set(plain);
    let git_dir = fixture.path("plain/.git");

    assert_eq!(
        mode_of(&watches, &git_dir),
        Some(WatchMode::NonRecursive),
        "the git dir root is watched, and not recursively — `objects/` is underneath it"
    );
    assert_eq!(
        mode_of(&watches, &format!("{git_dir}/refs")),
        Some(WatchMode::Recursive),
        "`refs/` must be recursive or slash-named and remote-tracking refs are invisible"
    );
    assert_eq!(
        mode_of(&watches, &format!("{git_dir}/logs/HEAD")),
        Some(WatchMode::NonRecursive),
        "`logs/HEAD` is appended on every commit, checkout and reset"
    );
    assert!(
        !watches.iter().any(|(path, _)| path == &fixture.path("plain")),
        "the worktree itself is never watched"
    );
}

#[test]
fn a_linked_worktree_watches_its_private_and_its_common_directory() {
    let fixture = build();
    let repos = repos(&fixture);
    let worktree = row(&repos, &fixture.path("wt"));

    let watches = watch_set(worktree);
    let common = fixture.path("plain/.git");

    assert_eq!(
        mode_of(&watches, &worktree.git_dir),
        Some(WatchMode::NonRecursive),
        "its own HEAD and index live in the private directory"
    );
    assert_eq!(
        mode_of(&watches, &format!("{common}/refs")),
        Some(WatchMode::Recursive),
        "and its refs live in the common one"
    );
    assert_eq!(
        mode_of(&watches, &format!("{}/refs", worktree.git_dir)),
        Some(WatchMode::Recursive),
        "per-worktree refs live in the private directory's own `refs/`"
    );
}

#[test]
fn a_repository_with_no_commits_contributes_no_head_log() {
    let fixture = build();
    let repos = repos(&fixture);
    let fresh = row(&repos, &fixture.path("plain/nested"));

    let log = format!("{}/logs/HEAD", fresh.git_dir);
    assert!(!Path::new(&log).exists(), "git writes this on the first ref update, not at init");

    let watches = watch_set(fresh);
    assert!(mode_of(&watches, &log).is_none(), "so it is not in the set");
    assert_eq!(watches.len(), 2, "leaving the git dir root and `refs/`: {watches:?}");
}

#[test]
fn sync_registers_every_repository() {
    let fixture = build();
    let repos = repos(&fixture);

    let mut registry = WatchRegistry::new();
    let failures = sync(&mut registry, &repos);

    assert!(failures.is_empty(), "unexpected failures: {failures:?}");
    assert_eq!(registry.watched_repos(), repos.len(), "every repository is watched");
    assert!(
        registry.watched_paths() < repos.len() * 3,
        "below three paths per repository, because `plain` and `wt` share a common directory \
         and two repositories have no `logs/HEAD`: {} paths for {} repositories",
        registry.watched_paths(),
        repos.len()
    );
}

#[test]
fn sync_is_idempotent_and_releases_what_is_gone() {
    let fixture = build();
    let repos = repos(&fixture);

    let mut registry = WatchRegistry::new();
    sync(&mut registry, &repos);
    let (first_repos, first_paths) = (registry.watched_repos(), registry.watched_paths());

    sync(&mut registry, &repos);
    assert_eq!(
        (registry.watched_repos(), registry.watched_paths()),
        (first_repos, first_paths),
        "re-syncing an unchanged set registers nothing new and releases nothing"
    );

    let remaining: Vec<DiscoveredRepo> = repos
        .iter()
        .filter(|repo| repo.path != fixture.path("mirror.git"))
        .cloned()
        .collect();
    sync(&mut registry, &remaining);

    assert_eq!(registry.watched_repos(), first_repos - 1);
    assert!(registry.watched_paths() < first_paths, "its paths went with it");
}

#[test]
fn a_shared_path_survives_one_of_its_holders_leaving() {
    let fixture = build();
    let repos = repos(&fixture);

    let mut registry = WatchRegistry::new();
    sync(&mut registry, &repos);

    let without_worktree: Vec<DiscoveredRepo> = repos
        .iter()
        .filter(|repo| repo.path != fixture.path("wt"))
        .cloned()
        .collect();
    sync(&mut registry, &without_worktree);

    let changed = registry.resolve(&[ref_path(&fixture, "survivor")]);
    assert!(
        changed.contains(&fixture.path("plain")),
        "`plain` shares `refs/` with the worktree that just left and must still be watching it; \
         saw {changed:?}"
    );
    assert!(!changed.contains(&fixture.path("wt")), "and the worktree itself is released");
}

#[test]
fn a_ref_write_is_reported_as_its_repository() {
    let fixture = build();
    let repos = repos(&fixture);

    let mut registry = WatchRegistry::new();
    let failures = sync(&mut registry, &repos);
    assert!(failures.is_empty(), "unexpected failures: {failures:?}");

    let changed = registry.resolve(&[ref_path(&fixture, "watched")]);
    assert!(
        changed.contains(&fixture.path("plain")),
        "the write under `plain/.git/refs/` was never reported; saw {changed:?}"
    );
}

#[test]
fn a_write_in_a_shared_common_dir_is_reported_for_every_holder() {
    let fixture = build();
    let repos = repos(&fixture);

    let mut registry = WatchRegistry::new();
    sync(&mut registry, &repos);

    let changed = registry.resolve(&[ref_path(&fixture, "shared")]);
    assert!(
        changed.contains(&fixture.path("wt")),
        "the worktree watching this directory as its common one was never reported; saw {changed:?}"
    );
}

#[test]
fn resolves_the_git_directory_for_each_kind() {
    let fixture = build();
    let repos = repos(&fixture);

    let worktree = row(&repos, &fixture.path("wt"));
    assert_eq!(worktree.name, "wt");
    assert_eq!(worktree.parent, fixture.root.to_string_lossy());
    assert_eq!(worktree.git_dir, fixture.path("plain/.git/worktrees/wt"));

    let bare = row(&repos, &fixture.path("mirror.git"));
    assert_eq!(bare.kind, RepoKind::Bare);
    assert_eq!(bare.git_dir, bare.path);

    let plain = row(&repos, &fixture.path("plain"));
    assert_eq!(plain.git_dir, fixture.path("plain/.git"));
}

#[test]
fn a_submodule_reached_directly_is_classified_as_one() {
    let fixture = build();
    let sub = discovered(&fixture.path("parent/sub"));

    assert_eq!(sub.kind, RepoKind::Submodule);
}

#[test]
fn an_ordinary_directory_is_not_a_repository() {
    let fixture = build();

    let found = classify(&fixture.root.to_string_lossy()).expect("the root reads");
    assert!(found.is_none(), "the root holds repositories but is not one");
}

#[test]
fn each_kind_is_classified_with_its_common_directory() {
    let fixture = build();
    let repos = repos(&fixture);

    assert_eq!(row(&repos, &fixture.path("plain")).kind, RepoKind::Normal);
    assert_eq!(row(&repos, &fixture.path("plain/nested")).kind, RepoKind::Normal);
    assert_eq!(row(&repos, &fixture.path("wt")).kind, RepoKind::LinkedWorktree);
    assert_eq!(
        row(&repos, &fixture.path("wt")).common_dir,
        fixture.path("plain/.git"),
        "a linked worktree shares its main repository's common directory"
    );
    for relative in ["plain", "parent", "parent/sub", "mirror.git"] {
        let repo = row(&repos, &fixture.path(relative));
        assert_eq!(repo.common_dir, repo.git_dir, "{relative} has no commondir file");
    }
}
