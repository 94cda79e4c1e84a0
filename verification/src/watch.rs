//! Live watching: what to watch for each repository, and the index that maps a changed path
//! back to the repositories that asked for it.
//!
//! Three places inside the Git directory, never the worktree: its root (not recursively —
//! `objects/` is underneath), `refs/` recursively, and `logs/HEAD`. A linked worktree
//! contributes them from its private Git directory and from the common one. The watcher
//! itself is the caller's; the registry here decides which paths are fresh, records who holds
//! each one, releases the ones nothing holds any more, and resolves a batch of changed paths
//! to repositories.

use vstd::prelude::*;

use crate::discover::{is_dir, is_file, join, spec_join};
use crate::model::{DiscoveredRepo, ScanError};
use crate::pathmap::{Keyed, PathMap};

verus! {

broadcast use vstd::string::group_string_axioms;

/// How deep one registration watches.
#[derive(Clone, Copy, Debug, PartialEq, Eq, Structural)]
pub enum WatchMode {
    /// The directory itself and its direct children.
    NonRecursive,
    /// Everything below it.
    Recursive,
}

/// What the watcher has to say.
#[derive(Clone, Debug, PartialEq, Eq)]
pub enum WatchEvent {
    /// These repositories changed, by repository path, each once.
    Changed(Vec<String>),
    /// Watching failed or degraded, with what to do about it where there is anything to say.
    Failed(String),
}

/// One candidate registration: a path, how deep, and whether it must be a file (else a
/// directory) to be registered.
pub type Candidate = (Seq<char>, WatchMode, bool);

/// The three candidates of one Git directory, shallowest first.
pub open spec fn dir_candidates(dir: Seq<char>) -> Seq<Candidate> {
    seq![
        (dir, WatchMode::NonRecursive, false),
        (spec_join(dir, "refs"@), WatchMode::Recursive, false),
        (spec_join(spec_join(dir, "logs"@), "HEAD"@), WatchMode::NonRecursive, true),
    ]
}

/// Everything `repo` might have watched, in registration order: its Git directory's three,
/// and a linked worktree's common directory's three after them.
pub open spec fn watch_candidates(git_dir: Seq<char>, common_dir: Seq<char>) -> Seq<Candidate> {
    if common_dir == git_dir {
        dir_candidates(git_dir)
    } else {
        dir_candidates(git_dir) + dir_candidates(common_dir)
    }
}

/// The candidates `keep` marks, in order, without the file-or-directory flag.
pub open spec fn kept(candidates: Seq<Candidate>, keep: Seq<bool>) -> Seq<(Seq<char>, WatchMode)>
    decreases candidates.len(),
{
    if candidates.len() == 0 || keep.len() == 0 {
        Seq::empty()
    } else {
        let rest = kept(candidates.drop_last(), keep.drop_last());
        if keep.last() {
            rest.push((candidates.last().0, candidates.last().1))
        } else {
            rest
        }
    }
}

/// The views of a watch set.
pub open spec fn watches_view(watches: Seq<(String, WatchMode)>) -> Seq<(Seq<char>, WatchMode)> {
    watches.map_values(|w: (String, WatchMode)| (w.0@, w.1))
}

/// The views of a list of candidate registrations.
pub open spec fn candidates_view(list: Seq<(String, WatchMode, bool)>) -> Seq<Candidate> {
    list.map_values(|c: (String, WatchMode, bool)| (c.0@, c.1, c.2))
}

/// Append the three candidates of one Git directory.
fn push_dir_candidates(list: &mut Vec<(String, WatchMode, bool)>, dir: &str)
    ensures
        candidates_view(final(list)@) == candidates_view(old(list)@) + dir_candidates(dir@),
{
    proof {
        reveal_strlit("refs");
        reveal_strlit("logs");
        reveal_strlit("HEAD");
    }
    let ghost before = candidates_view(list@);
    list.push((dir.to_owned(), WatchMode::NonRecursive, false));
    list.push((join(dir, "refs"), WatchMode::Recursive, false));
    let logs = join(dir, "logs");
    list.push((join(logs.as_str(), "HEAD"), WatchMode::NonRecursive, true));
    assert(candidates_view(list@) =~= before + dir_candidates(dir@));
}

/// Everything `repo` might have watched, in registration order.
pub fn candidate_list(repo: &DiscoveredRepo) -> (list: Vec<(String, WatchMode, bool)>)
    ensures
        candidates_view(list@) == watch_candidates(repo.git_dir@, repo.common_dir@),
{
    let mut list: Vec<(String, WatchMode, bool)> = Vec::new();
    assert(candidates_view(list@) =~= Seq::<Candidate>::empty());
    push_dir_candidates(&mut list, repo.git_dir.as_str());
    if !crate::discover::same_text(repo.common_dir.as_str(), repo.git_dir.as_str()) {
        push_dir_candidates(&mut list, repo.common_dir.as_str());
    } else {
        assert(Seq::<Candidate>::empty() + dir_candidates(repo.git_dir@) =~= dir_candidates(repo.git_dir@));
    }
    list
}

/// The watch set of `repo` given which of its candidates exist as what they have to be:
/// exactly the existing ones, in order.
pub fn watches_from(repo: &DiscoveredRepo, exists: &[bool]) -> (watches: Vec<(String, WatchMode)>)
    requires
        exists@.len() == watch_candidates(repo.git_dir@, repo.common_dir@).len(),
    ensures
        watches_view(watches@) == kept(watch_candidates(repo.git_dir@, repo.common_dir@), exists@),
{
    let list = candidate_list(repo);
    let ghost cands = candidates_view(list@);
    let mut watches: Vec<(String, WatchMode)> = Vec::new();
    let n = list.len();
    assert(cands.take(0) =~= Seq::<Candidate>::empty());
    assert(watches_view(watches@) =~= Seq::<(Seq<char>, WatchMode)>::empty());
    for i in 0..n
        invariant
            n == list@.len(),
            cands == candidates_view(list@),
            exists@.len() == n,
            watches_view(watches@) == kept(cands.take(i as int), exists@.take(i as int)),
    {
        let ghost before = watches_view(watches@);
        assert(cands.take(i + 1).drop_last() =~= cands.take(i as int));
        assert(exists@.take(i + 1).drop_last() =~= exists@.take(i as int));
        assert(cands.take(i + 1).last() == cands[i as int]);
        if exists[i] {
            let path = list[i].0.clone();
            let mode = list[i].1;
            watches.push((path, mode));
            assert(watches_view(watches@) =~= before.push((cands[i as int].0, cands[i as int].1)));
        } else {
            assert(watches_view(watches@) =~= before);
        }
    }
    assert(cands.take(n as int) =~= cands);
    assert(exists@.take(n as int) =~= exists@);
    watches
}

/// The paths to register for `repo`, shallowest first: each candidate of
/// [`watch_candidates`] that exists as what it has to be (a directory, or the `logs/HEAD`
/// file), in order, as [`watches_from`] keeps them. A path that does not exist yet —
/// `logs/HEAD` before a first commit — is left out, since registering it would fail. What
/// exists is read from disk.
pub fn watch_set(repo: &DiscoveredRepo) -> (watches: Vec<(String, WatchMode)>)
    ensures
        exists|keep: Seq<bool>|
            keep.len() == watch_candidates(repo.git_dir@, repo.common_dir@).len()
                && #[trigger] kept(watch_candidates(repo.git_dir@, repo.common_dir@), keep) == watches_view(watches@),
{
    let list = candidate_list(repo);
    let mut exists: Vec<bool> = Vec::new();
    for i in 0..list.len()
        invariant
            exists@.len() == i,
    {
        let found = if list[i].2 { is_file(list[i].0.as_str()) } else { is_dir(list[i].0.as_str()) };
        exists.push(found);
    }
    let watches = watches_from(repo, exists.as_slice());
    assert(kept(watch_candidates(repo.git_dir@, repo.common_dir@), exists@) == watches_view(watches@));
    watches
}

/// A watcher failure as the user reads it: the cause, and for the platform's watch limit,
/// how to raise it and what keeps rows current until then.
pub open spec fn spec_render(message: Seq<char>, limit_reached: bool) -> Seq<char> {
    if limit_reached {
        message + " Raise it with `sysctl fs.inotify.max_user_watches=524288` (persist it in /etc/sysctl.d/). Until then the 60-second poll and refresh-on-focus are what keep rows current."@
    } else {
        message
    }
}

/// Render a watcher failure, with the platform's fix appended when the limit on watches is
/// what failed.
pub fn render(message: &str, limit_reached: bool) -> (rendered: String)
    ensures
        rendered@ == spec_render(message@, limit_reached),
{
    let mut rendered = message.to_owned();
    if limit_reached {
        rendered.append(" Raise it with `sysctl fs.inotify.max_user_watches=524288` (persist it in /etc/sysctl.d/). Until then the 60-second poll and refresh-on-focus are what keep rows current.");
    }
    rendered
}

/// The views of a list of strings.
pub open spec fn strs(list: Seq<String>) -> Seq<Seq<char>> {
    list.map_values(|s: String| s@)
}

/// A copy of a list of strings.
fn copy_strings(list: &Vec<String>) -> (copy: Vec<String>)
    ensures
        strs(copy@) == strs(list@),
{
    let mut copy: Vec<String> = Vec::new();
    for i in 0..list.len()
        invariant
            copy@.len() == i,
            strs(copy@) == strs(list@).take(i as int),
    {
        let ghost before = copy@;
        copy.push(list[i].clone());
        assert(strs(copy@) =~= strs(list@).take(i + 1)) by {
            assert(strs(before) =~= strs(list@).take(i as int));
        }
    }
    assert(strs(list@).take(list@.len() as int) =~= strs(list@));
    copy
}

/// One watched path and the repositories holding it, in the order they asked.
pub struct Holders {
    /// The watched path.
    pub path: String,
    /// Who holds it.
    pub repos: Vec<String>,
}

impl View for Holders {
    type V = Seq<Seq<char>>;

    open spec fn view(&self) -> Seq<Seq<char>> {
        strs(self.repos@)
    }
}

impl Keyed for Holders {
    open spec fn key_of(&self) -> Seq<char> {
        self.path@
    }

    fn key(&self) -> (k: &str) {
        self.path.as_str()
    }

    fn copied(&self) -> (r: Holders) {
        Holders { path: self.path.clone(), repos: copy_strings(&self.repos) }
    }
}

/// One repository and the paths registered for it, shallowest first.
pub struct Registration {
    /// The repository.
    pub repo: String,
    /// What was registered for it.
    pub paths: Vec<String>,
}

impl View for Registration {
    type V = Seq<Seq<char>>;

    open spec fn view(&self) -> Seq<Seq<char>> {
        strs(self.paths@)
    }
}

impl Keyed for Registration {
    open spec fn key_of(&self) -> Seq<char> {
        self.repo@
    }

    fn key(&self) -> (k: &str) {
        self.repo.as_str()
    }

    fn copied(&self) -> (r: Registration) {
        Registration { repo: self.repo.clone(), paths: copy_strings(&self.paths) }
    }
}

/// Every holder but `repo`.
pub open spec fn not_holder(repo: Seq<char>) -> spec_fn(Seq<char>) -> bool {
    |holder: Seq<char>| holder != repo
}

/// The holders of `path`, or none.
pub open spec fn holders_of(index: Map<Seq<char>, Seq<Seq<char>>>, path: Seq<char>) -> Seq<Seq<char>> {
    if index.contains_key(path) { index[path] } else { Seq::empty() }
}

/// Recording the first `n` entries of one repository's watch set: the index after each taken
/// path gains the repository as a holder, the paths taken, and the failures. A path another
/// repository already holds is taken without a registration of its own; a fresh one is taken
/// only if registering it did not fail.
pub open spec fn record_fold(
    index: Map<Seq<char>, Seq<Seq<char>>>,
    repo: Seq<char>,
    paths: Seq<Seq<char>>,
    failures: Seq<Option<Seq<char>>>,
    n: int,
) -> (Map<Seq<char>, Seq<Seq<char>>>, Seq<Seq<char>>, Seq<(Seq<char>, Seq<char>)>)
    decreases n,
{
    if n <= 0 {
        (index, Seq::empty(), Seq::empty())
    } else {
        let (ix, taken, errors) = record_fold(index, repo, paths, failures, n - 1);
        let path = paths[n - 1];
        if !ix.contains_key(path) && failures[n - 1] is Some {
            (ix, taken, errors.push((repo, failures[n - 1]->Some_0)))
        } else {
            (ix.insert(path, holders_of(ix, path).push(repo)), taken.push(path), errors)
        }
    }
}

/// Releasing `repo` from the first `n` of its paths: the index after it leaves each one's
/// holders (and a path nobody holds leaves the index), and the paths released that way.
pub open spec fn forget_fold(
    index: Map<Seq<char>, Seq<Seq<char>>>,
    repo: Seq<char>,
    paths: Seq<Seq<char>>,
    n: int,
) -> (Map<Seq<char>, Seq<Seq<char>>>, Seq<Seq<char>>)
    decreases n,
{
    if n <= 0 {
        (index, Seq::empty())
    } else {
        let (ix, orphaned) = forget_fold(index, repo, paths, n - 1);
        let path = paths[n - 1];
        if !ix.contains_key(path) {
            (ix, orphaned)
        } else {
            let left = ix[path].filter(not_holder(repo));
            if left.len() == 0 {
                (ix.remove(path), orphaned.push(path))
            } else {
                (ix.insert(path, left), orphaned)
            }
        }
    }
}

/// The views of a list of failures.
pub open spec fn failures_view(failures: Seq<Option<String>>) -> Seq<Option<Seq<char>>> {
    failures.map_values(|f: Option<String>| match f {
        Some(m) => Some(m@),
        None => None,
    })
}

/// The views of a list of scan errors.
pub open spec fn scan_errors_view(errors: Seq<ScanError>) -> Seq<(Seq<char>, Seq<char>)> {
    errors.map_values(|e: ScanError| (e.path@, e.message@))
}

/// Who asked for which watched path, and what was registered for each repository.
pub struct WatchRegistry {
    /// Watched path → the repositories holding it. A path is in here exactly while someone
    /// holds it: it is registered with the watcher when its first holder arrives and released
    /// when its last one goes.
    index: PathMap<Holders>,
    /// Repository → the paths registered for it.
    registered: PathMap<Registration>,
}

impl WatchRegistry {
    /// Watched path → its holders.
    pub closed spec fn index(&self) -> Map<Seq<char>, Seq<Seq<char>>> {
        self.index.map()
    }

    /// Repository → its registered paths.
    pub closed spec fn registrations(&self) -> Map<Seq<char>, Seq<Seq<char>>> {
        self.registered.map()
    }

    /// The internal order holds.
    pub closed spec fn wf(&self) -> bool {
        self.index.wf() && self.registered.wf()
    }

    /// Nothing registered.
    pub fn new() -> (registry: WatchRegistry)
        ensures
            registry.wf(),
            registry.index() == Map::<Seq<char>, Seq<Seq<char>>>::empty(),
            registry.registrations() == Map::<Seq<char>, Seq<Seq<char>>>::empty(),
    {
        WatchRegistry { index: PathMap::new(), registered: PathMap::new() }
    }

    /// How many repositories are being watched.
    pub fn watched_repos(&self) -> (n: usize)
        requires
            self.wf(),
        ensures
            n == self.registrations().len(),
    {
        proof {
            crate::pathmap::lemma_map_len(self.registered.seq());
        }
        self.registered.len()
    }

    /// How many paths are registered with the watcher.
    pub fn watched_paths(&self) -> (n: usize)
        requires
            self.wf(),
        ensures
            n == self.index().len(),
    {
        proof {
            crate::pathmap::lemma_map_len(self.index.seq());
        }
        self.index.len()
    }

    /// Whether `repo` is registered.
    pub fn is_registered(&self, repo: &str) -> (registered: bool)
        requires
            self.wf(),
        ensures
            registered == self.registrations().contains_key(repo@),
    {
        self.registered.find(repo).is_some()
    }

    /// Whether `path` is watched.
    pub fn is_watched(&self, path: &str) -> (watched: bool)
        requires
            self.wf(),
        ensures
            watched == self.index().contains_key(path@),
    {
        self.index.find(path).is_some()
    }

    /// Which entries of a watch set would need a registration of their own: those no
    /// repository holds yet.
    pub fn fresh(&self, set: &[(String, WatchMode)]) -> (fresh: Vec<bool>)
        requires
            self.wf(),
        ensures
            fresh@.len() == set@.len(),
            forall|i: int| 0 <= i < set@.len() ==> fresh@[i] == !self.index().contains_key(#[trigger] set@[i].0@),
    {
        let mut fresh: Vec<bool> = Vec::new();
        for i in 0..set.len()
            invariant
                self.wf(),
                fresh@.len() == i,
                forall|k: int| 0 <= k < i ==> fresh@[k] == !self.index().contains_key(#[trigger] set@[k].0@),
        {
            fresh.push(!self.is_watched(set[i].0.as_str()));
        }
        fresh
    }

    /// Add `repo` as a holder of `path`.
    fn add_holder(&mut self, path: &str, repo: &str)
        requires
            old(self).wf(),
        ensures
            final(self).wf(),
            final(self).index() == old(self).index().insert(path@, holders_of(old(self).index(), path@).push(repo@)),
            final(self).registrations() == old(self).registrations(),
    {
        let mut repos = match self.index.find(path) {
            Some(i) => copy_strings(&self.index.at(i).repos),
            None => Vec::new(),
        };
        let ghost before = repos@;
        repos.push(repo.to_owned());
        assert(strs(repos@) =~= strs(before).push(repo@));
        assert(strs(before) == holders_of(self.index(), path@)) by {
            if !self.index().contains_key(path@) {
                assert(strs(before) =~= Seq::<Seq<char>>::empty());
            }
        }
        self.index.upsert(Holders { path: path.to_owned(), repos });
    }

    /// Record what came of registering `repo`'s watch set: `failures[i]` is the rendered
    /// failure of registering entry `i` when it was fresh and that failed, and is otherwise
    /// `None`. Every entry that took gains `repo` as a holder; the repository is registered
    /// with the paths that took; each failure is reported against the repository.
    pub fn record(&mut self, repo: &str, set: &[(String, WatchMode)], failures: &[Option<String>]) -> (errors: Vec<ScanError>)
        requires
            old(self).wf(),
            set@.len() == failures@.len(),
        ensures
            final(self).wf(),
            ({
                let paths = watches_view(set@).map_values(|w: (Seq<char>, WatchMode)| w.0);
                let folded = record_fold(old(self).index(), repo@, paths, failures_view(failures@), set@.len() as int);
                &&& final(self).index() == folded.0
                &&& final(self).registrations() == old(self).registrations().insert(repo@, folded.1)
                &&& scan_errors_view(errors@) == folded.2
            }),
    {
        let ghost paths = watches_view(set@).map_values(|w: (Seq<char>, WatchMode)| w.0);
        let ghost fails = failures_view(failures@);
        let ghost start = self.index();
        let ghost registered = self.registrations();
        let mut taken: Vec<String> = Vec::new();
        let mut errors: Vec<ScanError> = Vec::new();
        let n = set.len();
        for i in 0..n
            invariant
                self.wf(),
                n == set@.len(),
                n == failures@.len(),
                paths == watches_view(set@).map_values(|w: (Seq<char>, WatchMode)| w.0),
                fails == failures_view(failures@),
                self.registrations() == registered,
                ({
                    let folded = record_fold(start, repo@, paths, fails, i as int);
                    &&& self.index() == folded.0
                    &&& strs(taken@) == folded.1
                    &&& scan_errors_view(errors@) == folded.2
                }),
        {
            let path = set[i].0.as_str();
            assert(paths[i as int] == path@);
            let fresh = !self.is_watched(path);
            match &failures[i] {
                Some(message) if fresh => {
                    assert(fails[i as int] == Some(message@));
                    let ghost before = errors@;
                    errors.push(ScanError { path: repo.to_owned(), message: message.clone() });
                    assert(scan_errors_view(errors@) =~= scan_errors_view(before).push((repo@, message@)));
                },
                _ => {
                    assert(fresh ==> fails[i as int] is None);
                    self.add_holder(path, repo);
                    let ghost before = taken@;
                    taken.push(path.to_owned());
                    assert(strs(taken@) =~= strs(before).push(path@));
                },
            }
        }
        let ghost folded = record_fold(start, repo@, paths, fails, n as int);
        let registration = Registration { repo: repo.to_owned(), paths: taken };
        assert(registration@ == folded.1);
        self.registered.upsert(registration);
        errors
    }

    /// `repo` leaves the holders of `path`; a path left with no holder leaves the index.
    /// Whether it did is returned.
    fn release(&mut self, path: &str, repo: &str) -> (orphaned: bool)
        requires
            old(self).wf(),
            old(self).index().contains_key(path@),
        ensures
            final(self).wf(),
            final(self).registrations() == old(self).registrations(),
            ({
                let left = old(self).index()[path@].filter(not_holder(repo@));
                &&& orphaned == (left.len() == 0)
                &&& final(self).index() == if left.len() == 0 {
                    old(self).index().remove(path@)
                } else {
                    old(self).index().insert(path@, left)
                }
            }),
    {
        let i = self.index.find(path).unwrap();
        let ghost held = self.index()[path@];
        let holders = &self.index.at(i).repos;
        let ghost hv = strs(holders@);
        assert(hv == held);
        let mut left: Vec<String> = Vec::new();
        let m = holders.len();
        for k in 0..m
            invariant
                m == holders@.len(),
                hv == strs(holders@),
                strs(left@) == hv.take(k as int).filter(not_holder(repo@)),
        {
            let ghost before = left@;
            proof {
                assert(hv.take(k + 1).drop_last() =~= hv.take(k as int));
                reveal(Seq::filter);
                assert(hv.take(k + 1).last() == hv[k as int]);
            }
            if !crate::discover::same_text(holders[k].as_str(), repo) {
                left.push(holders[k].clone());
                assert(strs(left@) =~= strs(before).push(hv[k as int]));
            }
        }
        assert(hv.take(m as int) =~= hv);
        if left.len() == 0 {
            let removed = self.index.remove_at(i);
            true
        } else {
            self.index.upsert(Holders { path: path.to_owned(), repos: left });
            false
        }
    }

    /// Drop `repo`'s registrations, and hand back the paths nothing holds any more — the ones
    /// to unwatch — in the order they were released. Nothing happens for a repository that is
    /// not registered.
    pub fn forget(&mut self, repo: &str) -> (orphaned: Vec<String>)
        requires
            old(self).wf(),
        ensures
            final(self).wf(),
            !old(self).registrations().contains_key(repo@) ==> final(self).index() == old(self).index()
                && final(self).registrations() == old(self).registrations() && orphaned@.len() == 0,
            old(self).registrations().contains_key(repo@) ==> {
                let paths = old(self).registrations()[repo@];
                let folded = forget_fold(old(self).index(), repo@, paths, paths.len() as int);
                &&& final(self).index() == folded.0
                &&& final(self).registrations() == old(self).registrations().remove(repo@)
                &&& strs(orphaned@) == folded.1
            },
    {
        let mut orphaned: Vec<String> = Vec::new();
        let i = match self.registered.find(repo) {
            Some(i) => i,
            None => return orphaned,
        };
        let registration = self.registered.remove_at(i);
        let ghost paths = registration@;
        let ghost start = old(self).index();
        let ghost remaining = self.registrations();
        let n = registration.paths.len();
        for k in 0..n
            invariant
                self.wf(),
                n == registration.paths@.len(),
                paths == strs(registration.paths@),
                self.registrations() == remaining,
                ({
                    let folded = forget_fold(start, repo@, paths, k as int);
                    &&& self.index() == folded.0
                    &&& strs(orphaned@) == folded.1
                }),
        {
            let path = registration.paths[k].as_str();
            assert(paths[k as int] == path@);
            if self.is_watched(path) {
                let gone = self.release(path, repo);
                if gone {
                    let ghost before = orphaned@;
                    orphaned.push(path.to_owned());
                    assert(strs(orphaned@) =~= strs(before).push(path@));
                }
            }
        }
        orphaned
    }
}

/// Where the last separator of `p` stands before position `end`, or -1.
pub open spec fn last_sep_before(p: Seq<char>, end: int) -> int
    decreases end,
{
    if end <= 0 {
        -1
    } else if p[end - 1] == '/' {
        end - 1
    } else {
        last_sep_before(p, end - 1)
    }
}

/// The directory `p` sits in (`Path::parent` on a `/`-separated path): everything before its
/// last separator, the root itself for a path directly under it, and nothing for the root or
/// a bare name.
pub open spec fn parent_path(p: Seq<char>) -> Option<Seq<char>> {
    let k = last_sep_before(p, p.len() as int);
    if k > 0 {
        Some(p.take(k))
    } else if k == 0 && p.len() > 1 {
        Some(seq!['/'])
    } else {
        None
    }
}

/// The last separator before `end` is before `end`.
proof fn lemma_last_sep_bounds(p: Seq<char>, end: int)
    requires
        0 <= end <= p.len(),
    ensures
        -1 <= last_sep_before(p, end) < end,
        last_sep_before(p, end) >= 0 ==> p[last_sep_before(p, end)] == '/',
    decreases end,
{
    if end > 0 && p[end - 1] != '/' {
        lemma_last_sep_bounds(p, end - 1);
    }
}

/// The watched path a changed path belongs to: itself if it is watched, else the nearest
/// watched ancestor, else none.
pub open spec fn owner(index: Map<Seq<char>, Seq<Seq<char>>>, p: Seq<char>) -> Option<Seq<char>>
    decreases p.len(),
{
    if index.contains_key(p) {
        Some(p)
    } else {
        match parent_path(p) {
            Some(q) => {
                if q.len() < p.len() { owner(index, q) } else { None }
            },
            None => None,
        }
    }
}

/// `seen` extended with each of `holders` it does not hold yet, in order.
pub open spec fn add_new(seen: Seq<Seq<char>>, holders: Seq<Seq<char>>) -> Seq<Seq<char>>
    decreases holders.len(),
{
    if holders.len() == 0 {
        seen
    } else {
        let before = add_new(seen, holders.drop_last());
        if before.contains(holders.last()) { before } else { before.push(holders.last()) }
    }
}

/// The repositories the first `n` changed paths belong to, each once, in the order they were
/// first reached.
pub open spec fn resolve_fold(index: Map<Seq<char>, Seq<Seq<char>>>, paths: Seq<Seq<char>>, n: int) -> Seq<Seq<char>>
    decreases n,
{
    if n <= 0 {
        Seq::empty()
    } else {
        let seen = resolve_fold(index, paths, n - 1);
        match owner(index, paths[n - 1]) {
            Some(o) => add_new(seen, index[o]),
            None => seen,
        }
    }
}

/// The directory `path` sits in.
fn parent_of_path(path: &str) -> (parent: Option<String>)
    ensures
        match parent {
            Some(q) => parent_path(path@) == Some(q@),
            None => parent_path(path@) is None,
        },
{
    let chars = crate::text::chars_of(path);
    let n = chars.len();
    let mut end: usize = n;
    while end > 0 && chars[end - 1] != '/'
        invariant
            chars@ == path@,
            n == chars@.len(),
            end <= n,
            last_sep_before(chars@, end as int) == last_sep_before(chars@, n as int),
        decreases end,
    {
        end = end - 1;
    }
    if end == 0 {
        return None;
    }
    let k = end - 1;
    assert(last_sep_before(chars@, n as int) == k);
    if k > 0 {
        let mut head: Vec<char> = Vec::new();
        for i in 0..k
            invariant
                n == chars@.len(),
                k < n,
                head@ == chars@.take(i as int),
        {
            head.push(chars[i]);
            assert(chars@.take(i + 1) =~= chars@.take(i as int).push(chars@[i as int]));
        }
        Some(crate::text::string_of(&head))
    } else if n > 1 {
        let mut root = String::new();
        crate::text::push_char(&mut root, '/');
        assert(root@ =~= seq!['/']);
        Some(root)
    } else {
        None
    }
}

/// `seen` extended with each of `holders` not already in it.
fn add_new_holders(seen: &mut Vec<String>, holders: &Vec<String>)
    ensures
        strs(final(seen)@) == add_new(strs(old(seen)@), strs(holders@)),
{
    let ghost start = strs(seen@);
    let ghost hv = strs(holders@);
    let n = holders.len();
    for i in 0..n
        invariant
            n == holders@.len(),
            hv == strs(holders@),
            strs(seen@) == add_new(start, hv.take(i as int)),
    {
        assert(hv.take(i + 1).drop_last() =~= hv.take(i as int));
        assert(hv.take(i + 1).last() == hv[i as int]);
        let candidate = holders[i].as_str();
        let mut present = false;
        let m = seen.len();
        for j in 0..m
            invariant
                m == seen@.len(),
                present == exists|k: int| 0 <= k < j && seen@[k]@ == candidate@,
        {
            if crate::discover::same_text(seen[j].as_str(), candidate) {
                present = true;
            }
        }
        assert(present == strs(seen@).contains(candidate@)) by {
            if present {
                let k = choose|k: int| 0 <= k < m && seen@[k]@ == candidate@;
                assert(strs(seen@)[k] == candidate@);
            }
            if strs(seen@).contains(candidate@) {
                let k = choose|k: int| 0 <= k < strs(seen@).len() && strs(seen@)[k] == candidate@;
                assert(seen@[k]@ == candidate@);
            }
        }
        if !present {
            let ghost before = seen@;
            seen.push(holders[i].clone());
            assert(strs(seen@) =~= strs(before).push(candidate@));
        }
    }
    assert(hv.take(n as int) =~= hv);
}

impl WatchRegistry {
    /// The watched path a changed path belongs to, walking its ancestors.
    fn owner_of(&self, path: &str) -> (found: Option<usize>)
        requires
            self.wf(),
        ensures
            match found {
                Some(i) => i < self.index.seq().len()
                    && owner(self.index(), path@) == Some(self.index.seq()[i as int].key_of()),
                None => owner(self.index(), path@) is None,
            },
    {
        let mut candidate = path.to_owned();
        let ghost asked = path@;
        loop
            invariant
                self.wf(),
                asked == path@,
                owner(self.index(), candidate@) == owner(self.index(), asked),
            decreases candidate@.len(),
        {
            match self.index.find(candidate.as_str()) {
                Some(i) => return Some(i),
                None => {},
            }
            match parent_of_path(candidate.as_str()) {
                Some(parent) => {
                    proof {
                        lemma_last_sep_bounds(candidate@, candidate@.len() as int);
                    }
                    candidate = parent;
                },
                None => return None,
            }
        }
    }

    /// The repositories a batch of changed paths belongs to, each once, in the order they
    /// were first reached: each path's nearest watched ancestor (itself included) names its
    /// holders. A path under nothing watched names nobody.
    pub fn resolve(&self, paths: &[String]) -> (changed: Vec<String>)
        requires
            self.wf(),
        ensures
            strs(changed@) == resolve_fold(self.index(), strs(paths@), paths@.len() as int),
    {
        let ghost pv = strs(paths@);
        let mut changed: Vec<String> = Vec::new();
        let n = paths.len();
        for i in 0..n
            invariant
                self.wf(),
                n == paths@.len(),
                pv == strs(paths@),
                strs(changed@) == resolve_fold(self.index(), pv, i as int),
        {
            assert(pv[i as int] == paths@[i as int]@);
            match self.owner_of(paths[i].as_str()) {
                Some(at) => {
                    let holders = &self.index.at(at).repos;
                    proof {
                        crate::pathmap::lemma_key_index(self.index.seq(), at as int);
                    }
                    add_new_holders(&mut changed, holders);
                },
                None => {},
            }
        }
        changed
    }
}

/// How many separators `p` holds before position `end`: its depth, on a `/`-separated path.
pub open spec fn seps_before(p: Seq<char>, end: int) -> nat
    decreases end,
{
    if end <= 0 {
        0
    } else {
        seps_before(p, end - 1) + if p[end - 1] == '/' { 1nat } else { 0nat }
    }
}

/// How deep `p` is.
pub open spec fn depth(p: Seq<char>) -> nat {
    seps_before(p, p.len() as int)
}

/// Depths never increase along `list`.
pub open spec fn deepest_first_order(list: Seq<Seq<char>>) -> bool {
    forall|i: int, j: int| 0 <= i < j < list.len() ==> depth(#[trigger] list[i]) >= depth(#[trigger] list[j])
}

/// How deep `path` is.
fn depth_of(path: &str) -> (d: usize)
    ensures
        d == depth(path@),
{
    let chars = crate::text::chars_of(path);
    let mut d: usize = 0;
    for i in 0..chars.len()
        invariant
            chars@ == path@,
            d == seps_before(chars@, i as int),
            d <= i,
    {
        if chars[i] == '/' {
            d = d + 1;
        }
    }
    d
}

/// `paths`, deepest first, so a path is unwatched before any directory above it: unwatching
/// a directory drops the watcher's record of every root beneath it.
pub fn deepest_first(paths: Vec<String>) -> (sorted: Vec<String>)
    ensures
        strs(sorted@).to_multiset() == strs(paths@).to_multiset(),
        deepest_first_order(strs(sorted@)),
{
    let mut sorted: Vec<String> = Vec::new();
    let mut depths: Vec<usize> = Vec::new();
    let n = paths.len();
    assert(strs(paths@).take(0) =~= strs(sorted@));
    for i in 0..n
        invariant
            n == paths@.len(),
            depths@.len() == sorted@.len(),
            forall|k: int| 0 <= k < sorted@.len() ==> depths@[k] == depth(#[trigger] strs(sorted@)[k]),
            strs(sorted@).to_multiset() == strs(paths@).take(i as int).to_multiset(),
            deepest_first_order(strs(sorted@)),
    {
        let item = paths[i].clone();
        let d = depth_of(item.as_str());
        let mut at: usize = 0;
        while at < sorted.len() && depths[at] >= d
            invariant
                at <= sorted@.len(),
                depths@.len() == sorted@.len(),
                forall|k: int| 0 <= k < sorted@.len() ==> depths@[k] == depth(#[trigger] strs(sorted@)[k]),
                forall|k: int| 0 <= k < at ==> depth(#[trigger] strs(sorted@)[k]) >= d,
            decreases sorted@.len() - at,
        {
            at = at + 1;
        }
        let ghost before = strs(sorted@);
        proof {
            assert forall|k: int| at <= k < before.len() implies depth(#[trigger] before[k]) < d by {
                assert(depth(before[at as int]) < d);
                if k > at {
                    assert(depth(before[at as int]) >= depth(before[k]));
                }
            }
        }
        sorted.insert(at, item);
        depths.insert(at, d);
        proof {
            assert(strs(sorted@) =~= before.insert(at as int, paths@[i as int]@));
            assert(strs(paths@).take(i + 1) =~= strs(paths@).take(i as int).push(paths@[i as int]@));
            vstd::seq_lib::to_multiset_insert(before, at as int, paths@[i as int]@);
            vstd::seq_lib::to_multiset_build(strs(paths@).take(i as int), paths@[i as int]@);
            assert forall|k: int| 0 <= k < sorted@.len() implies depths@[k] == depth(#[trigger] strs(sorted@)[k]) by {
                if k < at {
                    assert(strs(sorted@)[k] == before[k]);
                } else if k > at {
                    assert(strs(sorted@)[k] == before[k - 1]);
                }
            }
            let after = strs(sorted@);
            assert forall|a: int, b: int| 0 <= a < b < after.len() implies depth(#[trigger] after[a]) >= depth(#[trigger] after[b]) by {
                if b < at {
                    assert(after[a] == before[a] && after[b] == before[b]);
                } else if a < at && b == at {
                    assert(after[a] == before[a]);
                } else if a < at && b > at {
                    assert(after[a] == before[a] && after[b] == before[b - 1]);
                } else if a == at {
                    assert(after[b] == before[b - 1]);
                } else {
                    assert(after[a] == before[a - 1] && after[b] == before[b - 1]);
                }
            }
        }
    }
    assert(strs(paths@).take(n as int) =~= strs(paths@));
    sorted
}

/// Every repository that holds some watched path.
pub open spec fn all_holders(index: Map<Seq<char>, Seq<Seq<char>>>) -> Set<Seq<char>> {
    Set::new(|r: Seq<char>| exists|p: Seq<char>| index.contains_key(p) && #[trigger] index[p].contains(r))
}

impl WatchRegistry {
    /// Every repository holding a watched path, each once, in path order: what a watcher
    /// that lost track and asked for a rescan has to refresh, since after a rescan "nothing
    /// else changed" is not a claim anyone can make.
    pub fn everyone(&self) -> (all: Vec<String>)
        requires
            self.wf(),
        ensures
            crate::pathmap::sorted_by_path(all@),
            strs(all@).to_set() == all_holders(self.index()),
    {
        let mut found: PathMap<String> = PathMap::new();
        let n = self.index.len();
        for i in 0..n
            invariant
                self.wf(),
                found.wf(),
                n == self.index.seq().len(),
                forall|r: Seq<char>| #[trigger] found.map().contains_key(r) <==>
                    exists|k: int| 0 <= k < i && #[trigger] self.index.seq()[k]@.contains(r),
        {
            let holders = &self.index.at(i).repos;
            let m = holders.len();
            let ghost before = found.map();
            for j in 0..m
                invariant
                    found.wf(),
                    m == holders@.len(),
                    forall|r: Seq<char>| #[trigger] found.map().contains_key(r) <==>
                        (before.contains_key(r) || exists|k: int| 0 <= k < j && holders@[k]@ == r),
            {
                found.upsert(holders[j].clone());
            }
            proof {
                assert forall|r: Seq<char>| #[trigger] found.map().contains_key(r) <==>
                    exists|k: int| 0 <= k < i + 1 && #[trigger] self.index.seq()[k]@.contains(r) by {
                    let hv = self.index.seq()[i as int]@;
                    assert(hv == strs(holders@));
                    if exists|k: int| 0 <= k < m && holders@[k]@ == r {
                        let k = choose|k: int| 0 <= k < m && holders@[k]@ == r;
                        assert(hv[k] == r);
                        assert(hv.contains(r));
                    }
                    if hv.contains(r) {
                        let k = choose|k: int| 0 <= k < hv.len() && hv[k] == r;
                        assert(holders@[k]@ == r);
                    }
                }
            }
        }
        let mut all: Vec<String> = Vec::new();
        let count = found.len();
        for i in 0..count
            invariant
                found.wf(),
                count == found.seq().len(),
                all@ == found.seq().take(i as int),
        {
            all.push(found.at(i).clone());
            assert(all@ =~= found.seq().take(i + 1));
        }
        assert(all@ =~= found.seq());
        proof {
            assert forall|r: Seq<char>| strs(all@).to_set().contains(r) <==> all_holders(self.index()).contains(r) by {
                if strs(all@).to_set().contains(r) {
                    let j = choose|j: int| 0 <= j < strs(all@).len() && strs(all@)[j] == r;
                    assert(found.seq()[j].key_of() == r);
                    assert(found.map().contains_key(r));
                    let k = choose|k: int| 0 <= k < n && #[trigger] self.index.seq()[k]@.contains(r);
                    let p = self.index.seq()[k].key_of();
                    crate::pathmap::lemma_key_index(self.index.seq(), k);
                    assert(self.index().contains_key(p) && self.index()[p].contains(r));
                }
                if all_holders(self.index()).contains(r) {
                    let p = choose|p: Seq<char>| self.index().contains_key(p) && #[trigger] self.index()[p].contains(r);
                    let k = crate::pathmap::key_index(self.index.seq(), p);
                    assert(self.index.seq()[k]@.contains(r));
                    assert(found.map().contains_key(r));
                    let j = crate::pathmap::key_index(found.seq(), r);
                    assert(strs(all@)[j] == r);
                }
            }
            assert(strs(all@).to_set() =~= all_holders(self.index()));
        }
        all
    }

    /// The registered repositories `wanted` no longer names, in path order: the ones to
    /// forget.
    pub fn gone(&self, wanted: &[String]) -> (gone: Vec<String>)
        requires
            self.wf(),
        ensures
            crate::pathmap::sorted_by_path(gone@),
            forall|r: Seq<char>| strs(gone@).contains(r) <==>
                (self.registrations().contains_key(r) && !strs(wanted@).contains(r)),
    {
        let mut gone: Vec<String> = Vec::new();
        let n = self.registered.len();
        for i in 0..n
            invariant
                self.wf(),
                n == self.registered.seq().len(),
                forall|k: int| #![trigger gone@[k]] 0 <= k < gone@.len() ==> exists|j: int| 0 <= j < i && #[trigger] self.registered.seq()[j].key_of() == gone@[k]@,
                forall|a: int, b: int| 0 <= a < b < gone@.len() ==> crate::paths::path_lt(#[trigger] gone@[a]@, #[trigger] gone@[b]@),
                forall|k: int| 0 <= k < gone@.len() ==> !strs(wanted@).contains(#[trigger] gone@[k]@),
                forall|j: int| 0 <= j < i && !strs(wanted@).contains(#[trigger] self.registered.seq()[j].key_of())
                    ==> strs(gone@).contains(self.registered.seq()[j].key_of()),
                gone@.len() > 0 ==> exists|j: int| 0 <= j < i && self.registered.seq()[j].key_of() == gone@.last()@,
        {
            let repo = self.registered.at(i).repo.as_str();
            let mut named = false;
            let m = wanted.len();
            for k in 0..m
                invariant
                    m == wanted@.len(),
                    named == exists|q: int| 0 <= q < k && wanted@[q]@ == repo@,
            {
                if crate::discover::same_text(wanted[k].as_str(), repo) {
                    named = true;
                }
            }
            assert(named == strs(wanted@).contains(repo@)) by {
                if named {
                    let q = choose|q: int| 0 <= q < m && wanted@[q]@ == repo@;
                    assert(strs(wanted@)[q] == repo@);
                }
                if strs(wanted@).contains(repo@) {
                    let q = choose|q: int| 0 <= q < strs(wanted@).len() && strs(wanted@)[q] == repo@;
                    assert(wanted@[q]@ == repo@);
                }
            }
            let ghost prior = gone@;
            if !named {
                let ghost before = gone@;
                proof {
                    if before.len() > 0 {
                        let j = choose|j: int| 0 <= j < i && self.registered.seq()[j].key_of() == before.last()@;
                        assert(crate::paths::path_lt(self.registered.seq()[j].key_of(), self.registered.seq()[i as int].key_of()));
                    }
                }
                gone.push(repo.to_owned());
                proof {
                    assert forall|a: int, b: int| 0 <= a < b < gone@.len() implies crate::paths::path_lt(#[trigger] gone@[a]@, #[trigger] gone@[b]@) by {
                        if b == gone@.len() - 1 && a < b {
                            if a < before.len() - 1 {
                                crate::paths::lemma_path_lt_transitive(gone@[a]@, before.last()@, repo@);
                            }
                        }
                    }
                    assert forall|j: int| 0 <= j < i + 1 && !strs(wanted@).contains(#[trigger] self.registered.seq()[j].key_of())
                        implies strs(gone@).contains(self.registered.seq()[j].key_of()) by {
                        if j < i {
                            let k = choose|k: int| 0 <= k < strs(before).len() && strs(before)[k] == self.registered.seq()[j].key_of();
                            assert(strs(gone@)[k] == strs(before)[k]);
                        } else {
                            assert(strs(gone@)[gone@.len() - 1] == repo@);
                        }
                    }
                }
            }
            proof {
                assert(self.registered.seq()[i as int].key_of() == repo@);
                assert forall|k: int| #![trigger gone@[k]] 0 <= k < gone@.len() implies exists|j: int| 0 <= j < i + 1 && #[trigger] self.registered.seq()[j].key_of() == gone@[k]@ by {
                    if k < prior.len() {
                        assert(gone@[k] == prior[k]);
                        let j = choose|j: int| 0 <= j < i && #[trigger] self.registered.seq()[j].key_of() == prior[k]@;
                        assert(self.registered.seq()[j].key_of() == gone@[k]@);
                    } else {
                        assert(gone@[k]@ == repo@);
                    }
                }
            }
        }
        proof {
            assert forall|r: Seq<char>| strs(gone@).contains(r) <==>
                (self.registrations().contains_key(r) && !strs(wanted@).contains(r)) by {
                if strs(gone@).contains(r) {
                    let k = choose|k: int| 0 <= k < strs(gone@).len() && strs(gone@)[k] == r;
                    let j = choose|j: int| 0 <= j < n && #[trigger] self.registered.seq()[j].key_of() == gone@[k]@;
                    assert(self.registrations().contains_key(r));
                }
                if self.registrations().contains_key(r) && !strs(wanted@).contains(r) {
                    let j = crate::pathmap::key_index(self.registered.seq(), r);
                    assert(self.registered.seq()[j].key_of() == r);
                }
            }
        }
        gone
    }
}

/// A path two repositories share survives one of them leaving: forgetting `repo` leaves
/// every path another repository still holds watched, and that repository still among its
/// holders.
pub proof fn lemma_shared_path_survives(
    index: Map<Seq<char>, Seq<Seq<char>>>,
    repo: Seq<char>,
    paths: Seq<Seq<char>>,
    n: int,
    path: Seq<char>,
    other: Seq<char>,
)
    requires
        0 <= n <= paths.len(),
        index.contains_key(path),
        index[path].contains(other),
        other != repo,
    ensures
        forget_fold(index, repo, paths, n).0.contains_key(path),
        forget_fold(index, repo, paths, n).0[path].contains(other),
    decreases n,
{
    if n > 0 {
        lemma_shared_path_survives(index, repo, paths, n - 1, path, other);
        let (ix, orphaned) = forget_fold(index, repo, paths, n - 1);
        let p = paths[n - 1];
        let next = forget_fold(index, repo, paths, n).0;
        if ix.contains_key(p) {
            let left = ix[p].filter(not_holder(repo));
            if p == path {
                let k = choose|k: int| 0 <= k < ix[p].len() && ix[p][k] == other;
                ix[p].filter_lemma(not_holder(repo));
                assert(left.contains(other));
                assert(next == ix.insert(p, left));
            } else if left.len() == 0 {
                assert(next == ix.remove(p));
            } else {
                assert(next == ix.insert(p, left));
            }
        } else {
            assert(next == ix);
        }
    }
}

/// Adding holders never introduces a repeat.
proof fn lemma_add_new_no_duplicates(seen: Seq<Seq<char>>, holders: Seq<Seq<char>>)
    requires
        seen.no_duplicates(),
    ensures
        add_new(seen, holders).no_duplicates(),
    decreases holders.len(),
{
    if holders.len() > 0 {
        lemma_add_new_no_duplicates(seen, holders.drop_last());
        let before = add_new(seen, holders.drop_last());
        if !before.contains(holders.last()) {
            assert forall|i: int, j: int| 0 <= i < j < before.len() + 1 implies before.push(holders.last())[i] != before.push(holders.last())[j] by {
                if j == before.len() {
                    assert(before[i] != holders.last());
                }
            }
        }
    }
}

/// A batch of changed paths resolves to each repository at most once.
pub proof fn lemma_resolve_names_each_once(index: Map<Seq<char>, Seq<Seq<char>>>, paths: Seq<Seq<char>>, n: int)
    ensures
        resolve_fold(index, paths, n).no_duplicates(),
    decreases n,
{
    if n > 0 {
        lemma_resolve_names_each_once(index, paths, n - 1);
        let seen = resolve_fold(index, paths, n - 1);
        match owner(index, paths[n - 1]) {
            Some(o) => lemma_add_new_no_duplicates(seen, index[o]),
            None => {},
        }
    }
}


/// Whatever `keep` picks from `candidates` is one of them.
proof fn lemma_kept_is_candidate(candidates: Seq<Candidate>, keep: Seq<bool>, i: int)
    requires
        0 <= i < kept(candidates, keep).len(),
    ensures
        exists|j: int| 0 <= j < candidates.len()
            && kept(candidates, keep)[i] == (#[trigger] candidates[j].0, candidates[j].1),
    decreases candidates.len(),
{
    let rest = kept(candidates.drop_last(), keep.drop_last());
    if candidates.len() > 0 && keep.len() > 0 {
        if keep.last() && i == rest.len() {
            let j = candidates.len() - 1;
            assert(kept(candidates, keep)[i] == (candidates[j].0, candidates[j].1));
        } else {
            lemma_kept_is_candidate(candidates.drop_last(), keep.drop_last(), i);
            let j = choose|j: int| 0 <= j < candidates.drop_last().len()
                && rest[i] == (#[trigger] candidates.drop_last()[j].0, candidates.drop_last()[j].1);
            assert(candidates.drop_last()[j] == candidates[j]);
        }
    }
}

/// Only Git directories are watched, never a worktree: every path a watch set can hold is a
/// repository's Git directory or its common directory, or lies beneath one of them.
pub proof fn lemma_only_git_directories_are_watched(git_dir: Seq<char>, common_dir: Seq<char>, keep: Seq<bool>, i: int)
    requires
        0 <= i < kept(watch_candidates(git_dir, common_dir), keep).len(),
    ensures
        ({
            let path = kept(watch_candidates(git_dir, common_dir), keep)[i].0;
            git_dir.is_prefix_of(path) || common_dir.is_prefix_of(path)
        }),
{
    let candidates = watch_candidates(git_dir, common_dir);
    lemma_kept_is_candidate(candidates, keep, i);
    let j = choose|j: int| 0 <= j < candidates.len()
        && kept(candidates, keep)[i] == (#[trigger] candidates[j].0, candidates[j].1);
    let dir = if j < 3 { git_dir } else { common_dir };
    let refs = spec_join(dir, "refs"@);
    let logs = spec_join(dir, "logs"@);
    let head = spec_join(logs, "HEAD"@);
    assert(dir.is_prefix_of(dir)) by {
        assert(dir.subrange(0, dir.len() as int) =~= dir);
    }
    assert(dir.is_prefix_of(refs)) by {
        assert(refs.subrange(0, dir.len() as int) =~= dir);
    }
    assert(dir.is_prefix_of(head)) by {
        assert(logs.subrange(0, dir.len() as int) =~= dir);
        assert(head.subrange(0, logs.len() as int) =~= logs);
        assert(head.subrange(0, dir.len() as int) =~= dir);
    }
    if common_dir == git_dir {
        assert(candidates == dir_candidates(git_dir));
    } else {
        assert(candidates[j] == if j < 3 { dir_candidates(git_dir)[j] } else { dir_candidates(common_dir)[j - 3] });
    }
}

} // verus!
