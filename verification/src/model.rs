//! The wire model: every value a row, a scan, or a session push carries.
//!
//! Paths are held as `String`s in the form discovery produced them (canonical, absolute).
//! Every tiered field is an `Option`: `None` means "not computed yet", never zero.

use vstd::prelude::*;

use crate::pathmap::Keyed;

verus! {

/// What kind of repository a row describes.
#[derive(Clone, Copy, Debug, PartialEq, Eq, Structural)]
pub enum RepoKind {
    /// An ordinary repository with a worktree and a `.git` directory.
    Normal,
    /// No worktree; the directory is itself the Git directory.
    Bare,
    /// A linked worktree, whose `.git` is a file naming a private Git directory.
    LinkedWorktree,
    /// A submodule, whose `.git` is likewise a file.
    Submodule,
}

/// An in-progress operation that changes what actions make sense on a row.
#[derive(Clone, Copy, Debug, PartialEq, Eq, Structural)]
pub enum RepoState {
    /// No operation in progress.
    Clean,
    /// A merge is in progress.
    Merging,
    /// A rebase is in progress, including a mailbox application and an interactive rebase.
    Rebasing,
    /// A bisect is in progress.
    Bisecting,
    /// A cherry-pick is in progress, whether one commit or a sequence.
    CherryPicking,
    /// A revert is in progress, whether one commit or a sequence.
    Reverting,
}

/// Where HEAD points.
#[derive(Clone, Debug, PartialEq, Eq)]
pub enum Head {
    /// HEAD is on a branch; the short branch name.
    Branch { name: String },
    /// HEAD points directly at a commit; its hex id.
    Detached { id: String },
    /// A repository with no commits yet.
    Unborn,
}

/// The mathematical value of a [`Head`].
pub enum HeadView {
    Branch { name: Seq<char> },
    Detached { id: Seq<char> },
    Unborn,
}

impl View for Head {
    type V = HeadView;

    open spec fn view(&self) -> HeadView {
        match self {
            Head::Branch { name } => HeadView::Branch { name: name@ },
            Head::Detached { id } => HeadView::Detached { id: id@ },
            Head::Unborn => HeadView::Unborn,
        }
    }
}

/// Just enough of the tip commit to render a row.
#[derive(Clone, Debug, PartialEq, Eq)]
pub struct CommitSummary {
    /// Hex commit id.
    pub id: String,
    /// First line of the commit message.
    pub summary: String,
    /// Author name as recorded in the commit.
    pub author: String,
    /// Author time, epoch milliseconds.
    pub time_ms: u64,
}

/// The mathematical value of a [`CommitSummary`].
pub struct CommitSummaryView {
    pub id: Seq<char>,
    pub summary: Seq<char>,
    pub author: Seq<char>,
    pub time_ms: u64,
}

impl View for CommitSummary {
    type V = CommitSummaryView;

    open spec fn view(&self) -> CommitSummaryView {
        CommitSummaryView {
            id: self.id@,
            summary: self.summary@,
            author: self.author@,
            time_ms: self.time_ms,
        }
    }
}

/// Tier 2 file counts: four independent column totals, never a partition of paths.
#[derive(Clone, Copy, Debug, PartialEq, Eq, Structural)]
pub struct FileCounts {
    /// Paths staged for commit.
    pub staged: u32,
    /// Tracked paths modified in the worktree.
    pub unstaged: u32,
    /// Paths not tracked and not ignored.
    pub untracked: u32,
    /// Paths with conflict markers in the index.
    pub conflicted: u32,
}

impl FileCounts {
    /// Four computed zeros.
    pub open spec fn zero() -> FileCounts {
        FileCounts { staged: 0, unstaged: 0, untracked: 0, conflicted: 0 }
    }
}

impl Default for FileCounts {
    fn default() -> (counts: FileCounts)
        ensures
            counts == FileCounts::zero(),
    {
        FileCounts { staged: 0, unstaged: 0, untracked: 0, conflicted: 0 }
    }
}

/// A submodule as recorded by its parent.
#[derive(Clone, Debug, PartialEq, Eq)]
pub struct SubmoduleStatus {
    /// Submodule name from `.gitmodules`.
    pub name: String,
    /// Path relative to the parent worktree.
    pub path: String,
    /// Commit the parent records for it, hex.
    pub recorded_id: Option<String>,
    /// Commit the submodule's own HEAD is at, hex. `None` when it is not checked out.
    pub head_id: Option<String>,
}

/// The mathematical value of a [`SubmoduleStatus`].
pub struct SubmoduleView {
    pub name: Seq<char>,
    pub path: Seq<char>,
    pub recorded_id: Option<Seq<char>>,
    pub head_id: Option<Seq<char>>,
}

impl View for SubmoduleStatus {
    type V = SubmoduleView;

    open spec fn view(&self) -> SubmoduleView {
        SubmoduleView {
            name: self.name@,
            path: self.path@,
            recorded_id: opt_str_view(&self.recorded_id),
            head_id: opt_str_view(&self.head_id),
        }
    }
}

/// The view of an optional string.
pub open spec fn opt_str_view(s: &Option<String>) -> Option<Seq<char>> {
    match s {
        Some(s) => Some(s@),
        None => None,
    }
}

/// The view of an optional commit summary.
pub open spec fn opt_commit_view(c: &Option<CommitSummary>) -> Option<CommitSummaryView> {
    match c {
        Some(c) => Some(c@),
        None => None,
    }
}

/// The view of a list of submodules.
pub open spec fn submodules_view(list: Seq<SubmoduleStatus>) -> Seq<SubmoduleView> {
    list.map_values(|s: SubmoduleStatus| s@)
}

/// The view of an optional list of submodules.
pub open spec fn opt_submodules_view(list: &Option<Vec<SubmoduleStatus>>) -> Option<
    Seq<SubmoduleView>,
> {
    match list {
        Some(list) => Some(submodules_view(list@)),
        None => None,
    }
}

/// One row of the dashboard: everything known about a repository, merged across tiers.
#[derive(Clone, Debug, PartialEq, Eq)]
pub struct RepoStatus {
    /// Absolute path to the worktree (or to the repository itself, when bare). The map key.
    pub path: String,
    /// Directory name, for display.
    pub name: String,
    /// Parent directory.
    pub parent: String,
    /// Which flavour of repository this is.
    pub kind: RepoKind,
    /// Tier 0: where HEAD points.
    pub head: Head,
    /// Tier 0: upstream tracking ref, e.g. `origin/main`.
    pub upstream: Option<String>,
    /// Tier 0: commits ahead of upstream, capped.
    pub ahead: Option<u32>,
    /// Tier 0: commits behind upstream, capped.
    pub behind: Option<u32>,
    /// Tier 0: the tip commit.
    pub last_commit: Option<CommitSummary>,
    /// Tier 0: number of stash entries.
    pub stash_count: u32,
    /// Tier 0: in-progress operation, if any.
    pub state: RepoState,
    /// Tier 0: modification time of `FETCH_HEAD`, epoch milliseconds.
    pub last_fetched_ms: Option<u64>,
    /// Tier 1: whether the worktree differs from HEAD, untracked files included.
    pub dirty: Option<bool>,
    /// Tier 1: index entries with stage > 0, counted by path.
    pub conflicted: Option<u32>,
    /// Tier 2: full index-to-worktree counts.
    pub counts: Option<FileCounts>,
    /// Tier 2: submodules recorded by this repository.
    pub submodules: Option<Vec<SubmoduleStatus>>,
    /// When this row was last read, epoch milliseconds.
    pub scanned_at_ms: u64,
    /// A per-repo failure. Never fatal to a scan.
    pub error: Option<String>,
}

/// The mathematical value of a [`RepoStatus`].
pub struct RepoStatusView {
    pub path: Seq<char>,
    pub name: Seq<char>,
    pub parent: Seq<char>,
    pub kind: RepoKind,
    pub head: HeadView,
    pub upstream: Option<Seq<char>>,
    pub ahead: Option<u32>,
    pub behind: Option<u32>,
    pub last_commit: Option<CommitSummaryView>,
    pub stash_count: u32,
    pub state: RepoState,
    pub last_fetched_ms: Option<u64>,
    pub dirty: Option<bool>,
    pub conflicted: Option<u32>,
    pub counts: Option<FileCounts>,
    pub submodules: Option<Seq<SubmoduleView>>,
    pub scanned_at_ms: u64,
    pub error: Option<Seq<char>>,
}

impl View for RepoStatus {
    type V = RepoStatusView;

    open spec fn view(&self) -> RepoStatusView {
        RepoStatusView {
            path: self.path@,
            name: self.name@,
            parent: self.parent@,
            kind: self.kind,
            head: self.head@,
            upstream: opt_str_view(&self.upstream),
            ahead: self.ahead,
            behind: self.behind,
            last_commit: opt_commit_view(&self.last_commit),
            stash_count: self.stash_count,
            state: self.state,
            last_fetched_ms: self.last_fetched_ms,
            dirty: self.dirty,
            conflicted: self.conflicted,
            counts: self.counts,
            submodules: opt_submodules_view(&self.submodules),
            scanned_at_ms: self.scanned_at_ms,
            error: opt_str_view(&self.error),
        }
    }
}

/// A copy of an optional string.
pub fn copy_opt_str(s: &Option<String>) -> (r: Option<String>)
    ensures
        r == *s,
{
    match s {
        Some(s) => Some(s.clone()),
        None => None,
    }
}

impl Head {
    /// A copy of this value.
    pub fn copied(&self) -> (r: Head)
        ensures
            r == *self,
    {
        match self {
            Head::Branch { name } => Head::Branch { name: name.clone() },
            Head::Detached { id } => Head::Detached { id: id.clone() },
            Head::Unborn => Head::Unborn,
        }
    }
}

impl CommitSummary {
    /// A copy of this value.
    pub fn copied(&self) -> (r: CommitSummary)
        ensures
            r == *self,
    {
        CommitSummary {
            id: self.id.clone(),
            summary: self.summary.clone(),
            author: self.author.clone(),
            time_ms: self.time_ms,
        }
    }
}

impl SubmoduleStatus {
    /// A copy of this value.
    pub fn copied(&self) -> (r: SubmoduleStatus)
        ensures
            r == *self,
    {
        SubmoduleStatus {
            name: self.name.clone(),
            path: self.path.clone(),
            recorded_id: copy_opt_str(&self.recorded_id),
            head_id: copy_opt_str(&self.head_id),
        }
    }
}

/// A copy of a list of submodules, equal element by element.
pub fn copy_submodules(list: &Vec<SubmoduleStatus>) -> (r: Vec<SubmoduleStatus>)
    ensures
        r@ == list@,
{
    let mut out: Vec<SubmoduleStatus> = Vec::with_capacity(list.len());
    for i in 0..list.len()
        invariant
            out@ == list@.subrange(0, i as int),
    {
        out.push(list[i].copied());
    }
    assert(out@ =~= list@);
    out
}

/// A copy of an optional list of submodules.
pub fn copy_opt_submodules(list: &Option<Vec<SubmoduleStatus>>) -> (r: Option<Vec<SubmoduleStatus>>)
    ensures
        opt_submodules_view(&r) == opt_submodules_view(list),
{
    match list {
        Some(list) => {
            let copy = copy_submodules(list);
            proof {
                assert(submodules_view(copy@) =~= submodules_view(list@));
            }
            Some(copy)
        },
        None => None,
    }
}

impl RepoStatus {
    /// A copy of this row, equal to it field for field.
    pub fn copied(&self) -> (r: RepoStatus)
        ensures
            r@ == self@,
    {
        let submodules = copy_opt_submodules(&self.submodules);
        let last_commit = match &self.last_commit {
            Some(c) => Some(c.copied()),
            None => None,
        };
        RepoStatus {
            path: self.path.clone(),
            name: self.name.clone(),
            parent: self.parent.clone(),
            kind: self.kind,
            head: self.head.copied(),
            upstream: copy_opt_str(&self.upstream),
            ahead: self.ahead,
            behind: self.behind,
            last_commit,
            stash_count: self.stash_count,
            state: self.state,
            last_fetched_ms: self.last_fetched_ms,
            dirty: self.dirty,
            conflicted: self.conflicted,
            counts: self.counts,
            submodules,
            scanned_at_ms: self.scanned_at_ms,
            error: copy_opt_str(&self.error),
        }
    }
}


/// A repository the walk found, before any Git read has happened.
#[derive(Clone, Debug, PartialEq, Eq)]
pub struct DiscoveredRepo {
    /// Absolute path to the worktree, or to the repository itself when bare. The map key.
    pub path: String,
    /// Directory name, for display.
    pub name: String,
    /// Parent directory.
    pub parent: String,
    /// Which flavour of repository this is.
    pub kind: RepoKind,
    /// The resolved Git directory.
    pub git_dir: String,
    /// Where `refs/`, `logs/` and `FETCH_HEAD` live: equal to `git_dir` except for a linked
    /// worktree, whose common directory is the one it shares with the repository it came from.
    pub common_dir: String,
}

/// The mathematical value of a [`DiscoveredRepo`].
pub struct DiscoveredView {
    pub path: Seq<char>,
    pub name: Seq<char>,
    pub parent: Seq<char>,
    pub kind: RepoKind,
    pub git_dir: Seq<char>,
    pub common_dir: Seq<char>,
}

impl View for DiscoveredRepo {
    type V = DiscoveredView;

    open spec fn view(&self) -> DiscoveredView {
        DiscoveredView {
            path: self.path@,
            name: self.name@,
            parent: self.parent@,
            kind: self.kind,
            git_dir: self.git_dir@,
            common_dir: self.common_dir@,
        }
    }
}

impl DiscoveredRepo {
    /// A copy of this value.
    pub fn copied(&self) -> (r: DiscoveredRepo)
        ensures
            r == *self,
    {
        DiscoveredRepo {
            path: self.path.clone(),
            name: self.name.clone(),
            parent: self.parent.clone(),
            kind: self.kind,
            git_dir: self.git_dir.clone(),
            common_dir: self.common_dir.clone(),
        }
    }
}

impl Keyed for RepoStatus {
    open spec fn key_of(&self) -> Seq<char> {
        self.path@
    }

    fn key(&self) -> (k: &str) {
        self.path.as_str()
    }

    fn copied(&self) -> (r: RepoStatus) {
        RepoStatus::copied(self)
    }
}

impl Keyed for DiscoveredRepo {
    open spec fn key_of(&self) -> Seq<char> {
        self.path@
    }

    fn key(&self) -> (k: &str) {
        self.path.as_str()
    }

    fn copied(&self) -> (r: DiscoveredRepo) {
        DiscoveredRepo::copied(self)
    }
}

/// A path the scan could not read, kept as a value rather than raised.
#[derive(Clone, Debug, PartialEq, Eq)]
pub struct ScanError {
    /// The path that failed.
    pub path: String,
    /// Rendered cause.
    pub message: String,
}

impl ScanError {
    /// A copy of this value.
    pub fn copied(&self) -> (r: ScanError)
        ensures
            r == *self,
    {
        ScanError { path: self.path.clone(), message: self.message.clone() }
    }
}

/// Identifies one scan for the lifetime of the process. Starts at 1, so `0` is never live.
#[derive(Clone, Copy, Debug, PartialEq, Eq, Structural, Hash, PartialOrd, Ord, Default)]
pub struct ScanId(pub u64);

/// How much of a row to read. Cumulative: a tier names itself and every cheaper tier below it.
#[derive(Clone, Copy, Debug, PartialEq, Eq, Structural, Hash, PartialOrd, Ord)]
pub enum Tier {
    /// Refs only.
    Zero,
    /// Tier 0, plus the dirty flag and the conflicted count.
    One,
    /// Tier 0 and 1, plus the full file counts and the submodule list.
    Two,
}

impl Tier {
    /// The tier's number.
    pub open spec fn level(self) -> int {
        match self {
            Tier::Zero => 0,
            Tier::One => 1,
            Tier::Two => 2,
        }
    }

    /// Whether this tier includes `other`.
    pub fn includes(self, other: Tier) -> (r: bool)
        ensures
            r == (self.level() >= other.level()),
    {
        match (self, other) {
            (Tier::Zero, Tier::Zero) => true,
            (Tier::Zero, _) => false,
            (Tier::One, Tier::Two) => false,
            (Tier::One, _) => true,
            (Tier::Two, _) => true,
        }
    }
}

impl Default for Tier {
    fn default() -> (t: Tier)
        ensures
            t == Tier::Zero,
    {
        Tier::Zero
    }
}

/// What a completed Tier 0 pass did, as opposed to what it read.
#[derive(Clone, Debug, PartialEq, Eq, Default)]
pub struct Tier0Summary {
    /// Repositories that produced a row.
    pub repos_read: u32,
    /// Repositories that could not be opened or whose HEAD could not be read. Never fatal.
    pub errors: Vec<ScanError>,
    /// Wall-clock duration of the pass, milliseconds.
    pub elapsed_ms: u64,
}

/// What a whole scan did, tier by tier.
#[derive(Clone, Debug, PartialEq, Eq, Default)]
pub struct ScanTotals {
    /// Repositories that produced a row.
    pub repos_read: u32,
    /// Repositories that produced no row at all. Never fatal.
    pub errors: Vec<ScanError>,
    /// Wall-clock duration of the whole scan, milliseconds.
    pub elapsed_ms: u64,
    /// How long the walk took, milliseconds.
    pub discovery_ms: u64,
    /// Time in Tier 0, summed over every batch, milliseconds.
    pub tier0_ms: u64,
    /// Time in Tier 1, summed over every batch, milliseconds.
    pub tier1_ms: u64,
}

/// What a completed walk did, as opposed to what it found.
#[derive(Clone, Debug, PartialEq, Eq, Default)]
pub struct ScanSummary {
    /// Repositories recorded, after deduplication.
    pub repos_found: u32,
    /// Directories visited.
    pub dirs_visited: u32,
    /// Directories skipped by the prune predicate.
    pub dirs_pruned: u32,
    /// Paths that could not be read. Never fatal.
    pub errors: Vec<ScanError>,
    /// Wall-clock duration of the walk, milliseconds.
    pub elapsed_ms: u64,
}

/// What a scan reports as it runs. Every variant carries its [`ScanId`].
#[allow(inconsistent_fields)]
#[derive(Clone, Debug, PartialEq, Eq)]
pub enum ScanEvent {
    /// Repositories the walk found, before any Git read.
    ReposFound { scan_id: ScanId, repos: Vec<DiscoveredRepo> },
    /// Full merged rows.
    ReposUpdated { scan_id: ScanId, repos: Vec<RepoStatus> },
    /// Running totals.
    Progress { scan_id: ScanId, found: u32, read: u32 },
    /// The walk is over.
    DiscoveryFinished { scan_id: ScanId, summary: ScanSummary },
    /// Repositories in the batch just read that produced no row at all, with the cause.
    RepoErrors { scan_id: ScanId, errors: Vec<ScanError> },
    /// The scan ran to completion. Terminal.
    Finished { scan_id: ScanId, summary: ScanTotals },
    /// The scan stopped before completing. Terminal.
    Cancelled { scan_id: ScanId, found: u32, read: u32 },
}

/// A row change that is not part of a scan, pushed on the session channel.
#[allow(inconsistent_fields)]
#[derive(Clone, Debug, PartialEq, Eq)]
pub enum RepoEvent {
    /// Full merged rows, refreshed outside a scan.
    Updated { repos: Vec<RepoStatus> },
    /// Rows that are no longer in the canonical map, by path.
    Removed { paths: Vec<String> },
    /// Watching failed or degraded; rows now update on the poll.
    WatchFailed { message: String },
}

} // verus!
