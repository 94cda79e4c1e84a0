//! Tier 2: the full file counts and the submodule list.
//!
//! Tier 1 abandons the status walk at its first item; Tier 2 drains it, which is why it runs
//! only when a row is expanded or refreshed, one repository at a time.
//!
//! The counts are four independent column totals, not a partition of paths: a path staged and
//! then modified again is one staged item and one unstaged item, as `git status` shows `MM`.
//! An intent-to-add entry counts as unstaged only, a staged rename is one item, and an
//! untracked directory is one entry, as `git status` reports them by default.

use vstd::prelude::*;

use std::sync::atomic::AtomicBool;
use std::sync::Arc;

use gix::status::index_worktree::iter::Summary;

use crate::error::{spec_render, worktree_error, ReadError};
use crate::model::{DiscoveredRepo, FileCounts, RepoKind, SubmoduleStatus};
use crate::paths::{lemma_path_lt_total, lemma_path_lt_transitive, path_less, path_lt};
use crate::status::repo::{next_status, open_repo, private_interrupt, status_iter, StatusItem, StatusStart};

verus! {

/// What Tier 2 read for one repository. Both halves are independent and either can fail.
#[derive(Clone, Debug, PartialEq, Eq)]
pub struct Tier2 {
    /// The repository this describes. The canonical map's key.
    pub path: String,
    /// The four column totals. `None` when the status read failed.
    pub counts: Option<FileCounts>,
    /// The submodules this repository records. `None` when the enumeration failed.
    pub submodules: Option<Vec<SubmoduleStatus>>,
    /// A partial failure. The row survives; this says which half of it is missing.
    pub error: Option<String>,
}

/// What the index-against-worktree half of the status walk says of one path.
#[derive(Clone, Copy, Debug, PartialEq, Eq, Structural)]
pub enum WorktreeChange {
    /// In the index, gone from the worktree.
    Removed,
    /// In the worktree, not in the index: untracked.
    Added,
    /// Modified against the index.
    Modified,
    /// Its type changed, a file becoming a directory or a link.
    TypeChange,
    /// Matched to a differently named index entry.
    Renamed,
    /// Copied from another entry.
    Copied,
    /// Recorded with `git add -N`: promised to the index, content not yet in it.
    IntentToAdd,
    /// Conflicted: its stages arrive as one item, so this is one file.
    Conflict,
}

/// One item of the status walk, as the count reads it.
#[derive(Clone, Copy, Debug, PartialEq, Eq, Structural)]
pub enum StatusChange {
    /// A difference between HEAD's tree and the index: staged work, whatever its shape.
    Staged,
    /// A difference between the index and the worktree.
    Worktree(WorktreeChange),
    /// An item that is no change: a walked entry that is not untracked, or an index entry
    /// that merely needs its stat data refreshed.
    Unreported,
}

/// `gix`'s summary of a worktree change, variant for variant. Nothing can be said here of an
/// opaque value.
#[verifier::external_body]
fn worktree_change(summary: Summary) -> WorktreeChange {
    match summary {
        Summary::Removed => WorktreeChange::Removed,
        Summary::Added => WorktreeChange::Added,
        Summary::Modified => WorktreeChange::Modified,
        Summary::TypeChange => WorktreeChange::TypeChange,
        Summary::Renamed => WorktreeChange::Renamed,
        Summary::Copied => WorktreeChange::Copied,
        Summary::IntentToAdd => WorktreeChange::IntentToAdd,
        Summary::Conflict => WorktreeChange::Conflict,
    }
}

/// `n + 1`, saturating.
pub open spec fn bump(n: u32) -> u32 {
    if n < u32::MAX { (n + 1) as u32 } else { n }
}

/// The counts with one more item in its column.
pub open spec fn spec_tally(counts: FileCounts, change: StatusChange) -> FileCounts {
    match change {
        StatusChange::Staged => FileCounts { staged: bump(counts.staged), ..counts },
        StatusChange::Worktree(WorktreeChange::Conflict) => FileCounts { conflicted: bump(counts.conflicted), ..counts },
        StatusChange::Worktree(WorktreeChange::Added) => FileCounts { untracked: bump(counts.untracked), ..counts },
        StatusChange::Worktree(_) => FileCounts { unstaged: bump(counts.unstaged), ..counts },
        StatusChange::Unreported => counts,
    }
}

/// The column totals of a whole walk.
pub open spec fn spec_count(changes: Seq<StatusChange>) -> FileCounts
    decreases changes.len(),
{
    if changes.len() == 0 {
        FileCounts::zero()
    } else {
        spec_tally(spec_count(changes.drop_last()), changes.last())
    }
}

/// `n + 1`, saturating.
fn bumped(n: u32) -> (m: u32)
    ensures
        m == bump(n),
{
    if n < u32::MAX { n + 1 } else { n }
}

/// Add one status item to the column it belongs in.
pub fn tally(counts: &mut FileCounts, change: StatusChange)
    ensures
        *final(counts) == spec_tally(*old(counts), change),
{
    match change {
        StatusChange::Staged => counts.staged = bumped(counts.staged),
        StatusChange::Worktree(WorktreeChange::Conflict) => counts.conflicted = bumped(counts.conflicted),
        StatusChange::Worktree(WorktreeChange::Added) => counts.untracked = bumped(counts.untracked),
        StatusChange::Worktree(_) => counts.unstaged = bumped(counts.unstaged),
        StatusChange::Unreported => {},
    }
}

/// The column totals of a whole walk, one column per item.
pub fn count_all(changes: &[StatusChange]) -> (counts: FileCounts)
    ensures
        counts == spec_count(changes@),
{
    let mut counts = FileCounts::default();
    for i in 0..changes.len()
        invariant
            counts == spec_count(changes@.take(i as int)),
    {
        assert(changes@.take(i + 1).drop_last() =~= changes@.take(i as int));
        tally(&mut counts, changes[i]);
    }
    assert(changes@.take(changes@.len() as int) =~= changes@);
    counts
}

/// How one item of the walk is counted: staged work is staged, an item `gix` summarises as no
/// change is no change, and a summarised one is a worktree change.
pub open spec fn change_follows(item: StatusItem, change: StatusChange) -> bool {
    match item {
        StatusItem::Staged => change == StatusChange::Staged,
        StatusItem::Worktree(Some(_)) => change is Worktree,
        StatusItem::Worktree(None) => change == StatusChange::Unreported,
    }
}

/// `changes` counts `items`, one for one and in order.
pub open spec fn changes_follow(items: Seq<StatusItem>, changes: Seq<StatusChange>) -> bool {
    &&& items.len() == changes.len()
    &&& forall|i: int| 0 <= i < items.len() ==> change_follows(#[trigger] items[i], changes[i])
}

/// How one item of the walk is counted: `gix`'s summary of a worktree change decides its
/// column, and an item it summarises as no change is no change.
pub fn change_of(item: StatusItem) -> (change: StatusChange)
    ensures
        change_follows(item, change),
{
    match item {
        StatusItem::Staged => StatusChange::Staged,
        StatusItem::Worktree(Some(summary)) => StatusChange::Worktree(worktree_change(summary)),
        StatusItem::Worktree(None) => StatusChange::Unreported,
    }
}

/// Every item the walk yields, counted one for one in order, or the first failure. The walk
/// is bounded by the index and the worktree; the counter only gives the loop a measure.
fn drain(iter: &mut gix::status::Iter) -> (drained: Result<Vec<StatusChange>, String>)
    ensures
        drained matches Ok(changes) ==> exists|items: Seq<StatusItem>| #[trigger] changes_follow(items, changes@),
{
    let mut changes: Vec<StatusChange> = Vec::new();
    let ghost mut items: Seq<StatusItem> = Seq::empty();
    let mut budget: u64 = u64::MAX;
    while budget > 0
        invariant
            changes_follow(items, changes@),
        ensures
            changes_follow(items, changes@),
        decreases budget,
    {
        match next_status(iter) {
            None => break,
            Some(Err(message)) => return Err(message),
            Some(Ok(item)) => {
                let ghost seen = item;
                let change = change_of(item);
                proof {
                    items = items.push(seen);
                }
                changes.push(change);
                assert(items.last() == seen);
            },
        }
        budget = budget - 1;
    }
    let ghost witness = items;
    let drained: Result<Vec<StatusChange>, String> = Ok(changes);
    assert(changes_follow(witness, drained->Ok_0@));
    drained
}

/// Drain the full status walk, tallying one column per item.
///
/// Whatever the walk yields, counts that come back are the column totals of the items it
/// yielded, each counted as [`change_of`] counts it, and a failure is a worktree failure of
/// this repository.
pub fn count_changes(repo: &gix::Repository, git_dir: &str, should_interrupt: &AtomicBool) -> (counts: Result<FileCounts, ReadError>)
    ensures
        counts matches Ok(c) ==> exists|items: Seq<StatusItem>, changes: Seq<StatusChange>|
            #[trigger] changes_follow(items, changes) && c == spec_count(changes),
        counts matches Err(e) ==> e is Worktree && e->Worktree_path@ == git_dir@,
{
    let mut iter = match status_iter(repo, private_interrupt(should_interrupt)) {
        Ok(iter) => iter,
        Err(StatusStart::Status(message)) => return Err(worktree_error(git_dir, "status", message)),
        Err(StatusStart::Iterator(message)) => return Err(worktree_error(git_dir, "status iterator", message)),
    };
    match drain(&mut iter) {
        Ok(changes) => Ok(count_all(&changes)),
        Err(message) => Err(worktree_error(git_dir, "status", message)),
    }
}

/// Which read of the submodule list gave up.
pub enum SubmoduleFailure {
    /// `Repository::submodules`.
    List(String),
    /// `Submodule::path`.
    Path(String),
    /// `Submodule::index_id`.
    IndexId(String),
    /// `Submodule::head_id`.
    HeadId(String),
}

/// One submodule as its parent's configuration records it, opaque here.
#[verifier::external_type_specification]
#[verifier::external_body]
pub struct ExSubmodule<'repo>(gix::Submodule<'repo>);

/// `Repository::submodules`, collected: the submodules the configuration records, in
/// configuration order, `None` when there is no submodule configuration at all, or the
/// rendered failure. Read from disk, so nothing is promised.
#[verifier::external_body]
fn submodules_of<'repo>(repo: &'repo gix::Repository) -> Result<Option<Vec<gix::Submodule<'repo>>>, String> {
    Ok(repo.submodules().map_err(|err| err.to_string())?.map(|modules| modules.collect()))
}

/// One submodule's name, path, the commit the parent's index records for it and the commit
/// its own HEAD is at (ids in hex; `None` where there is none), or the read that failed. Read
/// from disk, so nothing is promised.
#[verifier::external_body]
fn submodule_status(module: &gix::Submodule<'_>) -> Result<SubmoduleStatus, SubmoduleFailure> {
    let path = module.path().map_err(|err| SubmoduleFailure::Path(err.to_string()))?;
    let recorded = module.index_id().map_err(|err| SubmoduleFailure::IndexId(err.to_string()))?;
    let head = module.head_id().map_err(|err| SubmoduleFailure::HeadId(err.to_string()))?;
    Ok(SubmoduleStatus {
        name: module.name().to_string(),
        path: path.to_string(),
        recorded_id: recorded.map(|id| id.to_hex().to_string()),
        head_id: head.map(|id| id.to_hex().to_string()),
    })
}

/// The status of each submodule in `modules`, one entry per module and in the same order, or
/// the first failure.
fn statuses_of(modules: &Vec<gix::Submodule<'_>>) -> (listed: Result<Vec<SubmoduleStatus>, SubmoduleFailure>)
    ensures
        listed matches Ok(list) ==> list@.len() == modules@.len(),
{
    let mut listed: Vec<SubmoduleStatus> = Vec::new();
    for i in 0..modules.len()
        invariant
            listed@.len() == i,
    {
        match submodule_status(&modules[i]) {
            Ok(status) => listed.push(status),
            Err(failure) => return Err(failure),
        }
    }
    Ok(listed)
}

/// Every submodule the configuration records, in configuration order, `None` when there is
/// no submodule configuration, or the first failure.
fn submodule_list(repo: &gix::Repository) -> Result<Option<Vec<SubmoduleStatus>>, SubmoduleFailure> {
    match submodules_of(repo) {
        Ok(Some(modules)) => match statuses_of(&modules) {
            Ok(list) => Ok(Some(list)),
            Err(failure) => Err(failure),
        },
        Ok(None) => Ok(None),
        Err(message) => Err(SubmoduleFailure::List(message)),
    }
}

/// Paths never decrease along `list`.
pub open spec fn sorted_by_submodule_path(list: Seq<SubmoduleStatus>) -> bool {
    forall|i: int, j: int| 0 <= i < j < list.len() ==> !path_lt(#[trigger] list[j].path@, #[trigger] list[i].path@)
}

/// `list` in path order, so a row's list is stable however `.gitmodules` is edited. Stable:
/// entries with one path keep their order.
pub fn sort_by_path(list: Vec<SubmoduleStatus>) -> (sorted: Vec<SubmoduleStatus>)
    ensures
        sorted@.to_multiset() == list@.to_multiset(),
        sorted_by_submodule_path(sorted@),
{
    let mut sorted: Vec<SubmoduleStatus> = Vec::new();
    let n = list.len();
    assert(list@.take(0) =~= sorted@);
    for i in 0..n
        invariant
            n == list@.len(),
            sorted@.to_multiset() == list@.take(i as int).to_multiset(),
            sorted_by_submodule_path(sorted@),
    {
        let item = list[i].copied();
        let mut at: usize = 0;
        while at < sorted.len() && !path_less(item.path.as_str(), sorted[at].path.as_str())
            invariant
                at <= sorted@.len(),
                forall|k: int| 0 <= k < at ==> !path_lt(item.path@, #[trigger] sorted@[k].path@),
            decreases sorted@.len() - at,
        {
            at = at + 1;
        }
        let ghost before = sorted@;
        proof {
            assert forall|k: int| at <= k < before.len() implies path_lt(item.path@, #[trigger] before[k].path@) by {
                let first = before[at as int].path@;
                assert(path_lt(item.path@, first));
                if k > at && before[k].path@ != first {
                    assert(!path_lt(before[k].path@, first));
                    lemma_path_lt_total(before[k].path@, first);
                    lemma_path_lt_transitive(item.path@, first, before[k].path@);
                }
            }
        }
        sorted.insert(at, item);
        proof {
            assert(sorted@ == before.insert(at as int, item));
            assert(list@.take(i + 1) =~= list@.take(i as int).push(list@[i as int]));
            vstd::seq_lib::to_multiset_insert(before, at as int, item);
            vstd::seq_lib::to_multiset_build(list@.take(i as int), list@[i as int]);
            assert forall|a: int, b: int| 0 <= a < b < sorted@.len() implies !path_lt(#[trigger] sorted@[b].path@, #[trigger] sorted@[a].path@) by {
                if a < at && b == at {
                } else if a == at && b > at {
                    assert(path_lt(item.path@, before[b - 1].path@));
                    crate::paths::lemma_path_lt_irreflexive(item.path@);
                    if path_lt(before[b - 1].path@, item.path@) {
                        lemma_path_lt_transitive(item.path@, before[b - 1].path@, item.path@);
                    }
                } else if a < at && b > at {
                    assert(!path_lt(before[b - 1].path@, before[a].path@));
                } else if b < at {
                    assert(!path_lt(before[b].path@, before[a].path@));
                } else {
                    assert(!path_lt(before[b - 1].path@, before[a - 1].path@));
                }
            }
        }
    }
    assert(list@.take(n as int) =~= list@);
    sorted
}

/// A Tier 2 failure while reading the submodule list, named for the read that gave up.
fn submodule_error(git_dir: &str, failure: SubmoduleFailure) -> (error: ReadError)
    ensures
        error is Worktree && error->Worktree_path@ == git_dir@,
{
    match failure {
        SubmoduleFailure::List(message) => worktree_error(git_dir, "submodules", message),
        SubmoduleFailure::Path(message) => worktree_error(git_dir, "submodule path", message),
        SubmoduleFailure::IndexId(message) => worktree_error(git_dir, "submodule index id", message),
        SubmoduleFailure::HeadId(message) => worktree_error(git_dir, "submodule head id", message),
    }
}

/// The submodules this repository records, in path order. No submodule configuration at all
/// is an answered question: an empty list, not an unknown one.
pub fn read_submodules(repo: &gix::Repository, git_dir: &str) -> (listed: Result<Vec<SubmoduleStatus>, ReadError>)
    ensures
        listed matches Ok(list) ==> sorted_by_submodule_path(list@),
        listed matches Err(e) ==> e is Worktree && e->Worktree_path@ == git_dir@,
{
    match submodule_list(repo) {
        Ok(Some(list)) => Ok(sort_by_path(list)),
        Ok(None) => Ok(Vec::new()),
        Err(failure) => Err(submodule_error(git_dir, failure)),
    }
}

/// The rendered causes of whichever halves failed, joined with `"; "`, or `None`.
pub open spec fn spec_tier2_error(counts: Option<ReadError>, submodules: Option<ReadError>) -> Option<Seq<char>> {
    match (counts, submodules) {
        (Some(a), Some(b)) => Some(spec_render(a) + "; "@ + spec_render(b)),
        (Some(a), None) => Some(spec_render(a)),
        (None, Some(b)) => Some(spec_render(b)),
        (None, None) => None,
    }
}

/// The failure of a read, if it failed.
pub open spec fn failure_of<T>(read: Result<T, ReadError>) -> Option<ReadError> {
    match read {
        Ok(_) => None,
        Err(e) => Some(e),
    }
}

/// The Tier 2 result for the repository at `path`, from its two independent reads: each half
/// is its value, or `None` with its cause on `error`.
pub fn tier2_of(path: &str, counts: Result<FileCounts, ReadError>, submodules: Result<Vec<SubmoduleStatus>, ReadError>) -> (tier2: Tier2)
    ensures
        tier2.path@ == path@,
        tier2.counts == match counts { Ok(c) => Some(c), Err(_) => None },
        tier2.submodules == match submodules { Ok(list) => Some(list), Err(_) => None },
        crate::model::opt_str_view(&tier2.error) == spec_tier2_error(failure_of(counts), failure_of(submodules)),
{
    let ghost counts_failure = failure_of(counts);
    let ghost submodules_failure = failure_of(submodules);
    let (counts, first) = match counts {
        Ok(c) => (Some(c), None),
        Err(e) => (None, Some(e.message())),
    };
    let (submodules, second) = match submodules {
        Ok(list) => (Some(list), None),
        Err(e) => (None, Some(e.message())),
    };
    let error = match (first, second) {
        (Some(mut a), Some(b)) => {
            a.append("; ");
            a.append(b.as_str());
            Some(a)
        },
        (Some(a), None) => Some(a),
        (None, Some(b)) => Some(b),
        (None, None) => None,
    };
    Tier2 { path: path.to_owned(), counts, submodules, error }
}

/// The two halves of a Tier 2 result as the reads left them: each half its value or `None`,
/// and `error` the causes of the halves that failed, joined with `"; "`.
pub open spec fn tier2_halves(t: Tier2, counts: Result<FileCounts, ReadError>, submodules: Result<Vec<SubmoduleStatus>, ReadError>) -> bool {
    &&& t.counts == match counts { Ok(c) => Some(c), Err(_) => None }
    &&& t.submodules == match submodules { Ok(list) => Some(list), Err(_) => None }
    &&& crate::model::opt_str_view(&t.error) == spec_tier2_error(failure_of(counts), failure_of(submodules))
}

/// Read Tier 2 for one repository.
///
/// `Ok(None)` for a bare repository, which has no worktree to compare and no `.gitmodules` to
/// read: "cannot ever", not "not yet". `Err` only when the repository will not open; either
/// half failing is a value on [`Tier2::error`], and the other half survives it.
pub fn read_tier2(found: &DiscoveredRepo, should_interrupt: &Arc<AtomicBool>) -> (read: Result<Option<Tier2>, ReadError>)
    ensures
        found.kind == RepoKind::Bare ==> read == Ok::<Option<Tier2>, ReadError>(None),
        read matches Ok(None) ==> found.kind == RepoKind::Bare,
        read matches Err(e) ==> found.kind != RepoKind::Bare && e is OpenRepo && e->OpenRepo_path@ == found.git_dir@,
        read matches Ok(Some(t)) ==> {
            &&& found.kind != RepoKind::Bare
            &&& t.path@ == found.path@
            &&& (t.counts matches Some(c) ==> exists|items: Seq<StatusItem>, changes: Seq<StatusChange>|
                #[trigger] changes_follow(items, changes) && c == spec_count(changes))
            &&& (t.submodules matches Some(list) ==> sorted_by_submodule_path(list@))
            &&& (t.error is None <==> (t.counts is Some && t.submodules is Some))
            &&& exists|counts: Result<FileCounts, ReadError>, submodules: Result<Vec<SubmoduleStatus>, ReadError>| {
                &&& #[trigger] tier2_halves(t, counts, submodules)
                &&& (counts matches Err(e) ==> e is Worktree && e->Worktree_path@ == found.git_dir@)
                &&& (submodules matches Err(e) ==> e is Worktree && e->Worktree_path@ == found.git_dir@)
            }
        },
{
    if found.kind == RepoKind::Bare {
        return Ok(None);
    }
    let git_dir = found.git_dir.as_str();
    let repo = match open_repo(git_dir) {
        Ok(repo) => repo,
        Err(message) => return Err(ReadError::OpenRepo { path: git_dir.to_owned(), message }),
    };
    let flag: &AtomicBool = &**should_interrupt;
    let counts = count_changes(&repo, git_dir, flag);
    let submodules = read_submodules(&repo, git_dir);
    let ghost (c0, s0) = (counts, submodules);
    let t = tier2_of(found.path.as_str(), counts, submodules);
    assert(tier2_halves(t, c0, s0));
    Ok(Some(t))
}


/// The total of the four columns.
pub open spec fn column_total(counts: FileCounts) -> int {
    counts.staged + counts.unstaged + counts.untracked + counts.conflicted
}

/// Each reported change lands in exactly one column and no change is dropped: staged work in
/// staged, an untracked path in untracked, a conflict in conflicted, and every other worktree
/// change (removed, modified, type change, renamed, copied, intent to add) in unstaged; an
/// item that reports no change moves nothing. Holds below saturation.
pub proof fn lemma_tally_puts_each_change_in_its_column(counts: FileCounts, change: StatusChange)
    requires
        counts.staged < u32::MAX,
        counts.unstaged < u32::MAX,
        counts.untracked < u32::MAX,
        counts.conflicted < u32::MAX,
    ensures
        ({
            let next = spec_tally(counts, change);
            &&& next.staged == counts.staged + if change == StatusChange::Staged { 1int } else { 0int }
            &&& next.untracked == counts.untracked
                + if change == StatusChange::Worktree(WorktreeChange::Added) { 1int } else { 0int }
            &&& next.conflicted == counts.conflicted
                + if change == StatusChange::Worktree(WorktreeChange::Conflict) { 1int } else { 0int }
            &&& next.unstaged == counts.unstaged + if change is Worktree
                && change != StatusChange::Worktree(WorktreeChange::Added)
                && change != StatusChange::Worktree(WorktreeChange::Conflict) { 1int } else { 0int }
            &&& column_total(next) == column_total(counts)
                + if change == StatusChange::Unreported { 0int } else { 1int }
        }),
{
}

/// How many items of `changes` report a change.
pub open spec fn reported(changes: Seq<StatusChange>) -> int
    decreases changes.len(),
{
    if changes.len() == 0 {
        0
    } else {
        reported(changes.drop_last()) + if changes.last() == StatusChange::Unreported { 0int } else { 1int }
    }
}

/// A whole walk drops no reported change: the four columns add up to the number of items that
/// report one. Holds while the walk is shorter than the counters' range.
pub proof fn lemma_count_drops_nothing(changes: Seq<StatusChange>)
    requires
        changes.len() < u32::MAX,
    ensures
        column_total(spec_count(changes)) == reported(changes),
        spec_count(changes).staged <= changes.len(),
        spec_count(changes).unstaged <= changes.len(),
        spec_count(changes).untracked <= changes.len(),
        spec_count(changes).conflicted <= changes.len(),
    decreases changes.len(),
{
    if changes.len() > 0 {
        lemma_count_drops_nothing(changes.drop_last());
        lemma_tally_puts_each_change_in_its_column(spec_count(changes.drop_last()), changes.last());
    }
}

} // verus!
