//! Tier 1: the dirty flag and the conflicted count.
//!
//! The dirty flag needs the worktree, but only barely: the status walk is abandoned at its
//! first item, because the question is whether there is any change at all. The walk is the
//! full one — the directory walk for untracked files, index against worktree, and HEAD's tree
//! against the index — so a repository whose only change is a new file, or a staged one, is
//! dirty. The conflicted count reads the index alone, and counts distinct paths: a conflict
//! writes up to three index entries for one file.

use vstd::prelude::*;

use std::sync::atomic::AtomicBool;
use std::sync::Arc;

use crate::error::{spec_render, worktree_error, ReadError};
use crate::model::{DiscoveredRepo, RepoKind, ScanError};
use crate::status::repo::{next_status, open_repo, status_iter, StatusItem, StatusStart};

verus! {

/// What Tier 1 read for one repository. Merged into the row Tier 0 produced.
#[derive(Clone, Debug, PartialEq, Eq)]
pub struct Tier1 {
    /// The repository this describes. The canonical map's key.
    pub path: String,
    /// Whether the worktree differs from HEAD, untracked files included.
    pub dirty: bool,
    /// Distinct paths with a conflicted index entry.
    pub conflicted: u32,
    /// A partial failure. The row survives; this says which half of it is missing.
    pub error: Option<String>,
}

impl Tier1 {
    /// A copy of this value.
    pub fn copied(&self) -> (r: Tier1)
        ensures
            r == *self,
    {
        Tier1 {
            path: self.path.clone(),
            dirty: self.dirty,
            conflicted: self.conflicted,
            error: crate::model::copy_opt_str(&self.error),
        }
    }
}

/// What a completed Tier 1 pass did, as opposed to what it read.
#[derive(Clone, Debug, PartialEq, Eq)]
pub struct Tier1Summary {
    /// Repositories that produced a result.
    pub repos_read: u32,
    /// Repositories skipped because they have no worktree to examine.
    pub bare_skipped: u32,
    /// Repositories whose worktree could not be examined. Never fatal.
    pub errors: Vec<ScanError>,
    /// Wall-clock duration of the pass, milliseconds.
    pub elapsed_ms: u64,
}

impl Default for Tier1Summary {
    fn default() -> (summary: Tier1Summary)
        ensures
            summary.repos_read == 0,
            summary.bare_skipped == 0,
            summary.errors@.len() == 0,
            summary.elapsed_ms == 0,
    {
        Tier1Summary { repos_read: 0, bare_skipped: 0, errors: Vec::new(), elapsed_ms: 0 }
    }
}

/// A repository's index, opaque here.
#[verifier::external_type_specification]
#[verifier::external_body]
pub struct ExIndexFile(gix::index::File);

/// The entries of an index, in index order (sorted by path, then stage): each one's stage
/// (`0` for a settled entry, `1`-`3` for the sides of a conflict) and its path.
pub uninterp spec fn index_entries(index: gix::index::File) -> Seq<(u32, Seq<char>)>;

/// `Repository::open_index`: the repository's index, `None` when it has no index file at all
/// (a freshly initialised repository), or the rendered failure. Read from disk, so nothing is
/// promised.
#[verifier::external_body]
fn open_index(repo: &gix::Repository) -> Result<Option<gix::index::File>, String> {
    match repo.open_index() {
        Ok(index) => Ok(Some(index)),
        Err(gix::worktree::open_index::Error::IndexFile(_)) => Ok(None),
        Err(err) => Err(err.to_string()),
    }
}

/// `File::entries().len()`: how many entries the index holds.
#[verifier::external_body]
fn entry_count(index: &gix::index::File) -> (n: usize)
    ensures
        n == index_entries(*index).len(),
{
    index.entries().len()
}

/// `Entry::stage_raw` of the entry at `i`.
#[verifier::external_body]
fn entry_stage(index: &gix::index::File, i: usize) -> (stage: u32)
    requires
        i < index_entries(*index).len(),
    ensures
        stage == index_entries(*index)[i as int].0,
{
    index.entries()[i].stage_raw()
}

/// `Entry::path` of the entry at `i`, as text.
#[verifier::external_body]
fn entry_path(index: &gix::index::File, i: usize) -> (path: String)
    requires
        i < index_entries(*index).len(),
    ensures
        path@ == index_entries(*index)[i as int].1,
{
    index.entries()[i].path(index).to_string()
}

/// `n + 1`, saturating.
pub open spec fn bump(n: nat) -> nat {
    if n < u32::MAX { n + 1 } else { n }
}

/// Walking the first `n` entries: the number of distinct conflicted paths so far, and the
/// path of the last conflicted entry. The index is sorted by path, so one file's stages
/// stand together and each new path is one more file.
pub open spec fn conflict_walk(entries: Seq<(u32, Seq<char>)>, n: int) -> (nat, Option<Seq<char>>)
    decreases n,
{
    if n <= 0 {
        (0, None)
    } else {
        let (count, last) = conflict_walk(entries, n - 1);
        let (stage, path) = entries[n - 1];
        if stage == 0 {
            (count, last)
        } else if last == Some(path) {
            (count, last)
        } else {
            (bump(count), Some(path))
        }
    }
}

/// The number of distinct conflicted paths in an index, saturating at `u32::MAX`.
pub open spec fn spec_conflicted(entries: Seq<(u32, Seq<char>)>) -> nat {
    conflict_walk(entries, entries.len() as int).0
}

/// How many distinct paths `index` holds a conflicted entry for.
pub fn count_conflicted_in(index: &gix::index::File) -> (count: u32)
    ensures
        count == spec_conflicted(index_entries(*index)),
{
    let ghost entries = index_entries(*index);
    let n = entry_count(index);
    let mut count: u32 = 0;
    let mut last: Option<String> = None;
    for i in 0..n
        invariant
            n == entries.len(),
            entries == index_entries(*index),
            count == conflict_walk(entries, i as int).0,
            crate::model::opt_str_view(&last) == conflict_walk(entries, i as int).1,
    {
        let stage = entry_stage(index, i);
        if stage != 0 {
            let path = entry_path(index, i);
            let repeat = match &last {
                Some(previous) => crate::discover::same_text(previous.as_str(), path.as_str()),
                None => false,
            };
            if !repeat {
                if count < u32::MAX {
                    count = count + 1;
                }
                last = Some(path);
            }
        }
    }
    count
}

/// What a conflicted count can be: that of some index as it was read, or none at all when
/// the repository has no index yet.
pub open spec fn is_conflict_count(n: u32) -> bool {
    n == 0 || exists|index: gix::index::File| n == spec_conflicted(#[trigger] index_entries(index))
}

/// How many distinct paths have a conflicted index entry. An index that does not exist yet
/// has no conflicts.
pub fn count_conflicted(repo: &gix::Repository, git_dir: &str) -> (count: Result<u32, ReadError>)
    ensures
        count matches Ok(n) ==> is_conflict_count(n),
        count matches Err(e) ==> e is Worktree && e->Worktree_path@ == git_dir@ && e->Worktree_what@ == "index"@,
{
    match open_index(repo) {
        Ok(Some(index)) => {
            let n = count_conflicted_in(&index);
            assert(n == spec_conflicted(index_entries(index)));
            Ok(n)
        },
        Ok(None) => Ok(0),
        Err(message) => Err(worktree_error(git_dir, "index", message)),
    }
}

/// The dirty flag as the first item of the status walk gives it: any item at all is a change,
/// none is a clean worktree, and a failure to produce the first item is a failure of the
/// status read of the repository at `git_dir`.
pub open spec fn dirty_follows(first: Option<Result<StatusItem, String>>, git_dir: Seq<char>, dirty: Result<bool, ReadError>) -> bool {
    match first {
        None => dirty == Ok::<bool, ReadError>(false),
        Some(Ok(_)) => dirty == Ok::<bool, ReadError>(true),
        Some(Err(message)) => dirty matches Err(e) && e is Worktree && e->Worktree_path@ == git_dir
            && e->Worktree_what@ == "status"@ && e->Worktree_message == message,
    }
}

/// The dirty flag from the first item of the status walk.
pub fn dirty_of(first: Option<Result<StatusItem, String>>, git_dir: &str) -> (dirty: Result<bool, ReadError>)
    ensures
        dirty_follows(first, git_dir@, dirty),
{
    match first {
        Some(Ok(_)) => Ok(true),
        Some(Err(message)) => Err(worktree_error(git_dir, "status", message)),
        None => Ok(false),
    }
}

/// Whether anything differs from HEAD, untracked files included: whether the full status
/// walk yields anything at all. Only its first item is read. The walk watches the shared
/// interrupt flag itself, so a cancel reaches it while it runs.
pub fn is_dirty(repo: &gix::Repository, git_dir: &str, should_interrupt: &Arc<AtomicBool>) -> (dirty: Result<bool, ReadError>)
    ensures
        (exists|first: Option<Result<StatusItem, String>>| #[trigger] dirty_follows(first, git_dir@, dirty))
            || (dirty matches Err(e) && e is Worktree && e->Worktree_path@ == git_dir@
                && (e->Worktree_what@ == "status"@ || e->Worktree_what@ == "status iterator"@)),
        dirty matches Err(e) ==> e is Worktree && e->Worktree_path@ == git_dir@
            && (e->Worktree_what@ == "status"@ || e->Worktree_what@ == "status iterator"@),
{
    let mut iter = match status_iter(repo, Arc::clone(should_interrupt)) {
        Ok(iter) => iter,
        Err(StatusStart::Status(message)) => return Err(worktree_error(git_dir, "status", message)),
        Err(StatusStart::Iterator(message)) => return Err(worktree_error(git_dir, "status iterator", message)),
    };
    let first = next_status(&mut iter);
    let ghost seen = first;
    let dirty = dirty_of(first, git_dir);
    assert(dirty_follows(seen, git_dir@, dirty));
    dirty
}

/// The Tier 1 result for the repository at `path`: the dirty flag, and the conflicted count
/// or, when that read failed, zero with its cause on `error`.
pub fn tier1_of(path: &str, dirty: bool, conflicted: Result<u32, ReadError>) -> (tier1: Tier1)
    ensures
        tier1.path@ == path@,
        tier1.dirty == dirty,
        tier1.conflicted == match conflicted { Ok(n) => n, Err(_) => 0u32 },
        crate::model::opt_str_view(&tier1.error) == match conflicted {
            Ok(_) => None,
            Err(e) => Some(spec_render(e)),
        },
{
    let (conflicted, error) = match conflicted {
        Ok(n) => (n, None),
        Err(e) => (0, Some(e.message())),
    };
    Tier1 { path: path.to_owned(), dirty, conflicted, error }
}

/// Read Tier 1 for one repository.
///
/// `Ok(None)` for a bare repository: no worktree, so the question does not apply. `Err` when
/// the repository will not open or its worktree could not be examined at all; a failed
/// conflicted count is a value on [`Tier1::error`] instead. The index is read first: it is
/// the cheaper read and touches no worktree.
pub fn read_tier1(found: &DiscoveredRepo, should_interrupt: &Arc<AtomicBool>) -> (read: Result<Option<Tier1>, ReadError>)
    ensures
        found.kind == RepoKind::Bare ==> read == Ok::<Option<Tier1>, ReadError>(None),
        read matches Ok(None) ==> found.kind == RepoKind::Bare,
        read matches Ok(Some(t)) ==> {
            &&& found.kind != RepoKind::Bare
            &&& t.path@ == found.path@
            &&& exists|first: Option<Result<StatusItem, String>>|
                #[trigger] dirty_follows(first, found.git_dir@, Ok::<bool, ReadError>(t.dirty))
            &&& is_conflict_count(t.conflicted)
            &&& (t.error matches Some(cause) ==> t.conflicted == 0 && exists|e: ReadError| {
                &&& e is Worktree
                &&& e->Worktree_path@ == found.git_dir@
                &&& e->Worktree_what@ == "index"@
                &&& cause@ == #[trigger] spec_render(e)
            })
        },
        read matches Err(e) ==> found.kind != RepoKind::Bare
            && ((e is OpenRepo && e->OpenRepo_path@ == found.git_dir@)
                || (e is Worktree && e->Worktree_path@ == found.git_dir@)),
{
    if found.kind == RepoKind::Bare {
        return Ok(None);
    }
    let git_dir = found.git_dir.as_str();
    let repo = match open_repo(git_dir) {
        Ok(repo) => repo,
        Err(message) => return Err(ReadError::OpenRepo { path: git_dir.to_owned(), message }),
    };
    let conflicted = count_conflicted(&repo, git_dir);
    let dirty = match is_dirty(&repo, git_dir, should_interrupt) {
        Ok(dirty) => dirty,
        Err(e) => return Err(e),
    };
    Ok(Some(tier1_of(found.path.as_str(), dirty, conflicted)))
}

} // verus!
