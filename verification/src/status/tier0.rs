//! Tier 0: everything a row needs that can be had from refs alone.
//!
//! Branch, upstream, ahead/behind, stash count, in-progress state, tip commit, last-fetched
//! age. No worktree is touched and no index is read, which is what makes a row appear before
//! anything expensive happens to it.
//!
//! Two grades of failure. A repository that will not open, or whose HEAD cannot be read,
//! produces no row: every other Tier 0 field is measured relative to HEAD. A repository that
//! was read but whose upstream, ahead/behind, tip commit or stash count failed keeps its row:
//! the field stays `None` (the stash count reads 0) and the cause lands on the row's `error`.

use vstd::prelude::*;

use std::time::{Duration, SystemTime};

use gix::state::InProgress;

use crate::clock::{is_epoch_ms, millis_of, now_ms, system_time_ms};
use crate::error::{spec_render, ReadError};
use crate::model::{
    opt_commit_view, opt_str_view, CommitSummary, CommitSummaryView, DiscoveredRepo, Head, HeadView, RepoKind,
    RepoState, RepoStatus, RepoStatusView,
};
use crate::status::repo::{hex_of, object_hex, open_repo, repo_dirs, same_id};

verus! {

broadcast use vstd::string::group_string_axioms;

/// Where the ahead/behind walk stops counting: a count this high reads as "at least this
/// many".
pub const AHEAD_BEHIND_CAP: u32 = 1000;

/// A full reference name, opaque here.
#[verifier::external_type_specification]
#[verifier::external_body]
pub struct ExFullName(gix::refs::FullName);

/// A revision walk in progress, opaque here.
#[verifier::external_type_specification]
#[verifier::external_body]
pub struct ExWalk<'repo>(gix::revision::Walk<'repo>);

/// One commit a revision walk yields, opaque here.
#[verifier::external_type_specification]
#[verifier::external_body]
pub struct ExWalkInfo<'repo>(gix::revision::walk::Info<'repo>);

/// A failure of a revision walk, opaque here.
#[verifier::external_type_specification]
#[verifier::external_body]
pub struct ExWalkError(gix::revision::walk::iter::Error);

/// Where HEAD points, in the three shapes `gix` tells apart.
#[derive(Clone, Copy, Debug, PartialEq, Eq, Structural)]
pub enum HeadKind {
    /// On a branch that exists.
    Symbolic,
    /// On a branch with no commits yet.
    Unborn,
    /// Directly at a commit.
    Detached,
}

/// What reading HEAD yielded.
pub struct HeadRead {
    /// Its shape.
    pub kind: HeadKind,
    /// The commit it resolves to, tags peeled; `None` when unborn.
    pub tip: Option<gix::ObjectId>,
    /// The branch it is on; `None` when detached.
    pub branch: Option<gix::refs::FullName>,
}

/// `Repository::head`, then `Head::try_peel_to_id` (which peels a tag HEAD is detached onto
/// to its commit) and `Head::referent_name`: HEAD's shape, tip and branch, or the rendered
/// failure. Read from disk, so nothing is promised.
#[verifier::external_body]
fn head_of(repo: &gix::Repository) -> Result<HeadRead, String> {
    let mut head = repo.head().map_err(|err| err.to_string())?;
    let tip = head.try_peel_to_id().map_err(|err| err.to_string())?.map(|id| id.detach());
    let kind = match &head.kind {
        gix::head::Kind::Symbolic(_) => HeadKind::Symbolic,
        gix::head::Kind::Unborn(_) => HeadKind::Unborn,
        gix::head::Kind::Detached { .. } => HeadKind::Detached,
    };
    Ok(HeadRead { kind, tip, branch: head.referent_name().map(|name| name.to_owned()) })
}

/// A full reference name with its category prefix dropped, as `FullName::shorten` gives it:
/// `refs/heads/feature/x` is `feature/x`. A function of the name alone.
pub uninterp spec fn short_ref_name(name: gix::refs::FullName) -> Seq<char>;

/// `FullName::shorten`, as text: `refs/heads/feature/x` is `feature/x`.
#[verifier::external_body]
fn short_name(name: &gix::refs::FullName) -> (short: String)
    ensures
        short@ == short_ref_name(*name),
{
    name.shorten().to_string()
}

/// HEAD as a row shows it: the short branch name on a branch, the tip's id when detached,
/// `Unborn` when there is no commit (a detached HEAD always has one; one without is reported
/// as unborn rather than inventing a commit).
pub fn head_wire(kind: HeadKind, branch: Option<String>, tip_hex: Option<String>) -> (head: Head)
    ensures
        head == match kind {
            HeadKind::Unborn => Head::Unborn,
            HeadKind::Symbolic => Head::Branch { name: head->Branch_name },
            HeadKind::Detached => match tip_hex {
                Some(id) => Head::Detached { id: head->Detached_id },
                None => Head::Unborn,
            },
        },
        kind == HeadKind::Symbolic ==> head->Branch_name@ == match branch { Some(b) => b@, None => Seq::<char>::empty() },
        (kind == HeadKind::Detached && tip_hex is Some) ==> head->Detached_id@ == tip_hex->Some_0@,
{
    match kind {
        HeadKind::Unborn => Head::Unborn,
        HeadKind::Symbolic => Head::Branch { name: match branch { Some(b) => b, None => String::new() } },
        HeadKind::Detached => match tip_hex {
            Some(id) => Head::Detached { id },
            None => Head::Unborn,
        },
    }
}

/// `Repository::branch_remote_tracking_ref_name` for fetching: the remote-tracking ref a
/// branch's upstream configuration names, `None` when it has no upstream, or the rendered
/// failure. Read from configuration, so nothing is promised.
#[verifier::external_body]
fn tracking_ref(repo: &gix::Repository, branch: &gix::refs::FullName) -> Option<Result<gix::refs::FullName, String>> {
    repo.branch_remote_tracking_ref_name(branch.as_ref(), gix::remote::Direction::Fetch)
        .map(|found| found.map_err(|err| err.to_string()))
}

/// `Repository::try_find_reference`, then `Reference::into_fully_peeled_id`: the commit a ref
/// points at, `None` when the ref does not exist, or the rendered failure. Read from disk, so
/// nothing is promised.
#[verifier::external_body]
fn peeled_target(repo: &gix::Repository, name: &gix::refs::FullName) -> Result<Option<gix::ObjectId>, String> {
    match repo.try_find_reference(name.as_ref()).map_err(|err| err.to_string())? {
        Some(reference) => Ok(Some(reference.into_fully_peeled_id().map_err(|err| err.to_string())?.detach())),
        None => Ok(None),
    }
}

/// The upstream tracking branch of a local branch.
pub struct Tracking {
    /// Display name, e.g. `origin/main`.
    pub name: String,
    /// The commit the tracking ref points at, or `None` when it has never been fetched.
    pub id: Option<gix::ObjectId>,
}

/// A refs-level failure of the read `what` of the repository at `git_dir`.
fn refs_error(git_dir: &str, what: &str, message: String) -> (error: ReadError)
    ensures
        error is Refs,
        error->Refs_path@ == git_dir@,
        error->Refs_what@ == what@,
        error->Refs_message == message,
{
    ReadError::Refs { path: git_dir.to_owned(), what: what.to_owned(), message }
}

/// The upstream of `branch`, if one is configured: its name, and its tip when the tracking
/// ref exists. A configured upstream with no tracking ref yet keeps its name and has no id,
/// which is not the same as having no upstream.
fn upstream_of(repo: &gix::Repository, git_dir: &str, branch: &gix::refs::FullName) -> (up: Result<Option<Tracking>, ReadError>)
    ensures
        up matches Err(e) ==> e is Refs && e->Refs_path@ == git_dir@ && e->Refs_what@ == "upstream"@,
{
    let tracking = match tracking_ref(repo, branch) {
        None => return Ok(None),
        Some(Err(message)) => return Err(refs_error(git_dir, "upstream", message)),
        Some(Ok(tracking)) => tracking,
    };
    match peeled_target(repo, &tracking) {
        Ok(id) => Ok(Some(Tracking { name: short_name(&tracking), id })),
        Err(message) => Err(refs_error(git_dir, "upstream", message)),
    }
}

/// A revision walk in progress, with the ids it was started from: everything reachable from
/// `from`, less everything reachable from `hiding`.
pub struct HiddenWalk<'repo> {
    walk: gix::revision::Walk<'repo>,
    /// The tip the walk starts at.
    pub from: Ghost<gix::ObjectId>,
    /// The tip whose history the walk hides.
    pub hiding: Ghost<gix::ObjectId>,
}

/// `Repository::rev_walk` from `tip`, breadth first, hiding everything reachable from
/// `hidden` (`with_hidden`, the `^hidden` of a revision range, not `with_boundary`). What the
/// walk yields is read from the object database, so nothing is promised of it; the walk is
/// the one started from `tip` and hiding `hidden`.
#[verifier::external_body]
fn hidden_walk<'repo>(repo: &'repo gix::Repository, tip: &gix::ObjectId, hidden: &gix::ObjectId) -> (walk: Result<HiddenWalk<'repo>, String>)
    ensures
        walk matches Ok(w) ==> w.from@ == *tip && w.hiding@ == *hidden,
{
    let walk = repo.rev_walk([*tip])
        .sorting(gix::revision::walk::Sorting::BreadthFirst)
        .with_hidden([*hidden])
        .all()
        .map_err(|err| err.to_string())?;
    Ok(HiddenWalk { walk, from: Ghost(*tip), hiding: Ghost(*hidden) })
}

/// `Iterator::next` on a revision walk: whether another commit came, or why it could not be
/// decoded. Nothing is promised of what comes; the walk keeps its ids.
#[verifier::external_body]
fn walk_step(walk: &mut HiddenWalk<'_>) -> (step: Option<Result<(), String>>)
    ensures
        final(walk).from == old(walk).from,
        final(walk).hiding == old(walk).hiding,
{
    walk.walk.next().map(|item| item.map(|_| ()).map_err(|err| err.to_string()))
}

/// How many commits a walk counted, and which walk it was: the commits reachable from `from`
/// and not from `hiding`, at most some cap.
pub struct WalkCount {
    /// The commits counted.
    pub count: u32,
    /// The tip counted from.
    pub from: Ghost<gix::ObjectId>,
    /// The tip whose history was left out.
    pub hiding: Ghost<gix::ObjectId>,
}

/// Count commits reachable from `tip` but not from `hidden`, stopping at `cap`. A commit that
/// cannot be decoded fails the count rather than silently shortening it.
fn count_hidden(repo: &gix::Repository, tip: &gix::ObjectId, hidden: &gix::ObjectId, cap: u32) -> (count: Result<WalkCount, String>)
    ensures
        count matches Ok(c) ==> c.count <= cap && c.from@ == *tip && c.hiding@ == *hidden,
{
    let mut walk = hidden_walk(repo, tip, hidden)?;
    let mut count: u32 = 0;
    while count < cap
        invariant
            count <= cap,
            walk.from@ == *tip,
            walk.hiding@ == *hidden,
        decreases cap - count,
    {
        match walk_step(&mut walk) {
            None => break,
            Some(Err(message)) => return Err(message),
            Some(Ok(())) => count = count + 1,
        }
    }
    Ok(WalkCount { count, from: walk.from, hiding: walk.hiding })
}

/// How far a branch and its upstream have gone apart: the commits on `local` that `upstream`
/// lacks, and the reverse, each capped at `cap`. Identical tips are `(0, 0)` without walking
/// at all, since a tip's whole history is hidden by itself.
pub fn ahead_behind(repo: &gix::Repository, git_dir: &str, local: &gix::ObjectId, upstream: &gix::ObjectId, cap: u32) -> (counts: Result<(WalkCount, WalkCount), ReadError>)
    ensures
        counts matches Ok((ahead, behind)) ==> {
            &&& ahead.from@ == *local && ahead.hiding@ == *upstream
            &&& behind.from@ == *upstream && behind.hiding@ == *local
            &&& ahead.count <= cap && behind.count <= cap
            &&& (*local == *upstream ==> ahead.count == 0 && behind.count == 0)
        },
        *local == *upstream ==> counts is Ok,
        counts matches Err(e) ==> e is Refs && e->Refs_path@ == git_dir@ && e->Refs_what@ == "ahead/behind"@,
{
    if same_id(local, upstream) {
        let ahead = WalkCount { count: 0, from: Ghost(*local), hiding: Ghost(*upstream) };
        let behind = WalkCount { count: 0, from: Ghost(*upstream), hiding: Ghost(*local) };
        return Ok((ahead, behind));
    }
    let ahead = match count_hidden(repo, local, upstream, cap) {
        Ok(n) => n,
        Err(message) => return Err(refs_error(git_dir, "ahead/behind", message)),
    };
    let behind = match count_hidden(repo, upstream, local, cap) {
        Ok(n) => n,
        Err(message) => return Err(refs_error(git_dir, "ahead/behind", message)),
    };
    Ok((ahead, behind))
}

/// The parts of a tip commit a row shows.
pub struct CommitRead {
    /// The first line of the message.
    pub summary: String,
    /// The author's name.
    pub author: String,
    /// The author time, signed epoch seconds.
    pub seconds: i64,
}

/// `Repository::find_commit`, then the message's `summary`, the `author` signature's name and
/// its `time().seconds` — the author's, not the committer's, which a rebase rewrites. Read
/// from the object database, so nothing is promised.
#[verifier::external_body]
fn commit_read(repo: &gix::Repository, tip: &gix::ObjectId) -> Result<CommitRead, String> {
    let commit = repo.find_commit(*tip).map_err(|err| err.to_string())?;
    let summary = commit.message().map_err(|err| err.to_string())?.summary().to_string();
    let author = commit.author().map_err(|err| err.to_string())?;
    let seconds = author.time().map_err(|err| err.to_string())?.seconds;
    Ok(CommitRead { summary, author: author.name.to_string(), seconds })
}

/// Git's signed epoch seconds as unsigned epoch milliseconds: a date before 1970 reads as the
/// epoch, and an absurdly late one saturates.
pub open spec fn spec_epoch_ms(seconds: i64) -> u64 {
    if seconds <= 0 {
        0
    } else if seconds * 1000 > u64::MAX {
        u64::MAX
    } else {
        (seconds * 1000) as u64
    }
}

/// Git's signed epoch seconds as unsigned epoch milliseconds.
pub fn epoch_ms(seconds: i64) -> (ms: u64)
    ensures
        ms == spec_epoch_ms(seconds),
{
    if seconds <= 0 {
        0
    } else {
        let s = seconds as u64;
        match s.checked_mul(1000) {
            Some(ms) => ms,
            None => u64::MAX,
        }
    }
}

/// Summarise the tip commit: its id, its summary and author as read, and its author time in
/// epoch milliseconds.
fn read_commit(repo: &gix::Repository, git_dir: &str, tip: &gix::ObjectId) -> (commit: Result<CommitSummary, ReadError>)
    ensures
        commit matches Ok(c) ==> c.id@ == object_hex(*tip)
            && exists|seconds: i64| c.time_ms == #[trigger] spec_epoch_ms(seconds),
        commit matches Err(e) ==> e is Refs && e->Refs_path@ == git_dir@ && e->Refs_what@ == "tip commit"@,
{
    match commit_read(repo, tip) {
        Ok(read) => {
            let time_ms = epoch_ms(read.seconds);
            assert(time_ms == spec_epoch_ms(read.seconds));
            Ok(CommitSummary { id: hex_of(tip), summary: read.summary, author: read.author, time_ms })
        },
        Err(message) => Err(refs_error(git_dir, "tip commit", message)),
    }
}

/// The reflog of `refs/stash`, which is what `git stash list` reads: one entry per stash, each
/// `None` when it reads and the rendered failure when it does not. `None` when there is no
/// such ref or no log for it. Read from disk, so nothing is promised.
#[verifier::external_body]
fn stash_log(repo: &gix::Repository) -> Result<Option<Vec<Option<String>>>, String> {
    let Some(stash) = repo.try_find_reference("refs/stash").map_err(|err| err.to_string())? else {
        return Ok(None);
    };
    let mut platform = stash.log_iter();
    let Some(entries) = platform.all().map_err(|err| err.to_string())? else {
        return Ok(None);
    };
    let mut read = Vec::new();
    for entry in entries {
        read.push(entry.err().map(|err| err.to_string()));
    }
    Ok(Some(read))
}

/// How many stash entries there are: one per reflog line, none without a stash ref, and the
/// first entry that will not read fails the count.
pub fn stash_count_of(log: Option<Vec<Option<String>>>) -> (count: Result<u32, String>)
    ensures
        log is None ==> count == Ok::<u32, String>(0u32),
        log matches Some(entries) ==> match count {
            Ok(n) => (forall|i: int| 0 <= i < entries@.len() ==> #[trigger] entries@[i] is None)
                && n == if entries@.len() <= u32::MAX { entries@.len() } else { u32::MAX as nat },
            Err(message) => exists|i: int| 0 <= i < entries@.len() && #[trigger] entries@[i] == Some(message),
        },
{
    let entries = match log {
        None => return Ok(0),
        Some(entries) => entries,
    };
    let n = entries.len();
    let mut count: u32 = 0;
    for i in 0..n
        invariant
            n == entries@.len(),
            log == Some(entries),
            forall|k: int| 0 <= k < i ==> #[trigger] entries@[k] is None,
            count == if i <= u32::MAX { i as nat } else { u32::MAX as nat },
    {
        match &entries[i] {
            Some(message) => {
                let message = message.clone();
                assert(entries@[i as int] == Some(message));
                return Err(message);
            },
            None => {
                if count < u32::MAX {
                    count = count + 1;
                }
            },
        }
    }
    Ok(count)
}

/// Count stash entries.
fn read_stash_count(repo: &gix::Repository, git_dir: &str) -> (count: Result<u32, ReadError>)
    ensures
        count matches Err(e) ==> e is Refs && e->Refs_path@ == git_dir@ && e->Refs_what@ == "stash count"@,
{
    let log = match stash_log(repo) {
        Ok(log) => log,
        Err(message) => return Err(refs_error(git_dir, "stash count", message)),
    };
    match stash_count_of(log) {
        Ok(n) => Ok(n),
        Err(message) => Err(refs_error(git_dir, "stash count", message)),
    }
}

/// The operation `gix` reports in progress, variant for variant.
#[derive(Clone, Copy, Debug, PartialEq, Eq, Structural)]
pub enum Operation {
    ApplyMailbox,
    ApplyMailboxRebase,
    Bisect,
    CherryPick,
    CherryPickSequence,
    Merge,
    Rebase,
    RebaseInteractive,
    Revert,
    RevertSequence,
}

/// `Repository::state`: the operation in progress, or `None`. Read from disk, so nothing is
/// promised.
#[verifier::external_body]
fn operation_of(repo: &gix::Repository) -> Option<Operation> {
    Some(match repo.state()? {
        InProgress::ApplyMailbox => Operation::ApplyMailbox,
        InProgress::ApplyMailboxRebase => Operation::ApplyMailboxRebase,
        InProgress::Bisect => Operation::Bisect,
        InProgress::CherryPick => Operation::CherryPick,
        InProgress::CherryPickSequence => Operation::CherryPickSequence,
        InProgress::Merge => Operation::Merge,
        InProgress::Rebase => Operation::Rebase,
        InProgress::RebaseInteractive => Operation::RebaseInteractive,
        InProgress::Revert => Operation::Revert,
        InProgress::RevertSequence => Operation::RevertSequence,
    })
}

/// The row's state for an operation in progress: a mailbox application and an interactive
/// rebase are both rebasing, and a sequence is its single-commit form. Nothing folds into
/// `Clean`.
pub open spec fn spec_state(op: Option<Operation>) -> RepoState {
    match op {
        None => RepoState::Clean,
        Some(Operation::Merge) => RepoState::Merging,
        Some(Operation::Bisect) => RepoState::Bisecting,
        Some(Operation::CherryPick) | Some(Operation::CherryPickSequence) => RepoState::CherryPicking,
        Some(Operation::Revert) | Some(Operation::RevertSequence) => RepoState::Reverting,
        Some(_) => RepoState::Rebasing,
    }
}

/// The row's state for an operation in progress.
pub fn state_of(op: Option<Operation>) -> (state: RepoState)
    ensures
        state == spec_state(op),
{
    match op {
        None => RepoState::Clean,
        Some(Operation::Merge) => RepoState::Merging,
        Some(Operation::Bisect) => RepoState::Bisecting,
        Some(Operation::CherryPick) | Some(Operation::CherryPickSequence) => RepoState::CherryPicking,
        Some(Operation::Revert) | Some(Operation::RevertSequence) => RepoState::Reverting,
        Some(Operation::ApplyMailbox) | Some(Operation::ApplyMailboxRebase) | Some(Operation::Rebase)
        | Some(Operation::RebaseInteractive) => RepoState::Rebasing,
    }
}

/// `Path::canonicalize`: the path with every link resolved, or `None` when nothing is there.
/// Read from disk, so nothing is promised.
#[verifier::external_body]
fn resolved(path: &str) -> Option<String> {
    std::path::Path::new(path).canonicalize().ok().map(|target| target.to_string_lossy().into_owned())
}

/// The modification time of the file at `path` itself, not following a link
/// (`gix::index::fs::Metadata::from_path_no_follow`, then `modified`), or `None` when there
/// is no such file or no time for it. Read from disk, so nothing is promised.
#[verifier::external_body]
fn modified_at(path: &str) -> Option<SystemTime> {
    gix::index::fs::Metadata::from_path_no_follow(std::path::Path::new(path)).ok()?.modified()
}

/// A read of a `FETCH_HEAD` time: none, or a file time.
pub open spec fn is_fetch_read(read: Option<u64>) -> bool {
    read matches Some(ms) ==> is_epoch_ms(ms)
}

/// When `dir/FETCH_HEAD` was last written, epoch milliseconds, or `None` when it was never.
/// A link is followed to the file it names, whose time is the one that counts.
fn read_fetch_head_ms(dir: &str) -> (read: Option<u64>)
    ensures
        is_fetch_read(read),
{
    let file = match resolved(crate::discover::join(dir, "FETCH_HEAD").as_str()) {
        Some(file) => file,
        None => return None,
    };
    match modified_at(file.as_str()) {
        Some(time) => Some(system_time_ms(time)),
        None => None,
    }
}

/// The newest of two `FETCH_HEAD` times: either file can be the latest evidence of a fetch,
/// because `git fetch` writes into the Git directory of whichever worktree ran it.
pub open spec fn spec_newest(one: Option<u64>, other: Option<u64>) -> Option<u64> {
    match (one, other) {
        (Some(a), Some(b)) => Some(if a >= b { a } else { b }),
        (Some(a), None) => Some(a),
        (None, found) => found,
    }
}

/// The newest of two `FETCH_HEAD` times.
pub fn newest(one: Option<u64>, other: Option<u64>) -> (newest: Option<u64>)
    ensures
        newest == spec_newest(one, other),
{
    match (one, other) {
        (Some(a), Some(b)) => Some(if a >= b { a } else { b }),
        (Some(a), None) => Some(a),
        (None, found) => found,
    }
}

/// When the repository was last fetched, epoch milliseconds: the newer of the `FETCH_HEAD` in
/// its own Git directory and the one in its common directory (one file when they are the
/// same directory), or `None` when it has never been fetched.
pub fn fetch_head_ms(git_dir: &str, common_dir: &str) -> (fetched: Option<u64>)
    ensures
        exists|one: Option<u64>, other: Option<u64>| {
            &&& #[trigger] is_fetch_read(one)
            &&& #[trigger] is_fetch_read(other)
            &&& fetched == if git_dir@ == common_dir@ { one } else { spec_newest(one, other) }
        },
{
    let one = read_fetch_head_ms(git_dir);
    if crate::discover::same_text(git_dir, common_dir) {
        assert(is_fetch_read(None));
        return one;
    }
    let other = read_fetch_head_ms(common_dir);
    newest(one, other)
}

/// The causes of a row's partial failures, joined with `"; "`, or `None` when there were none.
pub open spec fn spec_joined(failures: Seq<Seq<char>>) -> Option<Seq<char>>
    decreases failures.len(),
{
    if failures.len() == 0 {
        None
    } else if failures.len() == 1 {
        Some(failures[0])
    } else {
        Some(spec_joined(failures.drop_last())->Some_0 + "; "@ + failures.last())
    }
}

/// The views of a list of strings.
pub open spec fn texts(list: Seq<String>) -> Seq<Seq<char>> {
    list.map_values(|s: String| s@)
}

/// The causes joined with `"; "`.
pub fn join_failures(failures: &Vec<String>) -> (joined: Option<String>)
    ensures
        crate::model::opt_str_view(&joined) == spec_joined(texts(failures@)),
{
    let n = failures.len();
    if n == 0 {
        return None;
    }
    let mut joined = failures[0].clone();
    assert(texts(failures@).take(1) =~= seq![failures@[0]@]);
    for i in 1..n
        invariant
            n == failures@.len(),
            n >= 1,
            Some(joined@) == spec_joined(texts(failures@).take(i as int)),
    {
        proof {
            let t = texts(failures@).take(i + 1);
            assert(t.drop_last() =~= texts(failures@).take(i as int));
            reveal_strlit("; ");
        }
        joined.append("; ");
        joined.append(failures[i].as_str());
    }
    assert(texts(failures@).take(n as int) =~= texts(failures@));
    Some(joined)
}

/// Record a partial failure's cause.
fn record(failures: &mut Vec<String>, error: ReadError)
    ensures
        texts(final(failures)@) == texts(old(failures)@).push(spec_render(error)),
{
    let message = error.message();
    let ghost before = failures@;
    failures.push(message);
    assert(texts(failures@) =~= texts(before).push(spec_render(error)));
}

/// The Tier 0 row for a discovered repository: its identity from discovery, the refs-level
/// fields from the read, every later tier unknown, stamped `now`.
pub open spec fn tier0_row(found: DiscoveredRepo, row: RepoStatus, now: u64) -> bool {
    &&& row.path@ == found.path@
    &&& row.name@ == found.name@
    &&& row.parent@ == found.parent@
    &&& row.kind == found.kind
    &&& row.dirty is None
    &&& row.conflicted is None
    &&& row.counts is None
    &&& row.submodules is None
    &&& row.scanned_at_ms == now
}

/// HEAD as a row shows it, from its shape, its branch's short name and its tip's id.
pub open spec fn spec_head(kind: HeadKind, branch: Option<Seq<char>>, tip_hex: Option<Seq<char>>) -> HeadView {
    match kind {
        HeadKind::Unborn => HeadView::Unborn,
        HeadKind::Symbolic => HeadView::Branch { name: match branch { Some(b) => b, None => Seq::<char>::empty() } },
        HeadKind::Detached => match tip_hex {
            Some(id) => HeadView::Detached { id },
            None => HeadView::Unborn,
        },
    }
}

/// The Tier 0 row built from what the reads gave: the identity from discovery, HEAD, the
/// upstream's name, the ahead and behind counts (together or not at all), the tip commit, the
/// stash count, the state of the operation in progress, the last fetch, the partial failures
/// joined, and the stamp; every later tier unknown.
pub open spec fn spec_tier0_row(
    found: DiscoveredRepo,
    head: HeadView,
    upstream: Option<Seq<char>>,
    counts: Option<(u32, u32)>,
    last_commit: Option<CommitSummaryView>,
    stash_count: u32,
    op: Option<Operation>,
    fetched: Option<u64>,
    failures: Seq<Seq<char>>,
    now: u64,
) -> RepoStatusView {
    RepoStatusView {
        path: found.path@,
        name: found.name@,
        parent: found.parent@,
        kind: found.kind,
        head,
        upstream,
        ahead: match counts { Some(c) => Some(c.0), None => None },
        behind: match counts { Some(c) => Some(c.1), None => None },
        last_commit,
        stash_count,
        state: spec_state(op),
        last_fetched_ms: fetched,
        dirty: None,
        conflicted: None,
        counts: None,
        submodules: None,
        scanned_at_ms: now,
        error: spec_joined(failures),
    }
}

/// Build the Tier 0 row from what the reads gave.
pub fn tier0_row_of(
    found: &DiscoveredRepo,
    kind: HeadKind,
    branch: Option<String>,
    tip_hex: Option<String>,
    upstream: Option<String>,
    counts: Option<(u32, u32)>,
    last_commit: Option<CommitSummary>,
    stash_count: u32,
    op: Option<Operation>,
    fetched: Option<u64>,
    failures: &Vec<String>,
    now: u64,
) -> (row: RepoStatus)
    ensures
        row@ == spec_tier0_row(
            *found,
            spec_head(kind, opt_str_view(&branch), opt_str_view(&tip_hex)),
            opt_str_view(&upstream),
            counts,
            opt_commit_view(&last_commit),
            stash_count,
            op,
            fetched,
            texts(failures@),
            now,
        ),
{
    let ghost branch_view = opt_str_view(&branch);
    let ghost tip_view = opt_str_view(&tip_hex);
    let head = head_wire(kind, branch, tip_hex);
    assert(head@ == spec_head(kind, branch_view, tip_view));
    let (ahead, behind) = match counts {
        Some((a, b)) => (Some(a), Some(b)),
        None => (None, None),
    };
    RepoStatus {
        path: found.path.clone(),
        name: found.name.clone(),
        parent: found.parent.clone(),
        kind: found.kind,
        head,
        upstream,
        ahead,
        behind,
        last_commit,
        stash_count,
        state: state_of(op),
        last_fetched_ms: fetched,
        dirty: None,
        conflicted: None,
        counts: None,
        submodules: None,
        scanned_at_ms: now,
        error: join_failures(failures),
    }
}

/// The short name of the branch HEAD is on, if any.
pub open spec fn opt_short(branch: Option<gix::refs::FullName>) -> Option<Seq<char>> {
    match branch {
        Some(name) => Some(short_ref_name(name)),
        None => None,
    }
}

/// The hex text of HEAD's tip, if any.
pub open spec fn opt_hex(tip: Option<gix::ObjectId>) -> Option<Seq<char>> {
    match tip {
        Some(id) => Some(object_hex(id)),
        None => None,
    }
}

/// The rendered cause of a read that failed, as a list of none or one.
pub open spec fn cause_of<T>(read: Result<T, ReadError>) -> Seq<Seq<char>> {
    match read {
        Ok(_) => Seq::empty(),
        Err(e) => seq![spec_render(e)],
    }
}

/// The rendered cause of a read that was made and failed.
pub open spec fn opt_cause_of<T>(read: Option<Result<T, ReadError>>) -> Seq<Seq<char>> {
    match read {
        Some(r) => cause_of(r),
        None => Seq::empty(),
    }
}

/// The Tier 0 row from the reads themselves: HEAD as read (its short branch name, its tip's
/// hex), the upstream's name when one was found, the ahead count from the first walk and the
/// behind count from the second, the tip commit when it read, the stash count or 0 when it
/// did not read, the operation in progress, the last fetch, and every failed read's cause in
/// the order upstream, ahead/behind, tip commit, stash count.
pub open spec fn spec_row_from_reads(
    found: DiscoveredRepo,
    head: HeadRead,
    upstream: Result<Option<Tracking>, ReadError>,
    walks: Option<Result<(WalkCount, WalkCount), ReadError>>,
    commit: Option<Result<CommitSummary, ReadError>>,
    stash: Result<u32, ReadError>,
    op: Option<Operation>,
    fetched: Option<u64>,
    now: u64,
) -> RepoStatusView {
    spec_tier0_row(
        found,
        spec_head(head.kind, opt_short(head.branch), opt_hex(head.tip)),
        match upstream { Ok(Some(t)) => Some(t.name@), _ => None },
        match walks { Some(Ok((ahead, behind))) => Some((ahead.count, behind.count)), _ => None },
        match commit { Some(Ok(c)) => Some(c@), _ => None },
        match stash { Ok(n) => n, Err(_) => 0 },
        op,
        fetched,
        cause_of(upstream) + opt_cause_of(walks) + opt_cause_of(commit) + cause_of(stash),
        now,
    )
}

/// How the reads of one repository hang together: the upstream is looked for only on a
/// branch; the walks are made exactly when there is both a tip and an upstream id, the first
/// from the tip hiding the upstream and the second the reverse, each within the cap; and the
/// tip commit is read exactly when there is a tip, and is that tip's.
pub open spec fn reads_cohere(
    head: HeadRead,
    upstream: Result<Option<Tracking>, ReadError>,
    walks: Option<Result<(WalkCount, WalkCount), ReadError>>,
    commit: Option<Result<CommitSummary, ReadError>>,
) -> bool {
    &&& head.branch is None ==> upstream == Ok::<Option<Tracking>, ReadError>(None)
    &&& walks is Some <==> walks_due(head, upstream)
    &&& match (walks, head.tip, upstream) {
        (Some(Ok((ahead, behind))), Some(tip), Ok(Some(t))) => match t.id {
            Some(up) => {
                &&& ahead.from@ == tip && ahead.hiding@ == up
                &&& behind.from@ == up && behind.hiding@ == tip
                &&& ahead.count <= AHEAD_BEHIND_CAP && behind.count <= AHEAD_BEHIND_CAP
            },
            None => false,
        },
        (Some(Ok(_)), _, _) => false,
        _ => true,
    }
    &&& commit is Some <==> head.tip is Some
    &&& match (commit, head.tip) {
        (Some(Ok(c)), Some(tip)) => c.id@ == object_hex(tip)
            && exists|seconds: i64| c.time_ms == #[trigger] spec_epoch_ms(seconds),
        _ => true,
    }
}

/// Whether the ahead/behind walks are due: there is a tip, and an upstream with an id.
pub open spec fn walks_due(head: HeadRead, upstream: Result<Option<Tracking>, ReadError>) -> bool {
    head.tip is Some && match upstream {
        Ok(Some(t)) => t.id is Some,
        _ => false,
    }
}

/// Record the cause of a read that failed.
fn note<T>(failures: &mut Vec<String>, read: Result<T, ReadError>) -> (value: Option<T>)
    ensures
        texts(final(failures)@) == texts(old(failures)@) + cause_of(read),
        value == match read { Ok(v) => Some(v), Err(_) => None::<T> },
{
    match read {
        Ok(v) => {
            assert(texts(old(failures)@) + Seq::<Seq<char>>::empty() =~= texts(failures@));
            Some(v)
        },
        Err(e) => {
            let ghost before = texts(failures@);
            record(failures, e);
            assert(before.push(spec_render(e)) =~= before + seq![spec_render(e)]);
            None
        },
    }
}

/// Build the Tier 0 row from the reads of one repository.
pub fn tier0_from_reads(
    found: &DiscoveredRepo,
    head: &HeadRead,
    upstream: Result<Option<Tracking>, ReadError>,
    walks: Option<Result<(WalkCount, WalkCount), ReadError>>,
    commit: Option<Result<CommitSummary, ReadError>>,
    stash: Result<u32, ReadError>,
    op: Option<Operation>,
    fetched: Option<u64>,
    now: u64,
) -> (row: RepoStatus)
    ensures
        row@ == spec_row_from_reads(*found, *head, upstream, walks, commit, stash, op, fetched, now),
{
    let ghost (u0, w0, c0, s0) = (upstream, walks, commit, stash);
    let mut failures: Vec<String> = Vec::new();
    assert(texts(failures@) =~= Seq::<Seq<char>>::empty());
    let upstream_name = match note(&mut failures, upstream) {
        Some(Some(t)) => Some(t.name),
        _ => None,
    };
    let counts = match walks {
        Some(read) => match note(&mut failures, read) {
            Some((ahead, behind)) => Some((ahead.count, behind.count)),
            None => None,
        },
        None => {
            assert(texts(failures@) + Seq::<Seq<char>>::empty() =~= texts(failures@));
            None
        },
    };
    let last_commit = match commit {
        Some(read) => note(&mut failures, read),
        None => {
            assert(texts(failures@) + Seq::<Seq<char>>::empty() =~= texts(failures@));
            None
        },
    };
    let stash_count = match note(&mut failures, stash) {
        Some(n) => n,
        None => 0,
    };
    assert(texts(failures@) =~= cause_of(u0) + opt_cause_of(w0) + opt_cause_of(c0) + cause_of(s0));
    let branch = match &head.branch {
        Some(name) => Some(short_name(name)),
        None => None,
    };
    let tip_hex = match &head.tip {
        Some(tip) => Some(hex_of(tip)),
        None => None,
    };
    assert(opt_str_view(&branch) == opt_short(head.branch));
    assert(opt_str_view(&tip_hex) == opt_hex(head.tip));
    let ghost commit_view = match c0 { Some(Ok(c)) => Some(c@), _ => None::<CommitSummaryView> };
    assert(opt_commit_view(&last_commit) == commit_view);
    tier0_row_of(found, head.kind, branch, tip_hex, upstream_name, counts, last_commit, stash_count,
        op, fetched, &failures, now)
}

/// Read Tier 0 for one repository.
///
/// `Err` when the repository will not open or its HEAD cannot be read: there is no honest
/// row without a HEAD. Otherwise a row, its later tiers unknown, with each refs-level read
/// that failed leaving its field empty and its cause on `error`; `ahead` and `behind` are
/// known only together, only when there is both an upstream tip and a local one, and never
/// beyond [`AHEAD_BEHIND_CAP`].
pub fn read_tier0(found: &DiscoveredRepo) -> (read: Result<RepoStatus, ReadError>)
    ensures
        read matches Ok(row) ==> {
            &&& exists|now: u64| tier0_row(*found, row, now)
            &&& exists|head: HeadRead, upstream: Result<Option<Tracking>, ReadError>,
                walks: Option<Result<(WalkCount, WalkCount), ReadError>>,
                commit: Option<Result<CommitSummary, ReadError>>, stash: Result<u32, ReadError>,
                op: Option<Operation>, fetched: Option<u64>, now: u64| {
                &&& row@ == #[trigger] spec_row_from_reads(*found, head, upstream, walks, commit, stash,
                    op, fetched, now)
                &&& reads_cohere(head, upstream, walks, commit)
            }
            &&& (row.ahead is Some <==> row.behind is Some)
            &&& (row.ahead matches Some(a) ==> a <= AHEAD_BEHIND_CAP)
            &&& (row.behind matches Some(b) ==> b <= AHEAD_BEHIND_CAP)
            &&& (row.ahead is Some ==> row.upstream is Some)
        },
        read matches Err(e) ==> (e is OpenRepo && e->OpenRepo_path@ == found.git_dir@)
            || (e is ReadHead && e->ReadHead_path@ == found.git_dir@),
{
    let git_dir = found.git_dir.as_str();
    let repo = match open_repo(git_dir) {
        Ok(repo) => repo,
        Err(message) => return Err(ReadError::OpenRepo { path: git_dir.to_owned(), message }),
    };
    let head = match head_of(&repo) {
        Ok(head) => head,
        Err(message) => return Err(ReadError::ReadHead { path: git_dir.to_owned(), message }),
    };
    let (opened_git_dir, opened_common_dir) = repo_dirs(&repo);
    let refs_dir = opened_git_dir.as_str();

    let upstream = match &head.branch {
        Some(branch) => upstream_of(&repo, refs_dir, branch),
        None => Ok(None),
    };
    let walks = match (&upstream, &head.tip) {
        (Ok(Some(tracking)), Some(tip)) => match &tracking.id {
            Some(upstream_id) => Some(ahead_behind(&repo, refs_dir, tip, upstream_id, AHEAD_BEHIND_CAP)),
            None => None,
        },
        _ => None,
    };
    let commit = match &head.tip {
        Some(tip) => Some(read_commit(&repo, refs_dir, tip)),
        None => None,
    };
    let stash = read_stash_count(&repo, refs_dir);
    let op = operation_of(&repo);
    let fetched = fetch_head_ms(refs_dir, opened_common_dir.as_str());
    let now = now_ms();
    let ghost (u0, w0, c0, s0) = (upstream, walks, commit, stash);
    assert(reads_cohere(head, u0, w0, c0));
    let row = tier0_from_reads(found, &head, upstream, walks, commit, stash, op, fetched, now);
    assert(row@ == spec_row_from_reads(*found, head, u0, w0, c0, s0, op, fetched, now));
    assert(tier0_row(*found, row, now));
    Ok(row)
}


/// A row's state names the operation in progress and nothing else: it is clean exactly when
/// nothing is in progress; merging, bisecting, cherry-picking, reverting and rebasing each
/// exactly for their own operations, a sequence counting as its single-commit form and a
/// mailbox application as a rebase.
pub proof fn lemma_state_names_the_operation(op: Option<Operation>)
    ensures
        spec_state(op) == RepoState::Clean <==> op is None,
        spec_state(op) == RepoState::Merging <==> op == Some(Operation::Merge),
        spec_state(op) == RepoState::Bisecting <==> op == Some(Operation::Bisect),
        spec_state(op) == RepoState::CherryPicking
            <==> (op == Some(Operation::CherryPick) || op == Some(Operation::CherryPickSequence)),
        spec_state(op) == RepoState::Reverting
            <==> (op == Some(Operation::Revert) || op == Some(Operation::RevertSequence)),
        spec_state(op) == RepoState::Rebasing <==> (op == Some(Operation::Rebase)
            || op == Some(Operation::RebaseInteractive) || op == Some(Operation::ApplyMailbox)
            || op == Some(Operation::ApplyMailboxRebase)),
{
}

} // verus!
