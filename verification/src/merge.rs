//! Merging tier results into the canonical row.
//!
//! Tier ownership decides every field: Tier 0 owns identity and everything read from refs,
//! Tier 1 owns `dirty` and `conflicted`, Tier 2 owns `counts` and `submodules`. A merge
//! replaces the fields its tier owns — `None` included — and keeps every other field from
//! the row already held, which is what makes the arrival order of the tiers stop mattering.

use vstd::prelude::*;

use crate::model::{
    copy_opt_submodules, opt_str_view, opt_submodules_view, FileCounts, RepoStatus, RepoStatusView,
    SubmoduleView,
};
use crate::status::tier1::Tier1;
use crate::status::tier2::Tier2;

verus! {

/// The larger of two times.
pub open spec fn later(a: u64, b: u64) -> u64 {
    if a >= b { a } else { b }
}

/// The view of an optional borrowed row.
pub open spec fn opt_row_view(row: Option<&RepoStatus>) -> Option<RepoStatusView> {
    match row {
        Some(row) => Some(row@),
        None => None,
    }
}

/// The separator between two tiers' causes in the one `error` slot.
pub open spec fn error_separator() -> Seq<char> {
    seq![';', ' ']
}

/// Both causes, in order, or whichever one there is.
pub open spec fn spec_join_errors(existing: Option<Seq<char>>, incoming: Option<Seq<char>>) -> Option<
    Seq<char>,
> {
    match (existing, incoming) {
        (Some(first), Some(second)) => Some(first + error_separator() + second),
        (Some(only), None) => Some(only),
        (None, Some(only)) => Some(only),
        (None, None) => None,
    }
}

/// A Tier 0 read merged into the row held for its path.
pub open spec fn spec_merge_tier0(existing: Option<RepoStatusView>, incoming: RepoStatusView) -> RepoStatusView {
    match existing {
        None => incoming,
        Some(e) => RepoStatusView {
            dirty: e.dirty,
            conflicted: e.conflicted,
            counts: e.counts,
            submodules: e.submodules,
            scanned_at_ms: later(incoming.scanned_at_ms, e.scanned_at_ms),
            ..incoming
        },
    }
}

/// A Tier 1 read, taken at `now`, merged into the row Tier 0 produced.
pub open spec fn spec_merge_tier1(existing: RepoStatusView, dirty: bool, conflicted: u32, error: Option<Seq<char>>, now: u64) -> RepoStatusView {
    RepoStatusView {
        dirty: Some(dirty),
        conflicted: Some(conflicted),
        scanned_at_ms: later(now, existing.scanned_at_ms),
        error: spec_join_errors(existing.error, error),
        ..existing
    }
}

/// A Tier 2 read, taken at `now`, merged into the row the earlier tiers produced.
pub open spec fn spec_merge_tier2(existing: RepoStatusView, counts: Option<FileCounts>, submodules: Option<Seq<SubmoduleView>>, now: u64) -> RepoStatusView {
    RepoStatusView {
        counts,
        submodules,
        scanned_at_ms: later(now, existing.scanned_at_ms),
        ..existing
    }
}

/// A row with its Tier 2 fields cleared.
pub open spec fn spec_without_tier2(row: RepoStatusView) -> RepoStatusView {
    RepoStatusView { counts: None, submodules: None, ..row }
}

/// The view of a Tier 1 read merged at `now`.
pub open spec fn tier1_merged(existing: RepoStatusView, incoming: Tier1, now: u64) -> RepoStatusView {
    spec_merge_tier1(existing, incoming.dirty, incoming.conflicted, opt_str_view(&incoming.error), now)
}

/// The view of a Tier 2 read merged at `now`.
pub open spec fn tier2_merged(existing: RepoStatusView, incoming: Tier2, now: u64) -> RepoStatusView {
    spec_merge_tier2(existing, incoming.counts, opt_submodules_view(&incoming.submodules), now)
}

/// The view of an optional string slice.
pub open spec fn opt_slice_view(s: Option<&str>) -> Option<Seq<char>> {
    match s {
        Some(s) => Some(s@),
        None => None,
    }
}

/// Combine two tiers' causes into the row's one `error` slot.
pub fn join_errors(existing: Option<&str>, incoming: Option<&str>) -> (joined: Option<String>)
    ensures
        opt_str_view(&joined) == spec_join_errors(opt_slice_view(existing), opt_slice_view(incoming)),
{
    match (existing, incoming) {
        (Some(first), Some(second)) => {
            let mut joined = first.to_owned();
            let separator = "; ";
            proof {
                reveal_strlit("; ");
                assert(separator@ =~= error_separator());
            }
            joined.append(separator);
            joined.append(second);
            Some(joined)
        },
        (Some(only), None) => Some(only.to_owned()),
        (None, Some(only)) => Some(only.to_owned()),
        (None, None) => None,
    }
}

/// The borrowed form of an optional string.
fn as_slice(s: &Option<String>) -> (r: Option<&str>)
    ensures
        opt_slice_view(r) == opt_str_view(s),
{
    match s {
        Some(s) => Some(s.as_str()),
        None => None,
    }
}

/// Merge one Tier 0 read into the row already held for that path.
///
/// Tier 0 replaces every field it reads, `None` included, and keeps Tier 1's and Tier 2's
/// fields from the held row. The row's age is the later of the two reads.
pub fn merge_tier0(existing: Option<&RepoStatus>, incoming: RepoStatus) -> (merged: RepoStatus)
    ensures
        merged@ == spec_merge_tier0(opt_row_view(existing), incoming@),
{
    match existing {
        None => incoming,
        Some(existing) => {
            let scanned_at_ms = if incoming.scanned_at_ms >= existing.scanned_at_ms {
                incoming.scanned_at_ms
            } else {
                existing.scanned_at_ms
            };
            RepoStatus {
                path: incoming.path,
                name: incoming.name,
                parent: incoming.parent,
                kind: incoming.kind,
                head: incoming.head,
                upstream: incoming.upstream,
                ahead: incoming.ahead,
                behind: incoming.behind,
                last_commit: incoming.last_commit,
                stash_count: incoming.stash_count,
                state: incoming.state,
                last_fetched_ms: incoming.last_fetched_ms,
                dirty: existing.dirty,
                conflicted: existing.conflicted,
                counts: existing.counts,
                submodules: copy_opt_submodules(&existing.submodules),
                scanned_at_ms,
                error: incoming.error,
            }
        },
    }
}

/// Merge one Tier 1 read, taken at `now`, into the row Tier 0 produced.
///
/// Tier 1 owns `dirty` and `conflicted`. Its cause is appended to the row's, because the two
/// tiers describe different halves of the row and can each fail on their own.
pub fn merge_tier1_at(existing: &RepoStatus, incoming: Tier1, now: u64) -> (merged: RepoStatus)
    ensures
        merged@ == tier1_merged(existing@, incoming, now),
{
    let error = join_errors(as_slice(&existing.error), as_slice(&incoming.error));
    let copy = existing.copied();
    RepoStatus {
        dirty: Some(incoming.dirty),
        conflicted: Some(incoming.conflicted),
        scanned_at_ms: if now >= existing.scanned_at_ms { now } else { existing.scanned_at_ms },
        error,
        ..copy
    }
}

/// Merge one Tier 2 read, taken at `now`, into the row the earlier tiers produced.
///
/// Tier 2 owns `counts` and `submodules` and nothing else: not `conflicted`, which Tier 1
/// owns, and not `error`, which a Tier 2 failure never lands on.
pub fn merge_tier2_at(existing: &RepoStatus, incoming: Tier2, now: u64) -> (merged: RepoStatus)
    ensures
        merged@ == tier2_merged(existing@, incoming, now),
{
    let copy = existing.copied();
    RepoStatus {
        counts: incoming.counts,
        submodules: incoming.submodules,
        scanned_at_ms: if now >= existing.scanned_at_ms { now } else { existing.scanned_at_ms },
        ..copy
    }
}

/// Merge one Tier 1 read into the row Tier 0 produced, stamped with the wall clock.
///
/// The stamp is the clock's reading, whatever it is; the row is never made younger.
pub fn merge_tier1(existing: &RepoStatus, incoming: Tier1) -> (merged: RepoStatus)
    ensures
        exists|now: u64| merged@ == tier1_merged(existing@, incoming, now),
        merged@.scanned_at_ms >= existing@.scanned_at_ms,
{
    let now = crate::clock::now_ms();
    merge_tier1_at(existing, incoming, now)
}

/// Merge one Tier 2 read into the row the earlier tiers produced, stamped with the wall
/// clock.
pub fn merge_tier2(existing: &RepoStatus, incoming: Tier2) -> (merged: RepoStatus)
    ensures
        exists|now: u64| merged@ == tier2_merged(existing@, incoming, now),
        merged@.scanned_at_ms >= existing@.scanned_at_ms,
{
    let now = crate::clock::now_ms();
    merge_tier2_at(existing, incoming, now)
}

/// A row with its Tier 2 fields cleared.
pub fn without_tier2(row: RepoStatus) -> (cleared: RepoStatus)
    ensures
        cleared@ == spec_without_tier2(row@),
{
    RepoStatus { counts: None, submodules: None, ..row }
}


/// Tier 0 and Tier 1 may arrive in either order: every field of the merged row comes out the
/// same, except the `error` slot, where Tier 0 replaces and Tier 1 appends.
pub proof fn lemma_tier0_tier1_commute(existing: RepoStatusView, refs: RepoStatusView, worktree: Tier1, now: u64)
    ensures
        ({
            let first_refs = tier1_merged(spec_merge_tier0(Some(existing), refs), worktree, now);
            let first_worktree = spec_merge_tier0(Some(tier1_merged(existing, worktree, now)), refs);
            &&& first_refs == RepoStatusView { error: first_refs.error, ..first_worktree }
            &&& first_refs.error == spec_join_errors(refs.error, opt_str_view(&worktree.error))
            &&& first_worktree.error == refs.error
        }),
{
}

/// Tier 0 and Tier 2 may arrive in either order: the merged rows are identical.
pub proof fn lemma_tier0_tier2_commute(existing: RepoStatusView, refs: RepoStatusView, counts: Tier2, now: u64)
    ensures
        tier2_merged(spec_merge_tier0(Some(existing), refs), counts, now)
            == spec_merge_tier0(Some(tier2_merged(existing, counts, now)), refs),
{
}

/// Tier 1 and Tier 2 may arrive in either order: the merged rows are identical.
pub proof fn lemma_tier1_tier2_commute(existing: RepoStatusView, worktree: Tier1, counts: Tier2, now1: u64, now2: u64)
    ensures
        tier2_merged(tier1_merged(existing, worktree, now1), counts, now2)
            == tier1_merged(tier2_merged(existing, counts, now2), worktree, now1),
{
}

/// Merging the same Tier 0 read twice is merging it once.
pub proof fn lemma_tier0_idempotent(existing: Option<RepoStatusView>, refs: RepoStatusView)
    ensures
        spec_merge_tier0(Some(spec_merge_tier0(existing, refs)), refs) == spec_merge_tier0(existing, refs),
{
}

/// A merge never makes a row look older than it was: the age is the latest read of any tier.
pub proof fn lemma_merges_never_age_a_row(existing: RepoStatusView, refs: RepoStatusView, worktree: Tier1, counts: Tier2, now: u64)
    ensures
        spec_merge_tier0(Some(existing), refs).scanned_at_ms >= existing.scanned_at_ms,
        spec_merge_tier0(Some(existing), refs).scanned_at_ms >= refs.scanned_at_ms,
        tier1_merged(existing, worktree, now).scanned_at_ms >= existing.scanned_at_ms,
        tier2_merged(existing, counts, now).scanned_at_ms >= existing.scanned_at_ms,
{
}

/// A Tier 0 read carries no Tier 1 or Tier 2 value onto a row: whatever those tiers had
/// computed survives it, and a fresh Tier 0 read that answers `None` clears the field it owns.
pub proof fn lemma_tier0_owns_only_its_fields(existing: RepoStatusView, refs: RepoStatusView)
    ensures
        ({
            let merged = spec_merge_tier0(Some(existing), refs);
            &&& merged.dirty == existing.dirty
            &&& merged.conflicted == existing.conflicted
            &&& merged.counts == existing.counts
            &&& merged.submodules == existing.submodules
            &&& merged.upstream == refs.upstream
            &&& merged.ahead == refs.ahead
            &&& merged.behind == refs.behind
            &&& merged.last_fetched_ms == refs.last_fetched_ms
            &&& merged.error == refs.error
        }),
{
}

/// Clearing Tier 2 after a Tier 2 read leaves the row as it was before the read, apart from
/// its age.
pub proof fn lemma_invalidate_undoes_tier2(existing: RepoStatusView, counts: Tier2, now: u64)
    ensures
        spec_without_tier2(tier2_merged(existing, counts, now))
            == (RepoStatusView {
                scanned_at_ms: later(now, existing.scanned_at_ms),
                ..spec_without_tier2(existing)
            }),
{
}


/// A Tier 0 read replaces everything Tier 0 reads: on an existing row, the identity, HEAD,
/// upstream, ahead and behind, tip commit, stash count, in-progress state, last fetch and
/// error all come from the read, whatever the row showed before; the later tiers' fields stay
/// as they were; and the row's age is the later of the two. With no existing row the read is
/// the row.
pub proof fn lemma_tier0_replaces_what_it_reads(existing: RepoStatusView, refs: RepoStatusView)
    ensures
        spec_merge_tier0(None, refs) == refs,
        ({
            let merged = spec_merge_tier0(Some(existing), refs);
            &&& merged.path == refs.path
            &&& merged.name == refs.name
            &&& merged.parent == refs.parent
            &&& merged.kind == refs.kind
            &&& merged.head == refs.head
            &&& merged.upstream == refs.upstream
            &&& merged.ahead == refs.ahead
            &&& merged.behind == refs.behind
            &&& merged.last_commit == refs.last_commit
            &&& merged.stash_count == refs.stash_count
            &&& merged.state == refs.state
            &&& merged.last_fetched_ms == refs.last_fetched_ms
            &&& merged.error == refs.error
            &&& merged.dirty == existing.dirty
            &&& merged.conflicted == existing.conflicted
            &&& merged.counts == existing.counts
            &&& merged.submodules == existing.submodules
            &&& merged.scanned_at_ms >= refs.scanned_at_ms
            &&& merged.scanned_at_ms >= existing.scanned_at_ms
            &&& (merged.scanned_at_ms == refs.scanned_at_ms || merged.scanned_at_ms == existing.scanned_at_ms)
        }),
{
}

} // verus!
