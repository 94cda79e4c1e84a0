//! Reading one row on demand: the lazy Tier 2 read, and an explicit refresh up to a tier.
//!
//! Both merge what they read into the canonical state and answer with the merged row. They
//! check nothing about the path: the caller has already looked it up in the map it trusts,
//! the rows for a Tier 2 read and the discovered repositories for a refresh.

use std::sync::atomic::AtomicBool;
use std::sync::Arc;

use vstd::prelude::*;

use crate::clock::now_ms;
use crate::error::{quoted, spec_render, CommandError, ReadError};
use crate::merge::{spec_merge_tier0, tier1_merged, tier2_merged};
use crate::model::{DiscoveredRepo, RepoKind, RepoStatus, RepoStatusView, Tier};
use crate::state::{lookup, AppState};
use crate::status::tier0::read_tier0;
use crate::status::tier1::{read_tier1, Tier1};
use crate::status::tier2::{read_tier2, Tier2};

verus! {

/// A failure as a command reports it: what was being done, then why it failed.
pub open spec fn in_context(context: Seq<char>, cause: Seq<char>) -> Seq<char> {
    context + ": "@ + cause
}

/// The refusal for a repository whose row went away while it was being read.
pub open spec fn no_row(path: Seq<char>) -> Seq<char> {
    quoted(path) + " no longer has a row"@
}

/// What a command answered, as values.
pub open spec fn answer_view(answer: Result<RepoStatus, CommandError>) -> Result<RepoStatusView, Seq<char>> {
    match answer {
        Ok(row) => Ok(row@),
        Err(error) => Err(error.message@),
    }
}

/// The rows, and the answer, after a Tier 2 read of the repository at `path` is merged at
/// `now`. A read that failed outright changes nothing; a bare repository's skipped read
/// answers with the row as it stands; a read merges onto its row and answers with the merged
/// row, unless one of its halves failed, in which case the merge still happens and the answer
/// is that failure.
pub open spec fn spec_full(
    rows: Map<Seq<char>, RepoStatusView>,
    path: Seq<char>,
    read: Result<Option<Tier2>, ReadError>,
    now: u64,
) -> (Map<Seq<char>, RepoStatusView>, Result<RepoStatusView, Seq<char>>) {
    match read {
        Err(e) => (rows, Err(in_context("could not read the file counts"@, spec_render(e)))),
        Ok(None) => (rows, if rows.contains_key(path) { Ok(rows[path]) } else { Err(no_row(path)) }),
        Ok(Some(t)) => if rows.contains_key(t.path@) {
            let merged = tier2_merged(rows[t.path@], t, now);
            (rows.insert(t.path@, merged), match t.error {
                Some(cause) => Err(cause@),
                None => Ok(merged),
            })
        } else {
            (rows, Err(no_row(path)))
        },
    }
}

/// The rows, and the answer, after a Tier 0 read is merged: the read becomes the row, keeping
/// what the later tiers knew of it. A read that failed changes nothing.
pub open spec fn spec_refresh0(
    rows: Map<Seq<char>, RepoStatusView>,
    read: Result<RepoStatus, ReadError>,
) -> (Map<Seq<char>, RepoStatusView>, Result<RepoStatusView, Seq<char>>) {
    match read {
        Err(e) => (rows, Err(in_context("could not read the repository's refs"@, spec_render(e)))),
        Ok(row) => {
            let merged = spec_merge_tier0(lookup(rows, row.path@), row@);
            (rows.insert(row.path@, merged), Ok(merged))
        },
    }
}

/// The rows, and the answer, after a Tier 1 read is merged at `now` onto a refresh whose row
/// so far is `so_far`. A skipped read, or one whose row has gone, answers with `so_far`.
pub open spec fn spec_refresh1(
    rows: Map<Seq<char>, RepoStatusView>,
    so_far: RepoStatusView,
    read: Result<Option<Tier1>, ReadError>,
    now: u64,
) -> (Map<Seq<char>, RepoStatusView>, Result<RepoStatusView, Seq<char>>) {
    match read {
        Err(e) => (rows, Err(in_context("could not read the worktree"@, spec_render(e)))),
        Ok(None) => (rows, Ok(so_far)),
        Ok(Some(t)) => if rows.contains_key(t.path@) {
            let merged = tier1_merged(rows[t.path@], t, now);
            (rows.insert(t.path@, merged), Ok(merged))
        } else {
            (rows, Ok(so_far))
        },
    }
}

/// The rows, and the answer, after a Tier 2 read is merged at `now` onto a refresh whose row
/// so far is `so_far`. A skipped read, or one whose row has gone, answers with `so_far`.
pub open spec fn spec_refresh2(
    rows: Map<Seq<char>, RepoStatusView>,
    so_far: RepoStatusView,
    read: Result<Option<Tier2>, ReadError>,
    now: u64,
) -> (Map<Seq<char>, RepoStatusView>, Result<RepoStatusView, Seq<char>>) {
    match read {
        Err(e) => (rows, Err(in_context("could not read the file counts"@, spec_render(e)))),
        Ok(None) => (rows, Ok(so_far)),
        Ok(Some(t)) => if rows.contains_key(t.path@) {
            let merged = tier2_merged(rows[t.path@], t, now);
            (rows.insert(t.path@, merged), Ok(merged))
        } else {
            (rows, Ok(so_far))
        },
    }
}

/// A refresh up to `tier`: Tier 0 always, then each later tier the asked one includes, each
/// merged as it completes, stopping at the first that fails.
pub open spec fn spec_refresh(
    rows: Map<Seq<char>, RepoStatusView>,
    tier: Tier,
    read0: Result<RepoStatus, ReadError>,
    read1: Result<Option<Tier1>, ReadError>,
    read2: Result<Option<Tier2>, ReadError>,
    now1: u64,
    now2: u64,
) -> (Map<Seq<char>, RepoStatusView>, Result<RepoStatusView, Seq<char>>) {
    let (rows0, answer0) = spec_refresh0(rows, read0);
    match answer0 {
        Err(_) => (rows0, answer0),
        Ok(row0) => {
            let (rows1, answer1) = if tier.level() >= 1 {
                spec_refresh1(rows0, row0, read1, now1)
            } else {
                (rows0, answer0)
            };
            match answer1 {
                Err(_) => (rows1, answer1),
                Ok(row1) => if tier.level() >= 2 {
                    spec_refresh2(rows1, row1, read2, now2)
                } else {
                    (rows1, answer1)
                },
            }
        },
    }
}

/// What `read_tier1` and `read_tier2` promise of a read of `found`, whatever the disk held.
pub open spec fn tier1_read_of(found: DiscoveredRepo, read: Result<Option<Tier1>, ReadError>) -> bool {
    &&& found.kind == RepoKind::Bare ==> read == Ok::<Option<Tier1>, ReadError>(None)
    &&& read matches Ok(Some(t)) ==> t.path@ == found.path@
}

/// What `read_tier2` promises of a read of `found`, whatever the disk held.
pub open spec fn tier2_read_of(found: DiscoveredRepo, read: Result<Option<Tier2>, ReadError>) -> bool {
    &&& found.kind == RepoKind::Bare ==> read == Ok::<Option<Tier2>, ReadError>(None)
    &&& read matches Ok(Some(t)) ==> t.path@ == found.path@
}

/// Everything but the rows is as it was.
pub open spec fn rest_unchanged(before: AppState, after: AppState) -> bool {
    &&& after.found() == before.found()
    &&& after.root_seq() == before.root_seq()
    &&& after.scans() == before.scans()
    &&& after.scans_begun() == before.scans_begun()
}

/// `context: cause`.
fn contextual(context: &str, cause: String) -> (error: CommandError)
    ensures
        error.message@ == in_context(context@, cause@),
{
    let mut message = context.to_owned();
    message.append(": ");
    message.append(cause.as_str());
    proof {
        reveal_strlit(": ");
    }
    assert(message@ =~= in_context(context@, cause@));
    CommandError::new(message)
}

/// `` `path` no longer has a row ``.
fn row_gone(path: &str) -> (error: CommandError)
    ensures
        error.message@ == no_row(path@),
{
    let mut message = "`".to_owned();
    message.append(path);
    message.append("` no longer has a row");
    proof {
        reveal_strlit("`");
        reveal_strlit("` no longer has a row");
        reveal_strlit(" no longer has a row");
    }
    assert(message@ =~= no_row(path@));
    CommandError::new(message)
}

/// Merge a Tier 2 read of `found`, taken at `now`, and answer with the merged row.
pub fn full_from(state: &mut AppState, found: &DiscoveredRepo, read: Result<Option<Tier2>, ReadError>, now: u64) -> (answer: Result<RepoStatus, CommandError>)
    requires
        old(state).wf(),
    ensures
        final(state).wf(),
        (final(state).rows(), answer_view(answer)) == spec_full(old(state).rows(), found.path@, read, now),
        rest_unchanged(*old(state), *final(state)),
{
    proof {
        reveal_strlit("could not read the file counts");
    }
    match read {
        Err(e) => Err(contextual("could not read the file counts", e.message())),
        Ok(None) => match state.row(found.path.as_str()) {
            Some(row) => Ok(row),
            None => Err(row_gone(found.path.as_str())),
        },
        Ok(Some(t)) => {
            let cause = match &t.error {
                Some(c) => Some(c.clone()),
                None => None,
            };
            match state.merge_tier2_at(t, now) {
                Some(merged) => match cause {
                    Some(c) => Err(CommandError::new(c)),
                    None => Ok(merged),
                },
                None => Err(row_gone(found.path.as_str())),
            }
        },
    }
}

/// Read Tier 2 for `found` and merge it onto its row.
///
/// What was read depends on the disk, and when it was merged on the clock; whatever they
/// were, the rows and the answer are those [`spec_full`] gives for them.
pub fn read_full(state: &mut AppState, found: &DiscoveredRepo) -> (answer: Result<RepoStatus, CommandError>)
    requires
        old(state).wf(),
    ensures
        final(state).wf(),
        exists|read: Result<Option<Tier2>, ReadError>, now: u64| {
            &&& tier2_read_of(*found, read)
            &&& (final(state).rows(), answer_view(answer)) == #[trigger] spec_full(old(state).rows(), found.path@, read, now)
        },
        rest_unchanged(*old(state), *final(state)),
{
    let flag = Arc::new(AtomicBool::new(false));
    let read = read_tier2(found, &flag);
    let ghost seen = read;
    let now = now_ms();
    let answer = full_from(state, found, read, now);
    assert(tier2_read_of(*found, seen));
    answer
}

/// Merge a Tier 0 read into the rows and answer with the merged row.
pub fn refresh_tier0(state: &mut AppState, read: Result<RepoStatus, ReadError>) -> (answer: Result<RepoStatus, CommandError>)
    requires
        old(state).wf(),
    ensures
        final(state).wf(),
        (final(state).rows(), answer_view(answer)) == spec_refresh0(old(state).rows(), read),
        rest_unchanged(*old(state), *final(state)),
{
    proof {
        reveal_strlit("could not read the repository's refs");
    }
    match read {
        Err(e) => Err(contextual("could not read the repository's refs", e.message())),
        Ok(row) => {
            let ghost incoming = row@;
            let mut batch: Vec<RepoStatus> = Vec::new();
            batch.push(row);
            let ghost batch_view = crate::state::rows_view(batch@);
            let mut merged = state.merge_tier0_batch(batch);
            proof {
                assert(batch_view =~= seq![incoming]);
                assert(batch_view.take(0) =~= Seq::<RepoStatusView>::empty());
                assert(batch_view.drop_last() =~= Seq::<RepoStatusView>::empty());
            }
            let row = merged.pop().unwrap();
            Ok(row)
        },
    }
}

/// Merge a Tier 1 read, taken at `now`, onto a refresh whose row so far is `so_far`.
pub fn refresh_tier1(state: &mut AppState, so_far: RepoStatus, read: Result<Option<Tier1>, ReadError>, now: u64) -> (answer: Result<RepoStatus, CommandError>)
    requires
        old(state).wf(),
    ensures
        final(state).wf(),
        (final(state).rows(), answer_view(answer)) == spec_refresh1(old(state).rows(), so_far@, read, now),
        rest_unchanged(*old(state), *final(state)),
{
    proof {
        reveal_strlit("could not read the worktree");
    }
    match read {
        Err(e) => Err(contextual("could not read the worktree", e.message())),
        Ok(None) => Ok(so_far),
        Ok(Some(t)) => {
            let ghost incoming = t;
            let ghost before = state.rows();
            let mut batch: Vec<Tier1> = Vec::new();
            batch.push(t);
            assert(batch@ =~= seq![incoming]);
            let mut merged = state.merge_tier1_batch_at(batch, now);
            proof {
                let one = seq![incoming];
                assert(one.drop_last() =~= Seq::<Tier1>::empty());
                assert(one.last() == incoming);
                assert(crate::state::fold_tier1(before, Seq::<Tier1>::empty(), now) == before);
                assert(crate::state::tier1_outputs(before, Seq::<Tier1>::empty(), now) =~= Seq::<RepoStatusView>::empty());
                if before.contains_key(incoming.path@) {
                    assert(crate::state::rows_view(merged@) =~= seq![tier1_merged(before[incoming.path@], incoming, now)]);
                } else {
                    assert(crate::state::rows_view(merged@) =~= Seq::<RepoStatusView>::empty());
                }
            }
            let ghost all = merged@;
            proof {
                if before.contains_key(incoming.path@) {
                    assert(crate::state::rows_view(all)[0] == all[0]@);
                }
            }
            match merged.pop() {
                Some(row) => {
                    assert(row == all[0]);
                    Ok(row)
                },
                None => {
                    assert(!before.contains_key(incoming.path@));
                    Ok(so_far)
                },
            }
        },
    }
}

/// Merge a Tier 2 read, taken at `now`, onto a refresh whose row so far is `so_far`.
pub fn refresh_tier2(state: &mut AppState, so_far: RepoStatus, read: Result<Option<Tier2>, ReadError>, now: u64) -> (answer: Result<RepoStatus, CommandError>)
    requires
        old(state).wf(),
    ensures
        final(state).wf(),
        (final(state).rows(), answer_view(answer)) == spec_refresh2(old(state).rows(), so_far@, read, now),
        rest_unchanged(*old(state), *final(state)),
{
    proof {
        reveal_strlit("could not read the file counts");
    }
    match read {
        Err(e) => Err(contextual("could not read the file counts", e.message())),
        Ok(None) => Ok(so_far),
        Ok(Some(t)) => match state.merge_tier2_at(t, now) {
            Some(row) => Ok(row),
            None => Ok(so_far),
        },
    }
}

/// Re-read `found` up to `tier`, merging each tier as it completes, and answer with the
/// merged row.
///
/// Tier 0 always runs: it is the tier that produces the row at all. What each read found
/// depends on the disk, and when each merged on the clock; whatever they were, the rows and
/// the answer are those [`spec_refresh`] gives for them.
pub fn refresh_one(state: &mut AppState, found: &DiscoveredRepo, tier: Tier) -> (answer: Result<RepoStatus, CommandError>)
    requires
        old(state).wf(),
    ensures
        final(state).wf(),
        exists|read0: Result<RepoStatus, ReadError>, read1: Result<Option<Tier1>, ReadError>,
            read2: Result<Option<Tier2>, ReadError>, now1: u64, now2: u64|
        {
            &&& (read0 matches Ok(row) ==> row.path@ == found.path@)
            &&& tier1_read_of(*found, read1)
            &&& tier2_read_of(*found, read2)
            &&& (final(state).rows(), answer_view(answer))
                == #[trigger] spec_refresh(old(state).rows(), tier, read0, read1, read2, now1, now2)
        },
        rest_unchanged(*old(state), *final(state)),
{
    let ghost start = *state;
    let flag = Arc::new(AtomicBool::new(false));
    let read0 = read_tier0(found);
    let ghost seen0 = read0;
    let ghost rows0 = spec_refresh0(start.rows(), seen0);
    let row0 = match refresh_tier0(state, read0) {
        Ok(row) => row,
        Err(e) => {
            assert(spec_refresh(start.rows(), tier, seen0, Ok(None), Ok(None), 0, 0) == rows0);
            assert(tier1_read_of(*found, Ok::<Option<Tier1>, ReadError>(None)));
            assert(tier2_read_of(*found, Ok::<Option<Tier2>, ReadError>(None)));
            return Err(e);
        },
    };
    let ghost mid = *state;
    if !tier.includes(Tier::One) {
        assert(spec_refresh(start.rows(), tier, seen0, Ok(None), Ok(None), 0, 0) == rows0);
        assert(tier1_read_of(*found, Ok::<Option<Tier1>, ReadError>(None)));
        assert(tier2_read_of(*found, Ok::<Option<Tier2>, ReadError>(None)));
        return Ok(row0);
    }
    let read1 = read_tier1(found, &flag);
    let ghost seen1 = read1;
    let now1 = now_ms();
    let ghost rows1 = spec_refresh1(mid.rows(), row0@, seen1, now1);
    let row1 = match refresh_tier1(state, row0, read1, now1) {
        Ok(row) => row,
        Err(e) => {
            assert(spec_refresh(start.rows(), tier, seen0, seen1, Ok(None), now1, 0) == rows1);
            assert(tier2_read_of(*found, Ok::<Option<Tier2>, ReadError>(None)));
            return Err(e);
        },
    };
    if !tier.includes(Tier::Two) {
        assert(spec_refresh(start.rows(), tier, seen0, seen1, Ok(None), now1, 0) == rows1);
        assert(tier2_read_of(*found, Ok::<Option<Tier2>, ReadError>(None)));
        return Ok(row1);
    }
    let ghost after1 = *state;
    let read2 = read_tier2(found, &flag);
    let ghost seen2 = read2;
    let now2 = now_ms();
    let answer = refresh_tier2(state, row1, read2, now2);
    assert(spec_refresh(start.rows(), tier, seen0, seen1, seen2, now1, now2)
        == spec_refresh2(after1.rows(), row1@, seen2, now2));
    answer
}

} // verus!
