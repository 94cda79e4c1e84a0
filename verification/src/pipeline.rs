//! The running totals of a scan and of a fetch pass: what each batch adds, and the one
//! terminal event each ends with.
//!
//! The passes themselves — threads, channels, sends — are the caller's; every count they
//! report is kept here.

use vstd::prelude::*;

use crate::fetch::{FetchStatus, FetchSummary};
use crate::model::{RepoStatus, ScanError, ScanEvent, ScanId, ScanTotals};

verus! {

/// `a + b`, saturating at `u32::MAX`.
pub open spec fn sat_add32(a: u32, b: nat) -> u32 {
    if a + b <= u32::MAX { (a + b) as u32 } else { u32::MAX }
}

/// `a + b`, saturating at `u64::MAX`.
pub open spec fn sat_add64(a: u64, b: u64) -> u64 {
    if a + b <= u64::MAX { (a + b) as u64 } else { u64::MAX }
}

/// `a + b`, saturating.
fn add32(a: u32, b: usize) -> (sum: u32)
    ensures
        sum == sat_add32(a, b as nat),
{
    if b > (u32::MAX - a) as usize { u32::MAX } else { a + b as u32 }
}

/// `a + b`, saturating.
fn add64(a: u64, b: u64) -> (sum: u64)
    ensures
        sum == sat_add64(a, b),
{
    a.saturating_add(b)
}

/// A scan's running totals.
pub struct ScanTally {
    /// Repositories the walk has reported.
    pub found: u32,
    /// Repositories that produced a row.
    pub read: u32,
    /// Repositories that produced no row, with the cause.
    pub errors: Vec<ScanError>,
    /// Time in Tier 0, summed over every batch.
    pub tier0_ms: u64,
    /// Time in Tier 1, summed over every batch.
    pub tier1_ms: u64,
}

impl ScanTally {
    /// Nothing counted yet.
    pub fn new() -> (tally: ScanTally)
        ensures
            tally.found == 0,
            tally.read == 0,
            tally.errors@.len() == 0,
            tally.tier0_ms == 0,
            tally.tier1_ms == 0,
    {
        ScanTally { found: 0, read: 0, errors: Vec::new(), tier0_ms: 0, tier1_ms: 0 }
    }

    /// A batch of `count` repositories arrived from the walk.
    pub fn found(&mut self, count: usize)
        ensures
            final(self).found == sat_add32(old(self).found, count as nat),
            final(self).read == old(self).read,
            final(self).errors == old(self).errors,
            final(self).tier0_ms == old(self).tier0_ms,
            final(self).tier1_ms == old(self).tier1_ms,
    {
        self.found = add32(self.found, count);
    }

    /// A batch's Tier 0 pass merged `merged` rows, failed on `errors`, and took `elapsed_ms`.
    pub fn tier0(&mut self, merged: usize, errors: Vec<ScanError>, elapsed_ms: u64)
        ensures
            final(self).found == old(self).found,
            final(self).read == sat_add32(old(self).read, merged as nat),
            final(self).errors@ == old(self).errors@ + errors@,
            final(self).tier0_ms == sat_add64(old(self).tier0_ms, elapsed_ms),
            final(self).tier1_ms == old(self).tier1_ms,
    {
        self.read = add32(self.read, merged);
        let mut errors = errors;
        self.errors.append(&mut errors);
        self.tier0_ms = add64(self.tier0_ms, elapsed_ms);
    }

    /// A batch's Tier 1 pass took `elapsed_ms`.
    pub fn tier1(&mut self, elapsed_ms: u64)
        ensures
            final(self).found == old(self).found,
            final(self).read == old(self).read,
            final(self).errors == old(self).errors,
            final(self).tier0_ms == old(self).tier0_ms,
            final(self).tier1_ms == sat_add64(old(self).tier1_ms, elapsed_ms),
    {
        self.tier1_ms = add64(self.tier1_ms, elapsed_ms);
    }

    /// The event a scan ends with: `Finished` with its totals when it ran to completion,
    /// `Cancelled` with the counts it had reached when it did not.
    pub fn terminal(self, id: ScanId, cancelled: bool, elapsed_ms: u64, discovery_ms: u64) -> (event: ScanEvent)
        ensures
            cancelled ==> event == (ScanEvent::Cancelled { scan_id: id, found: self.found, read: self.read }),
            !cancelled ==> event == (ScanEvent::Finished {
                scan_id: id,
                summary: ScanTotals {
                    repos_read: self.read,
                    errors: self.errors,
                    elapsed_ms,
                    discovery_ms,
                    tier0_ms: self.tier0_ms,
                    tier1_ms: self.tier1_ms,
                },
            }),
    {
        if cancelled {
            ScanEvent::Cancelled { scan_id: id, found: self.found, read: self.read }
        } else {
            ScanEvent::Finished {
                scan_id: id,
                summary: ScanTotals {
                    repos_read: self.read,
                    errors: self.errors,
                    elapsed_ms,
                    discovery_ms,
                    tier0_ms: self.tier0_ms,
                    tier1_ms: self.tier1_ms,
                },
            }
        }
    }
}

/// A fetch pass's totals with one more outcome counted: a success is attempted and
/// succeeded, any other outcome a process ran for is attempted and failed, and one nothing
/// ran for is skipped.
pub open spec fn spec_count_fetch(summary: FetchSummary, status: FetchStatus) -> FetchSummary {
    if status == FetchStatus::Succeeded {
        FetchSummary {
            attempted: sat_add32(summary.attempted, 1),
            succeeded: sat_add32(summary.succeeded, 1),
            ..summary
        }
    } else if status.spec_ran() {
        FetchSummary {
            attempted: sat_add32(summary.attempted, 1),
            failed: sat_add32(summary.failed, 1),
            ..summary
        }
    } else {
        FetchSummary { skipped: sat_add32(summary.skipped, 1), ..summary }
    }
}

/// Count one settled outcome into a fetch pass's totals.
pub fn count_fetch(summary: &mut FetchSummary, status: FetchStatus)
    ensures
        *final(summary) == spec_count_fetch(*old(summary), status),
{
    if status == FetchStatus::Succeeded {
        summary.attempted = add32(summary.attempted, 1);
        summary.succeeded = add32(summary.succeeded, 1);
    } else if status.ran() {
        summary.attempted = add32(summary.attempted, 1);
        summary.failed = add32(summary.failed, 1);
    } else {
        summary.skipped = add32(summary.skipped, 1);
    }
}

/// How many fetch workers to start: the concurrency cap, but never more than there is work
/// and never fewer than one.
pub fn fetch_workers(concurrency: usize, repos: usize) -> (workers: usize)
    requires
        repos >= 1,
    ensures
        workers == if concurrency < 1 { 1 } else if concurrency > repos { repos as int } else { concurrency as int },
{
    if concurrency < 1 {
        1
    } else if concurrency > repos {
        repos
    } else {
        concurrency
    }
}


/// Every settled outcome is counted exactly once: a process that ran is attempted and then
/// either succeeded or failed, and one that did not is skipped. Holds while the counters are
/// below saturation.
pub proof fn lemma_fetch_tally_adds_up(summary: FetchSummary, status: FetchStatus)
    requires
        summary.attempted == summary.succeeded + summary.failed,
        summary.attempted < u32::MAX,
        summary.skipped < u32::MAX,
    ensures
        ({
            let next = spec_count_fetch(summary, status);
            &&& next.attempted == next.succeeded + next.failed
            &&& next.attempted + next.skipped == summary.attempted + summary.skipped + 1
            &&& (next.attempted > summary.attempted <==> status.spec_ran())
        }),
{
}

/// A fetch pass's totals after counting `statuses` one by one, in the order they settled,
/// from nothing counted.
pub open spec fn spec_count_fetches(statuses: Seq<FetchStatus>) -> FetchSummary
    decreases statuses.len(),
{
    if statuses.len() == 0 {
        FetchSummary { attempted: 0, succeeded: 0, failed: 0, skipped: 0, cancelled: false, elapsed_ms: 0 }
    } else {
        spec_count_fetch(spec_count_fetches(statuses.drop_last()), statuses.last())
    }
}

/// A whole pass counts every repository once: whatever order the outcomes settle in, the
/// attempted and the skipped add up to the number of outcomes, and the attempted split into
/// the succeeded and the failed. Holds while the counts are below saturation.
pub proof fn lemma_fetch_pass_counts_each_once(statuses: Seq<FetchStatus>)
    requires
        statuses.len() < u32::MAX,
    ensures
        spec_count_fetches(statuses).attempted + spec_count_fetches(statuses).skipped == statuses.len(),
        spec_count_fetches(statuses).attempted == spec_count_fetches(statuses).succeeded
            + spec_count_fetches(statuses).failed,
    decreases statuses.len(),
{
    if statuses.len() > 0 {
        let before = spec_count_fetches(statuses.drop_last());
        lemma_fetch_pass_counts_each_once(statuses.drop_last());
        lemma_fetch_tally_adds_up(before, statuses.last());
    }
}

/// The event for rows a batch merged: none when it merged nothing, else the rows.
pub open spec fn spec_updated(id: ScanId, repos: Vec<RepoStatus>) -> Seq<ScanEvent> {
    if repos@.len() == 0 {
        Seq::empty()
    } else {
        seq![ScanEvent::ReposUpdated { scan_id: id, repos }]
    }
}

/// The event for rows a batch merged, if it merged any.
pub fn updated(id: ScanId, repos: Vec<RepoStatus>) -> (events: Vec<ScanEvent>)
    ensures
        events@ == spec_updated(id, repos),
{
    let mut events: Vec<ScanEvent> = Vec::new();
    if repos.len() > 0 {
        events.push(ScanEvent::ReposUpdated { scan_id: id, repos });
    }
    events
}

/// What a scan says after a batch's Tier 0 pass, in order: the repositories that produced no
/// row, if any; the rows merged, if any; and the running totals, always.
pub open spec fn spec_tier0_events(id: ScanId, errors: Vec<ScanError>, merged: Vec<RepoStatus>, found: u32, read: u32) -> Seq<ScanEvent> {
    (if errors@.len() == 0 { Seq::empty() } else { seq![ScanEvent::RepoErrors { scan_id: id, errors }] })
        + spec_updated(id, merged)
        + seq![ScanEvent::Progress { scan_id: id, found, read }]
}

/// The events after a batch's Tier 0 pass.
pub fn tier0_events(id: ScanId, errors: Vec<ScanError>, merged: Vec<RepoStatus>, found: u32, read: u32) -> (events: Vec<ScanEvent>)
    ensures
        events@ == spec_tier0_events(id, errors, merged, found, read),
{
    let ghost (e0, m0) = (errors, merged);
    let mut events: Vec<ScanEvent> = Vec::new();
    if errors.len() > 0 {
        events.push(ScanEvent::RepoErrors { scan_id: id, errors });
    }
    let mut rows = updated(id, merged);
    events.append(&mut rows);
    events.push(ScanEvent::Progress { scan_id: id, found, read });
    assert(events@ =~= spec_tier0_events(id, e0, m0, found, read));
    events
}


/// Each settled outcome lands in exactly the counters its status calls for: a success in
/// attempted and succeeded; a failure of a process that ran (failed, authentication, network,
/// deadline) in attempted and failed; an outcome no process ran for (no remote, too soon,
/// cancelled, no `git`) in skipped. Nothing else moves. Holds below saturation.
pub proof fn lemma_count_fetch_by_status(summary: FetchSummary, status: FetchStatus)
    requires
        summary.attempted < u32::MAX,
        summary.succeeded < u32::MAX,
        summary.failed < u32::MAX,
        summary.skipped < u32::MAX,
    ensures
        ({
            let next = spec_count_fetch(summary, status);
            let failed = status == FetchStatus::Failed || status == FetchStatus::Auth
                || status == FetchStatus::Network || status == FetchStatus::TimedOut;
            let skipped = status == FetchStatus::NoRemote || status == FetchStatus::TooSoon
                || status == FetchStatus::Cancelled || status == FetchStatus::GitMissing;
            &&& next.succeeded == summary.succeeded + if status == FetchStatus::Succeeded { 1int } else { 0int }
            &&& next.failed == summary.failed + if failed { 1int } else { 0int }
            &&& next.skipped == summary.skipped + if skipped { 1int } else { 0int }
            &&& next.attempted == summary.attempted
                + if status == FetchStatus::Succeeded || failed { 1int } else { 0int }
            &&& next.cancelled == summary.cancelled
            &&& next.elapsed_ms == summary.elapsed_ms
        }),
{
}

} // verus!
