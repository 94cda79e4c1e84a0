//! The canonical row state, the discovered repositories, the configured roots, and the live
//! scans.
//!
//! One map of rows keyed by path. Each tier result is merged into it here and the full merged
//! row is what a caller hands on, so a mirror of this map never merges and never holds a value
//! this map does not.

use vstd::prelude::*;

use crate::clock::now_ms;
use crate::merge::{
    join_errors, merge_tier0, merge_tier1_at, merge_tier2_at, opt_slice_view, spec_join_errors,
    spec_merge_tier0, spec_without_tier2, tier1_merged, tier2_merged, without_tier2,
};
use crate::model::{
    opt_str_view, DiscoveredRepo, DiscoveredView, RepoStatus, RepoStatusView, ScanError, ScanId,
};
use crate::pathmap::{has_key, sorted_by_path, Keyed, PathMap};
use crate::paths::{path_starts_with, starts_with};
use crate::status::tier1::Tier1;
use crate::status::tier2::Tier2;

verus! {

/// The value under `k`, if there is one.
pub open spec fn lookup<V>(m: Map<Seq<char>, V>, k: Seq<char>) -> Option<V> {
    if m.contains_key(k) {
        Some(m[k])
    } else {
        None
    }
}

/// The views of a list of rows.
pub open spec fn rows_view(rows: Seq<RepoStatus>) -> Seq<RepoStatusView> {
    rows.map_values(|r: RepoStatus| r@)
}

/// The views of a list of discovered repositories.
pub open spec fn found_view(found: Seq<DiscoveredRepo>) -> Seq<DiscoveredView> {
    found.map_values(|r: DiscoveredRepo| r@)
}

/// The rows after each Tier 0 read of `batch` is merged in turn.
pub open spec fn fold_tier0(rows: Map<Seq<char>, RepoStatusView>, batch: Seq<RepoStatusView>) -> Map<Seq<char>, RepoStatusView>
    decreases batch.len(),
{
    if batch.len() == 0 {
        rows
    } else {
        let prev = fold_tier0(rows, batch.drop_last());
        let r = batch.last();
        prev.insert(r.path, spec_merge_tier0(lookup(prev, r.path), r))
    }
}

/// The map after every discovered repository in `batch` is recorded in turn.
pub open spec fn fold_found(found: Map<Seq<char>, DiscoveredView>, batch: Seq<DiscoveredView>) -> Map<Seq<char>, DiscoveredView>
    decreases batch.len(),
{
    if batch.len() == 0 {
        found
    } else {
        fold_found(found, batch.drop_last()).insert(batch.last().path, batch.last())
    }
}

/// The rows after each Tier 1 read of `batch`, taken at `now`, is merged in turn. A read for a
/// path with no row is dropped: Tier 1 has no `head` to give one.
pub open spec fn fold_tier1(rows: Map<Seq<char>, RepoStatusView>, batch: Seq<Tier1>, now: u64) -> Map<Seq<char>, RepoStatusView>
    decreases batch.len(),
{
    if batch.len() == 0 {
        rows
    } else {
        let prev = fold_tier1(rows, batch.drop_last(), now);
        let t = batch.last();
        if prev.contains_key(t.path@) {
            prev.insert(t.path@, tier1_merged(prev[t.path@], t, now))
        } else {
            prev
        }
    }
}

/// The merged rows a Tier 1 batch hands back: one per read whose path had a row, in order.
pub open spec fn tier1_outputs(rows: Map<Seq<char>, RepoStatusView>, batch: Seq<Tier1>, now: u64) -> Seq<RepoStatusView>
    decreases batch.len(),
{
    if batch.len() == 0 {
        Seq::empty()
    } else {
        let prev = fold_tier1(rows, batch.drop_last(), now);
        let t = batch.last();
        tier1_outputs(rows, batch.drop_last(), now) + if prev.contains_key(t.path@) {
            seq![tier1_merged(prev[t.path@], t, now)]
        } else {
            Seq::empty()
        }
    }
}

/// The rows after each failure in `failures` is recorded against its row, in turn.
pub open spec fn fold_errors(rows: Map<Seq<char>, RepoStatusView>, failures: Seq<ScanError>) -> Map<Seq<char>, RepoStatusView>
    decreases failures.len(),
{
    if failures.len() == 0 {
        rows
    } else {
        let prev = fold_errors(rows, failures.drop_last());
        let f = failures.last();
        if prev.contains_key(f.path@) {
            prev.insert(f.path@, with_error(prev[f.path@], f.message@))
        } else {
            prev
        }
    }
}

/// The flagged rows `record_errors` hands back: one per failure whose path had a row, in order.
pub open spec fn error_outputs(rows: Map<Seq<char>, RepoStatusView>, failures: Seq<ScanError>) -> Seq<RepoStatusView>
    decreases failures.len(),
{
    if failures.len() == 0 {
        Seq::empty()
    } else {
        let prev = fold_errors(rows, failures.drop_last());
        let f = failures.last();
        error_outputs(rows, failures.drop_last()) + if prev.contains_key(f.path@) {
            seq![with_error(prev[f.path@], f.message@)]
        } else {
            Seq::empty()
        }
    }
}

/// A row with a further cause appended to its `error` slot.
pub open spec fn with_error(row: RepoStatusView, message: Seq<char>) -> RepoStatusView {
    RepoStatusView { error: spec_join_errors(row.error, Some(message)), ..row }
}

/// The rows after Tier 2 is cleared from each of `paths` that has one.
pub open spec fn fold_invalidate(rows: Map<Seq<char>, RepoStatusView>, paths: Seq<String>) -> Map<Seq<char>, RepoStatusView>
    decreases paths.len(),
{
    if paths.len() == 0 {
        rows
    } else {
        let prev = fold_invalidate(rows, paths.drop_last());
        let p = paths.last()@;
        if prev.contains_key(p) {
            prev.insert(p, spec_without_tier2(prev[p]))
        } else {
            prev
        }
    }
}

/// The rows after each row of `batch` is inserted as it stands, in turn.
pub open spec fn fold_insert(rows: Map<Seq<char>, RepoStatusView>, batch: Seq<RepoStatusView>) -> Map<Seq<char>, RepoStatusView>
    decreases batch.len(),
{
    if batch.len() == 0 {
        rows
    } else {
        fold_insert(rows, batch.drop_last()).insert(batch.last().path, batch.last())
    }
}

/// Whether `path` lies under one of `roots`.
pub open spec fn under_any(path: Seq<char>, roots: Seq<String>) -> bool {
    exists|i: int| 0 <= i < roots.len() && path_starts_with(path, #[trigger] roots[i]@)
}

/// Whether `path` is one of `seen`.
pub open spec fn seen_path(path: Seq<char>, seen: Seq<String>) -> bool {
    exists|i: int| 0 <= i < seen.len() && #[trigger] seen[i]@ == path
}

/// The keys a completed scan of `roots` that saw `seen` keeps: everything it did not walk,
/// and everything it saw.
pub open spec fn kept_by_scan(roots: Seq<String>, seen: Seq<String>) -> spec_fn(Seq<char>) -> bool {
    |k: Seq<char>| !under_any(k, roots) || seen_path(k, seen)
}

/// The keys a removed root leaves behind: everything not under it.
pub open spec fn kept_by_removal(root: Seq<char>) -> spec_fn(Seq<char>) -> bool {
    |k: Seq<char>| !path_starts_with(k, root)
}

/// The paths of a list of rows, in order.
pub open spec fn row_paths(rows: Seq<RepoStatus>) -> Seq<Seq<char>> {
    rows.map_values(|r: RepoStatus| r.path@)
}

/// The views of a list of paths.
pub open spec fn paths_view(paths: Seq<String>) -> Seq<Seq<char>> {
    paths.map_values(|p: String| p@)
}

/// The paths of a list of rows, in order.
fn paths_of(rows: &Vec<RepoStatus>) -> (paths: Vec<String>)
    ensures
        paths@.len() == rows@.len(),
        forall|i: int| 0 <= i < rows@.len() ==> #[trigger] paths@[i]@ == rows@[i].path@,
        sorted_by_path(rows@) ==> sorted_by_path(paths@),
        forall|k: Seq<char>| #[trigger] seen_path(k, paths@) <==> has_key(rows@, k),
{
    let mut paths: Vec<String> = Vec::with_capacity(rows.len());
    for i in 0..rows.len()
        invariant
            paths@.len() == i,
            forall|j: int| 0 <= j < i ==> #[trigger] paths@[j]@ == rows@[j].path@,
    {
        paths.push(rows[i].path.clone());
    }
    proof {
        assert forall|k: Seq<char>| #[trigger] seen_path(k, paths@) <==> has_key(rows@, k) by {
            if seen_path(k, paths@) {
                let i = choose|i: int| 0 <= i < paths@.len() && #[trigger] paths@[i]@ == k;
                assert(rows@[i].key_of() == k);
            }
            if has_key(rows@, k) {
                let i = choose|i: int| 0 <= i < rows@.len() && #[trigger] rows@[i].key_of() == k;
                assert(paths@[i]@ == k);
            }
        }
        if sorted_by_path(rows@) {
            assert forall|a: int, b: int| 0 <= a < b < paths@.len() implies crate::paths::path_lt(#[trigger] paths@[a].key_of(), #[trigger] paths@[b].key_of()) by {
                assert(rows@[a].key_of() == paths@[a]@);
                assert(rows@[b].key_of() == paths@[b]@);
            }
        }
    }
    paths
}

/// Whether `path` lies under one of `roots`.
fn under_any_root(path: &str, roots: &[String]) -> (r: bool)
    ensures
        r == under_any(path@, roots@),
{
    for i in 0..roots.len()
        invariant
            forall|j: int| 0 <= j < i ==> !path_starts_with(path@, #[trigger] roots@[j]@),
    {
        if starts_with(path, roots[i].as_str()) {
            return true;
        }
    }
    false
}

/// Whether `path` is one of `seen`.
fn is_seen(path: &str, seen: &[String]) -> (r: bool)
    ensures
        r == seen_path(path@, seen@),
{
    let wanted = path.to_owned();
    for i in 0..seen.len()
        invariant
            wanted@ == path@,
            forall|j: int| 0 <= j < i ==> #[trigger] seen@[j]@ != path@,
    {
        if seen[i] == wanted {
            return true;
        }
    }
    false
}

/// One scan that is running: its id and whether it has been asked to stop.
struct ScanEntry {
    id: u64,
    cancelled: bool,
}

/// Everything the application owns between commands.
pub struct AppState {
    repos: PathMap<RepoStatus>,
    found: PathMap<DiscoveredRepo>,
    roots: PathMap<String>,
    scans: Vec<ScanEntry>,
    next_scan: u64,
}

impl AppState {
    /// The canonical rows, by path.
    pub closed spec fn rows(&self) -> Map<Seq<char>, RepoStatusView> {
        self.repos.map()
    }

    /// The rows in path order.
    pub closed spec fn row_seq(&self) -> Seq<RepoStatus> {
        self.repos.seq()
    }

    /// What discovery found, by path. A superset of the rows' keys is typical, not required.
    pub closed spec fn found(&self) -> Map<Seq<char>, DiscoveredView> {
        self.found.map()
    }

    /// What discovery found, in path order.
    pub closed spec fn found_seq(&self) -> Seq<DiscoveredRepo> {
        self.found.seq()
    }

    /// The configured roots, in path order.
    pub closed spec fn root_seq(&self) -> Seq<String> {
        self.roots.seq()
    }

    /// The configured roots, as a set of paths.
    pub closed spec fn root_set(&self) -> Set<Seq<char>> {
        self.roots.map().dom()
    }

    /// The live scans, each with whether it has been asked to stop.
    pub closed spec fn scans(&self) -> Map<u64, bool> {
        Map::new(
            |id: u64| exists|i: int| 0 <= i < self.scans@.len() && #[trigger] self.scans@[i].id == id,
            |id: u64| self.scans@[choose|i: int| 0 <= i < self.scans@.len() && #[trigger] self.scans@[i].id == id].cancelled,
        )
    }

    /// How many scans have begun. The next one gets this number plus one.
    pub closed spec fn scans_begun(&self) -> u64 {
        self.next_scan
    }

    /// The state's own invariant: every map in path order, every scan id distinct and issued.
    pub closed spec fn wf(&self) -> bool {
        &&& self.repos.wf()
        &&& self.found.wf()
        &&& self.roots.wf()
        &&& forall|i: int, j: int| 0 <= i < j < self.scans@.len() ==> #[trigger] self.scans@[i].id != #[trigger] self.scans@[j].id
        &&& forall|i: int| 0 <= i < self.scans@.len() ==> 1 <= #[trigger] self.scans@[i].id <= self.next_scan
    }

    /// The rows, in order, are the map.
    pub proof fn lemma_row_seq(&self)
        requires
            self.wf(),
        ensures
            sorted_by_path(self.row_seq()),
            forall|i: int| 0 <= i < self.row_seq().len() ==> self.rows().contains_key(#[trigger] self.row_seq()[i].path@)
                && self.rows()[self.row_seq()[i].path@] == self.row_seq()[i]@,
            forall|k: Seq<char>| #[trigger] self.rows().contains_key(k) ==> exists|i: int| 0 <= i < self.row_seq().len() && #[trigger] self.row_seq()[i].path@ == k,
    {
        assert forall|i: int| 0 <= i < self.row_seq().len() implies self.rows().contains_key(#[trigger] self.row_seq()[i].path@)
            && self.rows()[self.row_seq()[i].path@] == self.row_seq()[i]@ by {
            crate::pathmap::lemma_key_index(self.repos.seq(), i);
        }
        assert forall|k: Seq<char>| #[trigger] self.rows().contains_key(k) implies exists|i: int| 0 <= i < self.row_seq().len() && #[trigger] self.row_seq()[i].path@ == k by {
            let i = choose|i: int| 0 <= i < self.repos.seq().len() && #[trigger] self.repos.seq()[i].key_of() == k;
            assert(self.row_seq()[i].path@ == k);
        }
    }

    /// The row for `path`, if there is one.
    pub fn row(&self, path: &str) -> (row: Option<RepoStatus>)
        requires
            self.wf(),
        ensures
            match row {
                Some(r) => self.rows().contains_key(path@) && r@ == self.rows()[path@],
                None => !self.rows().contains_key(path@),
            },
    {
        match self.repos.find(path) {
            Some(i) => Some(self.repos.at(i).copied()),
            None => None,
        }
    }

    /// Whether `path` is a key of the canonical map.
    pub fn has_repo(&self, path: &str) -> (has: bool)
        requires
            self.wf(),
        ensures
            has == self.rows().contains_key(path@),
    {
        self.repos.find(path).is_some()
    }

    /// What discovery found for `path`, if anything.
    pub fn discovered(&self, path: &str) -> (found: Option<DiscoveredRepo>)
        requires
            self.wf(),
        ensures
            match found {
                Some(r) => self.found().contains_key(path@) && r@ == self.found()[path@],
                None => !self.found().contains_key(path@),
            },
    {
        match self.found.find(path) {
            Some(i) => Some(self.found.at(i).copied()),
            None => None,
        }
    }

    /// Every row, in path order.
    pub fn snapshot(&self) -> (rows: Vec<RepoStatus>)
        requires
            self.wf(),
        ensures
            rows_view(rows@) == rows_view(self.row_seq()),
    {
        let n = self.repos.len();
        let mut rows: Vec<RepoStatus> = Vec::with_capacity(n);
        for i in 0..n
            invariant
                n == self.repos.seq().len(),
                self.repos.seq() == self.row_seq(),
                rows@.len() == i,
                forall|j: int| 0 <= j < i ==> #[trigger] rows@[j]@ == self.row_seq()[j]@,
        {
            rows.push(self.repos.at(i).copied());
        }
        assert(rows_view(rows@) =~= rows_view(self.row_seq()));
        rows
    }

    /// Every discovered repository, in path order.
    pub fn discovered_all(&self) -> (found: Vec<DiscoveredRepo>)
        requires
            self.wf(),
        ensures
            found@ == self.found_seq(),
    {
        let n = self.found.len();
        let mut found: Vec<DiscoveredRepo> = Vec::with_capacity(n);
        for i in 0..n
            invariant
                found@ == self.found_seq().take(i as int),
                n == self.found.seq().len(),
                self.found.seq() == self.found_seq(),
        {
            found.push(self.found.at(i).copied());
            assert(found@ =~= self.found_seq().take(i + 1));
        }
        assert(self.found_seq().take(self.found_seq().len() as int) =~= self.found_seq());
        found
    }

    /// Record what discovery found, so a later per-row read can reach its Git directory.
    pub fn record_found(&mut self, repos: &[DiscoveredRepo])
        requires
            old(self).wf(),
        ensures
            final(self).wf(),
            final(self).found() == fold_found(old(self).found(), found_view(repos@)),
            final(self).rows() == old(self).rows(),
            final(self).root_seq() == old(self).root_seq(),
            final(self).scans() == old(self).scans(),
            final(self).scans_begun() == old(self).scans_begun(),
    {
        let ghost start = self.found.map();
        for i in 0..repos.len()
            invariant
                self.wf(),
                self.found.map() == fold_found(start, found_view(repos@).take(i as int)),
                self.repos == old(self).repos,
                self.roots == old(self).roots,
                self.scans == old(self).scans,
                self.next_scan == old(self).next_scan,
        {
            self.found.upsert(repos[i].copied());
            assert(found_view(repos@).take(i + 1).drop_last() =~= found_view(repos@).take(i as int));
        }
        assert(found_view(repos@).take(repos@.len() as int) =~= found_view(repos@));
    }

    /// Merge a batch of Tier 0 rows, in order, and return each merged row as the map now holds it.
    pub fn merge_tier0_batch(&mut self, rows: Vec<RepoStatus>) -> (merged: Vec<RepoStatus>)
        requires
            old(self).wf(),
        ensures
            final(self).wf(),
            final(self).rows() == fold_tier0(old(self).rows(), rows_view(rows@)),
            merged@.len() == rows@.len(),
            forall|i: int| 0 <= i < rows@.len() ==> (#[trigger] merged@[i])@ == spec_merge_tier0(
                lookup(fold_tier0(old(self).rows(), rows_view(rows@).take(i)), rows@[i].path@),
                rows@[i]@,
            ),
            final(self).found() == old(self).found(),
            final(self).root_seq() == old(self).root_seq(),
            final(self).scans() == old(self).scans(),
            final(self).scans_begun() == old(self).scans_begun(),
    {
        let ghost start = self.repos.map();
        let ghost batch = rows_view(rows@);
        let mut merged: Vec<RepoStatus> = Vec::with_capacity(rows.len());
        for i in 0..rows.len()
            invariant
                self.wf(),
                batch == rows_view(rows@),
                self.repos.map() == fold_tier0(start, batch.take(i as int)),
                merged@.len() == i,
                forall|j: int| 0 <= j < i ==> (#[trigger] merged@[j])@ == spec_merge_tier0(
                    lookup(fold_tier0(start, batch.take(j)), rows@[j].path@),
                    rows@[j]@,
                ),
                self.found == old(self).found,
                self.roots == old(self).roots,
                self.scans == old(self).scans,
                self.next_scan == old(self).next_scan,
        {
            let incoming = rows[i].copied();
            let row = match self.repos.find(incoming.path.as_str()) {
                Some(at) => merge_tier0(Some(self.repos.at(at)), incoming),
                None => merge_tier0(None, incoming),
            };
            proof {
                assert(batch.take(i + 1).drop_last() =~= batch.take(i as int));
                assert(batch.take(i + 1).last() == rows@[i as int]@);
            }
            self.repos.upsert(row.copied());
            merged.push(row);
        }
        assert(batch.take(rows@.len() as int) =~= batch);
        merged
    }

    /// Merge a batch of Tier 1 reads, all taken at `now`, and return the merged rows. A read for
    /// a path with no row is dropped rather than inserted.
    pub fn merge_tier1_batch_at(&mut self, rows: Vec<Tier1>, now: u64) -> (merged: Vec<RepoStatus>)
        requires
            old(self).wf(),
        ensures
            final(self).wf(),
            final(self).rows() == fold_tier1(old(self).rows(), rows@, now),
            rows_view(merged@) == tier1_outputs(old(self).rows(), rows@, now),
            final(self).found() == old(self).found(),
            final(self).root_seq() == old(self).root_seq(),
            final(self).scans() == old(self).scans(),
            final(self).scans_begun() == old(self).scans_begun(),
    {
        let ghost start = self.repos.map();
        let mut merged: Vec<RepoStatus> = Vec::new();
        for i in 0..rows.len()
            invariant
                self.wf(),
                self.repos.map() == fold_tier1(start, rows@.take(i as int), now),
                rows_view(merged@) == tier1_outputs(start, rows@.take(i as int), now),
                self.found == old(self).found,
                self.roots == old(self).roots,
                self.scans == old(self).scans,
                self.next_scan == old(self).next_scan,
        {
            let incoming = rows[i].copied();
            proof {
                assert(rows@.take(i + 1).drop_last() =~= rows@.take(i as int));
                assert(rows@.take(i + 1).last() == rows@[i as int]);
            }
            match self.repos.find(incoming.path.as_str()) {
                Some(at) => {
                    let row = merge_tier1_at(self.repos.at(at), incoming, now);
                    self.repos.upsert(row.copied());
                    let ghost before = merged@;
                    merged.push(row);
                    assert(rows_view(merged@) =~= rows_view(before) + seq![row@]);
                },
                None => {
                    assert(tier1_outputs(start, rows@.take(i + 1), now) =~= tier1_outputs(start, rows@.take(i as int), now));
                },
            }
        }
        assert(rows@.take(rows@.len() as int) =~= rows@);
        merged
    }

    /// Merge a batch of Tier 1 reads, stamped with the clock, and return the merged rows.
    pub fn merge_tier1_batch(&mut self, rows: Vec<Tier1>) -> (merged: Vec<RepoStatus>)
        requires
            old(self).wf(),
        ensures
            final(self).wf(),
            exists|now: u64| {
                &&& final(self).rows() == fold_tier1(old(self).rows(), rows@, now)
                &&& rows_view(merged@) == tier1_outputs(old(self).rows(), rows@, now)
            },
            final(self).found() == old(self).found(),
            final(self).root_seq() == old(self).root_seq(),
            final(self).scans() == old(self).scans(),
            final(self).scans_begun() == old(self).scans_begun(),
    {
        let now = now_ms();
        self.merge_tier1_batch_at(rows, now)
    }

    /// Merge one Tier 2 read, taken at `now`, and return the merged row; `None` for a path
    /// with no row, which Tier 2 cannot create.
    pub fn merge_tier2_at(&mut self, row: Tier2, now: u64) -> (merged: Option<RepoStatus>)
        requires
            old(self).wf(),
        ensures
            final(self).wf(),
            old(self).rows().contains_key(row.path@) ==> {
                let m = tier2_merged(old(self).rows()[row.path@], row, now);
                &&& merged matches Some(r) && r@ == m
                &&& final(self).rows() == old(self).rows().insert(row.path@, m)
            },
            !old(self).rows().contains_key(row.path@) ==> merged is None && final(self).rows() == old(self).rows(),
            final(self).found() == old(self).found(),
            final(self).root_seq() == old(self).root_seq(),
            final(self).scans() == old(self).scans(),
            final(self).scans_begun() == old(self).scans_begun(),
    {
        match self.repos.find(row.path.as_str()) {
            Some(at) => {
                let merged = merge_tier2_at(self.repos.at(at), row, now);
                self.repos.upsert(merged.copied());
                Some(merged)
            },
            None => None,
        }
    }

    /// Merge one Tier 2 read, stamped with the clock, and return the merged row.
    pub fn merge_tier2(&mut self, row: Tier2) -> (merged: Option<RepoStatus>)
        requires
            old(self).wf(),
        ensures
            final(self).wf(),
            exists|now: u64| #![trigger tier2_merged(old(self).rows()[row.path@], row, now)] old(self).rows().contains_key(row.path@) ==> {
                let m = tier2_merged(old(self).rows()[row.path@], row, now);
                &&& merged matches Some(r) && r@ == m
                &&& final(self).rows() == old(self).rows().insert(row.path@, m)
            },
            !old(self).rows().contains_key(row.path@) ==> merged is None && final(self).rows() == old(self).rows(),
            final(self).found() == old(self).found(),
            final(self).root_seq() == old(self).root_seq(),
            final(self).scans() == old(self).scans(),
            final(self).scans_begun() == old(self).scans_begun(),
    {
        let now = now_ms();
        self.merge_tier2_at(row, now)
    }

    /// Drop Tier 2's fields from these rows, because something changed underneath them. A path
    /// with no row is skipped.
    pub fn invalidate_tier2(&mut self, paths: &[String])
        requires
            old(self).wf(),
        ensures
            final(self).wf(),
            final(self).rows() == fold_invalidate(old(self).rows(), paths@),
            final(self).found() == old(self).found(),
            final(self).root_seq() == old(self).root_seq(),
            final(self).scans() == old(self).scans(),
            final(self).scans_begun() == old(self).scans_begun(),
    {
        let ghost start = self.repos.map();
        for i in 0..paths.len()
            invariant
                self.wf(),
                self.repos.map() == fold_invalidate(start, paths@.take(i as int)),
                self.found == old(self).found,
                self.roots == old(self).roots,
                self.scans == old(self).scans,
                self.next_scan == old(self).next_scan,
        {
            proof {
                assert(paths@.take(i + 1).drop_last() =~= paths@.take(i as int));
                assert(paths@.take(i + 1).last() == paths@[i as int]);
            }
            match self.repos.find(paths[i].as_str()) {
                Some(at) => {
                    let cleared = without_tier2(self.repos.at(at).copied());
                    self.repos.upsert(cleared);
                },
                None => {},
            }
        }
        assert(paths@.take(paths@.len() as int) =~= paths@);
    }

    /// Record each failure against the row that already exists for its path, and return the
    /// flagged rows. A path with no row is skipped: its absence already says it.
    pub fn record_errors(&mut self, failures: &[ScanError]) -> (flagged: Vec<RepoStatus>)
        requires
            old(self).wf(),
        ensures
            final(self).wf(),
            final(self).rows() == fold_errors(old(self).rows(), failures@),
            rows_view(flagged@) == error_outputs(old(self).rows(), failures@),
            final(self).found() == old(self).found(),
            final(self).root_seq() == old(self).root_seq(),
            final(self).scans() == old(self).scans(),
            final(self).scans_begun() == old(self).scans_begun(),
    {
        let ghost start = self.repos.map();
        let mut flagged: Vec<RepoStatus> = Vec::new();
        for i in 0..failures.len()
            invariant
                self.wf(),
                self.repos.map() == fold_errors(start, failures@.take(i as int)),
                rows_view(flagged@) == error_outputs(start, failures@.take(i as int)),
                self.found == old(self).found,
                self.roots == old(self).roots,
                self.scans == old(self).scans,
                self.next_scan == old(self).next_scan,
        {
            let failure = &failures[i];
            proof {
                assert(failures@.take(i + 1).drop_last() =~= failures@.take(i as int));
                assert(failures@.take(i + 1).last() == failures@[i as int]);
            }
            match self.repos.find(failure.path.as_str()) {
                Some(at) => {
                    let existing = self.repos.at(at);
                    let error = join_errors(
                        match &existing.error {
                            Some(e) => Some(e.as_str()),
                            None => None,
                        },
                        Some(failure.message.as_str()),
                    );
                    let copy = existing.copied();
                    let row = RepoStatus { error, ..copy };
                    self.repos.upsert(row.copied());
                    let ghost before = flagged@;
                    flagged.push(row);
                    assert(rows_view(flagged@) =~= rows_view(before) + seq![row@]);
                },
                None => {
                    assert(error_outputs(start, failures@.take(i + 1)) =~= error_outputs(start, failures@.take(i as int)));
                },
            }
        }
        assert(failures@.take(failures@.len() as int) =~= failures@);
        flagged
    }

    /// Seed both maps from a persisted cache. Rows are inserted as they stand — their ages
    /// included — which is right only before any tier has written a row.
    pub fn restore(&mut self, rows: Vec<RepoStatus>, found: Vec<DiscoveredRepo>)
        requires
            old(self).wf(),
        ensures
            final(self).wf(),
            final(self).rows() == fold_insert(old(self).rows(), rows_view(rows@)),
            final(self).found() == fold_found(old(self).found(), found_view(found@)),
            final(self).root_seq() == old(self).root_seq(),
            final(self).scans() == old(self).scans(),
            final(self).scans_begun() == old(self).scans_begun(),
    {
        let ghost start = self.repos.map();
        let ghost batch = rows_view(rows@);
        for i in 0..rows.len()
            invariant
                self.wf(),
                batch == rows_view(rows@),
                self.repos.map() == fold_insert(start, batch.take(i as int)),
                self.found == old(self).found,
                self.roots == old(self).roots,
                self.scans == old(self).scans,
                self.next_scan == old(self).next_scan,
        {
            proof {
                assert(batch.take(i + 1).drop_last() =~= batch.take(i as int));
                assert(batch.take(i + 1).last() == rows@[i as int]@);
            }
            self.repos.upsert(rows[i].copied());
        }
        assert(batch.take(rows@.len() as int) =~= batch);
        self.record_found(found.as_slice());
    }

    /// The configured roots, in path order.
    pub fn roots(&self) -> (roots: Vec<String>)
        requires
            self.wf(),
        ensures
            roots@ == self.root_seq(),
    {
        let n = self.roots.len();
        let mut roots: Vec<String> = Vec::with_capacity(n);
        for i in 0..n
            invariant
                n == self.roots.seq().len(),
                self.roots.seq() == self.root_seq(),
                roots@ == self.root_seq().take(i as int),
        {
            roots.push(self.roots.at(i).clone());
            assert(roots@ =~= self.root_seq().take(i + 1));
        }
        assert(roots@ =~= self.root_seq());
        roots
    }

    /// Whether `path` is a configured root.
    pub fn has_root(&self, path: &str) -> (has: bool)
        requires
            self.wf(),
        ensures
            has == self.root_set().contains(path@),
    {
        self.roots.find(path).is_some()
    }

    /// Add a root and return the new list, in path order. Adding one already there changes
    /// nothing.
    pub fn add_root(&mut self, path: String) -> (roots: Vec<String>)
        requires
            old(self).wf(),
        ensures
            final(self).wf(),
            final(self).root_set() == old(self).root_set().insert(path@),
            roots@ == final(self).root_seq(),
            sorted_by_path(roots@),
            final(self).rows() == old(self).rows(),
            final(self).found() == old(self).found(),
            final(self).scans() == old(self).scans(),
            final(self).scans_begun() == old(self).scans_begun(),
    {
        self.roots.upsert(path);
        self.roots()
    }

    /// Drop a root and evict every row, and every discovered repository, beneath it. Returns the
    /// new root list and the evicted rows' paths, both in path order.
    pub fn remove_root(&mut self, path: &str) -> (r: (Vec<String>, Vec<String>))
        requires
            old(self).wf(),
        ensures
            final(self).wf(),
            final(self).root_set() == old(self).root_set().remove(path@),
            r.0@ == final(self).root_seq(),
            final(self).rows() == old(self).rows().restrict(Set::new(kept_by_removal(path@))),
            final(self).found() == old(self).found().restrict(Set::new(kept_by_removal(path@))),
            sorted_by_path(r.1@),
            forall|k: Seq<char>| #[trigger] seen_path(k, r.1@) <==> (old(self).rows().contains_key(k) && path_starts_with(k, path@)),
            final(self).scans() == old(self).scans(),
            final(self).scans_begun() == old(self).scans_begun(),
    {
        match self.roots.find(path) {
            Some(at) => {
                self.roots.remove_at(at);
            },
            None => {
                assert(old(self).root_set().remove(path@) =~= old(self).root_set());
            },
        }
        let roots = self.roots();
        let keep = |k: &str| -> (b: bool)
            ensures
                b == !path_starts_with(k@, path@),
            { !starts_with(k, path) };
        let removed = self.repos.retain(keep, Ghost(kept_by_removal(path@)));
        self.found.retain(keep, Ghost(kept_by_removal(path@)));
        let evicted = paths_of(&removed);
        (roots, evicted)
    }

    /// Drop the rows, and the discovered repositories, that a completed scan of `roots` did not
    /// see; return the dropped rows' paths in path order. Rows under a root the scan did not walk
    /// are left alone.
    pub fn retain_scanned(&mut self, roots: &[String], seen: &[String]) -> (evicted: Vec<String>)
        requires
            old(self).wf(),
        ensures
            final(self).wf(),
            final(self).rows() == old(self).rows().restrict(Set::new(kept_by_scan(roots@, seen@))),
            final(self).found() == old(self).found().restrict(Set::new(kept_by_scan(roots@, seen@))),
            sorted_by_path(evicted@),
            forall|k: Seq<char>| #[trigger] seen_path(k, evicted@) <==> (old(self).rows().contains_key(k) && !kept_by_scan(roots@, seen@)(k)),
            final(self).root_seq() == old(self).root_seq(),
            final(self).scans() == old(self).scans(),
            final(self).scans_begun() == old(self).scans_begun(),
    {
        let keep = |k: &str| -> (b: bool)
            ensures
                b == kept_by_scan(roots@, seen@)(k@),
            { !under_any_root(k, roots) || is_seen(k, seen) };
        let removed = self.repos.retain(keep, Ghost(kept_by_scan(roots@, seen@)));
        self.found.retain(keep, Ghost(kept_by_scan(roots@, seen@)));
        paths_of(&removed)
    }

    /// Where the entry for scan `id` is, if it is live.
    fn scan_index(&self, id: u64) -> (r: Option<usize>)
        requires
            self.wf(),
        ensures
            r is Some <==> self.scans().contains_key(id),
            r matches Some(i) ==> i < self.scans@.len() && self.scans@[i as int].id == id
                && self.scans()[id] == self.scans@[i as int].cancelled,
    {
        for i in 0..self.scans.len()
            invariant
                self.wf(),
                forall|j: int| 0 <= j < i ==> #[trigger] self.scans@[j].id != id,
        {
            if self.scans[i].id == id {
                proof {
                    let c = choose|c: int| 0 <= c < self.scans@.len() && #[trigger] self.scans@[c].id == id;
                    if c != i {
                        assert(self.scans@[c].id != self.scans@[i as int].id);
                    }
                }
                return Some(i);
            }
        }
        None
    }

    /// Allocate the next scan id and register it as running and not cancelled. Ids start at 1
    /// and are never reused.
    pub fn begin_scan(&mut self) -> (id: ScanId)
        requires
            old(self).wf(),
            old(self).scans_begun() < u64::MAX,
        ensures
            final(self).wf(),
            id.0 == old(self).scans_begun() + 1,
            final(self).scans_begun() == id.0,
            !old(self).scans().contains_key(id.0),
            final(self).scans() == old(self).scans().insert(id.0, false),
            final(self).rows() == old(self).rows(),
            final(self).found() == old(self).found(),
            final(self).root_seq() == old(self).root_seq(),
    {
        let id = self.next_scan + 1;
        let ghost before = self.scans@;
        self.next_scan = id;
        self.scans.push(ScanEntry { id, cancelled: false });
        proof {
            assert forall|i: int| 0 <= i < before.len() implies #[trigger] before[i].id != id by {}
            assert forall|k: u64| #[trigger] self.scans().contains_key(k) == old(self).scans().insert(id, false).contains_key(k) by {
                if self.scans().contains_key(k) {
                    let c = choose|c: int| 0 <= c < self.scans@.len() && #[trigger] self.scans@[c].id == k;
                    if c < before.len() {
                        assert(before[c].id == k);
                    }
                }
                if old(self).scans().contains_key(k) {
                    let c = choose|c: int| 0 <= c < before.len() && #[trigger] before[c].id == k;
                    assert(self.scans@[c].id == k);
                }
                if k == id {
                    assert(self.scans@[before.len() as int].id == k);
                }
            }
            assert forall|k: u64| #[trigger] self.scans().contains_key(k) implies self.scans()[k] == old(self).scans().insert(id, false)[k] by {
                let c = choose|c: int| 0 <= c < self.scans@.len() && #[trigger] self.scans@[c].id == k;
                if k != id {
                    assert(c < before.len());
                    assert(before[c].id == k);
                    let d = choose|d: int| 0 <= d < before.len() && #[trigger] before[d].id == k;
                    if c != d {
                        assert(before[c].id != before[d].id);
                    }
                } else {
                    if c != before.len() {
                        assert(self.scans@[c].id != self.scans@[before.len() as int].id);
                    }
                }
            }
            assert(self.scans() =~= old(self).scans().insert(id, false));
        }
        ScanId(id)
    }

    /// Deregister a scan. Finishing one that is not live changes nothing.
    pub fn finish_scan(&mut self, id: ScanId)
        requires
            old(self).wf(),
        ensures
            final(self).wf(),
            final(self).scans() == old(self).scans().remove(id.0),
            final(self).scans_begun() == old(self).scans_begun(),
            final(self).rows() == old(self).rows(),
            final(self).found() == old(self).found(),
            final(self).root_seq() == old(self).root_seq(),
    {
        match self.scan_index(id.0) {
            Some(i) => {
                let ghost before = self.scans@;
                self.scans.remove(i);
                proof {
                    assert forall|k: u64| #[trigger] self.scans().contains_key(k) == old(self).scans().remove(id.0).contains_key(k) by {
                        if self.scans().contains_key(k) {
                            let c = choose|c: int| 0 <= c < self.scans@.len() && #[trigger] self.scans@[c].id == k;
                            if c < i {
                                assert(before[c].id == k);
                                assert(before[c].id != before[i as int].id);
                            } else {
                                assert(before[c + 1].id == k);
                                assert(before[c + 1].id != before[i as int].id);
                            }
                        }
                        if old(self).scans().contains_key(k) && k != id.0 {
                            let c = choose|c: int| 0 <= c < before.len() && #[trigger] before[c].id == k;
                            if c < i {
                                assert(self.scans@[c].id == k);
                            } else {
                                assert(c != i);
                                assert(self.scans@[c - 1].id == k);
                            }
                        }
                    }
                    assert forall|k: u64| #[trigger] self.scans().contains_key(k) implies self.scans()[k] == old(self).scans()[k] by {
                        let c = choose|c: int| 0 <= c < self.scans@.len() && #[trigger] self.scans@[c].id == k;
                        let d = choose|d: int| 0 <= d < before.len() && #[trigger] before[d].id == k;
                        let e = if c < i { c } else { c + 1 };
                        assert(before[e].id == k);
                        if d != e {
                            assert(before[d].id != before[e].id);
                        }
                    }
                    assert(self.scans() =~= old(self).scans().remove(id.0));
                }
            },
            None => {
                assert(self.scans() =~= old(self).scans().remove(id.0));
            },
        }
    }

    /// Ask one scan to stop. A scan that is not live is left alone.
    pub fn cancel_scan(&mut self, id: ScanId)
        requires
            old(self).wf(),
        ensures
            final(self).wf(),
            old(self).scans().contains_key(id.0) ==> final(self).scans() == old(self).scans().insert(id.0, true),
            !old(self).scans().contains_key(id.0) ==> final(self).scans() == old(self).scans(),
            final(self).scans_begun() == old(self).scans_begun(),
            final(self).rows() == old(self).rows(),
            final(self).found() == old(self).found(),
            final(self).root_seq() == old(self).root_seq(),
    {
        match self.scan_index(id.0) {
            Some(i) => {
                let ghost before = self.scans@;
                self.scans.set(i, ScanEntry { id: id.0, cancelled: true });
                proof {
                    assert forall|k: u64| #[trigger] self.scans().contains_key(k) == old(self).scans().contains_key(k) by {
                        if self.scans().contains_key(k) {
                            let c = choose|c: int| 0 <= c < self.scans@.len() && #[trigger] self.scans@[c].id == k;
                            assert(before[c].id == k);
                        }
                        if old(self).scans().contains_key(k) {
                            let c = choose|c: int| 0 <= c < before.len() && #[trigger] before[c].id == k;
                            assert(self.scans@[c].id == k);
                        }
                    }
                    assert forall|k: u64| #[trigger] self.scans().contains_key(k) implies self.scans()[k] == old(self).scans().insert(id.0, true)[k] by {
                        let c = choose|c: int| 0 <= c < self.scans@.len() && #[trigger] self.scans@[c].id == k;
                        let d = choose|d: int| 0 <= d < before.len() && #[trigger] before[d].id == k;
                        assert(before[c].id == k);
                        if d != c {
                            assert(before[d].id != before[c].id);
                        }
                        if k != id.0 {
                            assert(c != i);
                        } else if c != i {
                            assert(before[c].id != before[i as int].id);
                        }
                    }
                    assert(self.scans() =~= old(self).scans().insert(id.0, true));
                }
            },
            None => {},
        }
    }

    /// Ask every live scan to stop.
    pub fn cancel_all(&mut self)
        requires
            old(self).wf(),
        ensures
            final(self).wf(),
            final(self).scans().dom() == old(self).scans().dom(),
            forall|k: u64| #[trigger] final(self).scans().contains_key(k) ==> final(self).scans()[k],
            final(self).scans_begun() == old(self).scans_begun(),
            final(self).rows() == old(self).rows(),
            final(self).found() == old(self).found(),
            final(self).root_seq() == old(self).root_seq(),
    {
        let n = self.scans.len();
        for i in 0..n
            invariant
                n == self.scans@.len(),
                self.wf(),
                forall|j: int| 0 <= j < n ==> #[trigger] self.scans@[j].id == old(self).scans@[j].id,
                forall|j: int| 0 <= j < i ==> #[trigger] self.scans@[j].cancelled,
                self.repos == old(self).repos,
                self.found == old(self).found,
                self.roots == old(self).roots,
                self.next_scan == old(self).next_scan,
        {
            let id = self.scans[i].id;
            self.scans.set(i, ScanEntry { id, cancelled: true });
        }
        proof {
            assert forall|k: u64| #[trigger] self.scans().contains_key(k) == old(self).scans().contains_key(k) by {
                if self.scans().contains_key(k) {
                    let c = choose|c: int| 0 <= c < self.scans@.len() && #[trigger] self.scans@[c].id == k;
                    assert(old(self).scans@[c].id == k);
                }
                if old(self).scans().contains_key(k) {
                    let c = choose|c: int| 0 <= c < old(self).scans@.len() && #[trigger] old(self).scans@[c].id == k;
                    assert(self.scans@[c].id == k);
                }
            }
            assert(self.scans().dom() =~= old(self).scans().dom());
        }
    }

    /// Whether any scan is running.
    pub fn scan_in_flight(&self) -> (running: bool)
        requires
            self.wf(),
        ensures
            running == !self.scans().dom().is_empty(),
    {
        proof {
            if self.scans@.len() > 0 {
                assert(self.scans().contains_key(self.scans@[0].id));
            } else {
                assert(self.scans().dom() =~= Set::<u64>::empty());
            }
        }
        self.scans.len() > 0
    }

    /// Whether scan `id` is live and has been asked to stop.
    pub fn is_cancelled(&self, id: ScanId) -> (cancelled: bool)
        requires
            self.wf(),
        ensures
            cancelled == (self.scans().contains_key(id.0) && self.scans()[id.0]),
    {
        match self.scan_index(id.0) {
            Some(i) => self.scans[i].cancelled,
            None => false,
        }
    }
}

impl Default for AppState {
    /// An empty state: no rows, nothing discovered, no roots, no scans.
    fn default() -> (state: AppState)
        ensures
            state.wf(),
            state.rows() == Map::<Seq<char>, RepoStatusView>::empty(),
            state.found() == Map::<Seq<char>, DiscoveredView>::empty(),
            state.root_seq() == Seq::<String>::empty(),
            state.scans() == Map::<u64, bool>::empty(),
            state.scans_begun() == 0,
    {
        let state = AppState {
            repos: PathMap::new(),
            found: PathMap::new(),
            roots: PathMap::new(),
            scans: Vec::new(),
            next_scan: 0,
        };
        assert(state.scans() =~= Map::<u64, bool>::empty());
        state
    }
}

} // verus!
