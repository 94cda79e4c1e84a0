//! Live updates: what wakes the poll, and how often one repository may be refreshed.

use vstd::prelude::*;

use std::time::Duration;

use crate::clock::{duration_as_millis, millis_of};
use crate::pathmap::{Keyed, PathMap};

verus! {

/// What wakes the poll thread.
#[derive(Clone, Copy, Debug, PartialEq, Eq, Structural)]
pub enum Tick {
    /// Run a pass now, subject to the poll's floor. Sent by the focus handler.
    Refresh,
    /// Stop the thread. Sent on window close.
    Stop,
}

/// When one repository was last refreshed, in milliseconds on the caller's monotonic clock.
pub struct Stamp {
    /// The repository.
    pub path: String,
    /// When it was last refreshed.
    pub at_ms: u64,
}

impl View for Stamp {
    type V = u64;

    open spec fn view(&self) -> u64 {
        self.at_ms
    }
}

impl Keyed for Stamp {
    open spec fn key_of(&self) -> Seq<char> {
        self.path@
    }

    fn key(&self) -> (k: &str) {
        self.path.as_str()
    }

    fn copied(&self) -> (r: Stamp) {
        Stamp { path: self.path.clone(), at_ms: self.at_ms }
    }
}

/// `a - b`, or zero when `b` is later (`Instant::duration_since`, which saturates).
pub open spec fn elapsed_between(a: u64, b: u64) -> nat {
    if a >= b { (a - b) as nat } else { 0 }
}

/// Whether a refresh at `now` is due, given when each repository was last refreshed: a first
/// sighting always is, and a repeat is once `window` milliseconds have passed since the last
/// refresh of that repository.
pub open spec fn spec_due(last: Map<Seq<char>, u64>, window: nat, path: Seq<char>, now: u64) -> bool {
    !(last.contains_key(path) && elapsed_between(now, last[path]) < window)
}

/// Per-repository refresh rate limiting. Pure: `due` takes the clock rather than reading it.
pub struct Cooldown {
    /// The minimum gap between two refreshes of one repository.
    window: Duration,
    /// When each repository was last refreshed.
    last: PathMap<Stamp>,
}

impl Cooldown {
    /// The minimum gap, in milliseconds.
    pub closed spec fn window_ms(&self) -> nat {
        millis_of(self.window)
    }

    /// When each repository was last refreshed.
    pub closed spec fn stamps(&self) -> Map<Seq<char>, u64> {
        self.last.map()
    }

    /// The internal order holds.
    pub closed spec fn wf(&self) -> bool {
        self.last.wf()
    }

    /// A cooldown with nothing recorded.
    pub fn new(window: Duration) -> (cooldown: Cooldown)
        ensures
            cooldown.wf(),
            cooldown.window_ms() == millis_of(window),
            cooldown.stamps() == Map::<Seq<char>, u64>::empty(),
    {
        Cooldown { window, last: PathMap::new() }
    }

    /// Whether `path` may be refreshed at `now_ms`, recording it if so.
    pub fn due(&mut self, path: &str, now_ms: u64) -> (due: bool)
        requires
            old(self).wf(),
        ensures
            final(self).wf(),
            due == spec_due(old(self).stamps(), old(self).window_ms(), path@, now_ms),
            final(self).window_ms() == old(self).window_ms(),
            final(self).stamps() == if due {
                old(self).stamps().insert(path@, now_ms)
            } else {
                old(self).stamps()
            },
    {
        if let Some(i) = self.last.find(path) {
            let at = self.last.at(i).at_ms;
            let since: u64 = if now_ms >= at { now_ms - at } else { 0 };
            let window = duration_as_millis(&self.window);
            if (since as u128) < window {
                return false;
            }
        }
        let stamp = Stamp { path: path.to_owned(), at_ms: now_ms };
        self.last.upsert(stamp);
        true
    }
}

/// How soon after refreshing one repository another refresh of it is allowed, in
/// milliseconds. The debouncer collapses one write's burst; this covers a sequence of
/// separate operations a second apart.
pub const COOLDOWN_MS: u64 = 750;

/// The shortest gap between two full poll passes, in milliseconds. A focus refresh shares
/// the poll's path, and focus is not a rare event.
pub const POLL_FLOOR_MS: u64 = 5000;

/// One thing the watcher had to say, on its way to the refresh thread.
#[derive(Clone, Debug, PartialEq, Eq)]
pub enum Notice {
    /// This repository changed.
    Changed(String),
    /// Watching failed or degraded.
    Failed(String),
}

/// The views of a list of strings.
pub open spec fn texts(list: Seq<String>) -> Seq<Seq<char>> {
    list.map_values(|s: String| s@)
}

/// A batch of notices, split: the changed repositories in arrival order, and the failure
/// messages with repeats dropped (a watch limit reports one cause per path, and a user needs
/// to read it once).
pub open spec fn spec_split(batch: Seq<Notice>) -> (Seq<Seq<char>>, Seq<Seq<char>>)
    decreases batch.len(),
{
    if batch.len() == 0 {
        (Seq::empty(), Seq::empty())
    } else {
        let (changed, failures) = spec_split(batch.drop_last());
        match batch.last() {
            Notice::Changed(path) => (changed.push(path@), failures),
            Notice::Failed(message) => if failures.contains(message@) {
                (changed, failures)
            } else {
                (changed, failures.push(message@))
            },
        }
    }
}

/// Split a batch of notices into the changed repositories and the distinct failures.
pub fn split_notices(batch: Vec<Notice>) -> (split: (Vec<String>, Vec<String>))
    ensures
        (texts(split.0@), texts(split.1@)) == spec_split(batch@),
{
    let mut changed: Vec<String> = Vec::new();
    let mut failures: Vec<String> = Vec::new();
    let n = batch.len();
    for i in 0..n
        invariant
            n == batch@.len(),
            (texts(changed@), texts(failures@)) == spec_split(batch@.take(i as int)),
    {
        assert(batch@.take(i + 1).drop_last() =~= batch@.take(i as int));
        assert(batch@.take(i + 1).last() == batch@[i as int]);
        match &batch[i] {
            Notice::Changed(path) => {
                let ghost before = changed@;
                changed.push(path.clone());
                assert(texts(changed@) =~= texts(before).push(path@));
            },
            Notice::Failed(message) => {
                let mut seen = false;
                let m = failures.len();
                for k in 0..m
                    invariant
                        m == failures@.len(),
                        seen == exists|j: int| 0 <= j < k && failures@[j]@ == message@,
                {
                    if crate::discover::same_text(failures[k].as_str(), message.as_str()) {
                        seen = true;
                    }
                }
                assert(seen == texts(failures@).contains(message@)) by {
                    if seen {
                        let j = choose|j: int| 0 <= j < m && failures@[j]@ == message@;
                        assert(texts(failures@)[j] == message@);
                    }
                    if texts(failures@).contains(message@) {
                        let j = choose|j: int| 0 <= j < texts(failures@).len() && texts(failures@)[j] == message@;
                        assert(failures@[j]@ == message@);
                    }
                }
                if !seen {
                    let ghost before = failures@;
                    failures.push(message.clone());
                    assert(texts(failures@) =~= texts(before).push(message@));
                }
            },
        }
    }
    assert(batch@.take(n as int) =~= batch@);
    (changed, failures)
}

/// What woke the poll thread.
#[derive(Clone, Copy, Debug, PartialEq, Eq, Structural)]
pub enum Wake {
    /// Something was sent.
    Tick(Tick),
    /// The interval passed with nothing sent: the poll itself.
    TimedOut,
    /// Every sender is gone.
    Disconnected,
}

/// What the poll thread does next.
#[derive(Clone, Copy, Debug, PartialEq, Eq, Structural)]
pub enum PollStep {
    /// Stop the thread.
    Stop,
    /// Go back to waiting.
    Wait,
    /// Run a Tier 0 pass over every discovered repository.
    Pass,
}

/// The poll's rule: a stop or a vanished sender ends it; a focus refresh within the floor of
/// the last pass is ignored; otherwise — the interval, or a focus refresh past the floor — a
/// pass runs, unless a scan is about to re-read the whole tree anyway.
pub open spec fn spec_poll_step(wake: Wake, since_last_ms: u64, scan_in_flight: bool) -> PollStep {
    match wake {
        Wake::Tick(Tick::Stop) | Wake::Disconnected => PollStep::Stop,
        Wake::Tick(Tick::Refresh) if since_last_ms < POLL_FLOOR_MS => PollStep::Wait,
        _ => if scan_in_flight { PollStep::Wait } else { PollStep::Pass },
    }
}

/// What the poll thread does after waking.
pub fn poll_step(wake: Wake, since_last_ms: u64, scan_in_flight: bool) -> (step: PollStep)
    ensures
        step == spec_poll_step(wake, since_last_ms, scan_in_flight),
{
    match wake {
        Wake::Tick(Tick::Stop) | Wake::Disconnected => PollStep::Stop,
        Wake::Tick(Tick::Refresh) if since_last_ms < POLL_FLOOR_MS => PollStep::Wait,
        _ => if scan_in_flight { PollStep::Wait } else { PollStep::Pass },
    }
}


/// A refresh recorded at `at` holds back the next one of the same repository until the
/// window has passed, and only that long.
pub proof fn lemma_cooldown_holds_back_a_repeat(last: Map<Seq<char>, u64>, window: nat, path: Seq<char>, at: u64, later: u64)
    requires
        at <= later,
    ensures
        spec_due(last.insert(path, at), window, path, later) <==> later - at >= window,
{
}

/// The cooldown is per repository: recording a refresh of one leaves every other as it was.
pub proof fn lemma_cooldown_is_per_repository(last: Map<Seq<char>, u64>, window: nat, path: Seq<char>, at: u64, other: Seq<char>, now: u64)
    requires
        other != path,
    ensures
        spec_due(last.insert(path, at), window, other, now) == spec_due(last, window, other, now),
{
}

/// A repository seen for the first time is always due.
pub proof fn lemma_first_sighting_is_due(last: Map<Seq<char>, u64>, window: nat, path: Seq<char>, now: u64)
    requires
        !last.contains_key(path),
    ensures
        spec_due(last, window, path, now),
{
}

/// Whether `notice` is a failure saying `message`.
pub open spec fn failed_with(notice: Notice, message: Seq<char>) -> bool {
    notice matches Notice::Failed(text) && text@ == message
}

/// Splitting a batch reports every failure message it holds, each exactly once, and no more
/// changes than it holds.
pub proof fn lemma_split_reports_each_failure_once(batch: Seq<Notice>)
    ensures
        spec_split(batch).1.no_duplicates(),
        forall|m: Seq<char>| spec_split(batch).1.contains(m)
            <==> exists|i: int| 0 <= i < batch.len() && #[trigger] failed_with(batch[i], m),
        spec_split(batch).0.len() <= batch.len(),
    decreases batch.len(),
{
    if batch.len() > 0 {
        let rest = batch.drop_last();
        lemma_split_reports_each_failure_once(rest);
        let (changed, failures) = spec_split(rest);
        let out = spec_split(batch).1;
        let k = batch.len() - 1;
        assert(batch[k] == batch.last());
        assert(forall|i: int| 0 <= i < rest.len() ==> rest[i] == batch[i]);
        assert forall|m: Seq<char>| failures.contains(m) implies out.contains(m) by {
            let j = choose|j: int| 0 <= j < failures.len() && failures[j] == m;
            assert(out[j] == m);
        }
        assert forall|m: Seq<char>| out.contains(m)
            <==> exists|i: int| 0 <= i < batch.len() && #[trigger] failed_with(batch[i], m) by {
            if out.contains(m) {
                if failures.contains(m) {
                    let i = choose|i: int| 0 <= i < rest.len() && #[trigger] failed_with(rest[i], m);
                    assert(failed_with(batch[i], m));
                } else {
                    assert(failed_with(batch[k], m));
                }
            }
            if exists|i: int| 0 <= i < batch.len() && #[trigger] failed_with(batch[i], m) {
                let i = choose|i: int| 0 <= i < batch.len() && #[trigger] failed_with(batch[i], m);
                if i < k {
                    assert(failed_with(rest[i], m));
                    assert(failures.contains(m));
                } else {
                    if !failures.contains(m) {
                        assert(out == failures.push(m));
                        assert(out[failures.len() as int] == m);
                    }
                }
            }
        }
    }
}

} // verus!
