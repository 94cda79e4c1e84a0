//! `git fetch`: what to run, when not to run it, and how to read what came back.
//!
//! The process itself is spawned by the caller; everything that decides anything is here.
//! Six of the nine statuses are decided structurally — from the interrupt flag, from the
//! repository's remotes, from the repeat guard, from the exit code — and only `Auth` and
//! `Network` are read from git's own words. The detail always carries those words, whatever
//! the classification said.

use vstd::prelude::*;

use std::sync::atomic::AtomicBool;
use std::time::Duration;

use crate::clock::{duration_as_millis, duration_as_secs, duration_from_secs, millis_of};
use crate::model::DiscoveredRepo;
use crate::status::repo::{open_repo, remote_count};
use crate::status::tier0::fetch_head_ms;
use crate::error::quoted;
use crate::text::{chars_of, contains_chars, contains_seq, decimal, decimal_string, string_of, trim, trimmed};

verus! {

broadcast use vstd::string::group_string_axioms;

/// How a fetch of one repository ended.
#[derive(Clone, Copy, Debug, PartialEq, Eq, Structural)]
pub enum FetchStatus {
    /// `git fetch` exited 0.
    Succeeded,
    /// It failed, in words no rule below recognises.
    Failed,
    /// It failed to authenticate.
    Auth,
    /// It could not reach the remote.
    Network,
    /// It outlived its deadline and was stopped.
    TimedOut,
    /// The repository has no remote to fetch from. No process ran.
    NoRemote,
    /// The repeat guard held it back. No process ran.
    TooSoon,
    /// Interrupted. Either no process ran or the one that did was stopped.
    Cancelled,
    /// `git` could not be run at all.
    GitMissing,
}

impl FetchStatus {
    /// Whether a `git` process ran and finished or was stopped by its deadline: the statuses
    /// after which a repository is worth reading again.
    pub open spec fn spec_ran(self) -> bool {
        match self {
            FetchStatus::Succeeded | FetchStatus::Failed | FetchStatus::Auth | FetchStatus::Network
            | FetchStatus::TimedOut => true,
            _ => false,
        }
    }

    /// Whether a `git` process ran for this outcome.
    pub fn ran(&self) -> (ran: bool)
        ensures
            ran == self.spec_ran(),
    {
        match self {
            FetchStatus::Succeeded | FetchStatus::Failed | FetchStatus::Auth | FetchStatus::Network
            | FetchStatus::TimedOut => true,
            _ => false,
        }
    }
}

/// The result of fetching one repository.
#[derive(Clone, Debug, PartialEq, Eq)]
pub struct FetchOutcome {
    /// The repository, as discovery keyed it.
    pub path: String,
    /// How it ended.
    pub status: FetchStatus,
    /// Git's own last words, trimmed and capped, when it said anything.
    pub detail: Option<String>,
    /// Wall-clock time spent, in milliseconds.
    pub elapsed_ms: u64,
}

/// A whole pass, counted.
#[derive(Clone, Copy, Debug, PartialEq, Eq, Structural)]
pub struct FetchSummary {
    /// Repositories a process ran for.
    pub attempted: u32,
    /// Of those, how many exited 0.
    pub succeeded: u32,
    /// Of those, how many did not.
    pub failed: u32,
    /// Repositories no process ran for.
    pub skipped: u32,
    /// Whether the pass was interrupted.
    pub cancelled: bool,
    /// Wall-clock time spent, in milliseconds.
    pub elapsed_ms: u64,
}

impl Default for FetchSummary {
    fn default() -> (summary: FetchSummary)
        ensures
            summary == (FetchSummary {
                attempted: 0,
                succeeded: 0,
                failed: 0,
                skipped: 0,
                cancelled: false,
                elapsed_ms: 0,
            }),
    {
        FetchSummary { attempted: 0, succeeded: 0, failed: 0, skipped: 0, cancelled: false, elapsed_ms: 0 }
    }
}

/// The `git` that was found, and what it says its version is.
#[derive(Clone, Debug, PartialEq, Eq)]
pub struct GitInfo {
    /// The resolved program.
    pub path: String,
    /// Its `--version` line.
    pub version: String,
}

/// The per-process deadline when nothing else is configured, in seconds.
pub const DEFAULT_TIMEOUT_SECONDS: u64 = 60;

/// At most this many fetches at once when nothing else is configured.
pub const DEFAULT_CONCURRENCY: usize = 4;

/// How much of git's stderr is kept on an outcome, in UTF-8 bytes.
pub const DETAIL_MAX: u64 = 2000;

/// How to fetch.
#[derive(Debug)]
pub struct FetchOpts {
    /// The resolved `git`.
    pub program: String,
    /// Per-process wall-clock deadline.
    pub timeout: Duration,
    /// At most this many `git` processes alive at once.
    pub concurrency: usize,
    /// The shortest gap between two fetches of one repository, measured from `FETCH_HEAD`'s
    /// modification time. `None` disables the guard.
    pub min_interval: Option<Duration>,
    /// Delete remote-tracking refs whose remote branch is gone.
    pub prune: bool,
    /// Fetch every configured remote rather than only the current branch's.
    pub all_remotes: bool,
}

impl Default for FetchOpts {
    fn default() -> (opts: FetchOpts)
        ensures
            opts.program@ == seq!['g', 'i', 't'],
            millis_of(opts.timeout) == 1000 * DEFAULT_TIMEOUT_SECONDS,
            opts.concurrency == DEFAULT_CONCURRENCY,
            opts.min_interval is None,
            opts.prune,
            opts.all_remotes,
    {
        proof {
            reveal_strlit("git");
        }
        let program = "git".to_owned();
        assert(program@ =~= seq!['g', 'i', 't']);
        FetchOpts {
            program,
            timeout: duration_from_secs(DEFAULT_TIMEOUT_SECONDS),
            concurrency: DEFAULT_CONCURRENCY,
            min_interval: None,
            prune: true,
            all_remotes: true,
        }
    }
}

impl FetchOpts {
    /// A copy of these options.
    pub fn copied(&self) -> (opts: FetchOpts)
        ensures
            opts == *self,
    {
        FetchOpts {
            program: self.program.clone(),
            timeout: self.timeout,
            concurrency: self.concurrency,
            min_interval: self.min_interval,
            prune: self.prune,
            all_remotes: self.all_remotes,
        }
    }
}

/// What a pass has to say as it runs.
#[derive(Clone, Debug)]
pub enum FetchNotice {
    /// A process is about to be spawned for this repository.
    Started(String),
    /// This repository has settled, whatever the outcome.
    Done(FetchOutcome),
}

/// `c`, lower-cased if it is an ASCII capital (`char::to_ascii_lowercase`).
pub open spec fn ascii_lower(c: char) -> char {
    if 'A' <= c && c <= 'Z' {
        ((c as u32) + 32) as char
    } else {
        c
    }
}

/// `s` with its ASCII capitals lower-cased (`str::to_ascii_lowercase`).
pub open spec fn ascii_lowercase(s: Seq<char>) -> Seq<char> {
    s.map_values(|c: char| ascii_lower(c))
}

/// The lower-cased characters of `s`.
pub fn lowercase_chars(s: &str) -> (lower: Vec<char>)
    ensures
        lower@ == ascii_lowercase(s@),
{
    let chars = chars_of(s);
    let mut lower: Vec<char> = Vec::new();
    for i in 0..chars.len()
        invariant
            chars@ == s@,
            lower@ == ascii_lowercase(chars@.take(i as int)),
    {
        let c = chars[i];
        let l = if 'A' <= c && c <= 'Z' {
            let code: u32 = (c as u32) + 32;
            let byte: u8 = code as u8;
            assert(byte as u32 == code);
            byte as char
        } else {
            c
        };
        assert(l == ascii_lower(c));
        lower.push(l);
        assert(ascii_lowercase(chars@.take(i + 1)) =~= ascii_lowercase(chars@.take(i as int)).push(ascii_lower(c)));
    }
    assert(chars@.take(chars@.len() as int) =~= chars@);
    lower
}

/// The phrases that mark an authentication failure, in git's and its helpers' words.
pub open spec fn auth_needles() -> Seq<Seq<char>> {
    seq![
        "authentication failed"@,
        "terminal prompts disabled"@,
        "could not read username"@,
        "could not read password"@,
        "permission denied (publickey"@,
        "access denied"@,
        "403 forbidden"@,
        "authorization failed"@,
    ]
}

/// The phrases that mark a transport failure.
pub open spec fn network_needles() -> Seq<Seq<char>> {
    seq![
        "could not resolve host"@,
        "could not resolve hostname"@,
        "connection refused"@,
        "connection timed out"@,
        "network is unreachable"@,
        "failed to connect to"@,
        "operation timed out"@,
        "no route to host"@,
        "proxy"@,
    ]
}

/// Some phrase of `needles` occurs in `hay`.
pub open spec fn mentions_any(hay: Seq<char>, needles: Seq<Seq<char>>) -> bool {
    exists|i: int| 0 <= i < needles.len() && contains_seq(hay, #[trigger] needles[i])
}

/// How a finished `git fetch` with this exit code and this stderr is classified.
pub open spec fn spec_classify(code: Option<i32>, stderr: Seq<char>) -> FetchStatus {
    if code == Some(0i32) {
        FetchStatus::Succeeded
    } else if mentions_any(ascii_lowercase(stderr), auth_needles()) {
        FetchStatus::Auth
    } else if mentions_any(ascii_lowercase(stderr), network_needles()) {
        FetchStatus::Network
    } else {
        FetchStatus::Failed
    }
}

/// The views of a list of string slices.
pub open spec fn slices_view(list: Seq<&str>) -> Seq<Seq<char>> {
    list.map_values(|s: &str| s@)
}

/// Whether some phrase of `needles` occurs in `hay`.
fn mentions(hay: &[char], needles: &[&str]) -> (found: bool)
    ensures
        found == mentions_any(hay@, slices_view(needles@)),
{
    let n = needles.len();
    for i in 0..n
        invariant
            n == needles@.len(),
            forall|j: int| 0 <= j < i ==> !contains_seq(hay@, #[trigger] slices_view(needles@)[j]),
    {
        let needle = chars_of(needles[i]);
        if contains_chars(hay, &needle) {
            assert(slices_view(needles@)[i as int] == needle@);
            return true;
        }
    }
    false
}

/// Classify a finished `git fetch` from its exit status and stderr.
///
/// Only a zero exit is `Ok`. Otherwise authentication is checked before transport, because an
/// HTTPS failure to authenticate often prints the URL too; anything unrecognised is `Failed`.
pub fn classify(code: Option<i32>, stderr: &str) -> (status: FetchStatus)
    ensures
        status == spec_classify(code, stderr@),
{
    if let Some(0i32) = code {
        return FetchStatus::Succeeded;
    }
    let lower = lowercase_chars(stderr);
    let auth: [&str; 8] = [
        "authentication failed",
        "terminal prompts disabled",
        "could not read username",
        "could not read password",
        "permission denied (publickey",
        "access denied",
        "403 forbidden",
        "authorization failed",
    ];
    assert(slices_view(auth@) =~= auth_needles());
    if mentions(&lower, &auth) {
        return FetchStatus::Auth;
    }
    let network: [&str; 9] = [
        "could not resolve host",
        "could not resolve hostname",
        "connection refused",
        "connection timed out",
        "network is unreachable",
        "failed to connect to",
        "operation timed out",
        "no route to host",
        "proxy",
    ];
    assert(slices_view(network@) =~= network_needles());
    if mentions(&lower, &network) {
        return FetchStatus::Network;
    }
    FetchStatus::Failed
}

/// How many bytes `c` takes in UTF-8.
pub open spec fn utf8_width(c: char) -> nat {
    if (c as u32) < 0x80 {
        1
    } else if (c as u32) < 0x800 {
        2
    } else if (c as u32) < 0x10000 {
        3
    } else {
        4
    }
}

/// How many bytes `s` takes in UTF-8 (`str::len`).
pub open spec fn utf8_len(s: Seq<char>) -> nat
    decreases s.len(),
{
    if s.len() == 0 {
        0
    } else {
        utf8_width(s[0]) + utf8_len(s.drop_first())
    }
}

/// The longest tail of `s` that fits in `max` bytes: `s` itself when it fits, and otherwise
/// the tail that starts at the first character boundary leaving no more than `max` bytes.
pub open spec fn tail_within(s: Seq<char>, max: nat) -> Seq<char>
    decreases s.len(),
{
    if s.len() == 0 || utf8_len(s) <= max {
        s
    } else {
        tail_within(s.drop_first(), max)
    }
}

/// Git's last words, as an outcome keeps them: trimmed, `None` when nothing is left, and
/// otherwise capped at [`DETAIL_MAX`] bytes by keeping the tail behind a leading `…`, since
/// git prints its `fatal:` line last.
pub open spec fn spec_detail(stderr: Seq<char>) -> Option<Seq<char>> {
    let t = trim(stderr);
    if t.len() == 0 {
        None
    } else if utf8_len(t) <= DETAIL_MAX {
        Some(t)
    } else {
        Some(seq!['\u{2026}'] + tail_within(t, DETAIL_MAX as nat))
    }
}

/// One character more at the front is its width more.
proof fn lemma_utf8_len_skip(s: Seq<char>, i: int)
    requires
        0 <= i < s.len(),
    ensures
        utf8_len(s.skip(i)) == utf8_width(s[i]) + utf8_len(s.skip(i + 1)),
{
    assert(s.skip(i).drop_first() =~= s.skip(i + 1));
    assert(s.skip(i)[0] == s[i]);
}

/// A longer tail is never shorter in bytes.
proof fn lemma_utf8_len_monotone(s: Seq<char>, j: int, k: int)
    requires
        0 <= j <= k <= s.len(),
    ensures
        utf8_len(s.skip(j)) >= utf8_len(s.skip(k)),
    decreases k - j,
{
    if j < k {
        lemma_utf8_len_skip(s, j);
        lemma_utf8_len_monotone(s, j + 1, k);
    }
}

/// The tail that fits is the one starting at the first position whose tail fits.
proof fn lemma_tail_within_at(s: Seq<char>, max: nat, k: int)
    requires
        0 <= k <= s.len(),
        utf8_len(s.skip(k)) <= max,
        forall|j: int| 0 <= j < k ==> utf8_len(#[trigger] s.skip(j)) > max,
    ensures
        tail_within(s, max) == s.skip(k),
    decreases k,
{
    if k == 0 {
        assert(s.skip(0) =~= s);
    } else {
        assert(s.skip(0) =~= s);
        assert(utf8_len(s.skip(0)) > max);
        let rest = s.drop_first();
        assert forall|j: int| 0 <= j < k - 1 implies utf8_len(#[trigger] rest.skip(j)) > max by {
            assert(rest.skip(j) =~= s.skip(j + 1));
        }
        assert(rest.skip(k - 1) =~= s.skip(k));
        lemma_tail_within_at(rest, max, k - 1);
    }
}

/// How many bytes `c` takes in UTF-8.
fn char_width(c: char) -> (width: u64)
    ensures
        width == utf8_width(c),
{
    let code = c as u32;
    if code < 0x80 {
        1
    } else if code < 0x800 {
        2
    } else if code < 0x10000 {
        3
    } else {
        4
    }
}

/// Git's last words, trimmed and capped: the tail, because git prints its `fatal:` line last,
/// cut on a character boundary.
pub fn detail(stderr: &str) -> (kept: Option<String>)
    ensures
        match kept {
            Some(d) => spec_detail(stderr@) == Some(d@),
            None => spec_detail(stderr@) is None,
        },
{
    let t = trimmed(stderr);
    if t.len() == 0 {
        return None;
    }
    let n = t.len();
    let mut k: usize = n;
    let mut kept: u64 = 0;
    assert(t@.skip(n as int) =~= Seq::<char>::empty());
    loop
        invariant
            n == t@.len(),
            k <= n,
            kept == utf8_len(t@.skip(k as int)),
            kept <= DETAIL_MAX,
        ensures
            k <= n,
            kept == utf8_len(t@.skip(k as int)),
            kept <= DETAIL_MAX,
            k > 0 ==> utf8_len(t@.skip(k - 1)) > DETAIL_MAX,
        decreases k,
    {
        if k == 0 {
            break;
        }
        let width = char_width(t[k - 1]);
        proof {
            lemma_utf8_len_skip(t@, k - 1);
        }
        if kept + width > DETAIL_MAX {
            break;
        }
        kept = kept + width;
        k = k - 1;
    }
    proof {
        assert forall|j: int| 0 <= j < k implies utf8_len(#[trigger] t@.skip(j)) > DETAIL_MAX by {
            lemma_utf8_len_monotone(t@, j, k - 1);
        }
        lemma_tail_within_at(t@, DETAIL_MAX as nat, k as int);
    }
    if k == 0 {
        assert(t@.skip(0) =~= t@);
        return Some(string_of(&t));
    }
    let mut out: Vec<char> = Vec::new();
    out.push('\u{2026}');
    let mut i: usize = k;
    while i < n
        invariant
            n == t@.len(),
            k <= i <= n,
            out@ == seq!['\u{2026}'] + t@.subrange(k as int, i as int),
        decreases n - i,
    {
        out.push(t[i]);
        assert(t@.subrange(k as int, i + 1) =~= t@.subrange(k as int, i as int).push(t@[i as int]));
        i = i + 1;
    }
    assert(t@.subrange(k as int, n as int) =~= t@.skip(k as int));
    Some(string_of(&out))
}

/// The argument vector for fetching the repository at `path`.
pub open spec fn spec_args(path: Seq<char>, prune: bool, all_remotes: bool) -> Seq<Seq<char>> {
    let head = seq![
        "-c"@,
        "gc.auto=0"@,
        "-c"@,
        "maintenance.auto=false"@,
        "-c"@,
        "credential.interactive=false"@,
        "-C"@,
        path,
        "fetch"@,
        "--quiet"@,
    ];
    let pruned = if prune { head.push("--prune"@) } else { head };
    let bounded = pruned.push("--no-recurse-submodules"@);
    if all_remotes { bounded.push("--all"@) } else { bounded }
}

/// The views of a list of strings.
pub open spec fn owned_view(list: Seq<String>) -> Seq<Seq<char>> {
    list.map_values(|s: String| s@)
}

/// Append the owned copy of `arg`.
fn push_arg(args: &mut Vec<String>, arg: &str)
    ensures
        owned_view(final(args)@) == owned_view(old(args)@).push(arg@),
{
    let ghost before = args@;
    args.push(arg.to_owned());
    assert(owned_view(args@) =~= owned_view(before).push(arg@));
}

/// The argument vector for one repository.
///
/// Auto-maintenance off, credential prompts off, the target by `-C` at the repository's own
/// path for every kind, `--quiet` so stderr stays small, `--prune` when asked (never its
/// tag-deleting neighbour), no submodule recursion, and `--all` when asked.
pub fn args_for(repo: &DiscoveredRepo, opts: &FetchOpts) -> (args: Vec<String>)
    ensures
        owned_view(args@) == spec_args(repo.path@, opts.prune, opts.all_remotes),
{
    let mut args: Vec<String> = Vec::new();
    assert(owned_view(args@) =~= Seq::<Seq<char>>::empty());
    push_arg(&mut args, "-c");
    push_arg(&mut args, "gc.auto=0");
    push_arg(&mut args, "-c");
    push_arg(&mut args, "maintenance.auto=false");
    push_arg(&mut args, "-c");
    push_arg(&mut args, "credential.interactive=false");
    push_arg(&mut args, "-C");
    push_arg(&mut args, repo.path.as_str());
    push_arg(&mut args, "fetch");
    push_arg(&mut args, "--quiet");
    let ghost head = owned_view(args@);
    if opts.prune {
        push_arg(&mut args, "--prune");
    }
    push_arg(&mut args, "--no-recurse-submodules");
    if opts.all_remotes {
        push_arg(&mut args, "--all");
    }
    args
}

/// Build one outcome.
pub fn outcome(repo: &DiscoveredRepo, status: FetchStatus, detail: Option<String>, elapsed_ms: u64) -> (result: FetchOutcome)
    ensures
        result.path@ == repo.path@,
        result.status == status,
        result.detail == detail,
        result.elapsed_ms == elapsed_ms,
{
    FetchOutcome { path: repo.path.clone(), status, detail, elapsed_ms }
}

/// Whether a fetch recorded at `fetched_ms` lies within `interval_ms` of `now_ms`. A
/// repository never fetched is never too soon, and a clock behind the file reads as "just
/// now".
pub open spec fn spec_fetched_within(fetched_ms: Option<u64>, now_ms: u64, interval_ms: nat) -> bool {
    match fetched_ms {
        None => false,
        Some(at) => (if now_ms >= at { now_ms - at } else { 0 }) < interval_ms,
    }
}

/// Whether `FETCH_HEAD`, last written at `fetched_ms`, was written inside `interval` of
/// `now_ms`.
pub fn fetched_within(fetched_ms: Option<u64>, now_ms: u64, interval: &Duration) -> (within: bool)
    ensures
        within == spec_fetched_within(fetched_ms, now_ms, millis_of(*interval)),
{
    match fetched_ms {
        None => false,
        Some(at) => {
            let since: u64 = if now_ms >= at { now_ms - at } else { 0 };
            let limit: u128 = duration_as_millis(interval);
            (since as u128) < limit
        },
    }
}

/// What the pre-flight decides before any process: interrupted first, then no remote, then
/// the repeat guard. `None` is "run `git`". A repository that would not open
/// (`remotes: None`) is not refused here: `git` is left to say why in its own words.
pub open spec fn spec_preflight(interrupted: bool, remotes: Option<usize>, guarded: bool, within: bool) -> Option<FetchStatus> {
    if interrupted {
        Some(FetchStatus::Cancelled)
    } else if remotes == Some(0usize) {
        Some(FetchStatus::NoRemote)
    } else if guarded && within {
        Some(FetchStatus::TooSoon)
    } else {
        None
    }
}

/// The pre-flight decision for one fetch, given what was read: the interrupt flag, the number
/// of configured remotes (`None` when the repository would not open), and whether the last
/// fetch lies inside the repeat guard (consulted only when there is a guard).
pub fn preflight(interrupted: bool, remotes: Option<usize>, guarded: bool, within: bool) -> (decision: Option<FetchStatus>)
    ensures
        decision == spec_preflight(interrupted, remotes, guarded, within),
{
    if interrupted {
        Some(FetchStatus::Cancelled)
    } else if let Some(0usize) = remotes {
        Some(FetchStatus::NoRemote)
    } else if guarded && within {
        Some(FetchStatus::TooSoon)
    } else {
        None
    }
}

/// The number of remotes configured for the repository whose Git directory is `git_dir`, or
/// `None` when it will not open.
fn remotes_of(git_dir: &str) -> Option<usize> {
    match open_repo(git_dir) {
        Ok(repo) => Some(remote_count(&repo)),
        Err(_) => None,
    }
}

/// Whether the interrupt flag is set (a relaxed load). It may change at any moment.
fn interrupted(flag: &AtomicBool) -> bool {
    flag.load(std::sync::atomic::Ordering::Relaxed)
}

/// An outcome that spawned nothing: no detail, no time spent.
pub open spec fn skipped_outcome(repo: DiscoveredRepo, status: FetchStatus, result: FetchOutcome) -> bool {
    &&& result.path@ == repo.path@
    &&& result.status == status
    &&& result.detail is None
    &&& result.elapsed_ms == 0
}

/// What the outcome of a fetch that spawned `opts.program` is, for the ending `run` reported
/// and the time it took: the repository's own path, the status and detail [`ended`] gives
/// that ending, and that time.
pub open spec fn spawned_outcome(repo: DiscoveredRepo, opts: FetchOpts, ending: Ending, elapsed_ms: u64, result: FetchOutcome) -> bool {
    &&& result.path@ == repo.path@
    &&& (result.status, opt_text(result.detail)) == spec_ending(opts.program@, millis_of(opts.timeout) / 1000, ending)
    &&& result.elapsed_ms == elapsed_ms
}

/// Fetch one repository.
///
/// Never fails: every outcome is a value. The pre-flight runs in order — interrupt, then
/// remotes, then the repeat guard, which reads the time of the last fetch from `FETCH_HEAD`
/// (as Tier 0 does) only when `opts.min_interval` is set — and only when it passes is `run`
/// called, to spawn `git` and report how the process ended and how long it took. The flag,
/// the repository on disk and the clock decide which way each test goes; whichever way they
/// go, the outcome is one the pre-flight allows with nothing spawned, or the outcome of the
/// ending `run` reported. Either way it is this repository's, and a fetch without a guard is
/// never too soon.
pub fn fetch_one<R>(repo: &DiscoveredRepo, opts: &FetchOpts, should_interrupt: &AtomicBool, run: R) -> (result: FetchOutcome)
    where
        R: FnOnce(&DiscoveredRepo, &FetchOpts) -> (Ending, u64),
    requires
        run.requires((repo, opts)),
    ensures
        exists|stop: bool, remotes: Option<usize>, within: bool|
            match #[trigger] spec_preflight(stop, remotes, opts.min_interval is Some, within) {
                Some(status) => skipped_outcome(*repo, status, result),
                None => exists|ended: (Ending, u64)| {
                    &&& #[trigger] run.ensures((repo, opts), ended)
                    &&& spawned_outcome(*repo, *opts, ended.0, ended.1, result)
                },
            },
        result.path@ == repo.path@,
        opts.min_interval is None ==> result.status != FetchStatus::TooSoon,
{
    let guarded = opts.min_interval.is_some();
    if interrupted(should_interrupt) {
        let result = outcome(repo, FetchStatus::Cancelled, None, 0);
        assert(spec_preflight(true, None, guarded, false) == Some(FetchStatus::Cancelled));
        return result;
    }
    let remotes = remotes_of(repo.git_dir.as_str());
    if let Some(0usize) = remotes {
        let result = outcome(repo, FetchStatus::NoRemote, None, 0);
        assert(spec_preflight(false, remotes, guarded, false) == Some(FetchStatus::NoRemote));
        return result;
    }
    let mut within = false;
    if let Some(interval) = &opts.min_interval {
        let fetched = fetch_head_ms(repo.git_dir.as_str(), repo.common_dir.as_str());
        let now = crate::clock::now_ms();
        within = fetched_within(fetched, now, interval);
    }
    match preflight(false, remotes, guarded, within) {
        Some(status) => {
            let result = outcome(repo, status, None, 0);
            assert(spec_preflight(false, remotes, guarded, within) == Some(status));
            result
        },
        None => {
            let (ending, elapsed_ms) = run(repo, opts);
            let ghost seen = (ending, elapsed_ms);
            let result = ended(repo, opts, ending, elapsed_ms);
            assert(spec_preflight(false, remotes, guarded, within) is None);
            assert(spawned_outcome(*repo, *opts, seen.0, seen.1, result));
            proof {
                lemma_a_spawn_is_never_held_back(opts.program@, millis_of(opts.timeout) / 1000, seen.0);
            }
            result
        },
    }
}

/// However a spawned fetch ends, its outcome is not one the pre-flight gives: never too soon,
/// never without a remote.
pub proof fn lemma_a_spawn_is_never_held_back(program: Seq<char>, timeout_secs: nat, ending: Ending)
    ensures
        spec_ending(program, timeout_secs, ending).0 != FetchStatus::TooSoon,
        spec_ending(program, timeout_secs, ending).0 != FetchStatus::NoRemote,
{
}

/// The tail that fits does fit.
proof fn lemma_tail_within_fits(s: Seq<char>, max: nat)
    ensures
        utf8_len(tail_within(s, max)) <= max,
    decreases s.len(),
{
    if s.len() != 0 && utf8_len(s) > max {
        lemma_tail_within_fits(s.drop_first(), max);
    }
}

/// A kept detail is never empty and never runs past the cap: at most [`DETAIL_MAX`] bytes of
/// git's own words, behind the three-byte ellipsis that marks a cut.
pub proof fn lemma_detail_is_capped(stderr: Seq<char>)
    ensures
        spec_detail(stderr) matches Some(d) ==> d.len() > 0 && utf8_len(d) <= DETAIL_MAX + 3,
{
    let t = trim(stderr);
    if t.len() != 0 && utf8_len(t) > DETAIL_MAX {
        let tail = tail_within(t, DETAIL_MAX as nat);
        let d = seq!['\u{2026}'] + tail;
        lemma_tail_within_fits(t, DETAIL_MAX as nat);
        assert(d[0] == '\u{2026}');
        assert(d.drop_first() =~= tail);
        assert(utf8_width('\u{2026}') == 3);
    }
}

/// An interrupted fetch is cancelled before anything else is looked at.
pub proof fn lemma_interrupt_comes_first(remotes: Option<usize>, guarded: bool, within: bool)
    ensures
        spec_preflight(true, remotes, guarded, within) == Some(FetchStatus::Cancelled),
{
}

/// The repeat guard holds back a guarded pass and never an unguarded request: a fetch with
/// no minimum interval is never answered as too soon.
pub proof fn lemma_unguarded_is_never_too_soon(interrupted: bool, remotes: Option<usize>, within: bool)
    ensures
        spec_preflight(interrupted, remotes, false, within) != Some(FetchStatus::TooSoon),
{
}

/// A repository with no remote is answered without a process, unless the fetch was
/// interrupted first.
pub proof fn lemma_no_remote_spawns_nothing(guarded: bool, within: bool)
    ensures
        spec_preflight(false, Some(0usize), guarded, within) == Some(FetchStatus::NoRemote),
{
}


/// How one spawned `git fetch` came to an end, as the process that ran it saw it.
#[derive(Clone, Debug, PartialEq, Eq)]
pub enum Ending {
    /// The program was not found.
    NotFound,
    /// The program could not be started, for this reason.
    SpawnFailed(String),
    /// Waiting on the process failed, for this reason.
    WaitFailed(String),
    /// The process outlived its deadline and was stopped.
    TimedOut,
    /// The pass was interrupted and the process was stopped.
    Cancelled,
    /// The process exited, with its code (none when a signal ended it), having printed this
    /// on stderr.
    Exited { code: Option<i32>, stderr: String },
}

/// The status and detail an ending reports: a program that cannot be found is `GitMissing`
/// and says which program; any other failure to start or to wait is a failure in its own
/// words; a stopped process says why, and only the deadline's says how long it had; an exit is
/// classified, with git's last words kept.
pub open spec fn spec_ending(program: Seq<char>, timeout_secs: nat, ending: Ending) -> (FetchStatus, Option<Seq<char>>) {
    match ending {
        Ending::NotFound => (FetchStatus::GitMissing, Some(quoted(program) + " could not be run"@)),
        Ending::SpawnFailed(message) => (FetchStatus::Failed, Some(message@)),
        Ending::WaitFailed(message) => (FetchStatus::Failed, Some(message@)),
        Ending::TimedOut => (
            FetchStatus::TimedOut,
            Some("`git fetch` was still running after "@ + decimal(timeout_secs) + "s and was stopped"@),
        ),
        Ending::Cancelled => (FetchStatus::Cancelled, None),
        Ending::Exited { code, stderr } => (spec_classify(code, stderr@), spec_detail(stderr@)),
    }
}

/// The view of an optional string.
pub open spec fn opt_text(s: Option<String>) -> Option<Seq<char>> {
    match s {
        Some(t) => Some(t@),
        None => None,
    }
}

/// The outcome of a fetch that spawned (or tried to spawn) `opts.program` and ended so, after
/// `elapsed_ms`.
pub fn ended(repo: &DiscoveredRepo, opts: &FetchOpts, ending: Ending, elapsed_ms: u64) -> (result: FetchOutcome)
    ensures
        result.path@ == repo.path@,
        (result.status, opt_text(result.detail)) == spec_ending(opts.program@, millis_of(opts.timeout) / 1000, ending),
        result.elapsed_ms == elapsed_ms,
{
    let ghost end = ending;
    match ending {
        Ending::NotFound => {
            let mut message = "`".to_owned();
            message.append(opts.program.as_str());
            message.append("` could not be run");
            proof {
                reveal_strlit("`");
                reveal_strlit("` could not be run");
                reveal_strlit(" could not be run");
            }
            assert(message@ =~= quoted(opts.program@) + " could not be run"@);
            outcome(repo, FetchStatus::GitMissing, Some(message), elapsed_ms)
        },
        Ending::SpawnFailed(message) => outcome(repo, FetchStatus::Failed, Some(message), elapsed_ms),
        Ending::WaitFailed(message) => outcome(repo, FetchStatus::Failed, Some(message), elapsed_ms),
        Ending::TimedOut => {
            let secs = duration_as_secs(&opts.timeout);
            let mut message = "`git fetch` was still running after ".to_owned();
            message.append(decimal_string(secs).as_str());
            message.append("s and was stopped");
            assert(message@ =~= "`git fetch` was still running after "@ + decimal(secs as nat) + "s and was stopped"@);
            outcome(repo, FetchStatus::TimedOut, Some(message), elapsed_ms)
        },
        Ending::Cancelled => outcome(repo, FetchStatus::Cancelled, None, elapsed_ms),
        Ending::Exited { code, stderr } => {
            let status = classify(code, stderr.as_str());
            let kept = detail(stderr.as_str());
            outcome(repo, status, kept, elapsed_ms)
        },
    }
}

/// What to do next while waiting on a fetch.
#[derive(Clone, Copy, Debug, PartialEq, Eq, Structural)]
pub enum WaitStep {
    /// It has exited: read what it said.
    Finished,
    /// Keep waiting.
    Wait,
    /// Stop it: the pass was interrupted.
    Cancel,
    /// Stop it: it outlived its deadline.
    TimeOut,
}

/// One look at a running fetch: an exit is taken as it is, an interrupt stops it before its
/// deadline is even looked at, and the deadline stops it once passed.
pub open spec fn spec_wait_step(exited: bool, interrupted: bool, past_deadline: bool) -> WaitStep {
    if exited {
        WaitStep::Finished
    } else if interrupted {
        WaitStep::Cancel
    } else if past_deadline {
        WaitStep::TimeOut
    } else {
        WaitStep::Wait
    }
}

/// Decide the next step of a wait.
pub fn wait_step(exited: bool, interrupted: bool, past_deadline: bool) -> (step: WaitStep)
    ensures
        step == spec_wait_step(exited, interrupted, past_deadline),
{
    if exited {
        WaitStep::Finished
    } else if interrupted {
        WaitStep::Cancel
    } else if past_deadline {
        WaitStep::TimeOut
    } else {
        WaitStep::Wait
    }
}

/// What a `git --version` probe of `program` found: nothing when it failed or printed
/// nothing but blanks, and otherwise the program and its trimmed version line.
pub fn probe_answer(program: String, succeeded: bool, stdout: &str) -> (info: Option<GitInfo>)
    ensures
        info is Some <==> succeeded && trim(stdout@).len() > 0,
        info matches Some(i) ==> i.path@ == program@ && i.version@ == trim(stdout@),
{
    if !succeeded {
        return None;
    }
    let version = trimmed(stdout);
    if version.len() == 0 {
        return None;
    }
    Some(GitInfo { path: program, version: string_of(version.as_slice()) })
}

/// Whether git's words, lower-cased, name an authentication failure: a failed or refused
/// login, a prompt that was not allowed, an SSH key refused, or a forbidden request.
pub open spec fn says_auth(lower: Seq<char>) -> bool {
    ||| contains_seq(lower, "authentication failed"@)
    ||| contains_seq(lower, "terminal prompts disabled"@)
    ||| contains_seq(lower, "could not read username"@)
    ||| contains_seq(lower, "could not read password"@)
    ||| contains_seq(lower, "permission denied (publickey"@)
    ||| contains_seq(lower, "access denied"@)
    ||| contains_seq(lower, "403 forbidden"@)
    ||| contains_seq(lower, "authorization failed"@)
}

/// Whether git's words, lower-cased, name a transport failure: a name that does not resolve, a
/// connection refused or timed out, an unreachable network or host, or a proxy.
pub open spec fn says_network(lower: Seq<char>) -> bool {
    ||| contains_seq(lower, "could not resolve host"@)
    ||| contains_seq(lower, "could not resolve hostname"@)
    ||| contains_seq(lower, "connection refused"@)
    ||| contains_seq(lower, "connection timed out"@)
    ||| contains_seq(lower, "network is unreachable"@)
    ||| contains_seq(lower, "failed to connect to"@)
    ||| contains_seq(lower, "operation timed out"@)
    ||| contains_seq(lower, "no route to host"@)
    ||| contains_seq(lower, "proxy"@)
}

/// How a finished fetch is classified: only a zero exit succeeds; otherwise words naming an
/// authentication failure make it `Auth` (before anything else, since such a failure often
/// prints the URL too), words naming a transport failure make it `Network`, and anything else
/// is `Failed`.
pub proof fn lemma_classify_reads_git_words(code: Option<i32>, stderr: Seq<char>)
    ensures
        code == Some(0i32) ==> spec_classify(code, stderr) == FetchStatus::Succeeded,
        code != Some(0i32) && says_auth(ascii_lowercase(stderr))
            ==> spec_classify(code, stderr) == FetchStatus::Auth,
        code != Some(0i32) && !says_auth(ascii_lowercase(stderr)) && says_network(ascii_lowercase(stderr))
            ==> spec_classify(code, stderr) == FetchStatus::Network,
        code != Some(0i32) && !says_auth(ascii_lowercase(stderr)) && !says_network(ascii_lowercase(stderr))
            ==> spec_classify(code, stderr) == FetchStatus::Failed,
{
    let lower = ascii_lowercase(stderr);
    let a = auth_needles();
    let n = network_needles();
    assert(a[0] == "authentication failed"@);
    assert(a[1] == "terminal prompts disabled"@);
    assert(a[2] == "could not read username"@);
    assert(a[3] == "could not read password"@);
    assert(a[4] == "permission denied (publickey"@);
    assert(a[5] == "access denied"@);
    assert(a[6] == "403 forbidden"@);
    assert(a[7] == "authorization failed"@);
    assert(a.len() == 8);
    assert(n[0] == "could not resolve host"@);
    assert(n[1] == "could not resolve hostname"@);
    assert(n[2] == "connection refused"@);
    assert(n[3] == "connection timed out"@);
    assert(n[4] == "network is unreachable"@);
    assert(n[5] == "failed to connect to"@);
    assert(n[6] == "operation timed out"@);
    assert(n[7] == "no route to host"@);
    assert(n[8] == "proxy"@);
    assert(n.len() == 9);
    assert(says_auth(lower) <==> mentions_any(lower, a));
    assert(says_network(lower) <==> mentions_any(lower, n));
}

/// Lower-casing touches ASCII capitals alone: each becomes its small letter, every other
/// character stays, and the text keeps its length.
pub proof fn lemma_lowercase_folds_only_ascii_capitals(s: Seq<char>)
    ensures
        ascii_lowercase(s).len() == s.len(),
        forall|i: int| 0 <= i < s.len() && 'A' <= s[i] && s[i] <= 'Z'
            ==> (#[trigger] ascii_lowercase(s)[i]) as u32 == (s[i] as u32) + 32,
        forall|i: int| 0 <= i < s.len() && !('A' <= s[i] && s[i] <= 'Z')
            ==> #[trigger] ascii_lowercase(s)[i] == s[i],
{
}

/// Letter case does not change how a fetch is classified: git's words read the same in
/// capitals and in small letters.
pub proof fn lemma_classify_ignores_case(code: Option<i32>, stderr: Seq<char>)
    ensures
        spec_classify(code, ascii_lowercase(stderr)) == spec_classify(code, stderr),
{
    let once = ascii_lowercase(stderr);
    assert forall|i: int| 0 <= i < once.len() implies #[trigger] ascii_lowercase(once)[i] == once[i] by {
        let c = stderr[i];
        if 'A' <= c && c <= 'Z' {
            assert(('A' as u32) <= (c as u32) && (c as u32) <= ('Z' as u32));
            assert(!('A' <= once[i] && once[i] <= 'Z'));
        }
    }
    assert(ascii_lowercase(once) =~= once);
}

} // verus!
