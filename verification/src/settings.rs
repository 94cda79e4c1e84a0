//! The user's settings: what `open_in` launches, how live updates behave, how fetching behaves.
//!
//! Every value here may be a hand-edit of `settings.json`, so each accessor clamps what it
//! hands on to a range that cannot turn the feature it drives into a storm or a no-op.

use vstd::prelude::*;

use std::time::Duration;

use crate::clock::{duration_from_millis, duration_from_secs, millis_of};

verus! {

/// How to launch one external tool.
///
/// `{path}` in any argument is replaced with the repository's path, and appended as a final
/// argument when no argument mentions it.
#[derive(Clone, Debug, PartialEq, Eq)]
pub struct LaunchSpec {
    /// The program to run. Blank means "not configured".
    pub program: String,
    /// Its arguments.
    pub args: Vec<String>,
}

/// The mathematical value of a [`LaunchSpec`].
pub struct LaunchSpecView {
    pub program: Seq<char>,
    pub args: Seq<Seq<char>>,
}

/// The views of a list of strings.
pub open spec fn strings_view(list: Seq<String>) -> Seq<Seq<char>> {
    list.map_values(|s: String| s@)
}

/// The views of a list of string slices.
pub open spec fn strs_view(list: Seq<&str>) -> Seq<Seq<char>> {
    list.map_values(|s: &str| s@)
}

impl View for LaunchSpec {
    type V = LaunchSpecView;

    open spec fn view(&self) -> LaunchSpecView {
        LaunchSpecView { program: self.program@, args: strings_view(self.args@) }
    }
}

impl LaunchSpec {
    /// A spec with no program, which `open_in` refuses rather than guessing at.
    pub fn none() -> (spec: LaunchSpec)
        ensures
            spec@.program.len() == 0,
            spec@.args.len() == 0,
    {
        LaunchSpec { program: String::new(), args: Vec::new() }
    }

    /// A program and its arguments.
    pub fn new(program: &str, args: &[&str]) -> (spec: LaunchSpec)
        ensures
            spec@.program == program@,
            spec@.args == strs_view(args@),
    {
        let mut owned: Vec<String> = Vec::new();
        for i in 0..args.len()
            invariant
                owned@.len() == i,
                strings_view(owned@) == strs_view(args@).take(i as int),
        {
            let arg: &str = args[i];
            let copy = arg.to_owned();
            assert(copy@ == args@[i as int]@);
            let ghost before = owned@;
            owned.push(copy);
            assert(owned@ == before.push(copy));
            assert(strings_view(owned@) =~= strs_view(args@).take(i + 1)) by {
                assert(strings_view(owned@).len() == i + 1);
                assert(strs_view(args@).take(i + 1).len() == i + 1);
                assert forall|k: int| 0 <= k < i + 1 implies #[trigger] strings_view(owned@)[k] == strs_view(args@).take(i + 1)[k] by {
                    if k < i {
                        assert(strings_view(before)[k] == strs_view(args@).take(i as int)[k]);
                    }
                }
            }
        }
        assert(strs_view(args@).take(args@.len() as int) =~= strs_view(args@));
        LaunchSpec { program: program.to_owned(), args: owned }
    }
}

/// The editor's default: `code {path}`.
pub open spec fn default_editor(spec: LaunchSpecView) -> bool {
    &&& spec.program == seq!['c', 'o', 'd', 'e']
    &&& spec.args == seq![seq!['{', 'p', 'a', 't', 'h', '}']]
}

/// The terminal's default on Windows: `wt.exe -d {path}`.
pub open spec fn default_windows_terminal(spec: LaunchSpecView) -> bool {
    &&& spec.program == seq!['w', 't', '.', 'e', 'x', 'e']
    &&& spec.args == seq![seq!['-', 'd'], seq!['{', 'p', 'a', 't', 'h', '}']]
}

/// The commands `open_in` runs for its two spawning targets.
#[derive(Clone, Debug, PartialEq, Eq)]
pub struct OpenInSettings {
    /// The editor.
    pub editor: LaunchSpec,
    /// The terminal.
    pub terminal: LaunchSpec,
}

/// The platform's main path separator (`std::path::MAIN_SEPARATOR`): `\` on Windows, `/`
/// elsewhere. Nothing is promised of it here: it is a fact of the machine the code was built
/// for.
#[verifier::external_body]
fn main_separator() -> char {
    std::path::MAIN_SEPARATOR
}

impl OpenInSettings {
    /// The defaults for a platform: `code {path}` everywhere, `wt.exe -d {path}` as the
    /// terminal on Windows, and no terminal elsewhere, where no one command is right.
    pub fn for_platform(windows: bool) -> (settings: OpenInSettings)
        ensures
            default_editor(settings.editor@),
            windows ==> default_windows_terminal(settings.terminal@),
            !windows ==> settings.terminal@.program.len() == 0 && settings.terminal@.args.len() == 0,
    {
        proof {
            reveal_strlit("code");
            reveal_strlit("{path}");
            reveal_strlit("wt.exe");
            reveal_strlit("-d");
        }
        let editor_args: [&str; 1] = ["{path}"];
        let editor = LaunchSpec::new("code", &editor_args);
        assert(editor_args@ =~= seq!["{path}"]);
        assert("{path}"@ =~= seq!['{', 'p', 'a', 't', 'h', '}']);
        assert("code"@ =~= seq!['c', 'o', 'd', 'e']);
        assert(strs_view(editor_args@).len() == 1);
        assert(strs_view(editor_args@)[0] == "{path}"@);
        assert(strs_view(editor_args@) =~= seq![seq!['{', 'p', 'a', 't', 'h', '}']]);
        let terminal = if windows {
            let terminal_args: [&str; 2] = ["-d", "{path}"];
            let terminal = LaunchSpec::new("wt.exe", &terminal_args);
            assert(terminal_args@ =~= seq!["-d", "{path}"]);
            assert("-d"@ =~= seq!['-', 'd']);
            assert("wt.exe"@ =~= seq!['w', 't', '.', 'e', 'x', 'e']);
            assert(strs_view(terminal_args@).len() == 2);
            assert(strs_view(terminal_args@)[0] == "-d"@);
            assert(strs_view(terminal_args@)[1] == "{path}"@);
            assert(strs_view(terminal_args@) =~= seq![seq!['-', 'd'], seq!['{', 'p', 'a', 't', 'h', '}']]);
            terminal
        } else {
            LaunchSpec::none()
        };
        OpenInSettings { editor, terminal }
    }
}

impl Default for OpenInSettings {
    /// The defaults for the platform this runs on.
    fn default() -> (settings: OpenInSettings)
        ensures
            default_editor(settings.editor@),
            default_windows_terminal(settings.terminal@)
                || (settings.terminal@.program.len() == 0 && settings.terminal@.args.len() == 0),
    {
        OpenInSettings::for_platform(main_separator() == '\\')
    }
}

/// How live updates behave.
#[derive(Clone, Copy, Debug, PartialEq, Eq, Structural)]
pub struct WatchSettings {
    /// Whether to watch at all. Off leaves the poll running.
    pub enabled: bool,
    /// The debounce window in milliseconds.
    pub debounce_ms: u64,
    /// How often the poll runs, in seconds.
    pub poll_seconds: u64,
}

/// The shortest debounce window that is honoured, in milliseconds.
pub const MIN_DEBOUNCE_MS: u64 = 100;

/// The shortest poll interval that is honoured, in seconds.
pub const MIN_POLL_SECONDS: u64 = 5;

impl Default for WatchSettings {
    fn default() -> (settings: WatchSettings)
        ensures
            settings == (WatchSettings { enabled: true, debounce_ms: 400, poll_seconds: 60 }),
    {
        WatchSettings { enabled: true, debounce_ms: 400, poll_seconds: 60 }
    }
}

impl WatchSettings {
    /// The debounce window, floored so a hand-edited `0` cannot turn debouncing off.
    pub fn debounce(&self) -> (window: Duration)
        ensures
            millis_of(window) == if self.debounce_ms >= MIN_DEBOUNCE_MS { self.debounce_ms } else { MIN_DEBOUNCE_MS },
    {
        let ms = if self.debounce_ms >= MIN_DEBOUNCE_MS { self.debounce_ms } else { MIN_DEBOUNCE_MS };
        duration_from_millis(ms)
    }

    /// The poll interval, floored so a `0` cannot become a busy loop.
    pub fn poll_interval(&self) -> (interval: Duration)
        ensures
            millis_of(interval) == 1000 * (if self.poll_seconds >= MIN_POLL_SECONDS { self.poll_seconds } else { MIN_POLL_SECONDS }),
    {
        let secs = if self.poll_seconds >= MIN_POLL_SECONDS { self.poll_seconds } else { MIN_POLL_SECONDS };
        duration_from_secs(secs)
    }
}

/// How fetching behaves.
#[derive(Clone, Copy, Debug, PartialEq, Eq, Structural)]
pub struct FetchSettings {
    /// How many `git` processes may run at once.
    pub concurrency: u32,
    /// The per-process deadline in seconds.
    pub timeout_seconds: u64,
    /// The shortest gap between two bulk fetches of one repository, in seconds. `0` is no
    /// guard.
    pub min_interval_seconds: u64,
    /// Delete remote-tracking refs whose remote branch is gone.
    pub prune: bool,
    /// Fetch every configured remote rather than only the current branch's.
    pub all_remotes: bool,
}

/// The fewest fetches allowed at once.
pub const MIN_CONCURRENCY: usize = 1;

/// The most fetches allowed at once.
pub const MAX_CONCURRENCY: usize = 16;

/// The shortest per-process deadline, in seconds.
pub const MIN_TIMEOUT_SECONDS: u64 = 5;

/// The longest per-process deadline, in seconds.
pub const MAX_TIMEOUT_SECONDS: u64 = 600;

/// `value` clamped into `lo..=hi`.
pub open spec fn clamped(value: int, lo: int, hi: int) -> int {
    if value < lo { lo } else if value > hi { hi } else { value }
}

impl Default for FetchSettings {
    fn default() -> (settings: FetchSettings)
        ensures
            settings == (FetchSettings {
                concurrency: 4,
                timeout_seconds: 60,
                min_interval_seconds: 300,
                prune: true,
                all_remotes: true,
            }),
    {
        FetchSettings {
            concurrency: 4,
            timeout_seconds: 60,
            min_interval_seconds: 300,
            prune: true,
            all_remotes: true,
        }
    }
}

impl FetchSettings {
    /// How many at once, clamped at both ends: `0` would fetch nothing, and no ceiling would
    /// open hundreds of sockets against somebody else's server.
    pub fn concurrency(&self) -> (n: usize)
        ensures
            n == clamped(self.concurrency as int, MIN_CONCURRENCY as int, MAX_CONCURRENCY as int),
    {
        if self.concurrency < 1 {
            MIN_CONCURRENCY
        } else if self.concurrency > 16 {
            MAX_CONCURRENCY
        } else {
            self.concurrency as usize
        }
    }

    /// The per-process deadline, clamped at both ends.
    pub fn timeout(&self) -> (deadline: Duration)
        ensures
            millis_of(deadline) == 1000 * clamped(self.timeout_seconds as int, MIN_TIMEOUT_SECONDS as int, MAX_TIMEOUT_SECONDS as int),
    {
        let secs = if self.timeout_seconds < MIN_TIMEOUT_SECONDS {
            MIN_TIMEOUT_SECONDS
        } else if self.timeout_seconds > MAX_TIMEOUT_SECONDS {
            MAX_TIMEOUT_SECONDS
        } else {
            self.timeout_seconds
        };
        duration_from_secs(secs)
    }

    /// The bulk repeat guard, or `None` for no guard. Deliberately not floored: `0` means
    /// "always fetch".
    pub fn min_interval(&self) -> (guard: Option<Duration>)
        ensures
            guard is None <==> self.min_interval_seconds == 0,
            guard matches Some(d) ==> millis_of(d) == 1000 * self.min_interval_seconds,
    {
        if self.min_interval_seconds > 0 {
            Some(duration_from_secs(self.min_interval_seconds))
        } else {
            None
        }
    }
}

} // verus!
