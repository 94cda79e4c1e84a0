//! Launching an external tool for one repository: which command, with which arguments.

use vstd::prelude::*;

use crate::error::CommandError;
use crate::settings::{strings_view, LaunchSpec};
use crate::text::{
    chars_of, contains_chars, contains_seq, replace_all, replace_chars, string_of, trim, trimmed,
};

verus! {

broadcast use vstd::string::group_string_axioms;

/// The placeholder a configured command uses for the repository's path.
pub const PATH_TOKEN: &'static str = "{path}";

/// The refusal for a target with no program configured. It names the file to edit, because
/// nothing in the UI edits it.
pub const UNCONFIGURED: &'static str = "no command is configured for this target — set `openIn` in the app's settings.json";

/// Where to open a repository.
#[derive(Clone, Copy, Debug, PartialEq, Eq, Structural)]
pub enum OpenTarget {
    /// Reveal the folder in the platform's file manager.
    FileManager,
    /// Open the folder in the configured editor.
    Editor,
    /// Open a terminal in the folder.
    Terminal,
}

/// What a launch will actually run, once the configured command has been substituted.
#[derive(Clone, Debug, PartialEq, Eq)]
pub struct Launch {
    /// The program, as configured.
    pub program: String,
    /// Its arguments, with the path placeholder replaced.
    pub args: Vec<String>,
}

/// The placeholder's characters.
pub open spec fn path_token() -> Seq<char> {
    seq!['{', 'p', 'a', 't', 'h', '}']
}

/// Some argument mentions the placeholder.
pub open spec fn names_path(args: Seq<Seq<char>>) -> bool {
    exists|i: int| 0 <= i < args.len() && contains_seq(#[trigger] args[i], path_token())
}

/// Every argument with every placeholder replaced by `target`.
pub open spec fn substituted(args: Seq<Seq<char>>, target: Seq<char>) -> Seq<Seq<char>> {
    args.map_values(|arg: Seq<char>| replace_all(arg, path_token(), target))
}

/// The arguments a launch runs with: substituted, and with the path appended when no
/// argument named it.
pub open spec fn planned_args(args: Seq<Seq<char>>, target: Seq<char>) -> Seq<Seq<char>> {
    if names_path(args) {
        substituted(args, target)
    } else {
        substituted(args, target).push(target)
    }
}

/// Turn a configured spec into a concrete program and argument list for `path`.
///
/// A blank program is refused with [`UNCONFIGURED`]. Otherwise `{path}` is replaced wherever
/// it appears and appended as a final argument when it appears nowhere, so `code`,
/// `code {path}` and `wt.exe -d {path}` all do what they look like they do.
pub fn plan_launch(spec: &LaunchSpec, path: &str) -> (plan: Result<Launch, CommandError>)
    ensures
        plan is Err <==> trim(spec.program@).len() == 0,
        plan matches Err(e) ==> e.message@ == UNCONFIGURED@,
        plan matches Ok(launch) ==> {
            &&& launch.program@ == spec.program@
            &&& strings_view(launch.args@) == planned_args(spec@.args, path@)
        },
{
    let program = trimmed(spec.program.as_str());
    if program.len() == 0 {
        return Err(CommandError::new(UNCONFIGURED.to_owned()));
    }
    let token = chars_of(PATH_TOKEN);
    proof {
        reveal_strlit("{path}");
        assert(token@ =~= path_token());
    }
    let target = chars_of(path);
    let ghost configured = spec@.args;
    let mut args: Vec<String> = Vec::new();
    let mut named = false;
    let n = spec.args.len();
    for i in 0..n
        invariant
            n == spec.args@.len(),
            configured == strings_view(spec.args@),
            token@ == path_token(),
            target@ == path@,
            args@.len() == i,
            strings_view(args@) == substituted(configured.take(i as int), path@),
            named == names_path(configured.take(i as int)),
    {
        let arg = chars_of(spec.args[i].as_str());
        assert(arg@ == configured[i as int]);
        let replaced = replace_chars(&arg, &token, &target);
        let found = contains_chars(&arg, &token);
        let ghost before = args@;
        args.push(string_of(&replaced));
        let ghost taken = configured.take(i + 1);
        assert(taken.drop_last() =~= configured.take(i as int));
        assert(strings_view(args@) =~= substituted(taken, path@)) by {
            assert forall|k: int| 0 <= k < i + 1 implies #[trigger] strings_view(args@)[k] == substituted(taken, path@)[k] by {
                if k < i {
                    assert(strings_view(before)[k] == substituted(configured.take(i as int), path@)[k]);
                }
            }
        }
        assert(names_path(taken) == (named || found)) by {
            if found {
                assert(taken[i as int] == arg@);
            }
            if named {
                let j = choose|j: int| 0 <= j < i && contains_seq(#[trigger] configured.take(i as int)[j], path_token());
                assert(taken[j] == configured.take(i as int)[j]);
            }
            if names_path(taken) {
                let j = choose|j: int| 0 <= j < i + 1 && contains_seq(#[trigger] taken[j], path_token());
                if j < i {
                    assert(configured.take(i as int)[j] == taken[j]);
                }
            }
        }
        named = named || found;
    }
    assert(configured.take(n as int) =~= configured);
    if !named {
        args.push(path.to_owned());
        assert(strings_view(args@) =~= substituted(configured, path@).push(path@));
    }
    Ok(Launch { program: spec.program.clone(), args })
}

/// The refusal for a path the app has never discovered: `` `path` is not a known repository``.
pub fn not_a_known_repository(path: &str) -> (error: CommandError)
    ensures
        error.message@ == seq!['`'] + path@ + "` is not a known repository"@,
{
    let mut message = String::new();
    message.append("`");
    message.append(path);
    message.append("` is not a known repository");
    proof {
        reveal_strlit("`");
    }
    assert(message@ =~= seq!['`'] + path@ + "` is not a known repository"@);
    CommandError::new(message)
}

} // verus!
