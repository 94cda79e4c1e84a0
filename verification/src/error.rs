//! The error a command answers with.

use vstd::prelude::*;

verus! {

/// A command failure, as the message the user reads.
#[derive(Clone, Debug, PartialEq, Eq)]
pub struct CommandError {
    /// The whole message, its context included.
    pub message: String,
}

impl CommandError {
    /// A failure saying `message`.
    pub fn new(message: String) -> (error: CommandError)
        ensures
            error.message@ == message@,
    {
        CommandError { message }
    }

    /// What the user reads.
    pub fn message(&self) -> (message: &str)
        ensures
            message@ == self.message@,
    {
        self.message.as_str()
    }
}

/// Everything that can go wrong inside a read that cannot return a partial result.
///
/// Anything a scan can survive is a value rather than an error; these are for the reads that
/// produce nothing at all. The outside failures are carried as their rendered messages.
#[derive(Clone, Debug, PartialEq, Eq)]
pub enum ReadError {
    /// A path that should have been a repository was not one.
    NotARepository(String),
    /// A repository could not be opened.
    OpenRepo { path: String, message: String },
    /// A repository opened, but where its HEAD points could not be determined.
    ReadHead { path: String, message: String },
    /// A refs-level read failed on a repository that opened.
    Refs { path: String, what: String, message: String },
    /// A worktree-level read failed on a repository that opened.
    Worktree { path: String, what: String, message: String },
    /// A read panicked and was caught.
    Panicked { path: String, message: String },
    /// The filesystem watcher could not be created or could not register a path.
    Watch(String),
    /// Any other I/O failure.
    Io(String),
}

/// `` `path` `` followed by `rest`.
pub open spec fn quoted(path: Seq<char>) -> Seq<char> {
    seq!['`'] + path + seq!['`']
}

/// The message a [`ReadError`] renders as.
pub open spec fn spec_render(error: ReadError) -> Seq<char> {
    match error {
        ReadError::NotARepository(path) => quoted(path@) + " is not a git repository"@,
        ReadError::OpenRepo { path, message } => "cannot open "@ + quoted(path@) + ": "@ + message@,
        ReadError::ReadHead { path, message } => "cannot read HEAD of "@ + quoted(path@) + ": "@ + message@,
        ReadError::Refs { path, what, message } => "cannot read "@ + what@ + " of "@ + quoted(path@) + ": "@ + message@,
        ReadError::Worktree { path, what, message } => "cannot read "@ + what@ + " of "@ + quoted(path@) + ": "@ + message@,
        ReadError::Panicked { path, message } => "panic while reading "@ + quoted(path@) + ": "@ + message@,
        ReadError::Watch(message) => "watch failed: "@ + message@,
        ReadError::Io(message) => message@,
    }
}

/// Append `` `path` `` to `out`.
fn push_quoted(out: &mut String, path: &str)
    ensures
        final(out)@ == old(out)@ + quoted(path@),
{
    out.append("`");
    out.append(path);
    out.append("`");
    proof {
        reveal_strlit("`");
    }
    assert(final(out)@ =~= old(out)@ + quoted(path@));
}

impl ReadError {
    /// The message the user reads.
    pub fn message(&self) -> (message: String)
        ensures
            message@ == spec_render(*self),
    {
        let mut out = String::new();
        match self {
            ReadError::NotARepository(path) => {
                push_quoted(&mut out, path.as_str());
                out.append(" is not a git repository");
            },
            ReadError::OpenRepo { path, message } => {
                out.append("cannot open ");
                push_quoted(&mut out, path.as_str());
                out.append(": ");
                out.append(message.as_str());
            },
            ReadError::ReadHead { path, message } => {
                out.append("cannot read HEAD of ");
                push_quoted(&mut out, path.as_str());
                out.append(": ");
                out.append(message.as_str());
            },
            ReadError::Refs { path, what, message } | ReadError::Worktree { path, what, message } => {
                out.append("cannot read ");
                out.append(what.as_str());
                out.append(" of ");
                push_quoted(&mut out, path.as_str());
                out.append(": ");
                out.append(message.as_str());
            },
            ReadError::Panicked { path, message } => {
                out.append("panic while reading ");
                push_quoted(&mut out, path.as_str());
                out.append(": ");
                out.append(message.as_str());
            },
            ReadError::Watch(message) => {
                out.append("watch failed: ");
                out.append(message.as_str());
            },
            ReadError::Io(message) => {
                out.append(message.as_str());
            },
        }
        assert(out@ =~= spec_render(*self));
        out
    }
}

/// A failure of the read `what` in the worktree of the repository at `git_dir`.
pub fn worktree_error(git_dir: &str, what: &str, message: String) -> (error: ReadError)
    ensures
        error == (ReadError::Worktree { path: error->Worktree_path, what: error->Worktree_what, message }),
        error->Worktree_path@ == git_dir@,
        error->Worktree_what@ == what@,
{
    ReadError::Worktree { path: git_dir.to_owned(), what: what.to_owned(), message }
}

} // verus!
