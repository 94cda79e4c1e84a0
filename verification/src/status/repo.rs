//! The repository handle the tiers read through, and the calls into `gix` they share.

use vstd::prelude::*;

use std::sync::atomic::AtomicBool;
use std::sync::Arc;

use gix::status::index_worktree::iter::Summary;

verus! {

/// An open repository, opaque here.
#[verifier::external_type_specification]
#[verifier::external_body]
pub struct ExRepository(gix::Repository);

/// `gix::open_opts` with `open_path_as_is`: the repository at the Git directory discovery
/// already resolved (without joining `.git` onto it or classifying it again), or the rendered
/// reason it will not open. What is on disk decides, so nothing is promised.
#[verifier::external_body]
pub(crate) fn open_repo(git_dir: &str) -> Result<gix::Repository, String> {
    let options = gix::open::Options::default().open_path_as_is(true);
    gix::open_opts(git_dir, options).map_err(|err| err.to_string())
}

/// `Repository::remote_names`, counted: how many remotes the repository configures. Read from
/// its configuration, so nothing is promised of the number.
#[verifier::external_body]
pub(crate) fn remote_count(repo: &gix::Repository) -> usize {
    repo.remote_names().len()
}

/// A summary of one index-against-worktree change, opaque here.
#[verifier::external_type_specification]
#[verifier::external_body]
pub struct ExSummary(Summary);

/// The status walk in progress, opaque here.
#[verifier::external_type_specification]
#[verifier::external_body]
pub struct ExStatusIter(gix::status::Iter);

/// One raw item of the status walk, opaque here.
#[verifier::external_type_specification]
#[verifier::external_body]
pub struct ExRawStatusItem(gix::status::Item);

/// A failure of the status walk, opaque here.
#[verifier::external_type_specification]
#[verifier::external_body]
pub struct ExStatusIterError(gix::status::iter::Error);

/// One item of the status walk as `gix` yields it.
pub enum StatusItem {
    /// A HEAD-tree-against-index change.
    Staged,
    /// An index-against-worktree change, and `gix`'s summary of it (`None` for an item that
    /// reports no change).
    Worktree(Option<Summary>),
}

/// Why the status walk could not start.
pub enum StatusStart {
    /// `Repository::status` failed.
    Status(String),
    /// `Platform::into_iter` failed.
    Iterator(String),
}

/// Start the full status walk (`Repository::status`, untracked files collapsed as `git
/// status` shows them, `should_interrupt_owned`, `into_iter` with no patterns): all three
/// comparisons at once — the directory walk, index against worktree, HEAD's tree against the
/// index. What it will yield depends on the disk, so nothing is promised.
#[verifier::external_body]
pub(crate) fn status_iter(repo: &gix::Repository, interrupt: Arc<AtomicBool>) -> Result<gix::status::Iter, StatusStart> {
    let platform = repo.status(gix::progress::Discard).map_err(|err| StatusStart::Status(err.to_string()))?;
    platform
        .untracked_files(gix::status::UntrackedFiles::Collapsed)
        .should_interrupt_owned(interrupt)
        .into_iter(Vec::<gix::bstr::BString>::new())
        .map_err(|err| StatusStart::Iterator(err.to_string()))
}

/// `Iterator::next` on the status walk, each item told apart by side, the worktree side
/// carried as `index_worktree::Item::summary`. `None` once the walk is done. Nothing is
/// promised of what it yields.
#[verifier::external_body]
pub(crate) fn next_status(iter: &mut gix::status::Iter) -> Option<Result<StatusItem, String>> {
    Some(match iter.next()? {
        Ok(gix::status::Item::TreeIndex(_)) => Ok(StatusItem::Staged),
        Ok(gix::status::Item::IndexWorktree(change)) => Ok(StatusItem::Worktree(change.summary())),
        Err(err) => Err(err.to_string()),
    })
}

/// A private interrupt flag set as the shared one is now. The walk's own cleanup sets the
/// flag it is given, and a shared one would cancel whatever else was watching it.
pub(crate) fn private_interrupt(flag: &AtomicBool) -> Arc<AtomicBool> {
    let now = flag.load(std::sync::atomic::Ordering::Relaxed);
    Arc::new(AtomicBool::new(now))
}

/// A Git object id, opaque here.
#[verifier::external_type_specification]
#[verifier::external_body]
pub struct ExObjectId(gix::ObjectId);

/// `ObjectId`'s `==`, which compares the ids' bytes (derived).
#[verifier::external_body]
pub(crate) fn same_id(a: &gix::ObjectId, b: &gix::ObjectId) -> (same: bool)
    ensures
        same == (*a == *b),
{
    a == b
}

/// The full lowercase hexadecimal text of an object id, as `ObjectId::to_hex` writes it: a
/// function of the id's bytes alone.
pub uninterp spec fn object_hex(id: gix::ObjectId) -> Seq<char>;

/// `ObjectId::to_hex`, as text.
#[verifier::external_body]
pub(crate) fn hex_of(id: &gix::ObjectId) -> (hex: String)
    ensures
        hex@ == object_hex(*id),
{
    id.to_hex().to_string()
}

/// `Repository::git_dir` and `Repository::common_dir`, as text: the Git directory the
/// repository opened at, and where its shared refs and `FETCH_HEAD` live.
#[verifier::external_body]
pub(crate) fn repo_dirs(repo: &gix::Repository) -> (String, String) {
    let text = |path: &std::path::Path| path.to_string_lossy().into_owned();
    (text(repo.git_dir()), text(repo.common_dir()))
}

} // verus!
