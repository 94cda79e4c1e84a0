//! Repository discovery: how to walk, what to prune, and what a directory turns out to be.
//!
//! The parallel walk itself belongs to the caller, which hands each directory it reaches to
//! the decisions here: whether to descend at all ([`prune_decision`]), whether the directory
//! is a repository and of which flavour ([`classify`]), and whether to keep descending below a
//! repository once found ([`descends_below`]), and whether it has been reported already
//! ([`report_once`]). Paths are `/`-separated strings.

use vstd::prelude::*;

use gix::discover::repository::Kind;

use crate::model::{DiscoveredRepo, RepoKind, ScanError};
use crate::pathmap::PathMap;
use crate::paths::{
    is_sep, lemma_path_lt_irreflexive, lemma_path_lt_total, lemma_path_lt_transitive, path_less, path_lt,
};
use crate::watch::parent_path;

verus! {

broadcast use vstd::string::group_string_axioms;

/// How to walk.
#[derive(Clone, Debug, PartialEq, Eq)]
pub struct ScanOpts {
    /// How deep to descend below each root. `None` is unlimited.
    pub max_depth: Option<u32>,
    /// Do not cross filesystem boundaries.
    pub same_file_system: bool,
    /// Follow symlinks.
    pub follow_links: bool,
    /// Walker thread count. `None` derives it from the machine.
    pub threads: Option<u32>,
    /// Directory names to prune.
    pub prune_names: Vec<String>,
    /// Keep descending after finding a repository.
    pub descend_into_repos: bool,
}

/// The views of a list of strings.
pub open spec fn names_view(list: Seq<String>) -> Seq<Seq<char>> {
    list.map_values(|s: String| s@)
}

/// The generated directories pruned by default: descending them costs more than everything
/// else combined.
pub open spec fn default_prune_names() -> Seq<Seq<char>> {
    seq![
        "node_modules"@,
        "target"@,
        ".venv"@,
        "venv"@,
        "__pycache__"@,
        ".gradle"@,
        ".terraform"@,
        "Pods"@,
        ".next"@,
        ".nuxt"@,
    ]
}

impl Default for ScanOpts {
    /// Eight levels deep, one filesystem, no links, derived threads, the default prunes, and
    /// stop at the first repository.
    fn default() -> (opts: ScanOpts)
        ensures
            opts.max_depth == Some(8u32),
            opts.same_file_system,
            !opts.follow_links,
            opts.threads is None,
            names_view(opts.prune_names@) == default_prune_names(),
            !opts.descend_into_repos,
    {
        let names: [&str; 10] = [
            "node_modules",
            "target",
            ".venv",
            "venv",
            "__pycache__",
            ".gradle",
            ".terraform",
            "Pods",
            ".next",
            ".nuxt",
        ];
        let mut prune_names: Vec<String> = Vec::new();
        for i in 0..10
            invariant
                names@.len() == 10,
                prune_names@.len() == i,
                names_view(prune_names@) == names@.take(i as int).map_values(|s: &str| s@),
        {
            let ghost before = prune_names@;
            let copy = names[i].to_owned();
            assert(copy@ == names@[i as int]@);
            prune_names.push(copy);
            assert(names_view(prune_names@) =~= names@.take(i + 1).map_values(|s: &str| s@)) by {
                assert(names_view(prune_names@).len() == i + 1);
                assert forall|k: int| 0 <= k < i + 1 implies #[trigger] names_view(prune_names@)[k] == names@.take(i + 1).map_values(|s: &str| s@)[k] by {
                    if k < i {
                        assert(names_view(before)[k] == names@.take(i as int).map_values(|s: &str| s@)[k]);
                    }
                }
            }
        }
        assert(names@ =~= seq![
            "node_modules",
            "target",
            ".venv",
            "venv",
            "__pycache__",
            ".gradle",
            ".terraform",
            "Pods",
            ".next",
            ".nuxt",
        ]);
        assert(names@.take(10).map_values(|s: &str| s@) =~= default_prune_names());
        ScanOpts {
            max_depth: Some(8),
            same_file_system: true,
            follow_links: false,
            threads: None,
            prune_names,
            descend_into_repos: false,
        }
    }
}

/// How many threads the walker gets: the number asked for (at least one), or else half the
/// machine's cores (at least one), because the walk and the status reads run at once.
pub open spec fn spec_walker_threads(requested: Option<u32>, cores: usize) -> int {
    match requested {
        Some(n) => if n >= 1 { n as int } else { 1 },
        None => if cores / 2 >= 1 { (cores / 2) as int } else { 1 },
    }
}

/// How many threads the walker gets, given how many cores the machine offers.
pub fn walker_threads(requested: Option<u32>, cores: usize) -> (threads: usize)
    ensures
        threads == spec_walker_threads(requested, cores),
{
    match requested {
        Some(n) => if n >= 1 { n as usize } else { 1 },
        None => if cores / 2 >= 1 { cores / 2 } else { 1 },
    }
}

/// What the walk does with one entry before it looks inside it.
#[derive(Clone, Copy, Debug, PartialEq, Eq, Structural)]
pub enum Prune {
    /// Walk it.
    Keep,
    /// A `.git` directory: object storage, not a tree to search. Not counted.
    GitDir,
    /// A generated directory named in the prune list. Counted, because it may have held a
    /// repository.
    Named,
}

/// Whether `name` is one of `names`.
pub open spec fn listed(names: Seq<Seq<char>>, name: Seq<char>) -> bool {
    exists|i: int| 0 <= i < names.len() && names[i] == name
}

/// The prune rule: a root the user chose is always walked, whatever its name; files are never
/// descended into anyway; `.git` is dropped; a listed name is dropped and counted.
pub open spec fn spec_prune(depth: usize, is_dir: bool, name: Seq<char>, names: Seq<Seq<char>>) -> Prune {
    if depth == 0 || !is_dir {
        Prune::Keep
    } else if name == ".git"@ {
        Prune::GitDir
    } else if listed(names, name) {
        Prune::Named
    } else {
        Prune::Keep
    }
}

/// Whether two strings hold the same characters.
pub fn same_text(a: &str, b: &str) -> (same: bool)
    ensures
        same == (a@ == b@),
{
    let x = crate::text::chars_of(a);
    let y = crate::text::chars_of(b);
    crate::pathmap::same_chars(&x, &y)
}

/// What the walk does with the entry `name` at `depth`.
pub fn prune_decision(depth: usize, is_dir: bool, name: &str, names: &[String]) -> (decision: Prune)
    ensures
        decision == spec_prune(depth, is_dir, name@, names_view(names@)),
{
    if depth == 0 || !is_dir {
        return Prune::Keep;
    }
    proof {
        reveal_strlit(".git");
    }
    if same_text(name, ".git") {
        return Prune::GitDir;
    }
    let n = names.len();
    for i in 0..n
        invariant
            n == names@.len(),
            depth != 0 && is_dir,
            name@ != ".git"@,
            forall|k: int| 0 <= k < i ==> names_view(names@)[k] != name@,
    {
        if same_text(names[i].as_str(), name) {
            assert(names_view(names@)[i as int] == name@);
            assert(listed(names_view(names@), name@));
            return Prune::Named;
        }
    }
    Prune::Keep
}

/// Whether the walk keeps descending below a repository it just found. A bare repository is
/// itself a Git directory, so it is never descended into.
pub fn descends_below(kind: RepoKind, descend_into_repos: bool) -> (descend: bool)
    ensures
        descend == (kind != RepoKind::Bare && descend_into_repos),
{
    kind != RepoKind::Bare && descend_into_repos
}

/// What became of one configured root before the walk.
pub enum RootProbe {
    /// It canonicalised to this path, which is or is not a directory.
    Resolved { path: String, is_dir: bool },
    /// It could not be canonicalised, for this reason.
    Failed { message: String },
}

/// The roots worth walking, in the order given with repeats dropped, and a failure for each
/// root that cannot be.
pub open spec fn spec_usable(given: Seq<String>, probes: Seq<RootProbe>) -> (Seq<Seq<char>>, Seq<(Seq<char>, Seq<char>)>)
    decreases probes.len(),
{
    if probes.len() == 0 || given.len() != probes.len() {
        (Seq::empty(), Seq::empty())
    } else {
        let (usable, errors) = spec_usable(given.drop_last(), probes.drop_last());
        match probes.last() {
            RootProbe::Resolved { path, is_dir } => if !is_dir {
                (usable, errors.push((path@, "not a directory"@)))
            } else if usable.contains(path@) {
                (usable, errors)
            } else {
                (usable.push(path@), errors)
            },
            RootProbe::Failed { message } => (usable, errors.push((given.last()@, message@))),
        }
    }
}

/// The views of a list of scan failures.
pub open spec fn errors_view(errors: Seq<ScanError>) -> Seq<(Seq<char>, Seq<char>)> {
    errors.map_values(|e: ScanError| (e.path@, e.message@))
}

/// Canonicalised, validated and deduplicated roots: a root that cannot be read is recorded and
/// skipped rather than ending the scan.
pub fn usable_roots(given: &[String], probes: &[RootProbe]) -> (r: (Vec<String>, Vec<ScanError>))
    requires
        given@.len() == probes@.len(),
    ensures
        (names_view(r.0@), errors_view(r.1@)) == spec_usable(given@, probes@),
{
    let mut usable: Vec<String> = Vec::new();
    let mut errors: Vec<ScanError> = Vec::new();
    let n = probes.len();
    assert(spec_usable(given@.take(0), probes@.take(0)) == (Seq::<Seq<char>>::empty(), Seq::<(Seq<char>, Seq<char>)>::empty()));
    for i in 0..n
        invariant
            n == probes@.len(),
            n == given@.len(),
            (names_view(usable@), errors_view(errors@)) == spec_usable(given@.take(i as int), probes@.take(i as int)),
    {
        let ghost g = given@.take(i + 1);
        let ghost p = probes@.take(i + 1);
        assert(g.drop_last() =~= given@.take(i as int));
        assert(p.drop_last() =~= probes@.take(i as int));
        assert(p.last() == probes@[i as int]);
        assert(g.last() == given@[i as int]);
        match &probes[i] {
            RootProbe::Resolved { path, is_dir } => {
                if !*is_dir {
                    proof { reveal_strlit("not a directory"); }
                    let ghost before = errors@;
                    errors.push(ScanError { path: path.clone(), message: "not a directory".to_owned() });
                    assert(errors_view(errors@) =~= errors_view(before).push((path@, "not a directory"@)));
                } else {
                    let mut seen = false;
                    let m = usable.len();
                    for k in 0..m
                        invariant
                            m == usable@.len(),
                            seen == exists|j: int| 0 <= j < k && usable@[j]@ == path@,
                    {
                        if same_text(usable[k].as_str(), path.as_str()) {
                            seen = true;
                        }
                    }
                    assert(seen == names_view(usable@).contains(path@)) by {
                        if names_view(usable@).contains(path@) {
                            let j = choose|j: int| 0 <= j < names_view(usable@).len() && names_view(usable@)[j] == path@;
                            assert(usable@[j]@ == path@);
                        }
                        if seen {
                            let j = choose|j: int| 0 <= j < m && usable@[j]@ == path@;
                            assert(names_view(usable@)[j] == path@);
                        }
                    }
                    if !seen {
                        let ghost before = usable@;
                        usable.push(path.clone());
                        assert(names_view(usable@) =~= names_view(before).push(path@));
                    }
                }
            },
            RootProbe::Failed { message } => {
                let ghost before = errors@;
                errors.push(ScanError { path: given[i].clone(), message: message.clone() });
                assert(errors_view(errors@) =~= errors_view(before).push((given@[i as int]@, message@)));
            },
        }
    }
    assert(given@.take(n as int) =~= given@);
    assert(probes@.take(n as int) =~= probes@);
    (usable, errors)
}

/// The final component of a path, for display: what follows its last separator, or the whole
/// path when nothing does (a filesystem root).
pub open spec fn spec_display_name(path: Seq<char>) -> Seq<char>
    decreases path.len(),
{
    spec_tail_after_sep(path, path.len() as int)
}

/// What follows the last separator before position `end`, or the whole path when that is
/// empty or there is no separator.
pub open spec fn spec_tail_after_sep(path: Seq<char>, end: int) -> Seq<char>
    decreases end,
{
    if end <= 0 {
        path
    } else if is_sep(path[end - 1]) {
        if end == path.len() { path } else { path.subrange(end, path.len() as int) }
    } else {
        spec_tail_after_sep(path, end - 1)
    }
}

/// The final component of `path`, for display.
pub fn display_name(path: &str) -> (name: String)
    ensures
        name@ == spec_display_name(path@),
{
    let chars = crate::text::chars_of(path);
    let n = chars.len();
    let mut end: usize = n;
    while end > 0 && chars[end - 1] != '/'
        invariant
            chars@ == path@,
            n == chars@.len(),
            end <= n,
            spec_tail_after_sep(chars@, end as int) == spec_tail_after_sep(chars@, n as int),
        decreases end,
    {
        end = end - 1;
    }
    if end == 0 || end == n {
        return path.to_owned();
    }
    let mut tail: Vec<char> = Vec::new();
    let mut k = end;
    while k < n
        invariant
            n == chars@.len(),
            end <= k <= n,
            tail@ == chars@.subrange(end as int, k as int),
        decreases n - k,
    {
        tail.push(chars[k]);
        assert(chars@.subrange(end as int, k + 1) =~= chars@.subrange(end as int, k as int).push(chars@[k as int]));
        k = k + 1;
    }
    crate::text::string_of(&tail)
}

/// An absolute path in the plain form canonicalisation gives: rooted, `/` its only separator
/// (no backslash, which separates components too on Windows), no empty component, no `.`
/// component, and no separator at the end but for the root itself.
pub open spec fn is_plain_absolute(p: Seq<char>) -> bool {
    &&& p.len() > 0 && p[0] == '/'
    &&& forall|i: int| 0 <= i < p.len() ==> #[trigger] p[i] != '\\'
    &&& p.len() > 1 ==> p.last() != '/'
    &&& forall|i: int| 0 <= i < p.len() - 1 && p[i] == '/' ==> {
        &&& #[trigger] p[i + 1] != '/'
        &&& !(p[i + 1] == '.' && (i + 2 == p.len() || p[i + 2] == '/'))
    }
}

/// `Path::parent`, as text: the path without its final component, or `None` for a root. On a
/// plain absolute path, whose components are exactly what its `/` separators divide on every
/// platform, that is everything before the last separator, or the root for a path directly
/// under it. Nothing is promised of any other path.
#[verifier::external_body]
fn parent_of(path: &str) -> (parent: Option<String>)
    ensures
        is_plain_absolute(path@) ==> crate::model::opt_str_view(&parent) == parent_path(path@),
{
    std::path::Path::new(path).parent().map(|parent| parent.to_string_lossy().into_owned())
}

/// The row-less record of a repository found at `path`: its display name, the directory it
/// sits in (or itself, for a root), and the Git directories discovery resolved.
pub fn found_repo(path: String, kind: RepoKind, git_dir: String, common_dir: String) -> (repo: DiscoveredRepo)
    ensures
        repo.path@ == path@,
        repo.name@ == spec_display_name(path@),
        is_plain_absolute(path@) ==> repo.parent@ == match parent_path(path@) {
            Some(parent) => parent,
            None => path@,
        },
        repo.kind == kind,
        repo.git_dir@ == git_dir@,
        repo.common_dir@ == common_dir@,
{
    let name = display_name(path.as_str());
    let parent = match parent_of(path.as_str()) {
        Some(parent) => parent,
        None => path.clone(),
    };
    DiscoveredRepo { path, name, parent, kind, git_dir, common_dir }
}

/// `dir` and `name` joined by a separator, unless `dir` already ends in one.
pub open spec fn spec_join(dir: Seq<char>, name: Seq<char>) -> Seq<char> {
    if dir.len() > 0 && is_sep(dir.last()) {
        dir + name
    } else {
        dir + seq!['/'] + name
    }
}

/// `dir` and `name` joined by a separator.
pub fn join(dir: &str, name: &str) -> (joined: String)
    ensures
        joined@ == spec_join(dir@, name@),
{
    let chars = crate::text::chars_of(dir);
    let mut joined = dir.to_owned();
    if chars.len() == 0 || chars[chars.len() - 1] != '/' {
        crate::text::push_char(&mut joined, '/');
    }
    joined.append(name);
    joined
}

/// What `gix` makes of a path it is asked to classify.
#[derive(Clone, Debug, PartialEq, Eq)]
pub enum GitKind {
    /// No worktree, as far as can be told without reading configuration.
    PossiblyBare,
    /// A repository with a worktree; `linked_git_dir` names the private Git directory of a
    /// linked worktree and is `None` in the main one.
    WorkTree { linked_git_dir: Option<String> },
    /// A linked worktree's Git directory, inside the common `.git/worktrees/`.
    WorkTreeGitDir,
    /// The `.git` file of a submodule, naming its Git directory.
    Submodule { git_dir: String },
    /// A submodule's Git directory, inside the parent's `.git/modules/`.
    SubmoduleGitDir,
}

/// `Path::try_exists`: whether something is at `path`, or why that could not be told. It
/// reads the disk, so nothing is promised.
#[verifier::external_body]
fn try_exists(path: &str) -> Result<bool, String> {
    std::path::Path::new(path).try_exists().map_err(|err| err.to_string())
}

/// `Path::is_file`. It reads the disk, so nothing is promised.
#[verifier::external_body]
pub(crate) fn is_file(path: &str) -> bool {
    std::path::Path::new(path).is_file()
}

/// `Path::is_dir`. It reads the disk, so nothing is promised.
#[verifier::external_body]
pub(crate) fn is_dir(path: &str) -> bool {
    std::path::Path::new(path).is_dir()
}

/// `gix::discover::is_git`: what kind of repository `path` is (following a `.git` file to the
/// directory it names, and requiring a HEAD, `objects/` and `refs/`), variant for variant with
/// paths as text, or the rendered reason it is not one. It reads the disk, so nothing is
/// promised.
#[verifier::external_body]
fn is_git(path: &str) -> Result<GitKind, String> {
    let text = |path: std::path::PathBuf| path.to_string_lossy().into_owned();
    Ok(match gix::discover::is_git(std::path::Path::new(path)).map_err(|err| err.to_string())? {
        Kind::PossiblyBare => GitKind::PossiblyBare,
        Kind::WorkTree { linked_git_dir } => GitKind::WorkTree { linked_git_dir: linked_git_dir.map(text) },
        Kind::WorkTreeGitDir { .. } => GitKind::WorkTreeGitDir,
        Kind::Submodule { git_dir } => GitKind::Submodule { git_dir: text(git_dir) },
        Kind::SubmoduleGitDir => GitKind::SubmoduleGitDir,
    })
}

/// `gix::discover::path::from_plain_file_relative_to_file`: the path recorded in the file at
/// `marker`, resolved against the file's own directory; `None` when there is no such file. It
/// reads the disk, so nothing is promised.
#[verifier::external_body]
fn recorded_path(marker: &str) -> Option<Result<String, String>> {
    gix::discover::path::from_plain_file_relative_to_file(std::path::Path::new(marker))
        .map(|read| read.map(|path| path.to_string_lossy().into_owned()).map_err(|err| err.to_string()))
}

/// A directory that turned out to be a repository.
#[derive(Clone, Debug, PartialEq, Eq)]
pub struct Classified {
    /// Which flavour.
    pub kind: RepoKind,
    /// The resolved Git directory.
    pub git_dir: String,
    /// Where `refs/`, `logs/` and `FETCH_HEAD` live.
    pub common_dir: String,
}

/// The flavour `gix`'s guess means, and the Git directory it resolves to: the one it names,
/// or else `probed`, the path it was asked about.
pub open spec fn spec_from_kind(kind: GitKind, probed: Seq<char>) -> (RepoKind, Seq<char>) {
    match kind {
        GitKind::WorkTree { linked_git_dir: None } => (RepoKind::Normal, probed),
        GitKind::WorkTree { linked_git_dir: Some(git_dir) } => (RepoKind::LinkedWorktree, git_dir@),
        GitKind::Submodule { git_dir } => (RepoKind::Submodule, git_dir@),
        GitKind::PossiblyBare => (RepoKind::Bare, probed),
        GitKind::WorkTreeGitDir => (RepoKind::LinkedWorktree, probed),
        GitKind::SubmoduleGitDir => (RepoKind::Submodule, probed),
    }
}

/// The common directory: the one a `commondir` file beside the Git directory records, or the
/// Git directory itself when there is none or it cannot be read.
pub open spec fn spec_common_dir(git_dir: Seq<char>, recorded: Option<Result<String, String>>) -> Seq<char> {
    match recorded {
        Some(Ok(common)) => common@,
        _ => git_dir,
    }
}

/// A repository classified from `gix`'s guess, the path it probed, and what the `commondir`
/// file beside the resolved Git directory records.
pub fn classified(kind: GitKind, probed: String, recorded: Option<Result<String, String>>) -> (c: Classified)
    ensures
        (c.kind, c.git_dir@) == spec_from_kind(kind, probed@),
        c.common_dir@ == spec_common_dir(spec_from_kind(kind, probed@).1, recorded),
{
    let (kind, git_dir) = match kind {
        GitKind::WorkTree { linked_git_dir: None } => (RepoKind::Normal, probed),
        GitKind::WorkTree { linked_git_dir: Some(git_dir) } => (RepoKind::LinkedWorktree, git_dir),
        GitKind::Submodule { git_dir } => (RepoKind::Submodule, git_dir),
        GitKind::PossiblyBare => (RepoKind::Bare, probed),
        GitKind::WorkTreeGitDir => (RepoKind::LinkedWorktree, probed),
        GitKind::SubmoduleGitDir => (RepoKind::Submodule, probed),
    };
    let common_dir = match recorded {
        Some(Ok(common)) => common,
        _ => git_dir.clone(),
    };
    Classified { kind, git_dir, common_dir }
}

/// Classify what `gix` said of `probed`, reading the `commondir` file beside the resolved Git
/// directory.
fn classify_probed(kind: GitKind, probed: String) -> (c: Classified)
    ensures
        (c.kind, c.git_dir@) == spec_from_kind(kind, probed@),
{
    let ghost resolved = spec_from_kind(kind, probed@).1;
    let git_dir = match &kind {
        GitKind::WorkTree { linked_git_dir: Some(git_dir) } => git_dir.clone(),
        GitKind::Submodule { git_dir } => git_dir.clone(),
        _ => probed.clone(),
    };
    assert(git_dir@ == resolved);
    let recorded = recorded_path(join(git_dir.as_str(), "commondir").as_str());
    classified(kind, probed, recorded)
}

/// Which path discovery asks `gix` about.
#[derive(Clone, Copy, Debug, PartialEq, Eq, Structural)]
pub enum Probe {
    /// The `.git` inside the directory.
    DotGit,
    /// The directory itself, shaped as a bare repository.
    Bare,
    /// Neither: an ordinary directory.
    Ordinary,
}

/// The probing rule: a `.git` in the directory is asked about first; without one, the
/// directory itself only when it holds a `HEAD` file and `objects/` and `refs/` directories.
pub open spec fn spec_probe_plan(dot_git: bool, head_file: bool, objects_dir: bool, refs_dir: bool) -> Probe {
    if dot_git {
        Probe::DotGit
    } else if head_file && objects_dir && refs_dir {
        Probe::Bare
    } else {
        Probe::Ordinary
    }
}

/// Which path to ask about, from what the directory holds.
pub fn probe_plan(dot_git: bool, head_file: bool, objects_dir: bool, refs_dir: bool) -> (probe: Probe)
    ensures
        probe == spec_probe_plan(dot_git, head_file, objects_dir, refs_dir),
{
    if dot_git {
        Probe::DotGit
    } else if head_file && objects_dir && refs_dir {
        Probe::Bare
    } else {
        Probe::Ordinary
    }
}

/// `gix`'s verdict on the probed path, whatever it was: no repository, or one classified from
/// some guess of its kind about that path.
pub open spec fn verdict_on(probed: Seq<char>, found: Result<Option<Classified>, String>) -> bool {
    &&& found != Ok::<Option<Classified>, String>(None)
    &&& (found matches Ok(Some(c)) ==> exists|kind: GitKind|
        #![trigger spec_from_kind(kind, probed)]
        (c.kind, c.git_dir@) == spec_from_kind(kind, probed))
}

/// What probing `dir` by `plan` answers: an ordinary directory is no repository, and the
/// other two are `gix`'s verdict on the `.git` inside it or on the directory itself.
pub open spec fn follows_plan(plan: Probe, dir: Seq<char>, found: Result<Option<Classified>, String>) -> bool {
    match plan {
        Probe::Ordinary => found == Ok::<Option<Classified>, String>(None),
        Probe::DotGit => verdict_on(spec_join(dir, ".git"@), found),
        Probe::Bare => verdict_on(dir, found),
    }
}

/// Probe `dir` for a repository.
///
/// `Ok(None)` is an ordinary directory: keep walking. `Err` is a directory that looked like a
/// repository and could not be read as one, or one whose `.git` could not be looked for. A
/// `.git` beside the directory's contents is asked about first; without one, the directory
/// itself is asked about only when it holds a `HEAD` file and `objects/` and `refs/`
/// directories, the shape of a bare repository. The disk decides what is there; whatever it
/// says, the answer follows [`spec_probe_plan`] for it.
pub fn classify(dir: &str) -> (found: Result<Option<Classified>, String>)
    ensures
        found is Err || exists|dot_git: bool, head_file: bool, objects_dir: bool, refs_dir: bool|
            #[trigger] follows_plan(spec_probe_plan(dot_git, head_file, objects_dir, refs_dir), dir@, found),
{
    proof {
        reveal_strlit(".git");
    }
    let dot_git = join(dir, ".git");
    let dot_git_exists = match try_exists(dot_git.as_str()) {
        Ok(exists) => exists,
        Err(message) => return Err(message),
    };
    let head_file = !dot_git_exists && is_file(join(dir, "HEAD").as_str());
    let objects_dir = head_file && is_dir(join(dir, "objects").as_str());
    let refs_dir = objects_dir && is_dir(join(dir, "refs").as_str());
    let plan = probe_plan(dot_git_exists, head_file, objects_dir, refs_dir);
    let found = match plan {
        Probe::DotGit => match is_git(dot_git.as_str()) {
            Ok(kind) => {
                let ghost probed = dot_git@;
                let ghost k = kind;
                let c = classify_probed(kind, dot_git);
                assert(spec_from_kind(k, probed) == (c.kind, c.git_dir@));
                Ok(Some(c))
            },
            Err(message) => Err(message),
        },
        Probe::Bare => classify_bare(dir),
        Probe::Ordinary => Ok(None),
    };
    assert(follows_plan(spec_probe_plan(dot_git_exists, head_file, objects_dir, refs_dir), dir@, found));
    found
}

/// The bare case: no `.git` at all and the shape of a bare repository, so the directory is
/// itself the Git directory, and `gix` is asked about it.
fn classify_bare(dir: &str) -> (found: Result<Option<Classified>, String>)
    ensures
        verdict_on(dir@, found),
{
    match is_git(dir) {
        Ok(kind) => {
            let ghost k = kind;
            let c = classify_probed(kind, dir.to_owned());
            assert(spec_from_kind(k, dir@) == (c.kind, c.git_dir@));
            Ok(Some(c))
        },
        Err(message) => Err(message),
    }
}


/// Paths never decrease along `list`.
pub open spec fn sorted_by_repo_path(list: Seq<DiscoveredRepo>) -> bool {
    forall|i: int, j: int| 0 <= i < j < list.len() ==> !path_lt(#[trigger] list[j].path@, #[trigger] list[i].path@)
}

/// The repositories a walk found, in path order (component by component, as paths compare),
/// whatever order the walker's threads reported them in. Stable: entries with one path keep
/// their order.
pub fn sort_found(list: Vec<DiscoveredRepo>) -> (sorted: Vec<DiscoveredRepo>)
    ensures
        sorted@.to_multiset() == list@.to_multiset(),
        sorted_by_repo_path(sorted@),
{
    let mut sorted: Vec<DiscoveredRepo> = Vec::new();
    let n = list.len();
    assert(list@.take(0) =~= sorted@);
    for i in 0..n
        invariant
            n == list@.len(),
            sorted@.to_multiset() == list@.take(i as int).to_multiset(),
            sorted_by_repo_path(sorted@),
    {
        let item = list[i].copied();
        let mut at: usize = 0;
        while at < sorted.len() && !path_less(item.path.as_str(), sorted[at].path.as_str())
            invariant
                at <= sorted@.len(),
                forall|k: int| 0 <= k < at ==> !path_lt(item.path@, #[trigger] sorted@[k].path@),
            decreases sorted@.len() - at,
        {
            at = at + 1;
        }
        let ghost before = sorted@;
        proof {
            assert forall|k: int| at <= k < before.len() implies path_lt(item.path@, #[trigger] before[k].path@) by {
                let first = before[at as int].path@;
                assert(path_lt(item.path@, first));
                if k > at && before[k].path@ != first {
                    assert(!path_lt(before[k].path@, first));
                    lemma_path_lt_total(before[k].path@, first);
                    lemma_path_lt_transitive(item.path@, first, before[k].path@);
                }
            }
        }
        sorted.insert(at, item);
        proof {
            assert(sorted@ == before.insert(at as int, item));
            assert(list@.take(i + 1) =~= list@.take(i as int).push(list@[i as int]));
            vstd::seq_lib::to_multiset_insert(before, at as int, item);
            vstd::seq_lib::to_multiset_build(list@.take(i as int), list@[i as int]);
            assert forall|a: int, b: int| 0 <= a < b < sorted@.len() implies !path_lt(#[trigger] sorted@[b].path@, #[trigger] sorted@[a].path@) by {
                if a < at && b == at {
                } else if a == at && b > at {
                    assert(path_lt(item.path@, before[b - 1].path@));
                    lemma_path_lt_irreflexive(item.path@);
                    if path_lt(before[b - 1].path@, item.path@) {
                        lemma_path_lt_transitive(item.path@, before[b - 1].path@, item.path@);
                    }
                } else if a < at && b > at {
                    assert(!path_lt(before[b - 1].path@, before[a].path@));
                } else if b < at {
                    assert(!path_lt(before[b].path@, before[a].path@));
                } else {
                    assert(!path_lt(before[b - 1].path@, before[a - 1].path@));
                }
            }
        }
    }
    assert(list@.take(n as int) =~= list@);
    sorted
}

/// The repositories a walk has reported, by canonical path.
pub struct SeenPaths {
    paths: PathMap<String>,
}

impl SeenPaths {
    /// The paths reported so far.
    pub closed spec fn set(&self) -> Set<Seq<char>> {
        self.paths.map().dom()
    }

    /// The internal order holds.
    pub closed spec fn wf(&self) -> bool {
        self.paths.wf()
    }

    /// Nothing reported yet.
    pub fn new() -> (seen: SeenPaths)
        ensures
            seen.wf(),
            seen.set() == Set::<Seq<char>>::empty(),
    {
        let seen = SeenPaths { paths: PathMap::new() };
        assert(seen.set() =~= Set::<Seq<char>>::empty());
        seen
    }

    /// Note `path` as reported, and say whether it is new.
    pub fn insert(&mut self, path: &str) -> (fresh: bool)
        requires
            old(self).wf(),
        ensures
            final(self).wf(),
            fresh == !old(self).set().contains(path@),
            final(self).set() == old(self).set().insert(path@),
    {
        let fresh = self.paths.find(path).is_none();
        self.paths.upsert(path.to_owned());
        assert(self.set() =~= old(self).set().insert(path@));
        fresh
    }

    /// How many paths have been reported.
    pub fn len(&self) -> (n: usize)
        requires
            self.wf(),
        ensures
            n == self.set().len(),
    {
        proof {
            crate::pathmap::lemma_map_len(self.paths.seq());
        }
        self.paths.len()
    }
}

/// What the walk does with a directory at canonical `path` that `found` says is a repository:
/// report it, unless a path reached earlier (through an overlapping root or a link) already
/// did, and say whether to keep descending below it. A repository reached a second time is
/// not descended into again: the first visit decided what happens below it.
pub fn report_once(seen: &mut SeenPaths, path: String, found: Classified, descend_into_repos: bool) -> (step: (Option<DiscoveredRepo>, bool))
    requires
        old(seen).wf(),
    ensures
        final(seen).wf(),
        final(seen).set() == old(seen).set().insert(path@),
        old(seen).set().contains(path@) ==> step.0 is None && !step.1,
        !old(seen).set().contains(path@) ==> {
            &&& step.0 matches Some(repo) && {
                &&& repo.path@ == path@
                &&& repo.name@ == spec_display_name(path@)
                &&& (is_plain_absolute(path@) ==> repo.parent@ == match parent_path(path@) {
                    Some(parent) => parent,
                    None => path@,
                })
                &&& repo.kind == found.kind
                &&& repo.git_dir@ == found.git_dir@
                &&& repo.common_dir@ == found.common_dir@
            }
            &&& step.1 == (found.kind != RepoKind::Bare && descend_into_repos)
        },
{
    if !seen.insert(path.as_str()) {
        return (None, false);
    }
    let below = descends_below(found.kind, descend_into_repos);
    (Some(found_repo(path, found.kind, found.git_dir, found.common_dir)), below)
}

} // verus!
