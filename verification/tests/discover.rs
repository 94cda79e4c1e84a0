use repo_scan::discover::{
    descends_below, display_name, join, prune_decision, report_once, usable_roots, walker_threads,
    Classified, Prune, RootProbe, ScanOpts, SeenPaths,
};
use repo_scan::model::RepoKind;

fn found(kind: RepoKind, git_dir: &str) -> Classified {
    Classified { kind, git_dir: git_dir.to_string(), common_dir: git_dir.to_string() }
}

#[test]
fn a_repository_reached_twice_is_reported_once() {
    let mut seen = SeenPaths::new();

    let (first, below) = report_once(&mut seen, "C:/work/alpha".into(), found(RepoKind::Normal, "C:/work/alpha/.git"), false);
    let repo = first.expect("the first visit reports it");
    assert_eq!(repo.path, "C:/work/alpha");
    assert_eq!(repo.name, "alpha");
    assert_eq!(repo.parent, "C:/work");
    assert_eq!(repo.git_dir, "C:/work/alpha/.git");
    assert!(!below, "the walk stops at the first repository by default");

    let (second, below) = report_once(&mut seen, "C:/work/alpha".into(), found(RepoKind::Normal, "C:/work/alpha/.git"), true);
    assert!(second.is_none(), "an overlapping root reaches it again and it is not reported again");
    assert!(!below, "and its subtree is not walked a second time");
    assert_eq!(seen.len(), 1);
}

#[test]
fn descending_into_repositories_never_enters_a_bare_one() {
    let mut seen = SeenPaths::new();
    let (_, normal) = report_once(&mut seen, "C:/a".into(), found(RepoKind::Normal, "C:/a/.git"), true);
    let (_, bare) = report_once(&mut seen, "C:/b.git".into(), found(RepoKind::Bare, "C:/b.git"), true);

    assert!(normal);
    assert!(!bare, "a bare repository is itself a Git directory");
    assert!(!descends_below(RepoKind::Bare, true));
    assert!(descends_below(RepoKind::Submodule, true));
    assert!(!descends_below(RepoKind::Normal, false));
}

#[test]
fn git_directories_and_listed_names_are_pruned_below_the_root() {
    let names = ScanOpts::default().prune_names;

    assert_eq!(prune_decision(1, true, ".git", &names), Prune::GitDir);
    assert_eq!(prune_decision(2, true, "node_modules", &names), Prune::Named);
    assert_eq!(prune_decision(1, true, "src", &names), Prune::Keep);
    assert_eq!(prune_decision(0, true, "node_modules", &names), Prune::Keep, "a root is never pruned");
    assert_eq!(prune_decision(3, false, "target", &names), Prune::Keep, "only directories are pruned");
}

#[test]
fn the_default_walk() {
    let opts = ScanOpts::default();

    assert_eq!(opts.max_depth, Some(8));
    assert!(opts.same_file_system);
    assert!(!opts.follow_links);
    assert!(!opts.descend_into_repos);
    assert!(opts.prune_names.iter().any(|name| name == "node_modules"));
    assert_eq!(opts.prune_names.len(), 10);
}

#[test]
fn the_walker_takes_half_the_cores_unless_told() {
    assert_eq!(walker_threads(None, 8), 4);
    assert_eq!(walker_threads(None, 1), 1, "never fewer than one");
    assert_eq!(walker_threads(Some(3), 8), 3);
    assert_eq!(walker_threads(Some(0), 8), 1);
}

#[test]
fn roots_are_deduplicated_and_unusable_ones_reported() {
    let given: Vec<String> = ["C:/a", "c:/A", "C:/file.txt", "C:/gone"].iter().map(|s| s.to_string()).collect();
    let probes = vec![
        RootProbe::Resolved { path: "C:/a".into(), is_dir: true },
        RootProbe::Resolved { path: "C:/a".into(), is_dir: true },
        RootProbe::Resolved { path: "C:/file.txt".into(), is_dir: false },
        RootProbe::Failed { message: "not found".into() },
    ];

    let (usable, errors) = usable_roots(&given, &probes);

    assert_eq!(usable, vec!["C:/a"]);
    assert_eq!(errors.len(), 2);
    assert_eq!((errors[0].path.as_str(), errors[0].message.as_str()), ("C:/file.txt", "not a directory"));
    assert_eq!((errors[1].path.as_str(), errors[1].message.as_str()), ("C:/gone", "not found"));
}

#[test]
fn a_display_name_is_the_last_component() {
    assert_eq!(display_name("C:/work/alpha"), "alpha");
    assert_eq!(display_name("alpha"), "alpha");
    assert_eq!(display_name("C:/work/alpha/"), "C:/work/alpha/", "no component after the separator");
}

#[test]
fn joining_adds_one_separator() {
    assert_eq!(join("C:/work", "alpha"), "C:/work/alpha");
    assert_eq!(join("C:/work/", "alpha"), "C:/work/alpha");
    assert_eq!(join("", ".git"), "/.git");
}
