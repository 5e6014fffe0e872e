use git_launcher::config::GitLauncherConfig;
use git_launcher::finder::{
    ChildEntry, DirectoryScan, EntryKind, FinderError, GitFinderConfig, GitFinderConfigBuilder,
    GitMarker, GitProject, GitProjectFinder, PendingDir,
};
use std::collections::BTreeSet;

/// A node of an in-memory tree: its full path, and what it is.
#[derive(Clone)]
enum Node {
    Dir(&'static str),
    File(&'static str, &'static str),
}

struct Tree {
    nodes: Vec<Node>,
}

impl Tree {
    fn path_of(n: &Node) -> &'static str {
        match n {
            Node::Dir(p) => p,
            Node::File(p, _) => p,
        }
    }

    fn parent(p: &str) -> &str {
        match p.rfind('/') {
            Some(i) => &p[..i],
            None => "",
        }
    }

    fn find(&self, path: &str) -> Option<&Node> {
        self.nodes.iter().find(|n| Tree::path_of(n) == path)
    }

    fn marker(&self, dir: &str) -> GitMarker {
        match self.find(&format!("{}/.git", dir)) {
            None => GitMarker::Missing,
            Some(Node::Dir(_)) => GitMarker::Directory,
            Some(Node::File(_, c)) => GitMarker::File { content: Some(c.to_string()) },
        }
    }

    fn is_dir(&self, path: &str) -> bool {
        matches!(self.find(path), Some(Node::Dir(_)))
    }

    fn list(&self, finder: &GitProjectFinder, dir: &str) -> Option<Vec<ChildEntry>> {
        if !self.is_dir(dir) {
            return None;
        }
        let mut out = Vec::new();
        for n in &self.nodes {
            let p = Tree::path_of(n);
            if Tree::parent(p) != dir {
                continue;
            }
            let name = Some(p[dir.len() + 1..].to_string());
            let is_dir = matches!(n, Node::Dir(_));
            let has_git_marker = finder.needs_marker_probe(&name, is_dir)
                && GitProjectFinder::is_git_repository(&self.marker(p));
            out.push(ChildEntry { path: p.to_string(), name, is_dir, has_git_marker });
        }
        Some(out)
    }
}

/// Runs a walk to its end, reading up to the limit at once; returns the
/// projects before the submodule filter, the directories read, and the
/// largest number of reads seen in progress at once.
fn walk(finder: &GitProjectFinder, tree: &Tree, root: &str) -> (Vec<GitProject>, Vec<String>, usize) {
    let mut scan: DirectoryScan = finder.begin_scan(root.to_string());
    let mut read = Vec::new();
    let mut most = 0;
    while !scan.is_finished() {
        let mut batch: Vec<PendingDir> = Vec::new();
        while let Some(d) = finder.next_directory(&mut scan) {
            batch.push(d);
            most = most.max(scan.reads_in_progress());
        }
        for d in batch {
            read.push(d.path.clone());
            let listing = tree.list(finder, &d.path);
            finder.complete_directory(&mut scan, &d, listing);
        }
    }
    (scan.into_projects(), read, most)
}

fn find(finder: &GitProjectFinder, tree: &Tree, root: &str) -> Vec<GitProject> {
    let (found, _, _) = walk(finder, tree, root);
    let markers: Vec<GitMarker> = found.iter().map(|p| tree.marker(&p.full_path)).collect();
    finder.filter_submodules(found, &markers)
}

fn paths(v: &[GitProject]) -> BTreeSet<String> {
    v.iter().map(|p| p.full_path.clone()).collect()
}

fn launcher_config(ignore: &[&str], depth: usize, tasks: usize) -> GitLauncherConfig {
    GitLauncherConfig {
        base_dir: vec!["root".to_string()],
        ignore_dirs: ignore.iter().map(|s| s.to_string()).collect(),
        max_depth: depth,
        max_concurrent_tasks: tasks,
    }
}

fn scenario_tree() -> Tree {
    Tree {
        nodes: vec![
            Node::Dir("root"),
            Node::Dir("root/a"),
            Node::Dir("root/a/.git"),
            Node::Dir("root/b"),
            Node::Dir("root/b/node_modules"),
            Node::Dir("root/b/node_modules/x"),
            Node::Dir("root/b/node_modules/x/.git"),
            Node::Dir("root/c"),
            Node::File("root/c/.git", "gitdir: ../x"),
            Node::Dir("root/d"),
            Node::Dir("root/d/e"),
            Node::Dir("root/d/e/.git"),
        ],
    }
}

#[test]
fn scenario_tree_gives_a_and_d_e() {
    let finder = GitProjectFinder::builder(launcher_config(&["node_modules"], 0, 4))
        .unlimited_depth()
        .build()
        .unwrap();
    let tree = scenario_tree();
    let found = find(&finder, &tree, "root");
    let expected: BTreeSet<String> = ["root/a", "root/d/e"].iter().map(|s| s.to_string()).collect();
    assert_eq!(paths(&found), expected);
    assert_eq!(found.len(), 2);
    let names: BTreeSet<String> = found.iter().map(|p| p.folder_name.clone()).collect();
    assert!(names.contains("a") && names.contains("e"));
}

#[test]
fn ignored_directories_are_never_read() {
    let finder = GitProjectFinder::builder(launcher_config(&["node_modules"], 10, 2)).build().unwrap();
    let tree = scenario_tree();
    let (found, read, _) = walk(&finder, &tree, "root");
    assert!(read.iter().all(|p| !p.contains("node_modules")));
    assert!(found.iter().all(|p| !p.full_path.contains("node_modules")));
}

#[test]
fn submodule_found_by_walk_but_filtered() {
    let tree = Tree {
        nodes: vec![
            Node::Dir("root"),
            Node::Dir("root/sub"),
            Node::File("root/sub/.git", "gitdir: ../.git/modules/foo"),
            Node::Dir("root/real"),
            Node::Dir("root/real/.git"),
        ],
    };
    let finder = GitProjectFinder::builder(launcher_config(&[], 10, 3)).build().unwrap();
    let (walked, _, _) = walk(&finder, &tree, "root");
    assert_eq!(paths(&walked), ["root/real", "root/sub"].iter().map(|s| s.to_string()).collect());
    let found = find(&finder, &tree, "root");
    assert_eq!(paths(&found), ["root/real"].iter().map(|s| s.to_string()).collect());
}

fn deep_tree() -> Tree {
    // root/l1/l2/l3 with a repository at each level: root/rN
    Tree {
        nodes: vec![
            Node::Dir("root"),
            Node::Dir("root/r1"),
            Node::Dir("root/r1/.git"),
            Node::Dir("root/l1"),
            Node::Dir("root/l1/r2"),
            Node::Dir("root/l1/r2/.git"),
            Node::Dir("root/l1/l2"),
            Node::Dir("root/l1/l2/r3"),
            Node::Dir("root/l1/l2/r3/.git"),
            Node::Dir("root/l1/l2/l3"),
            Node::Dir("root/l1/l2/l3/r4"),
            Node::Dir("root/l1/l2/l3/r4/.git"),
        ],
    }
}

#[test]
fn depth_limit_is_enforced() {
    let tree = deep_tree();
    // A listing at depth 1 (root/l1) is read and reports root/l1/r2; root/l1/l2 is at depth 2.
    let finder = GitProjectFinder::builder(launcher_config(&[], 1, 2)).build().unwrap();
    let (found, read, _) = walk(&finder, &tree, "root");
    assert_eq!(paths(&found), ["root/r1", "root/l1/r2"].iter().map(|s| s.to_string()).collect());
    assert!(!read.contains(&"root/l1/l2".to_string()));
    let finder0 = GitProjectFinder::builder(launcher_config(&[], 0, 2)).build().unwrap();
    let (found0, read0, _) = walk(&finder0, &tree, "root");
    assert_eq!(paths(&found0), ["root/r1"].iter().map(|s| s.to_string()).collect());
    assert_eq!(read0, vec!["root".to_string()]);
    let unlimited = GitProjectFinder::builder(launcher_config(&[], 0, 2)).unlimited_depth().build().unwrap();
    assert_eq!(find(&unlimited, &tree, "root").len(), 4);
}

#[test]
fn concurrency_bound_is_never_exceeded() {
    let mut nodes = vec![Node::Dir("root")];
    let names: Vec<&'static str> = (0..30)
        .map(|i| Box::leak(format!("root/d{}", i).into_boxed_str()) as &'static str)
        .collect();
    for n in &names {
        nodes.push(Node::Dir(n));
    }
    let tree = Tree { nodes };
    for limit in [1usize, 3, 7] {
        let finder = GitProjectFinder::builder(launcher_config(&[], 5, limit)).build().unwrap();
        let (_, read, most) = walk(&finder, &tree, "root");
        assert_eq!(read.len(), 31);
        assert_eq!(most, limit);
    }
}

#[test]
fn scanning_twice_gives_the_same_set() {
    let finder = GitProjectFinder::builder(launcher_config(&["node_modules"], 10, 3)).build().unwrap();
    let tree = scenario_tree();
    let first = find(&finder, &tree, "root");
    let second = find(&finder, &tree, "root");
    assert_eq!(paths(&first), paths(&second));
}

#[test]
fn distinct_repositories_each_found_once() {
    let tree = deep_tree();
    let finder = GitProjectFinder::builder(launcher_config(&[], 10, 2)).build().unwrap();
    let found = find(&finder, &tree, "root");
    assert_eq!(found.len(), 4);
    assert_eq!(paths(&found).len(), 4);
}

#[test]
fn unreadable_directory_is_skipped() {
    let finder = GitProjectFinder::builder(launcher_config(&[], 10, 1)).build().unwrap();
    let mut scan = finder.begin_scan("gone".to_string());
    let d = finder.next_directory(&mut scan).unwrap();
    assert!(finder.next_directory(&mut scan).is_none());
    finder.complete_directory(&mut scan, &d, None);
    assert!(scan.is_finished());
    assert!(scan.found().is_empty());
}

#[test]
fn repository_is_not_entered() {
    let finder = GitProjectFinder::builder(launcher_config(&[], 10, 1)).build().unwrap();
    let mut scan = finder.begin_scan("root".to_string());
    let d = finder.next_directory(&mut scan).unwrap();
    let entries = vec![
        ChildEntry { path: "root/repo".to_string(), name: Some("repo".to_string()), is_dir: true, has_git_marker: true },
        ChildEntry { path: "root/plain".to_string(), name: Some("plain".to_string()), is_dir: true, has_git_marker: false },
        ChildEntry { path: "root/file.txt".to_string(), name: Some("file.txt".to_string()), is_dir: false, has_git_marker: false },
        ChildEntry { path: "/".to_string(), name: None, is_dir: true, has_git_marker: false },
    ];
    finder.complete_directory(&mut scan, &d, Some(entries));
    assert_eq!(scan.pending_count(), 1);
    assert_eq!(scan.found(), &vec![GitProject { full_path: "root/repo".to_string(), folder_name: "repo".to_string() }]);
    let next = finder.next_directory(&mut scan).unwrap();
    assert_eq!(next, PendingDir { path: "root/plain".to_string(), depth: 1 });
}

#[test]
fn classify_entries() {
    let finder = GitProjectFinder::builder(launcher_config(&["target"], 10, 1)).build().unwrap();
    let e = |name: &str, is_dir: bool, git: bool| ChildEntry {
        path: format!("root/{}", name),
        name: Some(name.to_string()),
        is_dir,
        has_git_marker: git,
    };
    assert_eq!(finder.classify(&e("target", true, true)), EntryKind::Ignored);
    assert_eq!(finder.classify(&e("app", true, true)), EntryKind::Repository);
    assert_eq!(finder.classify(&e("src", true, false)), EntryKind::Descend);
    assert_eq!(finder.classify(&e("x.rs", false, false)), EntryKind::NotDirectory);
    assert!(!finder.needs_marker_probe(&Some("target".to_string()), true));
    assert!(finder.needs_marker_probe(&Some("src".to_string()), true));
    assert!(!finder.needs_marker_probe(&Some("src".to_string()), false));
    assert!(!finder.needs_marker_probe(&None, true));
}

#[test]
fn zero_concurrency_is_rejected() {
    let b = GitProjectFinder::builder(launcher_config(&[], 3, 5)).max_concurrent_tasks(0);
    assert!(matches!(b.build(), Err(FinderError::ZeroConcurrency)));
    let config = GitFinderConfig::new(launcher_config(&[], 3, 0));
    assert!(matches!(GitProjectFinder::new(config), Err(FinderError::ZeroConcurrency)));
    let config = GitFinderConfig::new(launcher_config(&[], 3, 1));
    assert!(GitProjectFinder::new(config).is_ok());
}

#[test]
fn finder_config_from_launcher_config() {
    let c = GitFinderConfig::new(launcher_config(&["a", "b", "a"], 7, 9));
    assert_eq!(c.ignored_dirs, vec!["a".to_string(), "b".to_string()]);
    assert_eq!(c.max_depth, Some(7));
    assert_eq!(c.max_concurrent_tasks, 9);
    assert!(c.is_ignored(&"b".to_string()));
    assert!(!c.is_ignored(&"c".to_string()));
}

#[test]
fn builder_overrides() {
    let b = GitFinderConfigBuilder::new(launcher_config(&["a"], 7, 9))
        .ignore_dir("b")
        .ignore_dir("a")
        .ignore_dirs(vec!["c".to_string(), "b".to_string()])
        .max_depth(2)
        .max_concurrent_tasks(4);
    let finder = b.build().unwrap();
    for n in ["a", "b", "c"] {
        assert_eq!(
            finder.classify(&ChildEntry { path: n.to_string(), name: Some(n.to_string()), is_dir: true, has_git_marker: true }),
            EntryKind::Ignored
        );
    }
    // depth 2: a listing at depth 2 queues nothing
    let mut scan = finder.begin_scan("r".to_string());
    let d = finder.next_directory(&mut scan).unwrap();
    let sub = |p: &str| ChildEntry { path: p.to_string(), name: Some(p.to_string()), is_dir: true, has_git_marker: false };
    finder.complete_directory(&mut scan, &d, Some(vec![sub("x")]));
    let d1 = finder.next_directory(&mut scan).unwrap();
    assert_eq!(d1.depth, 1);
    finder.complete_directory(&mut scan, &d1, Some(vec![sub("y")]));
    let d2 = finder.next_directory(&mut scan).unwrap();
    assert_eq!(d2.depth, 2);
    finder.complete_directory(&mut scan, &d2, Some(vec![sub("z")]));
    assert!(scan.is_finished());
}

#[test]
fn default_launcher_config() {
    let c = GitLauncherConfig::default();
    assert_eq!(c.ignore_dirs, vec!["node_modules", "target", ".git", "build", "dist"]);
    assert_eq!(c.max_depth, 10);
    assert_eq!(c.max_concurrent_tasks, 20);
    assert_eq!(c.base_dir, vec!["/Users/ranger/Desktop/project"]);
}
