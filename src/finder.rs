//! The repository finder: its settings and their builder, the decisions of
//! the directory walk as a state machine, and the submodule filter.
//!
//! The walk itself is driven from outside: a driver asks for the next
//! directory to read (which takes a permit of the concurrency limit), lists
//! it, and hands the listing back (which returns the permit). Everything the
//! walk decides happens here.
use vstd::prelude::*;
use crate::config::{names_of, GitLauncherConfig};
use crate::limiter::ConcurrencyLimiter;
use crate::text::{is_gitdir_link, is_gitdir_link_text};

verus! {

/// A directory that holds a `.git` entry.
#[derive(Clone, Debug, PartialEq, Eq)]
pub struct GitProject {
    pub full_path: String,
    pub folder_name: String,
}

/// The finder's settings as values: the ignored names as a set.
pub struct FinderSettings {
    pub ignored: Set<Seq<char>>,
    pub max_depth: Option<usize>,
    pub max_concurrent_tasks: usize,
}

/// Whether a directory at `depth` hops from the root may be read.
pub open spec fn within_depth(max_depth: Option<usize>, depth: int) -> bool {
    max_depth is None || depth <= max_depth->0
}

/// Whether `v` holds `name`, compared by text.
fn contains_name(v: &Vec<String>, name: &String) -> (r: bool)
    ensures
        r == names_of(v@).contains(name@),
{
    let mut i: usize = 0;
    while i < v.len()
        invariant
            i <= v.len(),
            forall|j: int| 0 <= j < i ==> v@[j]@ != name@,
        decreases v.len() - i,
    {
        if v[i] == *name {
            assert(names_of(v@)[i as int] == name@);
            return true;
        }
        i = i + 1;
    }
    assert forall|j: int| 0 <= j < names_of(v@).len() implies names_of(v@)[j] != name@ by {
        assert(names_of(v@)[j] == v@[j]@);
    }
    false
}

/// Adds `name` to a list of distinct names unless it is there already.
fn add_name(v: &mut Vec<String>, name: String)
    requires
        names_of(old(v)@).no_duplicates(),
    ensures
        names_of(final(v)@).no_duplicates(),
        names_of(final(v)@).to_set() == names_of(old(v)@).to_set().insert(name@),
{
    if !contains_name(v, &name) {
        let ghost before = names_of(v@);
        v.push(name);
        assert(names_of(v@) =~= before.push(name@));
        proof {
            before.lemma_push_to_set_commute(name@);
        }
    } else {
        assert(names_of(v@).to_set() =~= names_of(v@).to_set().insert(name@));
    }
}

/// The distinct names of `names`, as a list without repeats.
fn distinct_names(names: Vec<String>) -> (r: Vec<String>)
    ensures
        names_of(r@).no_duplicates(),
        names_of(r@).to_set() == names_of(names@).to_set(),
{
    let mut r: Vec<String> = Vec::new();
    let mut i: usize = 0;
    while i < names.len()
        invariant
            i <= names.len(),
            names_of(r@).no_duplicates(),
            names_of(r@).to_set() == names_of(names@.take(i as int)).to_set(),
        decreases names.len() - i,
    {
        add_name(&mut r, names[i].clone());
        assert(names_of(names@.take(i + 1)) =~= names_of(names@.take(i as int)).push(names@[i as int]@));
        proof {
            names_of(names@.take(i as int)).lemma_push_to_set_commute(names@[i as int]@);
        }
        i = i + 1;
    }
    assert(names@.take(names.len() as int) =~= names@);
    r
}

/// The finder's settings.
pub struct GitFinderConfig {
    /// Directory names that are never entered, whatever their depth.
    pub ignored_dirs: Vec<String>,
    /// How many hops below the root are read; `None` for no limit.
    pub max_depth: Option<usize>,
    /// How many directory reads may be in progress at once.
    pub max_concurrent_tasks: usize,
}

impl GitFinderConfig {
    /// The ignored names are held once each.
    pub open spec fn wf(&self) -> bool {
        names_of(self.ignored_dirs@).no_duplicates()
    }

    pub open spec fn settings(&self) -> FinderSettings {
        FinderSettings {
            ignored: names_of(self.ignored_dirs@).to_set(),
            max_depth: self.max_depth,
            max_concurrent_tasks: self.max_concurrent_tasks,
        }
    }

    /// Settings taken from the launcher's configuration, with its depth as
    /// the limit.
    pub fn new(config: GitLauncherConfig) -> (r: Self)
        ensures
            r.wf(),
            r.settings() == (FinderSettings {
                ignored: names_of(config.ignore_dirs@).to_set(),
                max_depth: Some(config.max_depth),
                max_concurrent_tasks: config.max_concurrent_tasks,
            }),
    {
        GitFinderConfig {
            ignored_dirs: distinct_names(config.ignore_dirs),
            max_depth: Some(config.max_depth),
            max_concurrent_tasks: config.max_concurrent_tasks,
        }
    }

    /// Whether a directory called `name` is never entered.
    pub fn is_ignored(&self, name: &String) -> (r: bool)
        ensures
            r == self.settings().ignored.contains(name@),
    {
        contains_name(&self.ignored_dirs, name)
    }
}

/// Builds a finder's settings from the launcher's configuration and
/// overrides.
pub struct GitFinderConfigBuilder {
    ignored_dirs: Vec<String>,
    max_depth: Option<usize>,
    max_concurrent_tasks: usize,
}

impl View for GitFinderConfigBuilder {
    type V = FinderSettings;

    closed spec fn view(&self) -> FinderSettings {
        FinderSettings {
            ignored: names_of(self.ignored_dirs@).to_set(),
            max_depth: self.max_depth,
            max_concurrent_tasks: self.max_concurrent_tasks,
        }
    }
}

impl GitFinderConfigBuilder {
    pub closed spec fn wf(&self) -> bool {
        names_of(self.ignored_dirs@).no_duplicates()
    }

    /// Starts from the launcher's configuration, with its depth as the limit.
    pub fn new(config: GitLauncherConfig) -> (r: Self)
        ensures
            r.wf(),
            r@ == (FinderSettings {
                ignored: names_of(config.ignore_dirs@).to_set(),
                max_depth: Some(config.max_depth),
                max_concurrent_tasks: config.max_concurrent_tasks,
            }),
    {
        GitFinderConfigBuilder {
            ignored_dirs: distinct_names(config.ignore_dirs),
            max_depth: Some(config.max_depth),
            max_concurrent_tasks: config.max_concurrent_tasks,
        }
    }

    /// Adds one name to the ignored names.
    pub fn ignore_dir(self, dir: &str) -> (r: Self)
        requires
            self.wf(),
        ensures
            r.wf(),
            r@ == (FinderSettings { ignored: self@.ignored.insert(dir@), ..self@ }),
    {
        let mut b = self;
        add_name(&mut b.ignored_dirs, dir.to_string());
        b
    }

    /// Adds each of `dirs` to the ignored names.
    pub fn ignore_dirs(self, dirs: Vec<String>) -> (r: Self)
        requires
            self.wf(),
        ensures
            r.wf(),
            r@ == (FinderSettings { ignored: self@.ignored + names_of(dirs@).to_set(), ..self@ }),
    {
        let mut b = self;
        let mut i: usize = 0;
        assert(self@.ignored + names_of(dirs@.take(0)).to_set() =~= self@.ignored);
        while i < dirs.len()
            invariant
                i <= dirs.len(),
                b.wf(),
                b@ == (FinderSettings {
                    ignored: self@.ignored + names_of(dirs@.take(i as int)).to_set(),
                    ..self@
                }),
            decreases dirs.len() - i,
        {
            add_name(&mut b.ignored_dirs, dirs[i].clone());
            proof {
                assert(names_of(dirs@.take(i + 1)) =~= names_of(dirs@.take(i as int)).push(
                    dirs@[i as int]@,
                ));
                names_of(dirs@.take(i as int)).lemma_push_to_set_commute(dirs@[i as int]@);
                assert(self@.ignored + names_of(dirs@.take(i + 1)).to_set() =~= (self@.ignored
                    + names_of(dirs@.take(i as int)).to_set()).insert(dirs@[i as int]@));
            }
            i = i + 1;
        }
        assert(dirs@.take(dirs.len() as int) =~= dirs@);
        b
    }

    /// Sets the depth limit.
    pub fn max_depth(self, depth: usize) -> (r: Self)
        requires
            self.wf(),
        ensures
            r.wf(),
            r@ == (FinderSettings { max_depth: Some(depth), ..self@ }),
    {
        let mut b = self;
        b.max_depth = Some(depth);
        b
    }

    /// Removes the depth limit.
    pub fn unlimited_depth(self) -> (r: Self)
        requires
            self.wf(),
        ensures
            r.wf(),
            r@ == (FinderSettings { max_depth: None, ..self@ }),
    {
        let mut b = self;
        b.max_depth = None;
        b
    }

    /// Sets how many directory reads may be in progress at once.
    pub fn max_concurrent_tasks(self, count: usize) -> (r: Self)
        requires
            self.wf(),
        ensures
            r.wf(),
            r@ == (FinderSettings { max_concurrent_tasks: count, ..self@ }),
    {
        let mut b = self;
        b.max_concurrent_tasks = count;
        b
    }

    /// The finder with these settings; refused when no read at all may run.
    pub fn build(self) -> (r: Result<GitProjectFinder, FinderError>)
        requires
            self.wf(),
        ensures
            self@.max_concurrent_tasks == 0 <==> r == Err::<GitProjectFinder, FinderError>(
                FinderError::ZeroConcurrency,
            ),
            r matches Ok(f) ==> f.wf() && f.settings() == self@,
    {
        let config = GitFinderConfig {
            ignored_dirs: self.ignored_dirs,
            max_depth: self.max_depth,
            max_concurrent_tasks: self.max_concurrent_tasks,
        };
        GitProjectFinder::new(config)
    }
}

/// Why a finder could not be made.
#[derive(Clone, Copy, Debug, PartialEq, Eq, Structural)]
pub enum FinderError {
    /// The concurrency limit is zero: no directory could ever be read.
    ZeroConcurrency,
}

/// Finds git repositories below a root directory.
pub struct GitProjectFinder {
    config: GitFinderConfig,
}

impl GitProjectFinder {
    /// The ignored names are distinct and at least one read may run.
    pub closed spec fn wf(&self) -> bool {
        &&& self.config.wf()
        &&& self.config.max_concurrent_tasks >= 1
    }

    pub closed spec fn settings(&self) -> FinderSettings {
        self.config.settings()
    }

    /// A finder with these settings; refused when the concurrency limit is zero.
    pub fn new(config: GitFinderConfig) -> (r: Result<Self, FinderError>)
        requires
            config.wf(),
        ensures
            config.max_concurrent_tasks == 0 <==> r == Err::<Self, FinderError>(
                FinderError::ZeroConcurrency,
            ),
            r matches Ok(f) ==> f.wf() && f.settings() == config.settings(),
    {
        if config.max_concurrent_tasks == 0 {
            Err(FinderError::ZeroConcurrency)
        } else {
            Ok(GitProjectFinder { config })
        }
    }

    /// How many directory reads may be in progress at once.
    pub fn concurrency_limit(&self) -> (r: usize)
        requires
            self.wf(),
        ensures
            r == self.settings().max_concurrent_tasks,
            r >= 1,
    {
        self.config.max_concurrent_tasks
    }

    /// A builder that starts from the launcher's configuration.
    pub fn builder(config: GitLauncherConfig) -> (r: GitFinderConfigBuilder)
        ensures
            r.wf(),
            r@ == (FinderSettings {
                ignored: names_of(config.ignore_dirs@).to_set(),
                max_depth: Some(config.max_depth),
                max_concurrent_tasks: config.max_concurrent_tasks,
            }),
    {
        GitFinderConfigBuilder::new(config)
    }
}

/// A directory waiting to be read, with its number of hops from the root.
#[derive(Clone, Debug, PartialEq, Eq)]
pub struct PendingDir {
    pub path: String,
    pub depth: usize,
}

/// One entry of a directory listing, as the driver saw it.
#[derive(Clone, Debug, PartialEq, Eq)]
pub struct ChildEntry {
    /// The entry's full path.
    pub path: String,
    /// Its base name, where it has one.
    pub name: Option<String>,
    /// Whether it is a directory (a link to a directory counts as one).
    pub is_dir: bool,
    /// Whether a `.git` directory or file stands directly inside it.
    pub has_git_marker: bool,
}

/// What the walk does with one entry of a listing.
#[derive(Clone, Copy, Debug, PartialEq, Eq, Structural)]
pub enum EntryKind {
    /// Not a directory, or without a name: passed over.
    NotDirectory,
    /// A directory whose name is ignored: neither reported nor entered.
    Ignored,
    /// A directory holding a `.git` entry: reported, and not entered.
    Repository,
    /// Any other directory: read in turn, one hop deeper.
    Descend,
}

pub open spec fn entry_kind(ignored: Set<Seq<char>>, e: ChildEntry) -> EntryKind {
    if !e.is_dir || e.name is None {
        EntryKind::NotDirectory
    } else if ignored.contains(e.name->0@) {
        EntryKind::Ignored
    } else if e.has_git_marker {
        EntryKind::Repository
    } else {
        EntryKind::Descend
    }
}

/// The project that a repository entry is reported as.
pub open spec fn project_of(e: ChildEntry) -> GitProject {
    GitProject { full_path: e.path, folder_name: e.name->0 }
}

/// Whether the children of a directory at `depth` are read.
pub open spec fn children_within_depth(max_depth: Option<usize>, depth: usize) -> bool {
    depth < usize::MAX && within_depth(max_depth, depth + 1)
}

/// The repositories that a listing reports, in listing order.
pub open spec fn listing_projects(ignored: Set<Seq<char>>, entries: Seq<ChildEntry>) -> Seq<
    GitProject,
>
    decreases entries.len(),
{
    if entries.len() == 0 {
        Seq::empty()
    } else {
        let before = listing_projects(ignored, entries.drop_last());
        if entry_kind(ignored, entries.last()) == EntryKind::Repository {
            before.push(project_of(entries.last()))
        } else {
            before
        }
    }
}

/// The directories that a listing of a directory at `depth` queues for
/// reading, in listing order.
pub open spec fn listing_subdirs(
    ignored: Set<Seq<char>>,
    max_depth: Option<usize>,
    depth: usize,
    entries: Seq<ChildEntry>,
) -> Seq<PendingDir>
    decreases entries.len(),
{
    if entries.len() == 0 {
        Seq::empty()
    } else {
        let before = listing_subdirs(ignored, max_depth, depth, entries.drop_last());
        if entry_kind(ignored, entries.last()) == EntryKind::Descend && children_within_depth(
            max_depth,
            depth,
        ) {
            before.push(PendingDir { path: entries.last().path, depth: (depth + 1) as usize })
        } else {
            before
        }
    }
}

/// The state of one walk, as values.
pub struct ScanView {
    /// Directories waiting to be read.
    pub pending: Seq<PendingDir>,
    /// Repositories found so far, in the order found.
    pub found: Seq<GitProject>,
    /// Reads in progress: permits out.
    pub in_use: nat,
    /// The concurrency limit.
    pub capacity: nat,
}

/// What holds of every state of a walk under `settings`: no more reads are
/// in progress than the limit allows, no directory beyond the depth limit
/// waits, and no repository with an ignored name was found.
pub open spec fn scan_invariant(settings: FinderSettings, v: ScanView) -> bool {
    &&& v.capacity == settings.max_concurrent_tasks
    &&& 1 <= v.capacity
    &&& v.in_use <= v.capacity
    &&& forall|i: int|
        0 <= i < v.pending.len() ==> within_depth(settings.max_depth, #[trigger] v.pending[i].depth
            as int)
    &&& forall|i: int|
        0 <= i < v.found.len() ==> !settings.ignored.contains(#[trigger] v.found[i].folder_name@)
}

/// One walk below a root: the directories still to read, the repositories
/// found, and the permits of the concurrency limit.
pub struct DirectoryScan {
    pending: Vec<PendingDir>,
    found: Vec<GitProject>,
    limiter: ConcurrencyLimiter,
}

impl View for DirectoryScan {
    type V = ScanView;

    closed spec fn view(&self) -> ScanView {
        ScanView {
            pending: self.pending@,
            found: self.found@,
            in_use: self.limiter@.in_use,
            capacity: self.limiter@.capacity,
        }
    }
}

impl DirectoryScan {
    /// Whether the walk is over: nothing waits and no read is in progress.
    pub fn is_finished(&self) -> (r: bool)
        ensures
            r == (self@.pending.len() == 0 && self@.in_use == 0),
    {
        self.pending.len() == 0 && self.limiter.in_use() == 0
    }

    /// The repositories found so far.
    pub fn found(&self) -> (r: &Vec<GitProject>)
        ensures
            r@ == self@.found,
    {
        &self.found
    }

    /// How many directories wait to be read.
    pub fn pending_count(&self) -> (r: usize)
        ensures
            r == self@.pending.len(),
    {
        self.pending.len()
    }

    /// How many reads are in progress.
    pub fn reads_in_progress(&self) -> (r: usize)
        ensures
            r == self@.in_use,
    {
        self.limiter.in_use()
    }

    /// The repositories found, in the order found.
    pub fn into_projects(self) -> (r: Vec<GitProject>)
        ensures
            r@ == self@.found,
    {
        self.found
    }
}

/// A copy of `p`.
fn copy_project(p: &GitProject) -> (r: GitProject)
    ensures
        r == *p,
{
    GitProject { full_path: p.full_path.clone(), folder_name: p.folder_name.clone() }
}

/// Whether `p` is the project of a repository entry of `entries`.
pub open spec fn reported_from(ignored: Set<Seq<char>>, entries: Seq<ChildEntry>, p: GitProject) -> bool {
    exists|i: int|
        0 <= i < entries.len() && entry_kind(ignored, #[trigger] entries[i]) == EntryKind::Repository
            && p == project_of(entries[i])
}

/// Whether `path` is the path of an entry of `entries` that is entered.
pub open spec fn queued_from(ignored: Set<Seq<char>>, entries: Seq<ChildEntry>, path: String) -> bool {
    exists|i: int|
        0 <= i < entries.len() && entry_kind(ignored, #[trigger] entries[i]) == EntryKind::Descend
            && path == entries[i].path
}

/// Every repository that a listing reports and every directory that it
/// queues comes from an entry whose name is not ignored; so nothing below an
/// ignored directory is ever read or reported.
pub proof fn law_ignored_names_are_pruned(
    ignored: Set<Seq<char>>,
    max_depth: Option<usize>,
    depth: usize,
    entries: Seq<ChildEntry>,
)
    ensures
        forall|k: int|
            0 <= k < listing_projects(ignored, entries).len() ==> reported_from(
                ignored,
                entries,
                #[trigger] listing_projects(ignored, entries)[k],
            ),
        forall|k: int|
            0 <= k < listing_subdirs(ignored, max_depth, depth, entries).len() ==> queued_from(
                ignored,
                entries,
                #[trigger] listing_subdirs(ignored, max_depth, depth, entries)[k].path,
            ),
        forall|k: int|
            0 <= k < listing_projects(ignored, entries).len() ==> !ignored.contains(
                #[trigger] listing_projects(ignored, entries)[k].folder_name@,
            ),
    decreases entries.len(),
{
    if entries.len() > 0 {
        let rest = entries.drop_last();
        law_ignored_names_are_pruned(ignored, max_depth, depth, rest);
        let n = entries.len() - 1;
        assert forall|k: int| 0 <= k < listing_projects(ignored, entries).len() implies reported_from(
            ignored,
            entries,
            #[trigger] listing_projects(ignored, entries)[k],
        ) by {
            if k < listing_projects(ignored, rest).len() {
                let p = listing_projects(ignored, rest)[k];
                assert(reported_from(ignored, rest, p));
                let i = choose|i: int|
                    0 <= i < rest.len() && entry_kind(ignored, #[trigger] rest[i])
                        == EntryKind::Repository && p == project_of(rest[i]);
                assert(entries[i] == rest[i]);
            } else {
                assert(entries[n] == entries.last());
            }
        }
        assert forall|k: int|
            0 <= k < listing_subdirs(ignored, max_depth, depth, entries).len() implies queued_from(
            ignored,
            entries,
            #[trigger] listing_subdirs(ignored, max_depth, depth, entries)[k].path,
        ) by {
            if k < listing_subdirs(ignored, max_depth, depth, rest).len() {
                let path = listing_subdirs(ignored, max_depth, depth, rest)[k].path;
                assert(queued_from(ignored, rest, path));
                let i = choose|i: int|
                    0 <= i < rest.len() && entry_kind(ignored, #[trigger] rest[i])
                        == EntryKind::Descend && path == rest[i].path;
                assert(entries[i] == rest[i]);
            } else {
                assert(entries[n] == entries.last());
            }
        }
    }
}

/// The directories that a listing at `depth` queues are one hop deeper and
/// within the depth limit; a listing just at the limit queues none, and a
/// listing reports its repositories whatever its depth.
pub proof fn law_depth_is_bounded(
    ignored: Set<Seq<char>>,
    max_depth: Option<usize>,
    depth: usize,
    entries: Seq<ChildEntry>,
)
    ensures
        forall|k: int|
            0 <= k < listing_subdirs(ignored, max_depth, depth, entries).len() ==> {
                &&& #[trigger] listing_subdirs(ignored, max_depth, depth, entries)[k].depth == depth
                    + 1
                &&& within_depth(
                    max_depth,
                    listing_subdirs(ignored, max_depth, depth, entries)[k].depth as int,
                )
            },
        !within_depth(max_depth, depth + 1) ==> listing_subdirs(
            ignored,
            max_depth,
            depth,
            entries,
        ).len() == 0,
    decreases entries.len(),
{
    if entries.len() > 0 {
        let rest = entries.drop_last();
        law_depth_is_bounded(ignored, max_depth, depth, rest);
        let subs = listing_subdirs(ignored, max_depth, depth, entries);
        assert forall|k: int| 0 <= k < subs.len() implies #[trigger] subs[k].depth == depth + 1
            && within_depth(max_depth, subs[k].depth as int) by {
            if k < listing_subdirs(ignored, max_depth, depth, rest).len() {
                assert(subs[k] == listing_subdirs(ignored, max_depth, depth, rest)[k]);
            }
        }
    }
}

/// Two listings handed back in either order leave a walk with the same
/// repositories found and the same directories waiting, counted with
/// multiplicity: what a walk finds does not depend on the order in which its
/// reads complete, so walking an unchanged tree twice finds the same set.
pub proof fn law_completion_order_is_immaterial(
    ignored: Set<Seq<char>>,
    max_depth: Option<usize>,
    found: Seq<GitProject>,
    pending: Seq<PendingDir>,
    d1: usize,
    e1: Seq<ChildEntry>,
    d2: usize,
    e2: Seq<ChildEntry>,
)
    ensures
        (found + listing_projects(ignored, e1) + listing_projects(ignored, e2)).to_multiset() == (
        found + listing_projects(ignored, e2) + listing_projects(ignored, e1)).to_multiset(),
        (pending + listing_subdirs(ignored, max_depth, d1, e1) + listing_subdirs(
            ignored,
            max_depth,
            d2,
            e2,
        )).to_multiset() == (pending + listing_subdirs(ignored, max_depth, d2, e2)
            + listing_subdirs(ignored, max_depth, d1, e1)).to_multiset(),
{
    broadcast use vstd::seq_lib::lemma_multiset_commutative;

    let p1 = listing_projects(ignored, e1);
    let p2 = listing_projects(ignored, e2);
    assert((found + p1 + p2).to_multiset() =~= (found + p2 + p1).to_multiset());
    let s1 = listing_subdirs(ignored, max_depth, d1, e1);
    let s2 = listing_subdirs(ignored, max_depth, d2, e2);
    assert((pending + s1 + s2).to_multiset() =~= (pending + s2 + s1).to_multiset());
}

impl GitProjectFinder {
    /// How the finder classifies one listing entry.
    pub fn classify(&self, e: &ChildEntry) -> (k: EntryKind)
        requires
            self.wf(),
        ensures
            k == entry_kind(self.settings().ignored, *e),
    {
        match &e.name {
            None => EntryKind::NotDirectory,
            Some(name) => {
                if !e.is_dir {
                    EntryKind::NotDirectory
                } else if self.config.is_ignored(name) {
                    EntryKind::Ignored
                } else if e.has_git_marker {
                    EntryKind::Repository
                } else {
                    EntryKind::Descend
                }
            },
        }
    }

    /// Whether an entry must be probed for a `.git` marker: a named
    /// directory whose name is not ignored. Ignored directories are never
    /// looked into.
    pub fn needs_marker_probe(&self, name: &Option<String>, is_dir: bool) -> (r: bool)
        requires
            self.wf(),
        ensures
            r == (is_dir && name is Some && !self.settings().ignored.contains(name->0@)),
    {
        match name {
            None => false,
            Some(n) => is_dir && !self.config.is_ignored(n),
        }
    }

    /// Starts a walk below `root`: the root waits to be read, at depth zero.
    pub fn begin_scan(&self, root: String) -> (s: DirectoryScan)
        requires
            self.wf(),
        ensures
            scan_invariant(self.settings(), s@),
            s@.pending == seq![PendingDir { path: root, depth: 0 }],
            s@.found == Seq::<GitProject>::empty(),
            s@.in_use == 0,
    {
        let s = DirectoryScan {
            pending: vec![PendingDir { path: root, depth: 0 }],
            found: Vec::new(),
            limiter: ConcurrencyLimiter::new(self.config.max_concurrent_tasks),
        };
        assert(s@.pending =~= seq![PendingDir { path: root, depth: 0 }]);
        s
    }

    /// The next directory to read, when one waits and a permit is free; the
    /// permit is then held until the listing is handed back.
    pub fn next_directory(&self, scan: &mut DirectoryScan) -> (r: Option<PendingDir>)
        requires
            self.wf(),
            scan_invariant(self.settings(), old(scan)@),
        ensures
            scan_invariant(self.settings(), final(scan)@),
            final(scan)@.found == old(scan)@.found,
            final(scan)@.capacity == old(scan)@.capacity,
            if old(scan)@.in_use < old(scan)@.capacity && old(scan)@.pending.len() > 0 {
                &&& r == Some(old(scan)@.pending.last())
                &&& final(scan)@.pending == old(scan)@.pending.drop_last()
                &&& final(scan)@.in_use == old(scan)@.in_use + 1
            } else {
                &&& r is None
                &&& final(scan)@ == old(scan)@
            },
    {
        if scan.pending.len() == 0 || scan.limiter.available() == 0 {
            return None;
        }
        let granted = scan.limiter.try_acquire();
        assert(granted);
        let ghost before = scan@.pending;
        let r = scan.pending.pop();
        assert forall|i: int| 0 <= i < scan@.pending.len() implies within_depth(
            self.settings().max_depth,
            #[trigger] scan@.pending[i].depth as int,
        ) by {
            assert(scan@.pending[i] == before[i]);
        }
        assert(scan@.found == old(scan)@.found);
        r
    }

    /// Takes back the listing of a directory that `next_directory` handed
    /// out (`None` when it could not be read, which skips it) and returns
    /// its permit. Repository entries are recorded as found; other
    /// directories that are not ignored wait to be read one hop deeper,
    /// while that stays within the depth limit.
    pub fn complete_directory(
        &self,
        scan: &mut DirectoryScan,
        dir: &PendingDir,
        listing: Option<Vec<ChildEntry>>,
    )
        requires
            self.wf(),
            scan_invariant(self.settings(), old(scan)@),
            old(scan)@.in_use > 0,
        ensures
            scan_invariant(self.settings(), final(scan)@),
            final(scan)@.capacity == old(scan)@.capacity,
            final(scan)@.in_use == old(scan)@.in_use - 1,
            match listing {
                None => final(scan)@.found == old(scan)@.found && final(scan)@.pending == old(
                    scan,
                )@.pending,
                Some(entries) => {
                    &&& final(scan)@.found == old(scan)@.found + listing_projects(
                        self.settings().ignored,
                        entries@,
                    )
                    &&& final(scan)@.pending == old(scan)@.pending + listing_subdirs(
                        self.settings().ignored,
                        self.settings().max_depth,
                        dir.depth,
                        entries@,
                    )
                },
            },
    {
        scan.limiter.release();
        let ghost ignored = self.settings().ignored;
        let ghost max_depth = self.settings().max_depth;
        match listing {
            None => {},
            Some(entries) => {
                let descend = dir.depth < usize::MAX && match self.config.max_depth {
                    Some(m) => dir.depth + 1 <= m,
                    None => true,
                };
                let mut i: usize = 0;
                while i < entries.len()
                    invariant
                        self.wf(),
                        ignored == self.settings().ignored,
                        max_depth == self.settings().max_depth,
                        descend == children_within_depth(max_depth, dir.depth),
                        i <= entries.len(),
                        scan.limiter@.capacity == old(scan)@.capacity,
                        scan.limiter@.in_use == old(scan)@.in_use - 1,
                        scan@.found == old(scan)@.found + listing_projects(
                            ignored,
                            entries@.take(i as int),
                        ),
                        scan@.pending == old(scan)@.pending + listing_subdirs(
                            ignored,
                            max_depth,
                            dir.depth,
                            entries@.take(i as int),
                        ),
                    decreases entries.len() - i,
                {
                    let e = &entries[i];
                    let kind = self.classify(e);
                    assert(entries@.take(i + 1).drop_last() =~= entries@.take(i as int));
                    match kind {
                        EntryKind::Repository => {
                            let name = match &e.name {
                                Some(n) => n.clone(),
                                None => String::new(),
                            };
                            scan.found.push(GitProject { full_path: e.path.clone(), folder_name: name });
                        },
                        EntryKind::Descend => {
                            if descend {
                                scan.pending.push(PendingDir { path: e.path.clone(), depth: dir.depth + 1 });
                            }
                        },
                        _ => {},
                    }
                    i = i + 1;
                }
                assert(entries@.take(entries.len() as int) =~= entries@);
                proof {
                    law_ignored_names_are_pruned(ignored, max_depth, dir.depth, entries@);
                    law_depth_is_bounded(ignored, max_depth, dir.depth, entries@);
                    let added_found = listing_projects(ignored, entries@);
                    let added_pending = listing_subdirs(ignored, max_depth, dir.depth, entries@);
                    assert forall|j: int| 0 <= j < scan@.found.len() implies !ignored.contains(
                        #[trigger] scan@.found[j].folder_name@,
                    ) by {
                        if j >= old(scan)@.found.len() {
                            assert(scan@.found[j] == added_found[j - old(scan)@.found.len()]);
                        }
                    }
                    assert forall|j: int| 0 <= j < scan@.pending.len() implies within_depth(
                        max_depth,
                        #[trigger] scan@.pending[j].depth as int,
                    ) by {
                        if j >= old(scan)@.pending.len() {
                            assert(scan@.pending[j] == added_pending[j - old(scan)@.pending.len()]);
                        }
                    }
                }
            },
        }
    }
}

/// What stands at `<directory>/.git`.
#[derive(Clone, Debug, PartialEq, Eq)]
pub enum GitMarker {
    /// Nothing, or neither a file nor a directory.
    Missing,
    /// A directory: an ordinary repository.
    Directory,
    /// A file, with its text where it could be read.
    File { content: Option<String> },
}

/// Whether a `.git` entry makes its directory a submodule or worktree link:
/// a file whose trimmed text begins with `gitdir:`. An unreadable file does
/// not.
pub open spec fn marker_is_submodule(m: GitMarker) -> bool {
    match m {
        GitMarker::File { content: Some(c) } => is_gitdir_link(c@),
        _ => false,
    }
}

/// The projects whose marker does not make them submodules, in order.
pub open spec fn kept_projects(projects: Seq<GitProject>, markers: Seq<GitMarker>) -> Seq<
    GitProject,
>
    decreases projects.len(),
{
    if projects.len() == 0 {
        Seq::empty()
    } else {
        let before = kept_projects(projects.drop_last(), markers.drop_last());
        if marker_is_submodule(markers[projects.len() - 1]) {
            before
        } else {
            before.push(projects.last())
        }
    }
}

impl GitProjectFinder {
    /// Whether a `.git` entry marks a repository: a directory or a file.
    pub fn is_git_repository(marker: &GitMarker) -> (r: bool)
        ensures
            r == !(marker is Missing),
    {
        match marker {
            GitMarker::Missing => false,
            _ => true,
        }
    }

    /// Whether a `.git` entry makes its directory a submodule.
    pub fn is_submodule(marker: &GitMarker) -> (r: bool)
        ensures
            r == marker_is_submodule(*marker),
    {
        match marker {
            GitMarker::File { content: Some(c) } => is_gitdir_link_text(c.as_str()),
            _ => false,
        }
    }

    /// Drops the projects that are submodules; `markers[i]` is what stands at
    /// the `.git` of `projects[i]`.
    pub fn filter_submodules(&self, projects: Vec<GitProject>, markers: &Vec<GitMarker>) -> (r: Vec<
        GitProject,
    >)
        requires
            projects.len() == markers.len(),
        ensures
            r@ == kept_projects(projects@, markers@),
    {
        let mut r: Vec<GitProject> = Vec::new();
        let mut i: usize = 0;
        while i < projects.len()
            invariant
                i <= projects.len(),
                projects.len() == markers.len(),
                r@ == kept_projects(projects@.take(i as int), markers@.take(i as int)),
            decreases projects.len() - i,
        {
            assert(projects@.take(i + 1).drop_last() =~= projects@.take(i as int));
            assert(markers@.take(i + 1).drop_last() =~= markers@.take(i as int));
            if !Self::is_submodule(&markers[i]) {
                r.push(copy_project(&projects[i]));
            }
            i = i + 1;
        }
        assert(projects@.take(projects.len() as int) =~= projects@);
        assert(markers@.take(markers.len() as int) =~= markers@);
        r
    }
}

} // verus!
