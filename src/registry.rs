//! The registry of repositories found: at most one record per path, across
//! every root and every scan.
use vstd::prelude::*;
use crate::finder::GitProject;
use crate::text::{contains_text, text_contains};

verus! {

/// A repository as the launcher lists it.
#[derive(Clone, Debug)]
pub struct Repo {
    pub name: String,
    pub path: String,
    pub language: String,
    pub count: u32,
}

/// A repository record as values.
pub struct RepoView {
    pub name: Seq<char>,
    pub path: Seq<char>,
    pub language: Seq<char>,
    pub count: u32,
}

impl View for Repo {
    type V = RepoView;

    open spec fn view(&self) -> RepoView {
        RepoView {
            name: self.name@,
            path: self.path@,
            language: self.language@,
            count: self.count,
        }
    }
}

/// Two records are the same repository when their paths are equal.
impl PartialEq for Repo {
    fn eq(&self, o: &Repo) -> (r: bool) {
        self.path == o.path
    }
}

impl vstd::std_specs::cmp::PartialEqSpecImpl for Repo {
    open spec fn obeys_eq_spec() -> bool {
        true
    }

    open spec fn eq_spec(&self, o: &Repo) -> bool {
        self.path@ == o.path@
    }
}

impl Eq for Repo {}

/// The paths of `s`, in order.
pub open spec fn paths_of(s: Seq<RepoView>) -> Seq<Seq<char>> {
    s.map_values(|r: RepoView| r.path)
}

/// The record that a found project becomes before its language is known.
pub open spec fn record_of(p: GitProject) -> RepoView {
    RepoView {
        name: p.folder_name@,
        path: p.full_path@,
        language: seq!['u', 'n', 'k', 'n', 'o', 'w', 'n'],
        count: 0,
    }
}

/// `s` with `r` added, unless a record with its path is there already.
pub open spec fn insert_record(s: Seq<RepoView>, r: RepoView) -> Seq<RepoView> {
    if paths_of(s).contains(r.path) {
        s
    } else {
        s.push(r)
    }
}

/// `s` with the record of each project added in turn.
pub open spec fn merge_records(s: Seq<RepoView>, projects: Seq<GitProject>) -> Seq<RepoView>
    decreases projects.len(),
{
    if projects.len() == 0 {
        s
    } else {
        insert_record(merge_records(s, projects.drop_last()), record_of(projects.last()))
    }
}

/// The records of `s` whose name contains `query`, in order.
pub open spec fn matching_records(s: Seq<RepoView>, query: Seq<char>) -> Seq<RepoView>
    decreases s.len(),
{
    if s.len() == 0 {
        s
    } else if contains_text(s.last().name, query) {
        matching_records(s.drop_last(), query).push(s.last())
    } else {
        matching_records(s.drop_last(), query)
    }
}

/// The records of the registry, keyed by path.
pub struct RepoState {
    repos: Vec<Repo>,
}

impl View for RepoState {
    type V = Seq<RepoView>;

    closed spec fn view(&self) -> Seq<RepoView> {
        self.repos@.map_values(|r: Repo| r@)
    }
}

/// A copy of `r`.
fn copy_repo(r: &Repo) -> (c: Repo)
    ensures
        c@ == r@,
{
    Repo {
        name: r.name.clone(),
        path: r.path.clone(),
        language: r.language.clone(),
        count: r.count,
    }
}

impl RepoState {
    /// No two records have the same path.
    pub open spec fn wf(&self) -> bool {
        paths_of(self@).no_duplicates()
    }

    /// An empty registry.
    pub fn new() -> (r: Self)
        ensures
            r.wf(),
            r@ == Seq::<RepoView>::empty(),
    {
        let r = RepoState { repos: Vec::new() };
        assert(r@ =~= Seq::<RepoView>::empty());
        r
    }

    /// How many records the registry holds.
    pub fn len(&self) -> (n: usize)
        ensures
            n == self@.len(),
    {
        self.repos.len()
    }

    /// The records, in the order they were added.
    pub fn repos(&self) -> (r: &Vec<Repo>)
        ensures
            r@.map_values(|x: Repo| x@) == self@,
    {
        &self.repos
    }

    /// Whether a record with this path is held.
    pub fn contains_path(&self, path: &String) -> (r: bool)
        ensures
            r == paths_of(self@).contains(path@),
    {
        let mut i: usize = 0;
        while i < self.repos.len()
            invariant
                i <= self.repos.len(),
                forall|j: int| 0 <= j < i ==> self.repos@[j].path@ != path@,
            decreases self.repos.len() - i,
        {
            if self.repos[i].path == *path {
                assert(paths_of(self@)[i as int] == path@);
                return true;
            }
            i = i + 1;
        }
        assert forall|j: int| 0 <= j < paths_of(self@).len() implies paths_of(self@)[j]
            != path@ by {
            assert(paths_of(self@)[j] == self.repos@[j].path@);
        }
        false
    }

    /// The records whose name contains `query`, in the registry's order.
    pub fn matching(&self, query: &str) -> (r: Vec<Repo>)
        ensures
            r@.map_values(|x: Repo| x@) == matching_records(self@, query@),
    {
        let mut r: Vec<Repo> = Vec::new();
        let mut i: usize = 0;
        while i < self.repos.len()
            invariant
                i <= self.repos.len(),
                r@.map_values(|x: Repo| x@) == matching_records(self@.take(i as int), query@),
            decreases self.repos.len() - i,
        {
            assert(self@.take(i + 1).drop_last() =~= self@.take(i as int));
            assert(self@.take(i + 1).last() == self.repos@[i as int]@);
            if text_contains(self.repos[i].name.as_str(), query) {
                let ghost before = r@;
                r.push(copy_repo(&self.repos[i]));
                assert(r@.map_values(|x: Repo| x@) =~= before.map_values(|x: Repo| x@).push(
                    self.repos@[i as int]@,
                ));
            }
            i = i + 1;
        }
        assert(self@.take(self.repos.len() as int) =~= self@);
        r
    }

    /// Adds `repo` unless a record with its path is held already, which is
    /// then kept as it is. Returns whether it was added.
    pub fn insert(&mut self, repo: Repo) -> (added: bool)
        requires
            old(self).wf(),
        ensures
            final(self).wf(),
            added == !paths_of(old(self)@).contains(repo.path@),
            final(self)@ == insert_record(old(self)@, repo@),
    {
        if self.contains_path(&repo.path) {
            false
        } else {
            let ghost before = self@;
            self.repos.push(repo);
            assert(self@ =~= before.push(repo@));
            assert(paths_of(self@) =~= paths_of(before).push(repo@.path));
            true
        }
    }

    /// Adds a record for each project found, with its language unknown and
    /// a count of zero; a path held already keeps its record.
    pub fn merge_projects(&mut self, projects: &Vec<GitProject>)
        requires
            old(self).wf(),
        ensures
            final(self).wf(),
            final(self)@ == merge_records(old(self)@, projects@),
    {
        let mut i: usize = 0;
        while i < projects.len()
            invariant
                i <= projects.len(),
                self.wf(),
                self@ == merge_records(old(self)@, projects@.take(i as int)),
            decreases projects.len() - i,
        {
            let p = &projects[i];
            let repo = Repo {
                name: p.folder_name.clone(),
                path: p.full_path.clone(),
                language: "unknown".to_string(),
                count: 0,
            };
            proof {
                reveal_strlit("unknown");
                assert("unknown"@ =~= seq!['u', 'n', 'k', 'n', 'o', 'w', 'n']);
            }
            assert(repo@ == record_of(*p));
            assert(projects@.take(i + 1).drop_last() =~= projects@.take(i as int));
            self.insert(repo);
            i = i + 1;
        }
        assert(projects@.take(projects.len() as int) =~= projects@);
    }
}

/// The paths of `projects`, in order.
pub open spec fn project_paths(projects: Seq<GitProject>) -> Seq<Seq<char>> {
    projects.map_values(|p: GitProject| p.full_path@)
}

proof fn lemma_paths_after_insert(s: Seq<RepoView>, r: RepoView)
    ensures
        forall|x: Seq<char>|
            paths_of(insert_record(s, r)).contains(x) <==> (paths_of(s).contains(x) || x == r.path),
        paths_of(s).no_duplicates() ==> paths_of(insert_record(s, r)).no_duplicates(),
        insert_record(s, r).len() == s.len() + if paths_of(s).contains(r.path) {
            0int
        } else {
            1int
        },
{
    broadcast use vstd::seq_lib::lemma_seq_contains_after_push;

    if !paths_of(s).contains(r.path) {
        assert(paths_of(s.push(r)) =~= paths_of(s).push(r.path));
    }
}

/// What merging projects does to the paths held: the paths after are those
/// before together with the projects' paths; they stay distinct; and where
/// the projects' paths are distinct and new, each adds one record.
proof fn lemma_paths_after_merge(s: Seq<RepoView>, projects: Seq<GitProject>)
    ensures
        forall|x: Seq<char>|
            paths_of(merge_records(s, projects)).contains(x) <==> (paths_of(s).contains(x)
                || project_paths(projects).contains(x)),
        paths_of(s).no_duplicates() ==> paths_of(merge_records(s, projects)).no_duplicates(),
        (project_paths(projects).no_duplicates() && forall|i: int|
            0 <= i < projects.len() ==> !paths_of(s).contains(#[trigger] projects[i].full_path@))
            ==> merge_records(s, projects).len() == s.len() + projects.len(),
    decreases projects.len(),
{
    broadcast use vstd::seq_lib::lemma_seq_contains_after_push;

    if projects.len() > 0 {
        let rest = projects.drop_last();
        let last = projects.last();
        lemma_paths_after_merge(s, rest);
        lemma_paths_after_insert(merge_records(s, rest), record_of(last));
        assert(project_paths(projects) =~= project_paths(rest).push(last.full_path@));
        if project_paths(projects).no_duplicates() && forall|i: int|
            0 <= i < projects.len() ==> !paths_of(s).contains(#[trigger] projects[i].full_path@) {
            assert forall|i: int| 0 <= i < rest.len() implies !paths_of(s).contains(
                #[trigger] rest[i].full_path@,
            ) by {
                assert(rest[i] == projects[i]);
            }
            assert(project_paths(rest).no_duplicates()) by {
                assert forall|i: int, j: int|
                    0 <= i < project_paths(rest).len() && 0 <= j < project_paths(rest).len() && i
                        != j implies project_paths(rest)[i] != project_paths(rest)[j] by {
                    assert(project_paths(rest)[i] == project_paths(projects)[i]);
                    assert(project_paths(rest)[j] == project_paths(projects)[j]);
                }
            }
            assert(!paths_of(merge_records(s, rest)).contains(last.full_path@)) by {
                assert(!paths_of(s).contains(projects[projects.len() - 1].full_path@));
                if project_paths(rest).contains(last.full_path@) {
                    let i = choose|i: int|
                        0 <= i < project_paths(rest).len() && project_paths(rest)[i]
                            == last.full_path@;
                    assert(project_paths(projects)[i] == project_paths(projects)[projects.len()
                        - 1]);
                }
            }
        }
    }
}

/// A registry built from the projects of one scan, whose paths are
/// distinct, holds exactly one record per project, and no two records share
/// a path.
pub proof fn law_distinct_projects_give_one_record_each(projects: Seq<GitProject>)
    requires
        project_paths(projects).no_duplicates(),
    ensures
        merge_records(Seq::empty(), projects).len() == projects.len(),
        paths_of(merge_records(Seq::empty(), projects)).no_duplicates(),
        forall|x: Seq<char>|
            paths_of(merge_records(Seq::empty(), projects)).contains(x) <==> project_paths(
                projects,
            ).contains(x),
{
    let e = Seq::<RepoView>::empty();
    assert(paths_of(e) =~= Seq::<Seq<char>>::empty());
    lemma_paths_after_merge(e, projects);
}

proof fn lemma_merge_of_held_paths(t: Seq<RepoView>, projects: Seq<GitProject>)
    requires
        forall|i: int| 0 <= i < projects.len() ==> paths_of(t).contains(#[trigger] projects[i].full_path@),
    ensures
        merge_records(t, projects) == t,
    decreases projects.len(),
{
    if projects.len() > 0 {
        let rest = projects.drop_last();
        assert forall|i: int| 0 <= i < rest.len() implies paths_of(t).contains(
            #[trigger] rest[i].full_path@,
        ) by {
            assert(rest[i] == projects[i]);
        }
        lemma_merge_of_held_paths(t, rest);
        assert(paths_of(t).contains(projects[projects.len() - 1].full_path@));
    }
}

/// Recording the results of the same scan a second time changes nothing:
/// merging is idempotent.
pub proof fn law_merge_is_idempotent(s: Seq<RepoView>, projects: Seq<GitProject>)
    ensures
        merge_records(merge_records(s, projects), projects) == merge_records(s, projects),
{
    let t = merge_records(s, projects);
    lemma_paths_after_merge(s, projects);
    assert forall|i: int| 0 <= i < projects.len() implies paths_of(t).contains(
        #[trigger] projects[i].full_path@,
    ) by {
        assert(project_paths(projects)[i] == projects[i].full_path@);
        assert(project_paths(projects).contains(projects[i].full_path@));
        assert(paths_of(merge_records(s, projects)).contains(projects[i].full_path@));
    }
    lemma_merge_of_held_paths(t, projects);
}

} // verus!
