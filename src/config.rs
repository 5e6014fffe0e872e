//! The launcher's settings: where to look for repositories, what to skip,
//! how deep to go, and which editor opens a repository.
use vstd::prelude::*;

verus! {

/// The text of each string in `v`, in order.
pub open spec fn names_of(v: Seq<String>) -> Seq<Seq<char>> {
    v.map_values(|s: String| s@)
}

/// Settings of the repository search.
pub struct GitLauncherConfig {
    /// Root directories to search, one scan each.
    pub base_dir: Vec<String>,
    /// Directory names that are never entered.
    pub ignore_dirs: Vec<String>,
    /// How many levels below a root are read.
    pub max_depth: usize,
    /// How many directory reads may be in progress at once.
    pub max_concurrent_tasks: usize,
}

impl Default for GitLauncherConfig {
    fn default() -> (r: Self)
        ensures
            names_of(r.base_dir@) == seq!["/Users/ranger/Desktop/project"@],
            names_of(r.ignore_dirs@) == seq![
                "node_modules"@,
                "target"@,
                ".git"@,
                "build"@,
                "dist"@,
            ],
            r.max_depth == 10,
            r.max_concurrent_tasks == 20,
    {
        let r = GitLauncherConfig {
            base_dir: vec!["/Users/ranger/Desktop/project".to_string()],
            ignore_dirs: vec![
                "node_modules".to_string(),
                "target".to_string(),
                ".git".to_string(),
                "build".to_string(),
                "dist".to_string(),
            ],
            max_depth: 10,
            max_concurrent_tasks: 20,
        };
        assert(names_of(r.base_dir@) =~= seq!["/Users/ranger/Desktop/project"@]);
        assert(names_of(r.ignore_dirs@) =~= seq![
            "node_modules"@,
            "target"@,
            ".git"@,
            "build"@,
            "dist"@,
        ]);
        r
    }
}

/// The program that opens a chosen repository.
pub struct GitLauncherEditorConfig {
    pub editor: String,
}

impl Default for GitLauncherEditorConfig {
    fn default() -> (r: Self)
        ensures
            r.editor@ == "/Applications/Visual Studio Code.app"@,
    {
        GitLauncherEditorConfig { editor: "/Applications/Visual Studio Code.app".to_string() }
    }
}

} // verus!
