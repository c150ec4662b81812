//! Mappings from local repositories to the Linear team/project they track.
use vstd::prelude::*;
use crate::paths::{
    components, config_file, config_file_in, expand_home, expand_home_with, home_dir, opt_view,
    path_components, path_starts_with, strings_prefix, ConfigError,
};
use crate::text::views;

verus! {

/// Maps a local repo path to the Linear team/project it corresponds to, so
/// the issue list can default to it and extension commands know where to run
/// (the `{project_root}` placeholder).
#[derive(Clone, Debug)]
pub struct Project {
    /// Repo path, e.g. "~/code/own/VirtualAssistant"; `~` is expanded
    /// against the home directory.
    pub path: String,
    /// Linear team name.
    pub team: String,
    /// Linear project name.
    pub project: String,
}

impl Project {
    /// A copy of this mapping.
    pub fn duplicate(&self) -> (r: Project)
        ensures
            r == *self,
    {
        Project { path: self.path.clone(), team: self.team.clone(), project: self.project.clone() }
    }

    /// The `~`-expanded path against home directory `home`.
    pub open spec fn root_in(&self, home: Option<Seq<char>>) -> Seq<char> {
        expand_home(self.path@, home)
    }

    /// Absolute, `~`-expanded path, used both for matching the working
    /// directory and as the `{project_root}` value. The home directory comes
    /// from the environment, so the result is the expansion against whatever
    /// home directory (or none) the system reports.
    pub fn root(&self) -> (r: String)
        ensures
            exists|home: Option<Seq<char>>| r@ == self.root_in(home),
    {
        let home = home_dir();
        let r = match &home {
            Some(h) => expand_home_with(self.path.as_str(), Some(h.as_str())),
            None => expand_home_with(self.path.as_str(), None),
        };
        assert(r@ == self.root_in(match &home {
            Some(h) => Some(h@),
            None => None,
        }));
        r
    }
}

/// Whether `cwd` lies inside (or is) the root of `p`, with home `home`.
pub open spec fn covers(p: Project, cwd: Seq<char>, home: Option<Seq<char>>) -> bool {
    path_starts_with(cwd, p.root_in(home))
}

/// Number of components of the root of `p`: how specific the mapping is.
pub open spec fn depth(p: Project, home: Option<Seq<char>>) -> nat {
    components(p.root_in(home)).len()
}

/// `r` names the mapping to use for `cwd`: one whose root contains `cwd`
/// with the most components, the last such one on a tie; `None` when no
/// root contains `cwd`.
pub open spec fn most_specific(
    projects: Seq<Project>,
    cwd: Seq<char>,
    home: Option<Seq<char>>,
    r: Option<int>,
) -> bool {
    match r {
        None => forall|i: int| 0 <= i < projects.len() ==> !covers(#[trigger] projects[i], cwd, home),
        Some(i) => {
            &&& 0 <= i < projects.len()
            &&& covers(projects[i], cwd, home)
            &&& forall|j: int|
                0 <= j < projects.len() && covers(#[trigger] projects[j], cwd, home) ==> depth(
                    projects[j],
                    home,
                ) <= depth(projects[i], home) && (j > i ==> depth(projects[j], home) < depth(
                    projects[i],
                    home,
                ))
        },
    }
}

/// The position of the mapping for `cwd` among `projects`, with home
/// directory `home`.
pub fn find_active_with_home(projects: &Vec<Project>, cwd: &str, home: Option<&str>) -> (r: Option<
    usize,
>)
    ensures
        most_specific(
            projects@,
            cwd@,
            opt_view(home),
            match r {
                Some(i) => Some(i as int),
                None => None,
            },
        ),
{
    let ghost h = opt_view(home);
    let cwd_parts = path_components(cwd);
    let mut best: Option<usize> = None;
    let mut best_depth: usize = 0;
    let mut i: usize = 0;
    while i < projects.len()
        invariant
            i <= projects.len(),
            h == opt_view(home),
            views(cwd_parts@) == components(cwd@),
            match best {
                None => forall|j: int| 0 <= j < i ==> !covers(#[trigger] projects@[j], cwd@, h),
                Some(b) => {
                    &&& b < i
                    &&& covers(projects@[b as int], cwd@, h)
                    &&& best_depth == depth(projects@[b as int], h)
                    &&& forall|j: int|
                        0 <= j < i && covers(#[trigger] projects@[j], cwd@, h) ==> depth(
                            projects@[j],
                            h,
                        ) <= best_depth && (j > b ==> depth(projects@[j], h) < best_depth)
                },
            },
        decreases projects.len() - i,
    {
        let root = expand_home_with(projects[i].path.as_str(), home);
        let parts = path_components(root.as_str());
        if strings_prefix(&parts, &cwd_parts) {
            let d = parts.len();
            let take = match best {
                None => true,
                Some(_) => d >= best_depth,
            };
            if take {
                best = Some(i);
                best_depth = d;
            }
        }
        i = i + 1;
    }
    best
}

/// The mapping for working directory `cwd`: the one whose root is an
/// ancestor of (or equal to) `cwd`, preferring the most specific (longest)
/// root. The home directory comes from the environment; the choice is the
/// one for whatever home directory the system reports. Paths are compared
/// component by component as on Unix (see `crate::paths`).
pub fn find_active<'a>(projects: &'a Vec<Project>, cwd: &str) -> (r: Option<&'a Project>)
    ensures
        exists|home: Option<Seq<char>>, i: Option<int>|
            most_specific(projects@, cwd@, home, i) && match i {
                Some(k) => r == Some(&projects@[k]),
                None => r is None,
            },
{
    let home = home_dir();
    let idx = match &home {
        Some(h) => find_active_with_home(projects, cwd, Some(h.as_str())),
        None => find_active_with_home(projects, cwd, None),
    };
    let ghost hv: Option<Seq<char>> = match &home {
        Some(h) => Some(h@),
        None => None,
    };
    let ghost iv: Option<int> = match idx {
        Some(k) => Some(k as int),
        None => None,
    };
    match idx {
        Some(k) => {
            assert(most_specific(projects@, cwd@, hv, iv));
            Some(&projects[k])
        },
        None => {
            assert(most_specific(projects@, cwd@, hv, iv));
            None
        },
    }
}

/// Path of the project mappings file, `~/.harness/projects.toml`.
pub fn config_path() -> (r: Result<String, ConfigError>)
    ensures
        r matches Ok(p) ==> exists|home: Seq<char>| p@ == config_file_in(home, "projects.toml"@),
        r matches Err(e) ==> e == ConfigError::NoHomeDirectory,
{
    config_file("projects.toml")
}

/// A mapping written with a leading `~/` is rooted in the home directory
/// when one is known: its root is the home directory's path followed by the
/// rest of the mapping's path; with no home directory it stays as written.
pub proof fn lemma_tilde_root_in_home(p: Project, h: Seq<char>)
    requires
        p.path@.len() >= 2,
        p.path@[0] == '~',
        p.path@[1] == '/',
        !(p.path@.len() > 2 && p.path@[2] == '/'),
    ensures
        p.root_in(Some(h)).len() >= h.len(),
        p.root_in(Some(h)).subrange(0, h.len() as int) == h,
        p.root_in(Some(h)).skip(p.root_in(Some(h)).len() - (p.path@.len() - 2)) == p.path@.skip(2),
        p.root_in(None) == p.path@,
{
    let rest = p.path@.skip(2);
    let r = p.root_in(Some(h));
    if h.len() == 0 || h.last() == '/' {
        assert(r =~= h + rest);
    } else {
        assert(r =~= h + seq!['/'] + rest);
    }
    assert(r.subrange(0, h.len() as int) =~= h);
    assert(r.skip(r.len() - rest.len()) =~= rest);
}

} // verus!
