use vstd::prelude::*;

use crate::text::ends_with;
use crate::text::last_sep_index;
use crate::text::spec_ends_with;
use crate::text::spec_file_name;
use crate::text::spec_stem;
use crate::text::substring;

verus! {

/// One registered project: its name, the directory it lives in, and when
/// it was last opened, as the editor's own settings record it.
#[derive(Debug)]
pub struct Project {
    pub name: String,
    pub path: String,
    pub last_open_time: String,
}

/// Mathematical image of a [`Project`].
#[verifier::ext_equal]
pub struct ProjectView {
    pub name: Seq<char>,
    pub path: Seq<char>,
    pub last_open_time: Seq<char>,
}

impl View for Project {
    type V = ProjectView;

    open spec fn view(&self) -> ProjectView {
        ProjectView {
            name: self.name@,
            path: self.path@,
            last_open_time: self.last_open_time@,
        }
    }
}

/// Whether a path points at a project descriptor file.
pub open spec fn spec_is_uproject(s: Seq<char>) -> bool {
    spec_ends_with(s, ".uproject"@)
}

/// The first index at or after `i` whose path is a project descriptor,
/// or -1.
pub open spec fn spec_first_uproject_from(paths: Seq<Seq<char>>, i: int) -> int
    decreases paths.len() - i,
{
    if i < 0 || i >= paths.len() {
        -1
    } else if spec_is_uproject(paths[i]) {
        i
    } else {
        spec_first_uproject_from(paths, i + 1)
    }
}

/// The first path in the list that is a project descriptor, or -1.
pub open spec fn spec_first_uproject(paths: Seq<Seq<char>>) -> int {
    spec_first_uproject_from(paths, 0)
}

/// A prefix without descriptors does not move the first descriptor.
pub proof fn lemma_first_uproject_skip(paths: Seq<Seq<char>>, i: int)
    requires
        0 <= i <= paths.len(),
        forall|j: int| 0 <= j < i ==> !spec_is_uproject(#[trigger] paths[j]),
    ensures
        spec_first_uproject(paths) == spec_first_uproject_from(paths, i),
    decreases i,
{
    if i > 0 {
        lemma_first_uproject_skip(paths, i - 1);
    }
}

/// The name the descriptor gives the project: the file name of the first
/// descriptor path, without its extension.
pub open spec fn spec_project_name(paths: Seq<Seq<char>>) -> Seq<char> {
    spec_stem(spec_file_name(paths[spec_first_uproject(paths)]))
}

impl Project {
    /// Whether any of the given file paths is a project descriptor: a file
    /// whose name ends in `.uproject`.
    pub fn validate_project(paths: &Vec<String>) -> (r: bool)
        ensures
            r == exists|i: int| 0 <= i < paths@.len() && spec_is_uproject(#[trigger] paths@[i]@),
    {
        let mut i: usize = 0;
        while i < paths.len()
            invariant
                i <= paths@.len(),
                forall|j: int| 0 <= j < i ==> !spec_is_uproject(#[trigger] paths@[j]@),
            decreases paths@.len() - i,
        {
            if ends_with(paths[i].as_str(), ".uproject") {
                return true;
            }
            i = i + 1;
        }
        false
    }

    /// The project's name: the file name of the first descriptor path among
    /// the given ones, shorn of its extension. The caller checks with
    /// [`Project::validate_project`] that a descriptor is present.
    pub fn get_project_name(paths: &Vec<String>) -> (r: String)
        requires
            exists|i: int| 0 <= i < paths@.len() && spec_is_uproject(#[trigger] paths@[i]@),
        ensures
            r@ == spec_project_name(paths@.map_values(|p: String| p@)),
    {
        let ghost views = paths@.map_values(|p: String| p@);
        let n = paths.len();
        let mut i: usize = 0;
        loop
            invariant
                n == paths@.len(),
                i < paths@.len(),
                views == paths@.map_values(|p: String| p@),
                exists|k: int| 0 <= k < paths@.len() && spec_is_uproject(#[trigger] paths@[k]@),
                forall|j: int| 0 <= j < i ==> !spec_is_uproject(#[trigger] paths@[j]@),
            decreases paths@.len() - i,
        {
            let p = paths[i].as_str();
            if ends_with(p, ".uproject") {
                proof {
                    assert(views[i as int] == paths@[i as int]@);
                    assert forall|j: int| 0 <= j < i implies !spec_is_uproject(
                        #[trigger] views[j],
                    ) by {
                        assert(views[j] == paths@[j]@);
                    }
                    lemma_first_uproject_skip(views, i as int);
                    assert(spec_first_uproject(views) == i as int);
                }
                let n = crate::text::char_len(p);
                let name_start: usize = match last_sep_index(p) {
                    Some(s) => s + 1,
                    None => 0,
                };
                let name = substring(p, name_start, n);
                proof {
                    assert(name@ =~= spec_file_name(p@));
                }
                let stem_end: usize = match crate::text::last_dot_index(name.as_str()) {
                    Some(d) => {
                        if d > 0 {
                            d
                        } else {
                            crate::text::char_len(name.as_str())
                        }
                    },
                    None => crate::text::char_len(name.as_str()),
                };
                let stem = substring(name.as_str(), 0, stem_end);
                proof {
                    assert(stem@ =~= spec_stem(name@));
                }
                return stem;
            }
            i = i + 1;
            proof {
                if i as int == paths@.len() {
                    let k = choose|k: int|
                        0 <= k < paths@.len() && spec_is_uproject(#[trigger] paths@[k]@);
                    assert(!spec_is_uproject(paths@[k]@));
                    assert(false);
                }
            }
        }
    }

    /// Registers a project under `name` at `path` unless one with the same
    /// name and path is already present; reports whether it was added. A
    /// fresh entry carries the placeholder last-open time `none`.
    pub fn add_project(projects: &mut Vec<Project>, name: &str, path: &str) -> (added: bool)
        ensures
            added == !(exists|i: int|
                0 <= i < old(projects)@.len() && (#[trigger] old(projects)@[i]@.name == name@)
                    && old(projects)@[i]@.path == path@),
            added ==> final(projects)@.map_values(|p: Project| p@) == old(
                projects,
            )@.map_values(|p: Project| p@).push(
                ProjectView { name: name@, path: path@, last_open_time: "none"@ },
            ),
            !added ==> final(projects)@ == old(projects)@,
    {
        let mut i: usize = 0;
        while i < projects.len()
            invariant
                *projects == *old(projects),
                i <= projects@.len(),
                forall|j: int|
                    0 <= j < i ==> !((#[trigger] projects@[j]@.name == name@) && projects@[j]@.path
                        == path@),
            decreases projects@.len() - i,
        {
            let same_name = crate::text::string_eq_str(&projects[i].name, name);
            let same_path = crate::text::string_eq_str(&projects[i].path, path);
            if same_name && same_path {
                proof {
                    assert(old(projects)@[i as int]@.name == name@ && old(
                        projects,
                    )@[i as int]@.path == path@);
                }
                return false;
            }
            i = i + 1;
        }
        let entry = Project {
            name: name.to_owned(),
            path: path.to_owned(),
            last_open_time: String::from_str("none"),
        };
        projects.push(entry);
        proof {
            assert(projects@.map_values(|p: Project| p@) =~= old(projects)@.map_values(
                |p: Project| p@,
            ).push(ProjectView { name: name@, path: path@, last_open_time: "none"@ }));
        }
        true
    }
}

} // verus!
