use vstd::prelude::*;

use crate::project::Project;
use crate::text::backslash_pred;
use crate::text::contains_ci;
use crate::text::char_len;
use crate::text::last_backslash_index;
use crate::text::last_underscore_index;
use crate::text::lemma_filter_take_step;
use crate::text::spec_contains_ci;
use crate::text::spec_last_where;
use crate::text::string_eq_str;
use crate::text::substring;
use crate::text::underscore_pred;

verus! {

/// The locally installed editor: the engine versions found on disk and the
/// projects the editor's settings list as recently opened.
#[derive(Debug)]
pub struct Engine {
    pub versions: Vec<String>,
    pub projects: Vec<Project>,
}

/// One running process, as the shell observes the system: its id and its
/// executable name.
#[derive(Debug)]
pub struct ProcessInfo {
    pub pid: u64,
    pub name: String,
}

/// The directory-entry name of an installation path: what follows the last
/// backslash, as the installation root writes its entries.
pub open spec fn spec_entry_name(s: Seq<char>) -> Seq<char> {
    s.skip(spec_last_where(s, backslash_pred()) + 1)
}

/// Whether a directory entry is an engine installation: its name carries
/// the engine marker, compared ASCII case-blind.
pub open spec fn spec_is_engine_entry(s: Seq<char>) -> bool {
    spec_contains_ci(spec_entry_name(s), "ue_"@)
}

/// The version an engine entry advertises: what follows the last
/// underscore of its name; the whole name when it has none.
pub open spec fn spec_engine_version(s: Seq<char>) -> Seq<char> {
    let name = spec_entry_name(s);
    name.skip(spec_last_where(name, underscore_pred()) + 1)
}

/// The engine-entry test, as one shared value.
pub open spec fn engine_entry_pred() -> spec_fn(Seq<char>) -> bool {
    |e: Seq<char>| spec_is_engine_entry(e)
}

/// The version extraction, as one shared value.
pub open spec fn engine_version_fn() -> spec_fn(Seq<char>) -> Seq<char> {
    |e: Seq<char>| spec_engine_version(e)
}

/// The first index at or after `i` naming the editor executable, or -1.
pub open spec fn spec_first_editor_from(ps: Seq<Seq<char>>, i: int) -> int
    decreases ps.len() - i,
{
    if i < 0 || i >= ps.len() {
        -1
    } else if ps[i] == "UnrealEditor.exe"@ {
        i
    } else {
        spec_first_editor_from(ps, i + 1)
    }
}

impl Engine {
    /// The versions among the given installation-directory entries: every
    /// entry whose name (after the last backslash) carries the engine
    /// marker contributes what follows the last underscore of that name,
    /// in directory order.
    pub fn get_engine_versions(entries: &Vec<String>) -> (r: Vec<String>)
        ensures
            r@.map_values(|v: String| v@) == entries@.map_values(|e: String| e@).filter(
                engine_entry_pred(),
            ).map_values(engine_version_fn()),
    {
        let ghost views = entries@.map_values(|e: String| e@);
        let mut out: Vec<String> = Vec::new();
        let mut i: usize = 0;
        proof {
            reveal(Seq::filter);
            assert(views.take(0) =~= Seq::<Seq<char>>::empty());
            assert(out@.map_values(|v: String| v@) =~= views.take(0).filter(
                engine_entry_pred(),
            ).map_values(engine_version_fn()));
        }
        while i < entries.len()
            invariant
                i <= entries@.len(),
                views == entries@.map_values(|e: String| e@),
                out@.map_values(|v: String| v@) == views.take(i as int).filter(
                    engine_entry_pred(),
                ).map_values(engine_version_fn()),
            decreases entries@.len() - i,
        {
            let e = entries[i].as_str();
            proof {
                assert(views[i as int] == e@);
                lemma_filter_take_step(views, engine_entry_pred(), i as int);
            }
            let n = char_len(e);
            let name_start: usize = match last_backslash_index(e) {
                Some(s) => s + 1,
                None => 0,
            };
            let name = substring(e, name_start, n);
            proof {
                assert(name@ =~= spec_entry_name(e@));
            }
            if contains_ci(name.as_str(), "ue_") {
                let m = char_len(name.as_str());
                let ver_start: usize = match last_underscore_index(name.as_str()) {
                    Some(s) => s + 1,
                    None => 0,
                };
                let ver = substring(name.as_str(), ver_start, m);
                proof {
                    assert(ver@ =~= spec_engine_version(e@));
                }
                let ghost out0 = out@;
                out.push(ver);
                proof {
                    assert((engine_entry_pred())(views[i as int]));
                    assert(views.take(i as int + 1).filter(engine_entry_pred()) == views.take(
                        i as int,
                    ).filter(engine_entry_pred()).push(views[i as int]));
                    assert((engine_version_fn())(views[i as int]) == ver@);
                    assert(out@.map_values(|v: String| v@) =~~= out0.map_values(
                        |v: String| v@,
                    ).push(ver@));
                    assert(views.take(i as int + 1).filter(engine_entry_pred()).map_values(
                        engine_version_fn(),
                    ) =~~= views.take(i as int).filter(engine_entry_pred()).map_values(
                        engine_version_fn(),
                    ).push(ver@));
                }
            } else {
                proof {
                    assert(!(engine_entry_pred())(views[i as int]));
                    assert(out@.map_values(|v: String| v@) =~~= views.take(i as int + 1).filter(
                        engine_entry_pred(),
                    ).map_values(engine_version_fn()));
                }
            }
            i = i + 1;
        }
        proof {
            assert(views.take(entries@.len() as int) =~= views);
        }
        out
    }

    /// The recently-opened projects the given editor-settings text lists,
    /// in file order. The shell reads the settings file and hands its text
    /// in; a missing file simply contributes no text and no projects.
    pub fn get_engine_projects(settings_text: &str) -> (r: Vec<Project>)
        ensures
            r@.map_values(|p: Project| p@) == crate::settings::spec_recent_projects(
                settings_text@,
            ),
    {
        crate::settings::recent_projects(settings_text)
    }

    /// The id of the first listed process whose name is the editor
    /// executable, or nothing when none is running.
    pub fn find_ue_process(processes: &Vec<ProcessInfo>) -> (r: Option<u64>)
        ensures
            match r {
                Some(pid) => {
                    let f = spec_first_editor_from(
                        processes@.map_values(|p: ProcessInfo| p.name@),
                        0,
                    );
                    &&& f >= 0
                    &&& pid == processes@[f].pid
                },
                None => spec_first_editor_from(
                    processes@.map_values(|p: ProcessInfo| p.name@),
                    0,
                ) == -1,
            },
    {
        let ghost names = processes@.map_values(|p: ProcessInfo| p.name@);
        let mut i: usize = 0;
        while i < processes.len()
            invariant
                i <= processes@.len(),
                names == processes@.map_values(|p: ProcessInfo| p.name@),
                spec_first_editor_from(names, 0) == spec_first_editor_from(names, i as int),
            decreases processes@.len() - i,
        {
            if string_eq_str(&processes[i].name, "UnrealEditor.exe") {
                proof {
                    assert(names[i as int] == processes@[i as int].name@);
                    assert(spec_first_editor_from(names, i as int) == i as int);
                }
                return Some(processes[i].pid);
            }
            proof {
                assert(names[i as int] == processes@[i as int].name@);
                assert(names[i as int] != "UnrealEditor.exe"@);
            }
            i = i + 1;
        }
        proof {
            assert(spec_first_editor_from(names, i as int) == -1);
        }
        None
    }

    /// One decision of the editor-presence monitor: whether the change of
    /// state warrants a notification, and the state to remember. A
    /// notification is due exactly when the editor appeared or vanished.
    pub fn monitor_step(was_running: bool, is_running: bool) -> (r: (bool, bool))
        ensures
            r.0 == (is_running != was_running),
            r.1 == is_running,
    {
        match (is_running, was_running) {
            (true, false) => (true, true),
            (false, true) => (true, false),
            _ => (false, is_running),
        }
    }
}

} // verus!
