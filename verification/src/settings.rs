use vstd::prelude::*;

use crate::project::Project;
use crate::project::ProjectView;
use crate::text::char_pred;
use crate::text::first_char_index_from;
use crate::text::last_sep_index;
use crate::text::lemma_first_where_from;
use crate::text::spec_file_name;
use crate::text::spec_first_where_from;
use crate::text::spec_parent;
use crate::text::spec_stem;
use crate::text::spec_strip_leading;
use crate::text::spec_strip_prefix;
use crate::text::spec_strip_trailing;
use crate::text::spec_trim;
use crate::text::string_eq_str;
use crate::text::strip_leading;
use crate::text::strip_prefix_str;
use crate::text::strip_trailing;
use crate::text::substring;
use crate::text::trim;

verus! {

/// The lines of `s` from position `p` on, split at every newline; the
/// newline itself belongs to no line.
pub open spec fn spec_lines_from(s: Seq<char>, p: int) -> Seq<Seq<char>>
    decreases s.len() - p via spec_lines_from_decreases
{
    if p < 0 || p > s.len() {
        Seq::empty()
    } else {
        let k = spec_first_where_from(s, char_pred('\n'), p);
        if k == -1 {
            seq![s.subrange(p, s.len() as int)]
        } else {
            seq![s.subrange(p, k)] + spec_lines_from(s, k + 1)
        }
    }
}

#[via_fn]
proof fn spec_lines_from_decreases(s: Seq<char>, p: int) {
    if 0 <= p <= s.len() {
        let k = spec_first_where_from(s, char_pred('\n'), p);
        if k != -1 {
            lemma_first_where_from(s, char_pred('\n'), p);
        }
    }
}

/// The lines of a settings file.
pub open spec fn spec_split_lines(s: Seq<char>) -> Seq<Seq<char>> {
    spec_lines_from(s, 0)
}

/// The section a line opens: the name between brackets once the line is
/// trimmed, if it has that shape.
pub open spec fn spec_section_name(line: Seq<char>) -> Option<Seq<char>> {
    let t = spec_trim(line);
    if t.len() >= 2 && t[0] == '[' && t[t.len() - 1] == ']' {
        Some(t.subrange(1, t.len() - 1))
    } else {
        None
    }
}

/// The key and value of a settings line: the trimmed pieces on either
/// side of the first equals sign, if the trimmed line has one.
pub open spec fn spec_kv(line: Seq<char>) -> Option<(Seq<char>, Seq<char>)> {
    let t = spec_trim(line);
    let k = spec_first_where_from(t, char_pred('='), 0);
    if k == -1 {
        None
    } else {
        Some((spec_trim(t.subrange(0, k)), spec_trim(t.subrange(k + 1, t.len() as int))))
    }
}

/// The value a line contributes to the recently-opened list: its value
/// when it is a key-value line for that key.
pub open spec fn spec_recent_value(line: Seq<char>) -> Option<Seq<char>> {
    match spec_kv(line) {
        Some((k, v)) => if k == "RecentlyOpenedProjectFiles"@ {
            Some(v)
        } else {
            None
        },
        None => None,
    }
}

/// Whether the editor-settings section is the one open after the first
/// `t` lines; no section is open at the top of the file.
pub open spec fn spec_in_target(lines: Seq<Seq<char>>, t: int) -> bool
    decreases t,
{
    if t <= 0 {
        false
    } else {
        match spec_section_name(lines[t - 1]) {
            Some(sec) => sec == "/Script/UnrealEd.EditorSettings"@,
            None => spec_in_target(lines, t - 1),
        }
    }
}

/// The recently-opened values the first `t` lines contribute, in file
/// order: the value of every key-value line for the key that stands
/// inside the editor-settings section.
pub open spec fn spec_values_upto(lines: Seq<Seq<char>>, t: int) -> Seq<Seq<char>>
    decreases t,
{
    if t <= 0 {
        Seq::empty()
    } else {
        let prev = spec_values_upto(lines, t - 1);
        if spec_section_name(lines[t - 1]) is Some {
            prev
        } else if spec_in_target(lines, t - 1) {
            match spec_recent_value(lines[t - 1]) {
                Some(v) => prev.push(v),
                None => prev,
            }
        } else {
            prev
        }
    }
}

/// The project one recently-opened entry denotes, if any. The entry is
/// trimmed, shorn of surrounding parentheses, and split at commas: the
/// first piece, after the quoted name marker is removed, is the project
/// descriptor path, whose file name yields the project's name and whose
/// parent directory is its path; the second piece, after its own marker
/// is removed, is the last-open time, empty when absent. An entry whose
/// descriptor path has an empty file name denotes nothing.
pub open spec fn spec_parse_entry(v: Seq<char>) -> Option<ProjectView> {
    let t1 = spec_strip_trailing(spec_strip_leading(spec_trim(v), '('), ')');
    let k = spec_first_where_from(t1, char_pred(','), 0);
    let part0 = if k == -1 {
        t1
    } else {
        t1.subrange(0, k)
    };
    let project_path = spec_strip_trailing(
        spec_strip_prefix(spec_trim(part0), "ProjectName=\""@),
        '"',
    );
    let fname = spec_file_name(project_path);
    if fname.len() == 0 {
        None
    } else {
        let time = if k == -1 {
            Seq::empty()
        } else {
            let k2 = spec_first_where_from(t1, char_pred(','), k + 1);
            let part1 = if k2 == -1 {
                t1.subrange(k + 1, t1.len() as int)
            } else {
                t1.subrange(k + 1, k2)
            };
            spec_strip_prefix(spec_trim(part1), "LastOpenTime="@)
        };
        Some(
            ProjectView {
                name: spec_stem(fname),
                path: spec_parent(project_path),
                last_open_time: time,
            },
        )
    }
}

/// The projects a list of recently-opened values denotes, in order,
/// skipping entries that denote none.
pub open spec fn spec_projects_of(values: Seq<Seq<char>>) -> Seq<ProjectView>
    decreases values.len(),
{
    if values.len() == 0 {
        Seq::empty()
    } else {
        let prev = spec_projects_of(values.drop_last());
        match spec_parse_entry(values.last()) {
            Some(p) => prev.push(p),
            None => prev,
        }
    }
}

/// The recently-opened projects a whole settings file lists.
pub open spec fn spec_recent_projects(text: Seq<char>) -> Seq<ProjectView> {
    let lines = spec_split_lines(text);
    spec_projects_of(spec_values_upto(lines, lines.len() as int))
}

/// The lines of the settings text, in order.
pub fn split_lines(s: &str) -> (r: Vec<String>)
    ensures
        r@.map_values(|l: String| l@) == spec_split_lines(s@),
{
    let n = s.unicode_len();
    let mut out: Vec<String> = Vec::new();
    let mut p: usize = 0;
    loop
        invariant
            p <= n,
            n == s@.len(),
            spec_split_lines(s@) == out@.map_values(|l: String| l@) + spec_lines_from(
                s@,
                p as int,
            ),
        decreases n - p,
    {
        let ghost out0 = out@;
        match first_char_index_from(s, p, '\n') {
            Some(k) => {
                out.push(substring(s, p, k));
                proof {
                    assert(out@.map_values(|l: String| l@) =~~= out0.map_values(|l: String| l@)
                        + seq![s@.subrange(p as int, k as int)]);
                    assert(spec_lines_from(s@, p as int) == seq![s@.subrange(p as int, k as int)]
                        + spec_lines_from(s@, k as int + 1));
                    assert(spec_split_lines(s@) =~~= out@.map_values(|l: String| l@)
                        + spec_lines_from(s@, k as int + 1));
                }
                p = k + 1;
            },
            None => {
                out.push(substring(s, p, n));
                proof {
                    assert(out@.map_values(|l: String| l@) =~~= out0.map_values(|l: String| l@)
                        + seq![s@.subrange(p as int, n as int)]);
                    assert(spec_lines_from(s@, p as int) == seq![
                        s@.subrange(p as int, n as int),
                    ]);
                    assert(spec_split_lines(s@) =~~= out@.map_values(|l: String| l@));
                }
                return out;
            },
        }
    }
}

/// The section a line opens, if any.
fn line_section_name(line: &str) -> (r: Option<String>)
    ensures
        match r {
            Some(sec) => spec_section_name(line@) == Some(sec@),
            None => spec_section_name(line@) is None,
        },
{
    let t = trim(line);
    let n = crate::text::char_len(t.as_str());
    if n >= 2 {
        let first = t.as_str().get_char(0);
        let last = t.as_str().get_char(n - 1);
        if first == '[' && last == ']' {
            let sec = substring(t.as_str(), 1, n - 1);
            return Some(sec);
        }
    }
    None
}

/// The recently-opened value a line contributes, if any.
fn line_recent_value(line: &str) -> (r: Option<String>)
    ensures
        match r {
            Some(v) => spec_recent_value(line@) == Some(v@),
            None => spec_recent_value(line@) is None,
        },
{
    let t = trim(line);
    let n = crate::text::char_len(t.as_str());
    match first_char_index_from(t.as_str(), 0, '=') {
        Some(k) => {
            let key = trim(substring(t.as_str(), 0, k).as_str());
            if string_eq_str(&key, "RecentlyOpenedProjectFiles") {
                let v = trim(substring(t.as_str(), k + 1, n).as_str());
                Some(v)
            } else {
                None
            }
        },
        None => None,
    }
}

/// The project one recently-opened entry denotes, if any.
fn parse_entry(v: &str) -> (r: Option<Project>)
    ensures
        match r {
            Some(p) => spec_parse_entry(v@) == Some(p@),
            None => spec_parse_entry(v@) is None,
        },
{
    let t0 = trim(v);
    let t1 = strip_trailing(strip_leading(t0.as_str(), '(').as_str(), ')');
    let n1 = crate::text::char_len(t1.as_str());
    let k_opt = first_char_index_from(t1.as_str(), 0, ',');
    let part0 = match k_opt {
        Some(k) => substring(t1.as_str(), 0, k),
        None => t1.clone(),
    };
    let project_path = strip_trailing(
        strip_prefix_str(trim(part0.as_str()).as_str(), "ProjectName=\"").as_str(),
        '"',
    );
    let pn = crate::text::char_len(project_path.as_str());
    let name_start: usize = match last_sep_index(project_path.as_str()) {
        Some(i) => i + 1,
        None => 0,
    };
    let fname = substring(project_path.as_str(), name_start, pn);
    proof {
        assert(fname@ =~= spec_file_name(project_path@));
    }
    let fn_len = crate::text::char_len(fname.as_str());
    if fn_len == 0 {
        return None;
    }
    let stem_end: usize = match crate::text::last_dot_index(fname.as_str()) {
        Some(d) => {
            if d > 0 {
                d
            } else {
                fn_len
            }
        },
        None => fn_len,
    };
    let name = substring(fname.as_str(), 0, stem_end);
    proof {
        assert(name@ =~= spec_stem(fname@));
    }
    let parent = match last_sep_index(project_path.as_str()) {
        Some(i) => substring(project_path.as_str(), 0, i),
        None => String::new(),
    };
    proof {
        assert(Seq::<char>::empty() =~= ""@) by {
            reveal_strlit("");
        }
        assert(parent@ =~= spec_parent(project_path@));
    }
    let time = match k_opt {
        Some(k) => {
            let part1 = match first_char_index_from(t1.as_str(), k + 1, ',') {
                Some(k2) => substring(t1.as_str(), k + 1, k2),
                None => substring(t1.as_str(), k + 1, n1),
            };
            strip_prefix_str(trim(part1.as_str()).as_str(), "LastOpenTime=")
        },
        None => String::new(),
    };
    proof {
        assert(Seq::<char>::empty() =~= ""@) by {
            reveal_strlit("");
        }
    }
    Some(Project { name, path: parent, last_open_time: time })
}

/// The recently-opened projects the given settings text lists, in file
/// order: one for each well-formed entry of the recently-opened key
/// inside the editor-settings section.
pub fn recent_projects(text: &str) -> (r: Vec<Project>)
    ensures
        r@.map_values(|p: Project| p@) == spec_recent_projects(text@),
{
    let lines = split_lines(text);
    let ghost lviews = lines@.map_values(|l: String| l@);
    let mut in_target = false;
    let mut values: Vec<String> = Vec::new();
    let mut i: usize = 0;
    proof {
        assert(values@.map_values(|v: String| v@) =~= spec_values_upto(lviews, 0));
    }
    while i < lines.len()
        invariant
            i <= lines@.len(),
            lviews == lines@.map_values(|l: String| l@),
            in_target == spec_in_target(lviews, i as int),
            values@.map_values(|v: String| v@) == spec_values_upto(lviews, i as int),
        decreases lines@.len() - i,
    {
        proof {
            assert(lviews[i as int] == lines@[i as int]@);
        }
        match line_section_name(lines[i].as_str()) {
            Some(sec) => {
                in_target = string_eq_str(&sec, "/Script/UnrealEd.EditorSettings");
                proof {
                    assert(spec_values_upto(lviews, i as int + 1) == spec_values_upto(
                        lviews,
                        i as int,
                    ));
                }
            },
            None => {
                if in_target {
                    match line_recent_value(lines[i].as_str()) {
                        Some(v) => {
                            let ghost values0 = values@;
                            values.push(v);
                            proof {
                                assert(values@.map_values(|x: String| x@) =~~= values0.map_values(
                                    |x: String| x@,
                                ).push(v@));
                                assert(spec_values_upto(lviews, i as int + 1)
                                    == spec_values_upto(lviews, i as int).push(v@));
                            }
                        },
                        None => {
                            proof {
                                assert(spec_values_upto(lviews, i as int + 1) == spec_values_upto(
                                    lviews,
                                    i as int,
                                ));
                            }
                        },
                    }
                } else {
                    proof {
                        assert(spec_values_upto(lviews, i as int + 1) == spec_values_upto(
                            lviews,
                            i as int,
                        ));
                    }
                }
            },
        }
        i = i + 1;
    }
    let mut out: Vec<Project> = Vec::new();
    let ghost vviews = values@.map_values(|v: String| v@);
    let mut j: usize = 0;
    proof {
        assert(vviews.take(0) =~= Seq::<Seq<char>>::empty());
        assert(out@.map_values(|p: Project| p@) =~= spec_projects_of(vviews.take(0)));
    }
    while j < values.len()
        invariant
            j <= values@.len(),
            vviews == values@.map_values(|v: String| v@),
            out@.map_values(|p: Project| p@) == spec_projects_of(vviews.take(j as int)),
        decreases values@.len() - j,
    {
        proof {
            assert(vviews[j as int] == values@[j as int]@);
            assert(vviews.take(j as int + 1).drop_last() =~= vviews.take(j as int));
            assert(vviews.take(j as int + 1).last() == vviews[j as int]);
        }
        match parse_entry(values[j].as_str()) {
            Some(p) => {
                let ghost out0 = out@;
                out.push(p);
                proof {
                    assert(out@.map_values(|q: Project| q@) =~~= out0.map_values(
                        |q: Project| q@,
                    ).push(spec_parse_entry(vviews[j as int])->Some_0));
                    assert(out@.map_values(|q: Project| q@) =~~= spec_projects_of(
                        vviews.take(j as int + 1),
                    ));
                }
            },
            None => {
                proof {
                    assert(out@.map_values(|q: Project| q@) =~~= spec_projects_of(
                        vviews.take(j as int + 1),
                    ));
                }
            },
        }
        j = j + 1;
    }
    proof {
        assert(vviews.take(values@.len() as int) =~= vviews);
        assert(lviews.len() == lines@.len());
    }
    out
}

} // verus!
