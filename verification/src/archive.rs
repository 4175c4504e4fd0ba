use vstd::prelude::*;

use crate::text::contains;
use crate::text::ends_with;
use crate::text::lemma_filter_take_step;
use crate::text::spec_contains;
use crate::text::spec_ends_with;

verus! {

/// Whether a path is left out of the backup archive: it passes through one
/// of the build-output or version-control directories, or carries one of
/// the transient file extensions.
pub open spec fn spec_archive_excluded(s: Seq<char>) -> bool {
    ||| spec_contains(s, "DerivedDataCache"@)
    ||| spec_contains(s, "Intermediate"@)
    ||| spec_contains(s, "Binaries"@)
    ||| spec_contains(s, ".git"@)
    ||| spec_ends_with(s, ".pdb"@)
    ||| spec_ends_with(s, ".bak"@)
    ||| spec_ends_with(s, ".tmp"@)
}

/// The inclusion test, as one shared value.
pub open spec fn archive_included_pred() -> spec_fn(Seq<char>) -> bool {
    |s: Seq<char>| !spec_archive_excluded(s)
}

/// Whether this path stays out of the archive.
pub fn is_excluded(path: &str) -> (r: bool)
    ensures
        r == spec_archive_excluded(path@),
{
    contains(path, "DerivedDataCache") || contains(path, "Intermediate") || contains(
        path,
        "Binaries",
    ) || contains(path, ".git") || ends_with(path, ".pdb") || ends_with(path, ".bak") || ends_with(
        path,
        ".tmp",
    )
}

/// The file paths the archive takes, in the given order: everything not
/// excluded by [`spec_archive_excluded`].
pub fn included_paths(paths: &Vec<String>) -> (r: Vec<String>)
    ensures
        r@.map_values(|p: String| p@) == paths@.map_values(|p: String| p@).filter(
            archive_included_pred(),
        ),
{
    let ghost views = paths@.map_values(|p: String| p@);
    let mut out: Vec<String> = Vec::new();
    let mut i: usize = 0;
    proof {
        reveal(Seq::filter);
        assert(views.take(0) =~= Seq::<Seq<char>>::empty());
        assert(out@.map_values(|p: String| p@) =~= views.take(0).filter(archive_included_pred()));
    }
    while i < paths.len()
        invariant
            i <= paths@.len(),
            views == paths@.map_values(|p: String| p@),
            out@.map_values(|p: String| p@) == views.take(i as int).filter(
                archive_included_pred(),
            ),
        decreases paths@.len() - i,
    {
        proof {
            assert(views[i as int] == paths@[i as int]@);
            lemma_filter_take_step(views, archive_included_pred(), i as int);
        }
        if !is_excluded(paths[i].as_str()) {
            let ghost out0 = out@;
            let kept = paths[i].clone();
            proof {
                assert(kept@ == paths@[i as int]@);
            }
            out.push(kept);
            proof {
                assert((archive_included_pred())(views[i as int]));
                assert(out@.map_values(|p: String| p@) =~~= out0.map_values(|p: String| p@).push(
                    views[i as int],
                ));
                assert(out@.map_values(|p: String| p@) =~~= views.take(i as int + 1).filter(
                    archive_included_pred(),
                ));
            }
        } else {
            proof {
                assert(!(archive_included_pred())(views[i as int]));
                assert(out@.map_values(|p: String| p@) =~~= views.take(i as int + 1).filter(
                    archive_included_pred(),
                ));
            }
        }
        i = i + 1;
    }
    proof {
        assert(views.take(paths@.len() as int) =~= views);
    }
    out
}

/// The archive file name a backup of `project` writes.
pub fn archive_name(project: &str) -> (r: String)
    ensures
        r@ == "UE5_Backup_"@ + project@ + ".7z"@,
{
    let head: String = String::from_str("UE5_Backup_");
    head.concat(project).concat(".7z")
}

/// The archive file name a restore of `project` downloads into.
pub fn restore_archive_name(project: &str) -> (r: String)
    ensures
        r@ == "UE5_Restore_"@ + project@ + ".7z"@,
{
    let head: String = String::from_str("UE5_Restore_");
    head.concat(project).concat(".7z")
}

/// The object key a backup of `project` is stored under. It is never
/// empty, as an object key must be.
pub fn object_key_for(project: &str) -> (r: String)
    ensures
        r@ == "backups/"@ + project@ + ".7z"@,
        r@.len() > 0,
{
    let head: String = String::from_str("backups/");
    let r = head.concat(project).concat(".7z");
    proof {
        reveal_strlit("backups/");
    }
    r
}

} // verus!
