//! Scope directory resolution: maps logical scope names to stable index
//! locations under the cache root, and resolves which scope owns a path.

use vstd::prelude::*;
use crate::text::{chars_eq, chars_of, chars_start_with, concat2, concat3, seq_starts_with};

verus! {

/// The on-disk index location for a filesystem scope.
pub fn index_dir_for_scope(cache_root: &str, scope_name: &str) -> (r: String)
    ensures
        r@ == cache_root@ + "/index/"@ + scope_name@,
{
    concat3(cache_root, "/index/", scope_name)
}

/// The on-disk index location for the applications scope.
pub fn apps_index_dir(cache_root: &str) -> (r: String)
    ensures
        r@ == cache_root@ + "/apps"@,
{
    concat2(cache_root, "/apps")
}

/// The on-disk location of the icon cache.
pub fn icons_cache_dir(cache_root: &str) -> (r: String)
    ensures
        r@ == cache_root@ + "/icons"@,
{
    concat2(cache_root, "/icons")
}

/// The home-relative scope names watched besides the desktop.
pub fn watched_folders() -> (r: Vec<String>)
    ensures
        r@.len() == 7,
        r@[0]@ == "Documents"@,
        r@[1]@ == "Downloads"@,
        r@[2]@ == "Pictures"@,
        r@[3]@ == "Music"@,
        r@[4]@ == "Movies"@,
        r@[5]@ == "Library"@,
        r@[6]@ == "Public"@,
{
    let mut v: Vec<String> = Vec::new();
    v.push("Documents".to_owned());
    v.push("Downloads".to_owned());
    v.push("Pictures".to_owned());
    v.push("Music".to_owned());
    v.push("Movies".to_owned());
    v.push("Library".to_owned());
    v.push("Public".to_owned());
    v
}

/// `path` lies in the directory `dir`: it is `dir` itself or begins with
/// `dir` followed by a separator.
pub open spec fn path_in_dir(path: Seq<char>, dir: Seq<char>) -> bool {
    path == dir || seq_starts_with(path, dir.push('/'))
}

/// Decides `path_in_dir` over character vectors.
pub fn path_in_dir_exec(path: &Vec<char>, dir: &Vec<char>) -> (r: bool)
    ensures
        r == path_in_dir(path@, dir@),
{
    if chars_eq(path, dir) {
        return true;
    }
    let mut pre: Vec<char> = Vec::new();
    let n: usize = dir.len();
    let mut i: usize = 0;
    while i < n
        invariant
            i <= n,
            n == dir@.len(),
            pre@ == dir@.subrange(0, i as int),
        decreases n - i,
    {
        pre.push(dir[i]);
        i = i + 1;
        assert(pre@ =~= dir@.subrange(0, i as int));
    }
    assert(pre@ =~= dir@);
    pre.push('/');
    chars_start_with(path, &pre)
}

/// The scope candidates, in priority order: the desktop first, then the
/// seven watched home folders.
pub open spec fn scope_candidates(home: Seq<char>, desktop: Seq<char>) -> Seq<
    (Seq<char>, Seq<char>),
> {
    seq![
        ("Desktop"@, desktop),
        ("Documents"@, home + "/Documents"@),
        ("Downloads"@, home + "/Downloads"@),
        ("Pictures"@, home + "/Pictures"@),
        ("Music"@, home + "/Music"@),
        ("Movies"@, home + "/Movies"@),
        ("Library"@, home + "/Library"@),
        ("Public"@, home + "/Public"@),
    ]
}

/// The first candidate whose directory contains `path`.
pub open spec fn first_scope_match(cands: Seq<(Seq<char>, Seq<char>)>, path: Seq<char>) -> Option<
    (Seq<char>, Seq<char>),
>
    decreases cands.len(),
{
    if cands.len() == 0 {
        None
    } else if path_in_dir(path, cands.first().1) {
        Some(cands.first())
    } else {
        first_scope_match(cands.drop_first(), path)
    }
}

/// The scope that owns `path`, with the index directory for that scope:
/// the first candidate (desktop, then the watched home folders) whose root
/// directory contains the path, or `None` when no scope owns it.
#[verifier::loop_isolation(false)]
pub fn infer_folder_and_index_dir(home: &str, desktop: &str, cache_root: &str, path: &str) -> (r:
    Option<(String, String)>)
    ensures
        match first_scope_match(scope_candidates(home@, desktop@), path@) {
            Some(m) => r is Some && r.unwrap().0@ == m.0 && r.unwrap().1@ == cache_root@
                + "/index/"@ + m.0,
            None => r is None,
        },
{
    let folders: Vec<String> = watched_folders();
    let mut cands: Vec<(String, String)> = Vec::new();
    cands.push(("Desktop".to_owned(), desktop.to_owned()));
    let mut k: usize = 0;
    while k < 7
        invariant
            k <= 7,
            cands@.len() == k + 1,
            cands@[0].0@ == "Desktop"@,
            cands@[0].1@ == desktop@,
            forall|j: int|
                1 <= j < k + 1 ==> (#[trigger] cands@[j]).0@ == folders@[j - 1]@
                    && cands@[j].1@ == home@ + "/"@ + folders@[j - 1]@,
        decreases 7 - k,
    {
        let name: String = folders[k].clone();
        let dir: String = concat3(home, "/", folders[k].as_str());
        cands.push((name, dir));
        k = k + 1;
    }
    let ghost spec_cands = scope_candidates(home@, desktop@);
    proof {
        assert("/"@ + "Documents"@ =~= "/Documents"@) by {
            reveal_strlit("/");
            reveal_strlit("Documents");
            reveal_strlit("/Documents");
        }
        assert("/"@ + "Downloads"@ =~= "/Downloads"@) by {
            reveal_strlit("/");
            reveal_strlit("Downloads");
            reveal_strlit("/Downloads");
        }
        assert("/"@ + "Pictures"@ =~= "/Pictures"@) by {
            reveal_strlit("/");
            reveal_strlit("Pictures");
            reveal_strlit("/Pictures");
        }
        assert("/"@ + "Music"@ =~= "/Music"@) by {
            reveal_strlit("/");
            reveal_strlit("Music");
            reveal_strlit("/Music");
        }
        assert("/"@ + "Movies"@ =~= "/Movies"@) by {
            reveal_strlit("/");
            reveal_strlit("Movies");
            reveal_strlit("/Movies");
        }
        assert("/"@ + "Library"@ =~= "/Library"@) by {
            reveal_strlit("/");
            reveal_strlit("Library");
            reveal_strlit("/Library");
        }
        assert("/"@ + "Public"@ =~= "/Public"@) by {
            reveal_strlit("/");
            reveal_strlit("Public");
            reveal_strlit("/Public");
        }
        assert(forall|j: int|
            0 <= j < 8 ==> (#[trigger] cands@[j]).0@ == spec_cands[j].0 && cands@[j].1@
                == spec_cands[j].1) by {
            assert(home@ + "/"@ + "Documents"@ =~= home@ + "/Documents"@);
            assert(home@ + "/"@ + "Downloads"@ =~= home@ + "/Downloads"@);
            assert(home@ + "/"@ + "Pictures"@ =~= home@ + "/Pictures"@);
            assert(home@ + "/"@ + "Music"@ =~= home@ + "/Music"@);
            assert(home@ + "/"@ + "Movies"@ =~= home@ + "/Movies"@);
            assert(home@ + "/"@ + "Library"@ =~= home@ + "/Library"@);
            assert(home@ + "/"@ + "Public"@ =~= home@ + "/Public"@);
        }
    }
    let pathv: Vec<char> = chars_of(path);
    proof {
        assert(spec_cands.subrange(0, 8) =~= spec_cands);
    }
    let mut i: usize = 0;
    while i < 8
        invariant
            i <= 8,
            first_scope_match(spec_cands, path@) == first_scope_match(
                spec_cands.subrange(i as int, 8),
                path@,
            ),
        decreases 8 - i,
    {
        let dirv: Vec<char> = chars_of(cands[i].1.as_str());
        if path_in_dir_exec(&pathv, &dirv) {
            proof {
                assert(spec_cands.subrange(i as int, 8).first() == spec_cands[i as int]);
            }
            let name: String = cands[i].0.clone();
            let idx_dir: String = index_dir_for_scope(cache_root, cands[i].0.as_str());
            return Some((name, idx_dir));
        }
        proof {
            assert(spec_cands.subrange(i as int, 8).drop_first() =~= spec_cands.subrange(
                i as int + 1,
                8,
            ));
        }
        i = i + 1;
    }
    None
}

} // verus!
