//! Path decomposition and crawl skip rules: file names, extensions,
//! path components, hidden/denied/temporary patterns.

use vstd::prelude::*;
use crate::text::{
    chars_eq, chars_end_with, chars_start_with, chars_of, lower_chars, lower_seq, seq_ends_with,
    seq_starts_with,
};

verus! {

/// The characters after the last occurrence of `c` in `s`, or `None` when
/// `c` does not occur at all.
pub open spec fn tail_after(s: Seq<char>, c: char) -> Option<Seq<char>>
    decreases s.len(),
{
    if s.len() == 0 {
        None
    } else if s.last() == c {
        Some(Seq::empty())
    } else {
        match tail_after(s.drop_last(), c) {
            Some(t) => Some(t.push(s.last())),
            None => None,
        }
    }
}

/// The file-name part of a path: everything after the last slash, or the
/// whole path when it has no slash.
pub open spec fn file_name_of(p: Seq<char>) -> Seq<char> {
    match tail_after(p, '/') {
        Some(t) => t,
        None => p,
    }
}

/// The extension of a file name: everything after the last dot, except that
/// a dot in the leading position marks a hidden name, not an extension.
/// A name without such a dot has the empty extension.
pub open spec fn ext_of(name: Seq<char>) -> Seq<char> {
    match tail_after(name, '.') {
        Some(t) => if t.len() + 1 < name.len() {
            t
        } else {
            Seq::empty()
        },
        None => Seq::empty(),
    }
}

/// The extension of the file name of a full path.
pub open spec fn path_ext_of(p: Seq<char>) -> Seq<char> {
    ext_of(file_name_of(p))
}

proof fn lemma_tail_after_at(s: Seq<char>, c: char, i: int)
    requires
        0 <= i < s.len(),
        s[i] == c,
        forall|j: int| i < j < s.len() ==> s[j] != c,
    ensures
        tail_after(s, c) == Some(s.subrange(i + 1, s.len() as int)),
    decreases s.len(),
{
    if i == s.len() - 1 {
        assert(s.last() == c);
        assert(s.subrange(i + 1, s.len() as int) =~= Seq::<char>::empty());
    } else {
        assert(s.last() != c);
        lemma_tail_after_at(s.drop_last(), c, i);
        assert(s.subrange(i + 1, s.len() as int) =~= s.drop_last().subrange(
            i + 1,
            s.len() - 1,
        ).push(s.last()));
    }
}

proof fn lemma_tail_after_none(s: Seq<char>, c: char)
    requires
        forall|j: int| 0 <= j < s.len() ==> s[j] != c,
    ensures
        tail_after(s, c) == Option::<Seq<char>>::None,
    decreases s.len(),
{
    if s.len() > 0 {
        lemma_tail_after_none(s.drop_last(), c);
    }
}

/// The file-name part of a path given as characters.
pub fn file_name_chars(p: &Vec<char>) -> (r: Vec<char>)
    ensures
        r@ == file_name_of(p@),
{
    match crate::text::last_index_of(p, '/') {
        Some(i) => {
            proof {
                lemma_tail_after_at(p@, '/', i as int);
            }
            let n: usize = p.len();
            let mut v: Vec<char> = Vec::new();
            let mut k: usize = i + 1;
            while k < n
                invariant
                    i < k <= n,
                    n == p@.len(),
                    v@ == p@.subrange(i + 1, k as int),
                decreases n - k,
            {
                v.push(p[k]);
                k = k + 1;
                assert(v@ =~= p@.subrange(i + 1, k as int));
            }
            v
        },
        None => {
            proof {
                lemma_tail_after_none(p@, '/');
            }
            let mut v: Vec<char> = Vec::new();
            let n: usize = p.len();
            let mut k: usize = 0;
            while k < n
                invariant
                    k <= n,
                    n == p@.len(),
                    v@ == p@.subrange(0, k as int),
                decreases n - k,
            {
                v.push(p[k]);
                k = k + 1;
                assert(v@ =~= p@.subrange(0, k as int));
            }
            assert(v@ =~= p@);
            v
        },
    }
}

/// The extension of a file name given as characters.
pub fn ext_chars(name: &Vec<char>) -> (r: Vec<char>)
    ensures
        r@ == ext_of(name@),
{
    match crate::text::last_index_of(name, '.') {
        Some(i) => {
            proof {
                lemma_tail_after_at(name@, '.', i as int);
            }
            if i == 0 {
                Vec::new()
            } else {
                let n: usize = name.len();
                let mut v: Vec<char> = Vec::new();
                let mut k: usize = i + 1;
                while k < n
                    invariant
                        i < k <= n,
                        n == name@.len(),
                        v@ == name@.subrange(i + 1, k as int),
                    decreases n - k,
                {
                    v.push(name[k]);
                    k = k + 1;
                    assert(v@ =~= name@.subrange(i + 1, k as int));
                }
                v
            }
        },
        None => {
            proof {
                lemma_tail_after_none(name@, '.');
            }
            Vec::new()
        },
    }
}

/// The components of `s` split on slashes; a path always has at least one
/// (possibly empty) component.
pub open spec fn split_slash(s: Seq<char>) -> Seq<Seq<char>>
    decreases s.len(),
{
    if s.len() == 0 {
        seq![Seq::empty()]
    } else if s.last() == '/' {
        split_slash(s.drop_last()).push(Seq::empty())
    } else {
        let sp = split_slash(s.drop_last());
        sp.update(sp.len() - 1, sp.last().push(s.last()))
    }
}

proof fn lemma_split_slash_len(s: Seq<char>)
    ensures
        split_slash(s).len() >= 1,
    decreases s.len(),
{
    if s.len() > 0 {
        lemma_split_slash_len(s.drop_last());
    }
}

/// The character sequences held by a sequence of character vectors.
pub open spec fn views_of(s: Seq<Vec<char>>) -> Seq<Seq<char>> {
    s.map_values(|v: Vec<char>| v@)
}

proof fn lemma_views_push(s: Seq<Vec<char>>, v: Vec<char>)
    ensures
        views_of(s.push(v)) == views_of(s).push(v@),
{
    assert(views_of(s.push(v)) =~= views_of(s).push(v@));
}

/// Splits `s` on slashes.
pub fn split_slash_chars(s: &Vec<char>) -> (r: Vec<Vec<char>>)
    ensures
        views_of(r@) == split_slash(s@),
        r@.len() >= 1,
{
    let n: usize = s.len();
    let mut out: Vec<Vec<char>> = Vec::new();
    let mut cur: Vec<char> = Vec::new();
    let mut i: usize = 0;
    while i < n
        invariant
            i <= n,
            n == s@.len(),
            views_of(out@).push(cur@) == split_slash(s@.subrange(0, i as int)),
        decreases n - i,
    {
        proof {
            assert(s@.subrange(0, i as int + 1).drop_last() =~= s@.subrange(0, i as int));
            assert(s@.subrange(0, i as int + 1).last() == s@[i as int]);
            lemma_split_slash_len(s@.subrange(0, i as int));
        }
        if s[i] == '/' {
            let ghost old_out = out@;
            out.push(cur);
            cur = Vec::new();
            proof {
                lemma_views_push(old_out, out@.last());
                assert(views_of(out@).push(cur@) =~= split_slash(
                    s@.subrange(0, i as int),
                ).push(Seq::empty()));
            }
        } else {
            let c: char = s[i];
            cur.push(c);
            proof {
                let sp = split_slash(s@.subrange(0, i as int));
                assert(views_of(out@).push(cur@) =~= sp.update(sp.len() - 1, sp.last().push(
                    s@[i as int],
                )));
            }
        }
        i = i + 1;
    }
    let ghost old_out2 = out@;
    out.push(cur);
    proof {
        lemma_views_push(old_out2, out@.last());
        assert(s@.subrange(0, n as int) =~= s@);
    }
    out
}

/// A directory entry is hidden when its name starts with a dot.
pub open spec fn is_hidden(name: Seq<char>) -> bool {
    name.len() > 0 && name[0] == '.'
}

/// Build, cache and version-control directories that a crawl never enters.
pub open spec fn is_denied_dir(name: Seq<char>) -> bool {
    name == "node_modules"@ || name == "target"@ || name == "build"@ || name == "dist"@
        || name == ".git"@ || name == ".cache"@
}

/// Temporary-file patterns: a trailing tilde, a leading or trailing hash
/// mark, the `.DS_Store` marker, or a `tmp`/`bak`/`swp` extension
/// (case-folded).
pub open spec fn is_temp_name(name: Seq<char>) -> bool {
    seq_ends_with(name, "~"@) || seq_starts_with(name, "#"@) || seq_ends_with(name, "#"@)
        || name == ".DS_Store"@ || lower_seq(ext_of(name)) == "tmp"@ || lower_seq(ext_of(name))
        == "bak"@ || lower_seq(ext_of(name)) == "swp"@
}

fn is_hidden_chars(name: &Vec<char>) -> (r: bool)
    ensures
        r == is_hidden(name@),
{
    name.len() > 0 && name[0] == '.'
}

fn is_denied_dir_chars(name: &Vec<char>) -> (r: bool)
    ensures
        r == is_denied_dir(name@),
{
    let a: Vec<char> = chars_of("node_modules");
    let b: Vec<char> = chars_of("target");
    let c: Vec<char> = chars_of("build");
    let d: Vec<char> = chars_of("dist");
    let e: Vec<char> = chars_of(".git");
    let f: Vec<char> = chars_of(".cache");
    chars_eq(name, &a) || chars_eq(name, &b) || chars_eq(name, &c) || chars_eq(name, &d)
        || chars_eq(name, &e) || chars_eq(name, &f)
}

fn is_temp_chars(name: &Vec<char>) -> (r: bool)
    ensures
        r == is_temp_name(name@),
{
    let tilde: Vec<char> = chars_of("~");
    let hash: Vec<char> = chars_of("#");
    let ds: Vec<char> = chars_of(".DS_Store");
    let tmp: Vec<char> = chars_of("tmp");
    let bak: Vec<char> = chars_of("bak");
    let swp: Vec<char> = chars_of("swp");
    let ext: Vec<char> = ext_chars(name);
    let ext_l: Vec<char> = lower_chars(&ext);
    chars_end_with(name, &tilde) || chars_start_with(name, &hash) || chars_end_with(
        name,
        &hash,
    ) || chars_eq(name, &ds) || chars_eq(&ext_l, &tmp) || chars_eq(&ext_l, &bak) || chars_eq(
        &ext_l,
        &swp,
    )
}

/// A crawl under `root` keeps `path` exactly when `path` lies strictly below
/// `root`, no component on the way down is hidden or a denied directory,
/// and the file name itself is neither hidden nor temporary.
pub open spec fn crawl_keeps(root: Seq<char>, path: Seq<char>) -> bool {
    let rel = path.subrange(root.len() + 1 as int, path.len() as int);
    let comps = split_slash(rel);
    &&& seq_starts_with(path, root.push('/'))
    &&& path.len() > root.len() + 1
    &&& (forall|i: int|
        0 <= i < comps.len() - 1 ==> !is_hidden(#[trigger] comps[i]) && !is_denied_dir(
            comps[i],
        ))
    &&& comps.last().len() > 0
    &&& !is_hidden(comps.last())
    &&& !is_temp_name(comps.last())
}

/// Decides whether a crawl rooted at `root` keeps the entry at `path`.
#[verifier::loop_isolation(false)]
pub fn crawl_keep(root: &str, path: &str) -> (r: bool)
    ensures
        r == crawl_keeps(root@, path@),
{
    let rootv: Vec<char> = chars_of(root);
    let pathv: Vec<char> = chars_of(path);
    let mut pre: Vec<char> = rootv;
    pre.push('/');
    if !chars_start_with(&pathv, &pre) {
        return false;
    }
    if path.unicode_len() <= root.unicode_len() + 1 {
        return false;
    }
    let n: usize = pathv.len();
    let start: usize = pre.len();
    let mut rel: Vec<char> = Vec::new();
    let mut k: usize = start;
    while k < n
        invariant
            start <= k <= n,
            n == pathv@.len(),
            rel@ == pathv@.subrange(start as int, k as int),
        decreases n - k,
    {
        rel.push(pathv[k]);
        k = k + 1;
        assert(rel@ =~= pathv@.subrange(start as int, k as int));
    }
    assert(rel@ =~= path@.subrange(root@.len() + 1 as int, path@.len() as int));
    let comps: Vec<Vec<char>> = split_slash_chars(&rel);
    let ghost spc = split_slash(rel@);
    let m: usize = comps.len();
    let mut i: usize = 0;
    while i < m - 1
        invariant
            m == comps@.len(),
            1 <= m,
            i <= m - 1,
            views_of(comps@) == spc,
            spc == split_slash(rel@),
            forall|j: int|
                0 <= j < i ==> !is_hidden(#[trigger] spc[j]) && !is_denied_dir(spc[j]),
        decreases m - 1 - i,
    {
        assert(comps@[i as int]@ == spc[i as int]);
        if is_hidden_chars(&comps[i]) || is_denied_dir_chars(&comps[i]) {
            return false;
        }
        i = i + 1;
    }
    let last: &Vec<char> = &comps[m - 1];
    assert(last@ == split_slash(rel@).last());
    if last.len() == 0 {
        return false;
    }
    if is_hidden_chars(last) {
        return false;
    }
    if is_temp_chars(last) {
        return false;
    }
    true
}

/// An application bundle name: the extension, case-folded, is `app`.
pub open spec fn is_app_path(p: Seq<char>) -> bool {
    lower_seq(path_ext_of(p)) == "app"@
}

/// Decides whether `path` names an application bundle.
pub fn app_path(path: &str) -> (r: bool)
    ensures
        r == is_app_path(path@),
{
    let pv: Vec<char> = chars_of(path);
    let name: Vec<char> = file_name_chars(&pv);
    let ext: Vec<char> = ext_chars(&name);
    let ext_l: Vec<char> = lower_chars(&ext);
    let appv: Vec<char> = chars_of("app");
    chars_eq(&ext_l, &appv)
}

} // verus!
