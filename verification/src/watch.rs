//! Watcher decisions: resolving an event path to its owning application
//! bundle, deduplicating bursts through the TTL cache, and turning a raw
//! create/remove event into the index mutation it calls for. The event
//! subscription itself lives outside; this module is the pipeline's logic.

use vstd::prelude::*;
use crate::dedup::{DedupCache, EventKind};
use crate::rules::{ext_chars, file_name_chars, path_ext_of};
use crate::text::{chars_eq, chars_of, last_index_of, string_from_chars};

verus! {

/// An index mutation the watcher pipeline decided on.
pub enum IndexOp {
    Add(String),
    Remove(String),
}

/// The shape of an index operation: whether it adds, and the path it
/// touches.
pub open spec fn op_model(op: IndexOp) -> (bool, Seq<char>) {
    match op {
        IndexOp::Add(p) => (true, p@),
        IndexOp::Remove(p) => (false, p@),
    }
}

/// The prefix of `p` before its last slash, or `None` when `p` has no
/// slash.
pub open spec fn parent_of(p: Seq<char>) -> Option<Seq<char>>
    decreases p.len(),
{
    if p.len() == 0 {
        None
    } else if p.last() == '/' {
        Some(p.drop_last())
    } else {
        parent_of(p.drop_last())
    }
}

proof fn lemma_parent_shorter(p: Seq<char>)
    ensures
        parent_of(p) is Some ==> parent_of(p).unwrap().len() < p.len(),
    decreases p.len(),
{
    if p.len() > 0 && p.last() != '/' {
        lemma_parent_shorter(p.drop_last());
    }
}

proof fn lemma_parent_at(p: Seq<char>, i: int)
    requires
        0 <= i < p.len(),
        p[i] == '/',
        forall|j: int| i < j < p.len() ==> p[j] != '/',
    ensures
        parent_of(p) == Some(p.subrange(0, i)),
    decreases p.len(),
{
    if i == p.len() - 1 {
        assert(p.drop_last() =~= p.subrange(0, i));
    } else {
        assert(p.last() != '/');
        lemma_parent_at(p.drop_last(), i);
        assert(p.drop_last().subrange(0, i) =~= p.subrange(0, i));
    }
}

proof fn lemma_parent_none(p: Seq<char>)
    requires
        forall|j: int| 0 <= j < p.len() ==> p[j] != '/',
    ensures
        parent_of(p) is None,
    decreases p.len(),
{
    if p.len() > 0 {
        lemma_parent_none(p.drop_last());
    }
}

/// The innermost enclosing application bundle of a path: the path itself
/// when its own extension is the bundle extension (matched exactly, as the
/// notifier reports it), else the nearest such ancestor.
pub open spec fn bundle_of(p: Seq<char>) -> Option<Seq<char>>
    decreases p.len(),
    via bundle_of_decreases
{
    if path_ext_of(p) == "app"@ {
        Some(p)
    } else {
        match parent_of(p) {
            Some(q) => bundle_of(q),
            None => None,
        }
    }
}

#[via_fn]
proof fn bundle_of_decreases(p: Seq<char>) {
    lemma_parent_shorter(p);
}

/// Resolves the application bundle that owns `path`.
#[verifier::loop_isolation(false)]
pub fn resolve_app_bundle(path: &str) -> (r: Option<String>)
    ensures
        match bundle_of(path@) {
            Some(b) => r is Some && r.unwrap()@ == b,
            None => r is None,
        },
{
    let appv: Vec<char> = chars_of("app");
    let mut cur: Vec<char> = chars_of(path);
    loop
        invariant
            bundle_of(path@) == bundle_of(cur@),
        decreases cur@.len(),
    {
        let name: Vec<char> = file_name_chars(&cur);
        let ext: Vec<char> = ext_chars(&name);
        if chars_eq(&ext, &appv) {
            return Some(string_from_chars(&cur));
        }
        match last_index_of(&cur, '/') {
            Some(i) => {
                proof {
                    lemma_parent_at(cur@, i as int);
                    lemma_parent_shorter(cur@);
                }
                cur.truncate(i);
            },
            None => {
                proof {
                    lemma_parent_none(cur@);
                }
                return None;
            },
        }
    }
}

/// Decides what one deduplicated create/remove event below the file scopes
/// does to the index. An event for something that is neither a present file
/// nor a removal is ignored without touching the cache; otherwise the event
/// runs through the TTL cache and, when fresh, becomes an add or a remove
/// of the event path.
pub fn plan_file_event(
    cache: &mut DedupCache,
    path: &str,
    kind: EventKind,
    is_file: bool,
    now: u64,
) -> (r: Option<IndexOp>)
    requires
        old(cache).wf(),
    ensures
        !(is_file || kind == EventKind::Removed) ==> *final(cache) == *old(cache) && r is None,
        (is_file || kind == EventKind::Removed) ==> {
            &&& DedupCache::observe_transition(
                *old(cache),
                *final(cache),
                path@,
                kind,
                now,
                !old(cache).suppresses(path@, kind, now),
            )
            &&& (r is Some <==> !old(cache).suppresses(path@, kind, now))
            &&& (r is Some ==> op_model(r.unwrap()) == (kind == EventKind::Created, path@))
        },
{
    if !(is_file || kind == EventKind::Removed) {
        return None;
    }
    let fresh: bool = cache.observe(path, kind, now);
    if !fresh {
        return None;
    }
    match kind {
        EventKind::Created => Some(IndexOp::Add(path.to_owned())),
        EventKind::Removed => Some(IndexOp::Remove(path.to_owned())),
    }
}

/// Decides what one create/remove event below the applications root does to
/// the applications index. The path is resolved to its owning bundle first;
/// an event outside any bundle is ignored without touching the cache, and
/// deduplication is keyed on the bundle path, so a burst of events inside
/// one bundle causes at most one mutation per TTL window.
pub fn plan_app_event(cache: &mut DedupCache, path: &str, kind: EventKind, now: u64) -> (r: Option<
    IndexOp,
>)
    requires
        old(cache).wf(),
    ensures
        match bundle_of(path@) {
            None => *final(cache) == *old(cache) && r is None,
            Some(b) => {
                &&& DedupCache::observe_transition(
                    *old(cache),
                    *final(cache),
                    b,
                    kind,
                    now,
                    !old(cache).suppresses(b, kind, now),
                )
                &&& (r is Some <==> !old(cache).suppresses(b, kind, now))
                &&& (r is Some ==> op_model(r.unwrap()) == (kind == EventKind::Created, b))
            },
        },
{
    let bundle: Option<String> = resolve_app_bundle(path);
    match bundle {
        None => None,
        Some(b) => {
            let fresh: bool = cache.observe(b.as_str(), kind, now);
            if !fresh {
                return None;
            }
            match kind {
                EventKind::Created => Some(IndexOp::Add(b)),
                EventKind::Removed => Some(IndexOp::Remove(b)),
            }
        },
    }
}

} // verus!
