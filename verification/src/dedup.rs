//! Event deduplication: an ephemeral cache from `(path, event kind)` keys to
//! the time the key was last seen, with a fixed time-to-live. Entries older
//! than the TTL are evicted lazily on each observation; an unexpired repeat
//! of a key is suppressed.

use vstd::prelude::*;

verus! {

/// The deduplication window of the filesystem-scope watchers, in
/// milliseconds.
pub const FILE_DEDUP_TTL_MILLIS: u64 = 500;

/// The deduplication window of the applications watcher, in milliseconds.
pub const APP_DEDUP_TTL_MILLIS: u64 = 700;

/// The closed set of watcher event kinds the pipeline tracks; a modify is
/// decomposed into remove-plus-create at the boundary.
#[derive(Clone, Copy, PartialEq, Eq, Structural, Debug)]
pub enum EventKind {
    Created,
    Removed,
}

/// One remembered observation.
pub struct DedupEntry {
    pub path: String,
    pub kind: EventKind,
    pub stamp: u64,
}

/// The deduplication cache: remembered observations and the TTL in
/// milliseconds.
pub struct DedupCache {
    pub entries: Vec<DedupEntry>,
    pub ttl: u64,
}

/// The key of an entry.
pub open spec fn entry_key(e: DedupEntry) -> (Seq<char>, EventKind) {
    (e.path@, e.kind)
}

/// The remembered stamp for a key, searching the newest entries first.
pub open spec fn stamp_of(s: Seq<DedupEntry>, key: (Seq<char>, EventKind)) -> Option<u64>
    decreases s.len(),
{
    if s.len() == 0 {
        None
    } else if entry_key(s.last()) == key {
        Some(s.last().stamp)
    } else {
        stamp_of(s.drop_last(), key)
    }
}

/// A stamp is live at `now`: it is not in the future and not older than the
/// TTL.
pub open spec fn stamp_live(stamp: u64, now: u64, ttl: u64) -> bool {
    stamp <= now && now - stamp <= ttl
}

proof fn lemma_stamp_of_absent(s: Seq<DedupEntry>, key: (Seq<char>, EventKind))
    requires
        forall|i: int| 0 <= i < s.len() ==> entry_key(#[trigger] s[i]) != key,
    ensures
        stamp_of(s, key) is None,
    decreases s.len(),
{
    if s.len() > 0 {
        lemma_stamp_of_absent(s.drop_last(), key);
    }
}

proof fn lemma_stamp_of_at(s: Seq<DedupEntry>, key: (Seq<char>, EventKind), i: int)
    requires
        0 <= i < s.len(),
        entry_key(s[i]) == key,
        forall|a: int, b: int|
            0 <= a < b < s.len() ==> entry_key(#[trigger] s[a]) != entry_key(#[trigger] s[b]),
    ensures
        stamp_of(s, key) == Some(s[i].stamp),
    decreases s.len(),
{
    if i == s.len() - 1 {
    } else {
        assert(entry_key(s.last()) != key);
        lemma_stamp_of_at(s.drop_last(), key, i);
    }
}

impl DedupCache {
    /// Keys are pairwise distinct.
    pub open spec fn wf(&self) -> bool {
        forall|a: int, b: int|
            0 <= a < b < self.entries@.len() ==> entry_key(#[trigger] self.entries@[a])
                != entry_key(#[trigger] self.entries@[b])
    }

    /// The remembered stamp for a key.
    pub open spec fn spec_stamp(&self, path: Seq<char>, kind: EventKind) -> Option<u64> {
        stamp_of(self.entries@, (path, kind))
    }

    pub open spec fn spec_ttl(&self) -> u64 {
        self.ttl
    }

    /// A key is suppressed at `now` when it is remembered with a live stamp.
    pub open spec fn suppresses(&self, path: Seq<char>, kind: EventKind, now: u64) -> bool {
        match self.spec_stamp(path, kind) {
            Some(t) => stamp_live(t, now, self.ttl),
            None => false,
        }
    }

    /// The full effect of one observation: the result says whether the event
    /// was fresh (not suppressed), every stale entry is evicted, a fresh
    /// key is remembered at `now`, and a suppressed key keeps its old stamp.
    pub open spec fn observe_transition(
        pre: DedupCache,
        post: DedupCache,
        path: Seq<char>,
        kind: EventKind,
        now: u64,
        fresh: bool,
    ) -> bool {
        &&& post.wf()
        &&& post.spec_ttl() == pre.spec_ttl()
        &&& fresh == !pre.suppresses(path, kind, now)
        &&& forall|p: Seq<char>, k: EventKind|
            #![trigger post.spec_stamp(p, k)]
            post.spec_stamp(p, k) == if fresh && p == path && k == kind {
                Some(now)
            } else {
                match pre.spec_stamp(p, k) {
                    Some(t) => if stamp_live(t, now, pre.spec_ttl()) {
                        Some(t)
                    } else {
                        None::<u64>
                    },
                    None => None::<u64>,
                }
            }
    }

    /// An empty cache with the given TTL.
    pub fn new(ttl_millis: u64) -> (r: DedupCache)
        ensures
            r.wf(),
            r.spec_ttl() == ttl_millis,
            forall|p: Seq<char>, k: EventKind| r.spec_stamp(p, k) is None,
    {
        DedupCache { entries: Vec::new(), ttl: ttl_millis }
    }

    /// Observes one event at time `now`. Stale entries are evicted first;
    /// then, if the key is still remembered, the event is suppressed and the
    /// cache keeps the old stamp; otherwise the key is remembered at `now`
    /// and the event is passed through (the result is `true`).
    #[verifier::loop_isolation(false)]
    pub fn observe(&mut self, path: &str, kind: EventKind, now: u64) -> (r: bool)
        requires
            old(self).wf(),
        ensures
            DedupCache::observe_transition(*old(self), *final(self), path@, kind, now, r),
    {
        let ghost orig = self.entries@;
        let ttl: u64 = self.ttl;
        let n: usize = self.entries.len();
        let mut kept: Vec<DedupEntry> = Vec::new();
        let mut i: usize = 0;
        while i < n
            invariant
                i <= n,
                n == orig.len(),
                self.entries@ == orig,
                self.ttl == ttl,
                forall|a: int, b: int|
                    0 <= a < b < kept@.len() ==> entry_key(#[trigger] kept@[a]) != entry_key(
                        #[trigger] kept@[b],
                    ),
                forall|key: (Seq<char>, EventKind)|
                    #![trigger stamp_of(kept@, key)]
                    stamp_of(kept@, key) == (match stamp_of(orig.subrange(0, i as int), key) {
                        Some(t) => if stamp_live(t, now, ttl) {
                            Some(t)
                        } else {
                            None::<u64>
                        },
                        None => None::<u64>,
                    }),
            decreases n - i,
        {
            let e_stamp: u64 = self.entries[i].stamp;
            let ghost pre = orig.subrange(0, i as int);
            let ghost nxt = orig.subrange(0, i as int + 1);
            let ghost ekey = entry_key(orig[i as int]);
            proof {
                assert(nxt.drop_last() =~= pre);
                assert(nxt.last() == orig[i as int]);
                lemma_stamp_of_absent(pre, ekey);
            }
            let ghost old_kept = kept@;
            if e_stamp <= now && now - e_stamp <= ttl {
                let path_c: String = self.entries[i].path.clone();
                let kind_c: EventKind = self.entries[i].kind;
                proof {
                    assert forall|j: int| 0 <= j < old_kept.len() implies entry_key(
                        old_kept[j],
                    ) != ekey by {
                        if entry_key(old_kept[j]) == ekey {
                            lemma_stamp_of_at(old_kept, ekey, j);
                        }
                    }
                }
                kept.push(DedupEntry { path: path_c, kind: kind_c, stamp: e_stamp });
                proof {
                    assert(kept@.drop_last() =~= old_kept);
                    assert(entry_key(kept@.last()) == ekey);
                }
            }
            proof {
                assert forall|key: (Seq<char>, EventKind)|
                    #![trigger stamp_of(kept@, key)]
                    stamp_of(kept@, key) == (match stamp_of(nxt, key) {
                        Some(t) => if stamp_live(t, now, ttl) {
                            Some(t)
                        } else {
                            None::<u64>
                        },
                        None => None::<u64>,
                    }) by {
                    if key == ekey {
                        assert(stamp_of(nxt, key) == Some(orig[i as int].stamp));
                        if stamp_live(orig[i as int].stamp, now, ttl) {
                            assert(stamp_of(kept@, key) == Some(orig[i as int].stamp));
                        } else {
                            assert(stamp_of(kept@, key) == stamp_of(old_kept, key));
                            assert(stamp_of(pre, key) is None);
                        }
                    } else {
                        assert(stamp_of(nxt, key) == stamp_of(pre, key));
                        assert(stamp_of(kept@, key) == stamp_of(old_kept, key));
                    }
                }
            }
            i = i + 1;
        }
        proof {
            assert(orig.subrange(0, n as int) =~= orig);
        }
        let suppressed: bool = {
            let m: usize = kept.len();
            let mut j: usize = 0;
            let mut found: bool = false;
            while j < m
                invariant
                    j <= m,
                    m == kept@.len(),
                    !found ==> forall|a: int|
                        0 <= a < j ==> entry_key(#[trigger] kept@[a]) != (path@, kind),
                    found ==> stamp_of(kept@, (path@, kind)) is Some,
                decreases m - j,
            {
                if !found {
                    let same_path: bool = {
                        let ps: String = path.to_owned();
                        kept[j].path.eq(&ps)
                    };
                    if same_path && kept[j].kind == kind {
                        proof {
                            lemma_stamp_of_at(kept@, (path@, kind), j as int);
                        }
                        found = true;
                    }
                }
                j = j + 1;
            }
            proof {
                if !found {
                    lemma_stamp_of_absent(kept@, (path@, kind));
                }
            }
            found
        };
        proof {
            assert(stamp_of(kept@, (path@, kind)) is Some ==> old(self).suppresses(
                path@,
                kind,
                now,
            ));
        }
        if suppressed {
            let ghost kept_view = kept@;
            self.entries = kept;
            proof {
                assert forall|p: Seq<char>, k: EventKind|
                    #![trigger self.spec_stamp(p, k)]
                    self.spec_stamp(p, k) == (match old(self).spec_stamp(p, k) {
                        Some(t) => if stamp_live(t, now, old(self).spec_ttl()) {
                            Some(t)
                        } else {
                            None::<u64>
                        },
                        None => None::<u64>,
                    }) by {
                    assert(self.spec_stamp(p, k) == stamp_of(kept_view, (p, k)));
                }
            }
            false
        } else {
            let ghost old_kept = kept@;
            kept.push(DedupEntry { path: path.to_owned(), kind, stamp: now });
            let ghost kept_view = kept@;
            self.entries = kept;
            proof {
                assert(kept_view.drop_last() =~= old_kept);
                assert(entry_key(kept_view.last()) == (path@, kind));
                assert forall|p: Seq<char>, k: EventKind|
                    #![trigger self.spec_stamp(p, k)]
                    self.spec_stamp(p, k) == if p == path@ && k == kind {
                        Some(now)
                    } else {
                        match old(self).spec_stamp(p, k) {
                            Some(t) => if stamp_live(t, now, old(self).spec_ttl()) {
                                Some(t)
                            } else {
                                None::<u64>
                            },
                            None => None::<u64>,
                        }
                    } by {
                    assert(self.spec_stamp(p, k) == stamp_of(kept_view, (p, k)));
                    if (p, k) == (path@, kind) {
                        assert(stamp_of(kept_view, (p, k)) == Some(now));
                    } else {
                        assert(stamp_of(kept_view, (p, k)) == stamp_of(old_kept, (p, k)));
                    }
                }
                assert forall|j: int| 0 <= j < old_kept.len() implies entry_key(
                    old_kept[j],
                ) != (path@, kind) by {
                    if entry_key(old_kept[j]) == (path@, kind) {
                        lemma_stamp_of_at(old_kept, (path@, kind), j);
                    }
                }
            }
            true
        }
    }
}

/// After a fresh (unsuppressed) event for a key was observed at `t1`, a
/// second event for the same key is suppressed at every `t2` within the TTL
/// window after `t1`, and passes through at every `t2` beyond that window:
/// two events within the window cause exactly one index mutation, and two
/// events further apart cause two.
pub proof fn lemma_dedup_window(c: &DedupCache, path: Seq<char>, kind: EventKind, t1: u64, t2: u64)
    requires
        c.spec_stamp(path, kind) == Some(t1),
    ensures
        t1 <= t2 && t2 - t1 <= c.spec_ttl() ==> c.suppresses(path, kind, t2),
        t2 > t1 + c.spec_ttl() ==> !c.suppresses(path, kind, t2),
{
}

} // verus!
