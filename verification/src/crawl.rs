//! Crawl ingestion: feeding walked directory entries through the skip rules
//! into a scope's index store, with one commit at the end. Individual
//! document-add failures are absorbed (a best-effort crawl), and the
//! contract is exact whenever every add succeeded.

use vstd::prelude::*;
use crate::rules::{app_path, crawl_keep, crawl_keeps, is_app_path};
use crate::store::{doc_for, store_committed, store_staged, ScopeStore};

verus! {

/// One filesystem entry reported by a directory walk.
pub struct CrawlEntry {
    pub path: String,
    pub is_file: bool,
}

/// The paths a crawl rooted at `root` keeps, in walk order: files below the
/// root that no skip rule rejects.
pub open spec fn kept_paths(root: Seq<char>, entries: Seq<CrawlEntry>) -> Seq<Seq<char>> {
    entries.filter(|e: CrawlEntry| e.is_file && crawl_keeps(root, e.path@)).map_values(
        |e: CrawlEntry| e.path@,
    )
}

/// The application-bundle paths a shallow applications crawl keeps: entries
/// whose extension, case-folded, is the bundle extension.
pub open spec fn kept_app_paths(entries: Seq<String>) -> Seq<Seq<char>> {
    entries.filter(|p: String| is_app_path(p@)).map_values(|p: String| p@)
}

/// The document rows for a sequence of kept paths.
pub open spec fn docs_of_paths(paths: Seq<Seq<char>>) -> Seq<(Seq<char>, Seq<char>, Seq<char>)> {
    paths.map_values(|p: Seq<char>| doc_for(p))
}

/// `sub` is a subsequence of `sup`: its rows occur in `sup`, in order.
pub open spec fn is_subseq_of(
    sub: Seq<(Seq<char>, Seq<char>, Seq<char>)>,
    sup: Seq<(Seq<char>, Seq<char>, Seq<char>)>,
) -> bool
    decreases sup.len(),
{
    if sub.len() == 0 {
        true
    } else if sup.len() == 0 {
        false
    } else if sub.last() == sup.last() {
        is_subseq_of(sub.drop_last(), sup.drop_last()) || is_subseq_of(sub, sup.drop_last())
    } else {
        is_subseq_of(sub, sup.drop_last())
    }
}

proof fn lemma_subseq_push_both(
    a: Seq<(Seq<char>, Seq<char>, Seq<char>)>,
    b: Seq<(Seq<char>, Seq<char>, Seq<char>)>,
    x: (Seq<char>, Seq<char>, Seq<char>),
)
    requires
        is_subseq_of(a, b),
    ensures
        is_subseq_of(a.push(x), b.push(x)),
{
    assert(a.push(x).drop_last() =~= a);
    assert(b.push(x).drop_last() =~= b);
}

proof fn lemma_subseq_push_sup(
    a: Seq<(Seq<char>, Seq<char>, Seq<char>)>,
    b: Seq<(Seq<char>, Seq<char>, Seq<char>)>,
    x: (Seq<char>, Seq<char>, Seq<char>),
)
    requires
        is_subseq_of(a, b),
    ensures
        is_subseq_of(a, b.push(x)),
{
    assert(b.push(x).drop_last() =~= b);
}

proof fn lemma_kept_push(root: Seq<char>, s: Seq<CrawlEntry>, e: CrawlEntry)
    ensures
        e.is_file && crawl_keeps(root, e.path@) ==> kept_paths(root, s.push(e)) == kept_paths(
            root,
            s,
        ).push(e.path@),
        !(e.is_file && crawl_keeps(root, e.path@)) ==> kept_paths(root, s.push(e)) == kept_paths(
            root,
            s,
        ),
{
    reveal(Seq::filter);
    let pred = |x: CrawlEntry| x.is_file && crawl_keeps(root, x.path@);
    assert(s.push(e).drop_last() =~= s);
    if pred(e) {
        assert(s.push(e).filter(pred) =~= s.filter(pred).push(e));
        assert(kept_paths(root, s.push(e)) =~= kept_paths(root, s).push(e.path@));
    } else {
        assert(kept_paths(root, s.push(e)) =~= kept_paths(root, s));
    }
}

proof fn lemma_kept_app_push(s: Seq<String>, e: String)
    ensures
        is_app_path(e@) ==> kept_app_paths(s.push(e)) == kept_app_paths(s).push(e@),
        !is_app_path(e@) ==> kept_app_paths(s.push(e)) == kept_app_paths(s),
{
    reveal(Seq::filter);
    let pred = |x: String| is_app_path(x@);
    assert(s.push(e).drop_last() =~= s);
    if pred(e) {
        assert(s.push(e).filter(pred) =~= s.filter(pred).push(e));
        assert(kept_app_paths(s.push(e)) =~= kept_app_paths(s).push(e@));
    } else {
        assert(kept_app_paths(s.push(e)) =~= kept_app_paths(s));
    }
}

/// Ingests the walked entries of the scope rooted at `root` into the store
/// and commits once at the end. An entry is indexed when it is a file below
/// the root that no skip rule rejects; each surviving entry's document is
/// staged, and a document whose add fails is skipped (a best-effort crawl). The
/// result counts the documents actually staged; the committed contents are
/// always the prior staged contents followed by a subsequence of the kept
/// documents, in walk order, and when the count equals the number of kept
/// entries that subsequence is all of them.
#[verifier::loop_isolation(false)]
pub fn ingest_crawl(s: &mut ScopeStore, root: &str, entries: &Vec<CrawlEntry>) -> (r: Result<
    usize,
    String,
>)
    ensures
        match r {
            Ok(n) => {
                &&& n <= kept_paths(root@, entries@).len()
                &&& store_staged(final(s)) == store_committed(final(s))
                &&& exists|staged_rows: Seq<(Seq<char>, Seq<char>, Seq<char>)>|
                    #[trigger] is_subseq_of(staged_rows, docs_of_paths(kept_paths(root@, entries@)))
                        && staged_rows.len() == n && store_committed(final(s)) == store_staged(
                        old(s),
                    ) + staged_rows
                &&& n == kept_paths(root@, entries@).len() ==> store_committed(final(s))
                    == store_staged(old(s)) + docs_of_paths(kept_paths(root@, entries@))
            },
            Err(_) => true,
        },
{
    let ghost staged0 = store_staged(s);
    let ghost mut added_rows: Seq<(Seq<char>, Seq<char>, Seq<char>)> = Seq::empty();
    proof {
        assert(staged0 + added_rows =~= staged0);
    }
    let n: usize = entries.len();
    let mut added: usize = 0;
    let mut i: usize = 0;
    while i < n
        invariant
            i <= n,
            n == entries@.len(),
            added <= kept_paths(root@, entries@.subrange(0, i as int)).len(),
            store_committed(s) == store_committed(old(s)),
            store_staged(s) == staged0 + added_rows,
            added_rows.len() == added,
            is_subseq_of(added_rows, docs_of_paths(kept_paths(root@, entries@.subrange(0, i as int)))),
            added == kept_paths(root@, entries@.subrange(0, i as int)).len() ==> store_staged(s)
                == staged0 + docs_of_paths(kept_paths(root@, entries@.subrange(0, i as int))),
        decreases n - i,
    {
        proof {
            assert(entries@.subrange(0, i as int + 1) =~= entries@.subrange(0, i as int).push(
                entries@[i as int],
            ));
            lemma_kept_push(root@, entries@.subrange(0, i as int), entries@[i as int]);
        }
        if entries[i].is_file && crawl_keep(root, entries[i].path.as_str()) {
            let ghost kept_pre = kept_paths(root@, entries@.subrange(0, i as int));
            proof {
                assert(docs_of_paths(kept_pre.push(entries@[i as int].path@))
                    =~= docs_of_paths(kept_pre).push(doc_for(entries@[i as int].path@)));
            }
            match crate::store::stage_doc(s, entries[i].path.as_str()) {
                Ok(_) => {
                    added = added + 1;
                    proof {
                        lemma_subseq_push_both(
                            added_rows,
                            docs_of_paths(kept_pre),
                            doc_for(entries@[i as int].path@),
                        );
                        added_rows = added_rows.push(doc_for(entries@[i as int].path@));
                        assert(staged0 + added_rows =~= (staged0 + added_rows.drop_last()).push(
                            doc_for(entries@[i as int].path@),
                        ));
                        if added == kept_pre.len() + 1 {
                            assert(staged0 + docs_of_paths(kept_pre.push(
                                entries@[i as int].path@,
                            )) =~= (staged0 + docs_of_paths(kept_pre)).push(
                                doc_for(entries@[i as int].path@),
                            ));
                        }
                    }
                },
                Err(_) => {
                    proof {
                        lemma_subseq_push_sup(
                            added_rows,
                            docs_of_paths(kept_pre),
                            doc_for(entries@[i as int].path@),
                        );
                    }
                },
            }
        }
        i = i + 1;
    }
    proof {
        assert(entries@.subrange(0, n as int) =~= entries@);
    }
    match crate::store::commit(s) {
        Ok(_) => {
            proof {
                assert(is_subseq_of(added_rows, docs_of_paths(kept_paths(root@, entries@))));
            }
            Ok(added)
        },
        Err(e) => Err(e),
    }
}

/// Ingests the entries of a shallow applications crawl: an entry survives
/// exactly when its extension, case-folded, is the bundle extension. The
/// contract mirrors `ingest_crawl`.
#[verifier::loop_isolation(false)]
pub fn ingest_app_crawl(s: &mut ScopeStore, entries: &Vec<String>) -> (r: Result<usize, String>)
    ensures
        match r {
            Ok(n) => {
                &&& n <= kept_app_paths(entries@).len()
                &&& store_staged(final(s)) == store_committed(final(s))
                &&& exists|staged_rows: Seq<(Seq<char>, Seq<char>, Seq<char>)>|
                    #[trigger] is_subseq_of(staged_rows, docs_of_paths(kept_app_paths(entries@)))
                        && staged_rows.len() == n && store_committed(final(s)) == store_staged(
                        old(s),
                    ) + staged_rows
                &&& n == kept_app_paths(entries@).len() ==> store_committed(final(s))
                    == store_staged(old(s)) + docs_of_paths(kept_app_paths(entries@))
            },
            Err(_) => true,
        },
{
    let ghost staged0 = store_staged(s);
    let ghost mut added_rows: Seq<(Seq<char>, Seq<char>, Seq<char>)> = Seq::empty();
    proof {
        assert(staged0 + added_rows =~= staged0);
    }
    let n: usize = entries.len();
    let mut added: usize = 0;
    let mut i: usize = 0;
    while i < n
        invariant
            i <= n,
            n == entries@.len(),
            added <= kept_app_paths(entries@.subrange(0, i as int)).len(),
            store_committed(s) == store_committed(old(s)),
            store_staged(s) == staged0 + added_rows,
            added_rows.len() == added,
            is_subseq_of(added_rows, docs_of_paths(kept_app_paths(entries@.subrange(0, i as int)))),
            added == kept_app_paths(entries@.subrange(0, i as int)).len() ==> store_staged(s)
                == staged0 + docs_of_paths(kept_app_paths(entries@.subrange(0, i as int))),
        decreases n - i,
    {
        proof {
            assert(entries@.subrange(0, i as int + 1) =~= entries@.subrange(0, i as int).push(
                entries@[i as int],
            ));
            lemma_kept_app_push(entries@.subrange(0, i as int), entries@[i as int]);
        }
        if app_path(entries[i].as_str()) {
            let ghost kept_pre = kept_app_paths(entries@.subrange(0, i as int));
            proof {
                assert(docs_of_paths(kept_pre.push(entries@[i as int]@))
                    =~= docs_of_paths(kept_pre).push(doc_for(entries@[i as int]@)));
            }
            match crate::store::stage_doc(s, entries[i].as_str()) {
                Ok(_) => {
                    added = added + 1;
                    proof {
                        lemma_subseq_push_both(
                            added_rows,
                            docs_of_paths(kept_pre),
                            doc_for(entries@[i as int]@),
                        );
                        added_rows = added_rows.push(doc_for(entries@[i as int]@));
                        assert(staged0 + added_rows =~= (staged0 + added_rows.drop_last()).push(
                            doc_for(entries@[i as int]@),
                        ));
                        if added == kept_pre.len() + 1 {
                            assert(staged0 + docs_of_paths(kept_pre.push(entries@[i as int]@))
                                =~= (staged0 + docs_of_paths(kept_pre)).push(
                                doc_for(entries@[i as int]@),
                            ));
                        }
                    }
                },
                Err(_) => {
                    proof {
                        lemma_subseq_push_sup(
                            added_rows,
                            docs_of_paths(kept_pre),
                            doc_for(entries@[i as int]@),
                        );
                    }
                },
            }
        }
        i = i + 1;
    }
    proof {
        assert(entries@.subrange(0, n as int) =~= entries@);
    }
    match crate::store::commit(s) {
        Ok(_) => {
            proof {
                assert(is_subseq_of(added_rows, docs_of_paths(kept_app_paths(entries@))));
            }
            Ok(added)
        },
        Err(e) => Err(e),
    }
}

} // verus!
