//! The federated query engine's merge-and-rank stage: raw hits gathered
//! from the scopes' indices are pruned of entries whose path no longer
//! exists on disk (those are reported back for self-healing deletion),
//! scored contextually, sorted by descending score, and truncated to the
//! result cap.

use vstd::prelude::*;
use vstd::math::min;
use crate::score::{contextual_score, recency_boost_milli, recency_boost_spec, score_spec};
use crate::text::concat3;

verus! {

broadcast use vstd::seq_lib::group_to_multiset_ensures;

/// The bound on the federated search's merged result list.
pub const RESULT_CAP: usize = 15;

/// One raw hit from a scope's index, together with what the caller read off
/// the filesystem: whether the path still exists, and its last access time
/// when metadata was available.
pub struct SearchHit {
    pub name: String,
    pub path: String,
    pub base_milli: u64,
    pub on_disk: bool,
    pub atime_secs: Option<i64>,
}

/// One ranked result row.
pub struct ScoredResult {
    pub name: String,
    pub path: String,
    pub score: u128,
}

/// The hits whose paths still exist on disk.
pub open spec fn live_hits(hits: Seq<SearchHit>) -> Seq<SearchHit> {
    hits.filter(|h: SearchHit| h.on_disk)
}

/// The paths of the hits that no longer exist on disk, in hit order: the
/// entries the caller must delete from their indices.
pub open spec fn stale_paths(hits: Seq<SearchHit>) -> Seq<Seq<char>> {
    hits.filter(|h: SearchHit| !h.on_disk).map_values(|h: SearchHit| h.path@)
}

/// The views of a sequence of strings.
pub open spec fn string_views(s: Seq<String>) -> Seq<Seq<char>> {
    s.map_values(|x: String| x@)
}

/// The recency multiplier of a hit: computed from its access time, or
/// neutral when metadata was unavailable (a lookup failure does not
/// penalize the result).
pub open spec fn hit_recency(h: SearchHit, now: int) -> int {
    match h.atime_secs {
        Some(t) => recency_boost_spec(now, t as int),
        None => 1000,
    }
}

/// The contextual score of a hit for a query at time `now`.
pub open spec fn hit_score(h: SearchHit, query: Seq<char>, now: int) -> int {
    score_spec(h.name@, h.path@, query, h.base_milli as int, hit_recency(h, now))
}

/// The `(name, path, score)` rows for a sequence of hits.
pub open spec fn scored_models(hits: Seq<SearchHit>, query: Seq<char>, now: int) -> Seq<
    (Seq<char>, Seq<char>, int),
> {
    hits.map_values(|h: SearchHit| (h.name@, h.path@, hit_score(h, query, now)))
}

/// The rows of a sequence of result values.
pub open spec fn res_model(r: ScoredResult) -> (Seq<char>, Seq<char>, int) {
    (r.name@, r.path@, r.score as int)
}

/// The rows of a sequence of results.
pub open spec fn res_models(s: Seq<ScoredResult>) -> Seq<(Seq<char>, Seq<char>, int)> {
    s.map_values(|r: ScoredResult| res_model(r))
}

/// Rows in descending score order.
pub open spec fn sorted_desc(s: Seq<(Seq<char>, Seq<char>, int)>) -> bool {
    forall|i: int, j: int| 0 <= i < j < s.len() ==> s[i].2 >= s[j].2
}

/// `results` is a correct ranking of `hits`: some descending reordering
/// `full` of the scored live hits exists whose first `cap` rows are exactly
/// the results.
pub open spec fn is_ranking(
    full: Seq<(Seq<char>, Seq<char>, int)>,
    hits: Seq<SearchHit>,
    query: Seq<char>,
    now: int,
    cap: int,
    results: Seq<ScoredResult>,
) -> bool {
    &&& full.to_multiset() == scored_models(live_hits(hits), query, now).to_multiset()
    &&& sorted_desc(full)
    &&& res_models(results) == full.subrange(0, min(cap, full.len() as int))
}

proof fn lemma_live_stale_push(s: Seq<SearchHit>, h: SearchHit)
    ensures
        h.on_disk ==> live_hits(s.push(h)) == live_hits(s).push(h) && stale_paths(s.push(h))
            == stale_paths(s),
        !h.on_disk ==> live_hits(s.push(h)) == live_hits(s) && stale_paths(s.push(h))
            == stale_paths(s).push(h.path@),
{
    reveal(Seq::filter);
    assert(s.push(h).drop_last() =~= s);
    if h.on_disk {
        assert(stale_paths(s.push(h)) =~= stale_paths(s));
    } else {
        assert(stale_paths(s.push(h)) =~= stale_paths(s).push(h.path@));
    }
}

/// Splits the hits into those still on disk and the stale paths to delete.
#[verifier::loop_isolation(false)]
fn partition_hits(hits: &Vec<SearchHit>) -> (r: (Vec<SearchHit>, Vec<String>))
    ensures
        r.0@ == live_hits(hits@),
        string_views(r.1@) == stale_paths(hits@),
{
    let n: usize = hits.len();
    let mut live: Vec<SearchHit> = Vec::new();
    let mut stale: Vec<String> = Vec::new();
    let mut i: usize = 0;
    while i < n
        invariant
            i <= n,
            n == hits@.len(),
            live@ == live_hits(hits@.subrange(0, i as int)),
            string_views(stale@) == stale_paths(hits@.subrange(0, i as int)),
        decreases n - i,
    {
        proof {
            assert(hits@.subrange(0, i as int + 1) =~= hits@.subrange(0, i as int).push(
                hits@[i as int],
            ));
            lemma_live_stale_push(hits@.subrange(0, i as int), hits@[i as int]);
        }
        if hits[i].on_disk {
            let h: SearchHit = SearchHit {
                name: hits[i].name.clone(),
                path: hits[i].path.clone(),
                base_milli: hits[i].base_milli,
                on_disk: true,
                atime_secs: hits[i].atime_secs,
            };
            live.push(h);
            assert(live@ =~= live_hits(hits@.subrange(0, i as int + 1)));
        } else {
            stale.push(hits[i].path.clone());
            assert(string_views(stale@) =~= stale_paths(hits@.subrange(0, i as int + 1)));
        }
        i = i + 1;
    }
    assert(hits@.subrange(0, n as int) =~= hits@);
    (live, stale)
}

/// Scores each live hit contextually.
#[verifier::loop_isolation(false)]
fn score_hits(live: &Vec<SearchHit>, query: &str, now: i64) -> (r: Vec<ScoredResult>)
    ensures
        res_models(r@) == scored_models(live@, query@, now as int),
{
    let n: usize = live.len();
    let mut out: Vec<ScoredResult> = Vec::new();
    let mut i: usize = 0;
    while i < n
        invariant
            i <= n,
            n == live@.len(),
            res_models(out@) == scored_models(live@.subrange(0, i as int), query@, now as int),
        decreases n - i,
    {
        let ghost h = live@[i as int];
        let recency: u64 = match live[i].atime_secs {
            Some(t) => recency_boost_milli(now, t),
            None => 1000,
        };
        assert(recency as int == hit_recency(h, now as int));
        let sc: u128 = contextual_score(
            live[i].name.as_str(),
            live[i].path.as_str(),
            query,
            live[i].base_milli,
            recency,
        );
        assert(sc as int == hit_score(h, query@, now as int));
        out.push(ScoredResult { name: live[i].name.clone(), path: live[i].path.clone(), score: sc });
        proof {
            assert(res_model(out@.last()) == (h.name@, h.path@, hit_score(h, query@, now as int)));
            assert(live@.subrange(0, i as int + 1) =~= live@.subrange(0, i as int).push(h));
            assert(scored_models(live@.subrange(0, i as int + 1), query@, now as int)
                =~= scored_models(live@.subrange(0, i as int), query@, now as int).push(
                (h.name@, h.path@, hit_score(h, query@, now as int)),
            ));
            assert(res_models(out@) =~= res_models(out@.drop_last()).push(res_model(out@.last())));
        }
        i = i + 1;
    }
    assert(live@.subrange(0, n as int) =~= live@);
    out
}

/// Sorts the results into descending score order (a permutation of the
/// input).
#[verifier::loop_isolation(false)]
fn sort_desc(v: Vec<ScoredResult>) -> (r: Vec<ScoredResult>)
    ensures
        sorted_desc(res_models(r@)),
        res_models(r@).to_multiset() == res_models(v@).to_multiset(),
        r@.len() == v@.len(),
{
    let mut work: Vec<ScoredResult> = v;
    let mut out: Vec<ScoredResult> = Vec::new();
    while work.len() > 0
        invariant
            out@.len() + work@.len() == v@.len(),
            res_models(out@).to_multiset().add(res_models(work@).to_multiset()) == res_models(
                v@,
            ).to_multiset(),
            sorted_desc(res_models(out@)),
            forall|a: int, b: int|
                0 <= a < out@.len() && 0 <= b < work@.len() ==> res_models(out@)[a].2
                    >= res_models(work@)[b].2,
        decreases work@.len(),
    {
        let m: usize = work.len();
        let mut imax: usize = 0;
        let mut j: usize = 1;
        while j < m
            invariant
                1 <= j <= m,
                imax < j,
                m == work@.len(),
                forall|t: int| 0 <= t < j ==> work@[imax as int].score >= work@[t].score,
            decreases m - j,
        {
            if work[j].score > work[imax].score {
                imax = j;
            }
            j = j + 1;
        }
        let ghost old_out = out@;
        let ghost old_work = work@;
        let x: ScoredResult = work.remove(imax);
        out.push(x);
        proof {
            assert(res_models(old_work)[imax as int] == res_model(out@.last()));
            assert(res_models(work@) =~= res_models(old_work).remove(imax as int));
            assert(res_models(out@) =~= res_models(old_out).push(res_model(out@.last())));
            assert(res_models(old_work).contains(res_model(out@.last()))) by {
                assert(res_models(old_work)[imax as int] == res_model(out@.last()));
            }
            assert(res_models(out@).to_multiset().add(res_models(work@).to_multiset())
                =~= res_models(v@).to_multiset());
        }
    }
    out
}

/// Merges, prunes, scores and ranks the raw hits of a query: hits whose
/// path no longer exists on disk are excluded from the results and returned
/// separately as paths to delete from their indices; the remaining hits are
/// scored contextually at time `now`, sorted by descending score, and
/// truncated to at most `cap` rows.
pub fn rank_hits(hits: &Vec<SearchHit>, query: &str, now: i64, cap: usize) -> (r: (
    Vec<ScoredResult>,
    Vec<String>,
))
    ensures
        string_views(r.1@) == stale_paths(hits@),
        r.0@.len() == min(cap as int, live_hits(hits@).len() as int),
        sorted_desc(res_models(r.0@)),
        exists|full: Seq<(Seq<char>, Seq<char>, int)>|
            #[trigger] is_ranking(full, hits@, query@, now as int, cap as int, r.0@),
{
    let parts: (Vec<SearchHit>, Vec<String>) = partition_hits(hits);
    let scored: Vec<ScoredResult> = score_hits(&parts.0, query, now);
    let ghost scored_view = scored@;
    let mut ranked: Vec<ScoredResult> = sort_desc(scored);
    let ghost full = res_models(ranked@);
    proof {
        assert(res_models(scored_view).len() == scored_view.len());
        assert(scored_models(parts.0@, query@, now as int).len() == parts.0@.len());
        assert(full.len() == res_models(ranked@).len());
        assert(full.len() == live_hits(hits@).len());
        assert(res_models(ranked@).to_multiset() =~= scored_models(
            live_hits(hits@),
            query@,
            now as int,
        ).to_multiset());
    }
    ranked.truncate(cap);
    proof {
        assert(res_models(ranked@).len() == ranked@.len());
    }
    proof {
        if cap <= full.len() {
            assert(res_models(ranked@) =~= full.subrange(0, min(cap as int, full.len() as int)));
        } else {
            assert(res_models(ranked@) =~= full.subrange(0, min(cap as int, full.len() as int)));
        }
        assert(is_ranking(full, hits@, query@, now as int, cap as int, ranked@));
    }
    (ranked, parts.1)
}

/// Relies on `std::time::SystemTime::now`: the clock's current Unix
/// timestamp, negative when the clock reads before the epoch. Nothing is
/// assumed about its value.
#[verifier::external_body]
fn now_unix_secs() -> (r: i64) {
    match std::time::SystemTime::now().duration_since(std::time::UNIX_EPOCH) {
        Ok(since) => since.as_secs() as i64,
        Err(before) => -(before.duration().as_secs() as i64),
    }
}

/// `rank_hits` at the current wall-clock time: the ranking holds for the
/// moment the clock reported, whatever it was.
pub fn rank_hits_now(hits: &Vec<SearchHit>, query: &str, cap: usize) -> (r: (
    Vec<ScoredResult>,
    Vec<String>,
))
    ensures
        string_views(r.1@) == stale_paths(hits@),
        r.0@.len() == min(cap as int, live_hits(hits@).len() as int),
        sorted_desc(res_models(r.0@)),
        exists|now: i64, full: Seq<(Seq<char>, Seq<char>, int)>|
            #[trigger] is_ranking(full, hits@, query@, now as int, cap as int, r.0@),
{
    let now: i64 = now_unix_secs();
    rank_hits(hits, query, now, cap)
}

/// What `regex::escape` returns: a function of the query text alone.
pub uninterp spec fn regex_escaped(s: Seq<char>) -> Seq<char>;

/// Relies on `regex::escape`: the query with every regex metacharacter
/// escaped, a pure function of the text; an empty text stays empty.
#[verifier::external_body]
fn escape_regex(s: &str) -> (r: String)
    ensures
        r@ == regex_escaped(s@),
        s@.len() == 0 ==> r@.len() == 0,
{
    regex::escape(s)
}

/// The case-insensitive substring pattern a query's path clause uses:
/// the escaped query text with wildcards on both sides, under a
/// case-insensitivity flag.
pub fn substring_pattern(query: &str) -> (r: String)
    ensures
        r@ == "(?i).*"@ + regex_escaped(query@) + ".*"@,
{
    let escaped: String = escape_regex(query);
    concat3("(?i).*", escaped.as_str(), ".*")
}

} // verus!
