//! Contextual relevance scoring in fixed-point milli-units: substring and
//! filename boosts, a depth penalty, a document-extension boost, and a
//! recency multiplier with exponential decay over a thirty-day half-life,
//! clamped to [0.2, 1.2] (here: [200, 1200] milli).

use vstd::prelude::*;
use vstd::arithmetic::div_mod::{
    lemma_div_is_ordered, lemma_basic_div_specific_divisor, lemma_div_multiples_vanish,
    lemma_div_nonincreasing, lemma_div_pos_is_pos,
};
use vstd::arithmetic::mul::lemma_mul_inequality;
use vstd::arithmetic::power2::{pow2, lemma_pow2_pos, lemma_pow2_strictly_increases, lemma2_to64};
use crate::text::{contains_fold, chars_of, chars_end_with, count_char, count_char_exec,
    lower_seq, seq_contains, seq_ends_with};


verus! {

/// Thirty days, in seconds: the half-life of the recency decay.
pub const HALF_LIFE_SECS: u64 = 2592000;

/// The decayed fraction, in milli-units, of a file aged `age` seconds
/// (for a positive age): one thousand halved once per elapsed half-life,
/// interpolated linearly within the current half-life.
pub open spec fn decay_milli(age: int) -> int {
    let h = HALF_LIFE_SECS as int;
    let q = age / h;
    let rem = age % h;
    ((2 * h - rem) * 1000 / (2 * h)) as int / pow2(q as nat) as int
}

/// The recency multiplier, in milli-units, for a file whose last access was
/// at `atime` seconds when the clock reads `now` seconds: 1200 for an access
/// now or in the future, and 200 plus the decayed fraction otherwise.
pub open spec fn recency_boost_spec(now: int, atime: int) -> int {
    if atime >= now {
        1200
    } else {
        200 + decay_milli(now - atime)
    }
}

proof fn lemma_decay_bounds(age: int)
    requires
        age > 0,
    ensures
        0 <= decay_milli(age) <= 1000,
{
    let h = HALF_LIFE_SECS as int;
    let q = age / h;
    let rem = age % h;
    let scaled = (2 * h - rem) * 1000 / (2 * h);
    lemma_div_pos_is_pos(age, h);
    assert(0 <= rem < h);
    lemma_mul_inequality(2 * h - rem, 2 * h, 1000);
    lemma_div_is_ordered((2 * h - rem) * 1000, 2 * h * 1000, 2 * h);
    lemma_div_multiples_vanish(1000, 2 * h);
    assert(2 * h * 1000 == (2 * h) * 1000);
    assert(scaled <= 1000);
    assert(0 <= (2 * h - rem) * 1000) by (nonlinear_arith)
        requires
            rem < h,
            h > 0,
    ;
    lemma_div_pos_is_pos((2 * h - rem) * 1000, 2 * h);
    lemma_pow2_pos(q as nat);
    lemma_div_pos_is_pos(scaled, pow2(q as nat) as int);
    lemma_div_nonincreasing(scaled, pow2(q as nat) as int);
}

/// The recency multiplier always lies within [200, 1200] milli-units,
/// whatever the access time: in the future, recent, or arbitrarily old.
pub proof fn lemma_recency_bounds(now: int, atime: int)
    ensures
        200 <= recency_boost_spec(now, atime) <= 1200,
{
    if atime < now {
        lemma_decay_bounds(now - atime);
    }
}

/// Computes the recency multiplier in milli-units.
#[verifier::loop_isolation(false)]
pub fn recency_boost_milli(now: i64, atime: i64) -> (r: u64)
    ensures
        r as int == recency_boost_spec(now as int, atime as int),
        200 <= r <= 1200,
{
    proof {
        lemma_recency_bounds(now as int, atime as int);
    }
    if atime >= now {
        return 1200;
    }
    let age: u128 = (now as i128 - atime as i128) as u128;
    assert(age as int == now - atime);
    let h: u128 = HALF_LIFE_SECS as u128;
    let q: u128 = age / h;
    let rem: u128 = age % h;
    let scaled: u64 = (((2 * h - rem) * 1000) / (2 * h)) as u64;
    assert(scaled as int == (2 * (HALF_LIFE_SECS as int) - rem) * 1000 / (2
        * (HALF_LIFE_SECS as int)));
    proof {
        lemma_decay_bounds(now - atime);
    }
    if q >= 10 {
        proof {
            lemma2_to64();
            if q > 10 {
                lemma_pow2_strictly_increases(10, q as nat);
            }
            assert(pow2(q as nat) >= 1024);
            lemma_basic_div_specific_divisor(pow2(q as nat) as int);
            assert(scaled as int / pow2(q as nat) as int == 0);
        }
        return 200;
    }
    let mut p: u64 = 1;
    let mut t: u128 = 0;
    proof {
        lemma2_to64();
    }
    while t < q
        invariant
            t <= q,
            q < 10,
            p as nat == pow2(t as nat),
            p <= 1024,
        decreases q - t,
    {
        proof {
            lemma2_to64();
            if t as nat + 1 < 10 {
                lemma_pow2_strictly_increases(t as nat + 1, 10);
            }
        }
        p = p * 2;
        t = t + 1;
    }
    proof {
        lemma_pow2_pos(q as nat);
    }
    let shifted: u64 = scaled / p;
    200 + shifted
}

/// The substring multiplier: a hit in the full path outranks a hit in the
/// file name alone, which outranks a purely fuzzy match.
pub open spec fn sub_mult(path_hit: bool, name_hit: bool) -> int {
    if path_hit {
        3000
    } else if name_hit {
        1500
    } else {
        1000
    }
}

/// The depth multiplier: deeply nested paths are penalized.
pub open spec fn depth_mult(depth: int) -> int {
    if depth > 6 {
        800
    } else {
        1000
    }
}

/// The extension multiplier: common document types are boosted.
pub open spec fn ext_mult(is_doc: bool) -> int {
    if is_doc {
        1200
    } else {
        1000
    }
}

/// A name carries a common document extension.
pub open spec fn is_doc_name(name: Seq<char>) -> bool {
    seq_ends_with(name, ".txt"@) || seq_ends_with(name, ".pdf"@) || seq_ends_with(name, ".doc"@)
}

/// The contextual score: the base relevance in milli-units times the four
/// multipliers, each in milli-units.
pub open spec fn contextual_spec(
    base: int,
    path_hit: bool,
    name_hit: bool,
    recency: int,
    depth: int,
    is_doc: bool,
) -> int {
    base * sub_mult(path_hit, name_hit) * recency * depth_mult(depth) * ext_mult(is_doc)
}

/// The contextual score of a result row for a query: the path substring test
/// and the name substring test are case-folded; the depth is the number of
/// separators in the path; the document boost reads the name's ending.
pub open spec fn score_spec(
    name: Seq<char>,
    path: Seq<char>,
    query: Seq<char>,
    base: int,
    recency: int,
) -> int {
    contextual_spec(
        base,
        seq_contains(lower_seq(path), lower_seq(query)),
        seq_contains(lower_seq(name), lower_seq(query)),
        recency,
        count_char(path, '/'),
        is_doc_name(name),
    )
}

/// Computes the contextual score of a result row, in milli-to-the-fifth
/// units (the base and each multiplier contribute a factor of one thousand).
pub fn contextual_score(name: &str, path: &str, query: &str, base_milli: u64, recency_milli: u64)
    -> (r: u128)
    requires
        recency_milli <= 1200,
    ensures
        r as int == score_spec(name@, path@, query@, base_milli as int, recency_milli as int),
{
    let path_hit: bool = contains_fold(path, query);
    let name_hit: bool = contains_fold(name, query);
    let namev: Vec<char> = chars_of(name);
    let pathv: Vec<char> = chars_of(path);
    let txt: Vec<char> = chars_of(".txt");
    let pdf: Vec<char> = chars_of(".pdf");
    let doc: Vec<char> = chars_of(".doc");
    let is_doc: bool = chars_end_with(&namev, &txt) || chars_end_with(&namev, &pdf)
        || chars_end_with(&namev, &doc);
    let depth: usize = count_char_exec(&pathv, '/');
    let sub: u128 = if path_hit {
        3000
    } else if name_hit {
        1500
    } else {
        1000
    };
    let dm: u128 = if depth > 6 {
        800
    } else {
        1000
    };
    let em: u128 = if is_doc {
        1200
    } else {
        1000
    };
    let b: u128 = base_milli as u128;
    let rm: u128 = recency_milli as u128;
    proof {
        assert(b * sub <= 55340232221128654845000) by (nonlinear_arith)
            requires
                b <= 18446744073709551615,
                0 <= sub <= 3000,
        ;
    }
    let a1: u128 = b * sub;
    proof {
        assert(a1 * rm <= 66408278665354385814000000) by (nonlinear_arith)
            requires
                0 <= a1 <= 55340232221128654845000,
                0 <= rm <= 1200,
        ;
    }
    let a2: u128 = a1 * rm;
    proof {
        assert(a2 * dm <= 66408278665354385814000000000) by (nonlinear_arith)
            requires
                0 <= a2 <= 66408278665354385814000000,
                0 <= dm <= 1000,
        ;
    }
    let a3: u128 = a2 * dm;
    proof {
        assert(a3 * em <= 79689934398425262976800000000000) by (nonlinear_arith)
            requires
                0 <= a3 <= 66408278665354385814000000000,
                0 <= em <= 1200,
        ;
    }
    let r: u128 = a3 * em;
    r
}

/// For a fixed query and otherwise identical rows (same base relevance,
/// recency, depth and extension class), a row whose path contains the query
/// substring scores strictly higher than one that matches only through the
/// file name or through fuzzy retrieval.
pub proof fn lemma_path_hit_outranks(
    base: int,
    name_hit: bool,
    recency: int,
    depth: int,
    is_doc: bool,
)
    requires
        base >= 1,
        recency >= 200,
    ensures
        contextual_spec(base, true, name_hit, recency, depth, is_doc) > contextual_spec(
            base,
            false,
            true,
            recency,
            depth,
            is_doc,
        ),
{
    let dm = depth_mult(depth);
    let em = ext_mult(is_doc);
    assert(base * 3000 * recency * dm * em > base * 1500 * recency * dm * em)
        by (nonlinear_arith)
        requires
            base >= 1,
            recency >= 200,
            dm == depth_mult(depth),
            em == ext_mult(is_doc),
            800 <= dm <= 1000,
            1000 <= em <= 1200,
    ;
}

/// For a fixed query, a result whose path contains the query substring
/// (case-folded) scores strictly higher than an otherwise-identical result
/// that matches the query only through its file name: same base relevance,
/// same recency, same depth class and same document-extension class.
pub proof fn lemma_substring_hit_outranks(
    name1: Seq<char>,
    path1: Seq<char>,
    name2: Seq<char>,
    path2: Seq<char>,
    query: Seq<char>,
    base: int,
    recency: int,
)
    requires
        base >= 1,
        recency >= 200,
        seq_contains(lower_seq(path1), lower_seq(query)),
        !seq_contains(lower_seq(path2), lower_seq(query)),
        seq_contains(lower_seq(name2), lower_seq(query)),
        depth_mult(count_char(path1, '/')) == depth_mult(count_char(path2, '/')),
        is_doc_name(name1) == is_doc_name(name2),
    ensures
        score_spec(name1, path1, query, base, recency) > score_spec(
            name2,
            path2,
            query,
            base,
            recency,
        ),
{
    let nh = seq_contains(lower_seq(name1), lower_seq(query));
    lemma_path_hit_outranks(base, nh, recency, count_char(path1, '/'), is_doc_name(name1));
}

} // verus!
