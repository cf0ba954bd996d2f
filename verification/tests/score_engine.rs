use aleph::engine::{rank_hits, substring_pattern, SearchHit};
use aleph::score::{contextual_score, recency_boost_milli, HALF_LIFE_SECS};

fn hit(name: &str, path: &str, base: u64, on_disk: bool) -> SearchHit {
    SearchHit {
        name: name.to_string(),
        path: path.to_string(),
        base_milli: base,
        on_disk,
        atime_secs: None,
    }
}

#[test]
fn recency_bounds_hold_everywhere() {
    let now: i64 = 1_700_000_000;
    let ages: [i64; 8] = [
        -1_000_000_000,
        0,
        1,
        HALF_LIFE_SECS as i64 / 2,
        HALF_LIFE_SECS as i64,
        10 * HALF_LIFE_SECS as i64,
        1_000_000 * HALF_LIFE_SECS as i64,
        i64::MAX / 2,
    ];
    for age in ages {
        let boost = recency_boost_milli(now, now - age);
        assert!(boost >= 200 && boost <= 1200, "boost {} out of range", boost);
    }
}

#[test]
fn recency_exact_values() {
    let now: i64 = 1_700_000_000;
    // an access now or in the future gets the full boost
    assert_eq!(recency_boost_milli(now, now), 1200);
    assert_eq!(recency_boost_milli(now, now + 5000), 1200);
    // one half-life ago: half of the decaying part remains
    assert_eq!(recency_boost_milli(now, now - HALF_LIFE_SECS as i64), 700);
    // half a half-life ago, by linear interpolation within the period
    assert_eq!(recency_boost_milli(now, now - HALF_LIFE_SECS as i64 / 2), 950);
    // the distant past decays to the floor
    assert_eq!(recency_boost_milli(now, now - 1000 * HALF_LIFE_SECS as i64), 200);
}

#[test]
fn contextual_score_exact() {
    // path substring hit, document extension, shallow path
    let s = contextual_score("report.pdf", "/d/report.pdf", "report", 1000, 1000);
    assert_eq!(s, 1000u128 * 3000 * 1000 * 1000 * 1200);

    // filename-only hit (the path does not contain the query)
    let s = contextual_score("report.pdf", "/a/b.pdf", "report", 1000, 1000);
    assert_eq!(s, 1000u128 * 1500 * 1000 * 1000 * 1200);

    // no substring hit, no document extension
    let s = contextual_score("notes.md", "/a/notes.md", "zzz", 1000, 1000);
    assert_eq!(s, 1000u128 * 1000 * 1000 * 1000 * 1000);

    // deep paths are penalized
    let s = contextual_score("x.md", "/a/b/c/d/e/f/g/x.md", "zzz", 1000, 1000);
    assert_eq!(s, 1000u128 * 1000 * 1000 * 800 * 1000);

    // the substring test is case-insensitive, while the document-extension
    // test reads the name's literal ending
    let s = contextual_score("Report.PDF", "/d/Report.PDF", "rEpOrT", 1000, 1000);
    assert_eq!(s, 1000u128 * 3000 * 1000 * 1000 * 1000);
}

#[test]
fn path_hit_outranks_name_hit() {
    // identical rows except for where the query matches
    let path_hit = contextual_score("report.pdf", "/d/report.pdf", "report", 700, 950);
    let name_hit = contextual_score("report.pdf", "/d/x.pdf", "report", 700, 950);
    assert!(path_hit > name_hit);
}

#[test]
fn ranking_sorts_and_truncates() {
    let hits = vec![
        hit("b.md", "/d/b.md", 1000, true),
        hit("report.pdf", "/d/report.pdf", 1000, true),
        hit("a.md", "/d/a.md", 1000, true),
    ];
    let (results, stale) = rank_hits(&hits, "report", 0, 15);
    assert!(stale.is_empty());
    assert_eq!(results.len(), 3);
    assert_eq!(results[0].path, "/d/report.pdf");
    assert!(results[0].score >= results[1].score);
    assert!(results[1].score >= results[2].score);

    let (capped, _) = rank_hits(&hits, "report", 0, 1);
    assert_eq!(capped.len(), 1);
    assert_eq!(capped[0].path, "/d/report.pdf");
}

#[test]
fn ranking_prunes_stale_hits() {
    let hits = vec![
        hit("gone.txt", "/d/gone.txt", 1000, false),
        hit("here.txt", "/d/here.txt", 1000, true),
    ];
    let (results, stale) = rank_hits(&hits, "txt", 0, 15);
    assert_eq!(results.len(), 1);
    assert_eq!(results[0].path, "/d/here.txt");
    assert_eq!(stale, vec!["/d/gone.txt".to_string()]);
}

#[test]
fn substring_pattern_escapes() {
    assert_eq!(substring_pattern("report"), "(?i).*report.*");
    assert_eq!(substring_pattern("a.b"), "(?i).*a\\.b.*");
    assert_eq!(substring_pattern(""), "(?i).*.*");
}
