use aleph::crawl::{ingest_app_crawl, ingest_crawl, CrawlEntry};
use aleph::dedup::{DedupCache, EventKind};
use aleph::engine::{rank_hits, rank_hits_now, substring_pattern, SearchHit};
use aleph::icon::decode_icon_bytes;
use aleph::score::contextual_score;
use aleph::store::{
    commit, committed_count, committed_count_for_path, index_app_entry, index_entry,
    open_or_create, reader, remove_path, snapshot_doc_count, stage_doc, OpenOutcome, ScopeStore,
};
use aleph::watch::{plan_file_event, IndexOp};
use tantivy::collector::TopDocs;
use tantivy::query::{BooleanQuery, Occur, QueryParser, RegexQuery};
use tantivy::schema::Value;
use tantivy::TantivyDocument;

fn open_store(dir: &str) -> (ScopeStore, bool) {
    match open_or_create(dir).expect("store must open") {
        OpenOutcome::Created(s) => (s, true),
        OpenOutcome::Opened(s) => (s, false),
    }
}

/// Runs the combined fuzzy-or-substring query the engine uses and returns
/// the raw `(name, path, score)` rows.
fn raw_search(dir: &str, query: &str, limit: usize) -> Vec<(String, String, f32)> {
    let index = tantivy::Index::open_in_dir(dir).expect("index must open");
    let schema = index.schema();
    let path_f = schema.get_field("path").unwrap();
    let name_f = schema.get_field("filename").unwrap();
    let ext_f = schema.get_field("extension").unwrap();
    let reader = index.reader().unwrap();
    reader.reload().unwrap();
    let searcher = reader.searcher();
    let mut qp = QueryParser::for_index(&index, vec![path_f, name_f, ext_f]);
    qp.set_field_fuzzy(name_f, false, 1, true);
    let fuzzy = qp.parse_query(query).unwrap();
    let pattern = substring_pattern(query);
    let substr = RegexQuery::from_pattern(&pattern, path_f).unwrap();
    let combined = BooleanQuery::new(vec![
        (Occur::Should, Box::new(fuzzy)),
        (Occur::Should, Box::new(substr)),
    ]);
    let top = searcher.search(&combined, &TopDocs::with_limit(limit).order_by_score()).unwrap();
    let mut out = Vec::new();
    for (score, addr) in top {
        let doc: TantivyDocument = searcher.doc(addr).unwrap();
        let name = doc.get_first(name_f).and_then(|v| v.as_str()).unwrap_or_default().to_owned();
        let path = doc.get_first(path_f).and_then(|v| v.as_str()).unwrap_or_default().to_owned();
        out.push((name, path, score));
    }
    out
}

#[test]
fn idempotent_reopen() {
    let tmp = tempfile::tempdir().unwrap();
    let dir = tmp.path().to_str().unwrap().to_string();

    let (mut store, created) = open_store(&dir);
    assert!(created);
    assert_eq!(committed_count(&store).unwrap(), 0);
    stage_doc(&mut store, "/d/a.txt").unwrap();
    stage_doc(&mut store, "/d/b.txt").unwrap();
    stage_doc(&mut store, "/d/c.txt").unwrap();
    commit(&mut store).unwrap();
    assert_eq!(committed_count(&store).unwrap(), 3);
    drop(store);

    // reopening an existing store keeps the same document count
    let (store, created) = open_store(&dir);
    assert!(!created);
    assert_eq!(committed_count(&store).unwrap(), 3);
    drop(store);

    // and so does reopening it once more
    let (store, created) = open_store(&dir);
    assert!(!created);
    assert_eq!(committed_count(&store).unwrap(), 3);
}

#[test]
fn delete_then_add_keeps_one_document() {
    let tmp = tempfile::tempdir().unwrap();
    let dir = tmp.path().to_str().unwrap().to_string();
    let (mut store, _) = open_store(&dir);

    // a bulk path can stage duplicates for one path
    stage_doc(&mut store, "/d/f.txt").unwrap();
    stage_doc(&mut store, "/d/f.txt").unwrap();
    commit(&mut store).unwrap();
    assert_eq!(committed_count_for_path(&store, "/d/f.txt").unwrap(), 2);

    // indexing the path again collapses it to exactly one live document
    index_entry(&mut store, "/d/f.txt").unwrap();
    assert_eq!(committed_count_for_path(&store, "/d/f.txt").unwrap(), 1);

    // and doing it once more still leaves exactly one
    index_entry(&mut store, "/d/f.txt").unwrap();
    assert_eq!(committed_count_for_path(&store, "/d/f.txt").unwrap(), 1);
    assert_eq!(committed_count(&store).unwrap(), 1);
}

#[test]
fn crawl_scenario_with_skip_rules() {
    let tmp = tempfile::tempdir().unwrap();
    let dir = tmp.path().to_str().unwrap().to_string();
    let (mut store, _) = open_store(&dir);

    let root = "/home/ada/Desktop";
    let entries = vec![
        CrawlEntry { path: format!("{}/report.pdf", root), is_file: true },
        CrawlEntry { path: format!("{}/report_old.pdf~", root), is_file: true },
        CrawlEntry { path: format!("{}/.hidden_report.pdf", root), is_file: true },
        CrawlEntry { path: format!("{}/projects", root), is_file: false },
    ];
    let added = ingest_crawl(&mut store, root, &entries).unwrap();
    assert_eq!(added, 1);
    assert_eq!(committed_count(&store).unwrap(), 1);
    assert_eq!(
        committed_count_for_path(&store, "/home/ada/Desktop/report.pdf").unwrap(),
        1
    );
    drop(store);

    // the query finds only the kept document
    let rows = raw_search(&dir, "report", 5);
    assert_eq!(rows.len(), 1);
    assert_eq!(rows[0].0, "report.pdf");
    assert_eq!(rows[0].1, "/home/ada/Desktop/report.pdf");

    // its contextual score carries both the path-substring boost and the
    // document-extension boost over the raw relevance
    let base = (rows[0].2 * 1000.0) as u64;
    let hits = vec![SearchHit {
        name: rows[0].0.clone(),
        path: rows[0].1.clone(),
        base_milli: base,
        on_disk: true,
        atime_secs: None,
    }];
    let (ranked, _) = rank_hits(&hits, "report", 0, 15);
    assert_eq!(ranked.len(), 1);
    let expected = base as u128 * 3000 * 1000 * 1000 * 1200;
    assert_eq!(ranked[0].score, expected);
    assert_eq!(
        ranked[0].score,
        contextual_score(&rows[0].0, &rows[0].1, "report", base, 1000)
    );
}

#[test]
fn app_crawl_scenario() {
    let tmp = tempfile::tempdir().unwrap();
    let dir = tmp.path().to_str().unwrap().to_string();
    let (mut store, _) = open_store(&dir);

    let entries = vec![
        "/Applications/Spotify.app".to_string(),
        "/Applications/notes.txt".to_string(),
        "/Applications".to_string(),
    ];
    let added = ingest_app_crawl(&mut store, &entries).unwrap();
    assert_eq!(added, 1);
    assert_eq!(committed_count(&store).unwrap(), 1);
    drop(store);

    let rows = raw_search(&dir, "Spotify", 15);
    assert!(rows
        .iter()
        .any(|(name, path, _)| name == "Spotify.app" && path == "/Applications/Spotify.app"));

    // the bundle's icon container decodes to a non-empty data URI
    let mut family = icns::IconFamily::new();
    let pixels = vec![200u8; 16 * 16 * 4];
    let image = icns::Image::from_data(icns::PixelFormat::RGBA, 16, 16, pixels).unwrap();
    family.add_icon_with_type(&image, icns::IconType::RGBA32_16x16).unwrap();
    let mut bytes: Vec<u8> = Vec::new();
    family.write(&mut bytes).unwrap();
    let uri = decode_icon_bytes(&bytes).expect("a decodable container yields an icon");
    assert!(uri.starts_with("data:image/png;base64,"));
    assert!(uri.len() > "data:image/png;base64,".len());

    // bytes that are no icon container yield nothing
    assert!(decode_icon_bytes(&vec![1u8, 2, 3, 4]).is_none());
}

#[test]
fn delete_event_empties_results() {
    let tmp = tempfile::tempdir().unwrap();
    let dir = tmp.path().to_str().unwrap().to_string();
    let (mut store, _) = open_store(&dir);

    index_entry(&mut store, "/home/ada/Desktop/leet.c").unwrap();
    assert_eq!(committed_count_for_path(&store, "/home/ada/Desktop/leet.c").unwrap(), 1);

    // the watcher turns the removal event into a remove operation
    let mut cache = DedupCache::new(500);
    match plan_file_event(&mut cache, "/home/ada/Desktop/leet.c", EventKind::Removed, false, 100) {
        Some(IndexOp::Remove(p)) => remove_path(&mut store, &p).unwrap(),
        _ => panic!("a removal event must become a remove operation"),
    }
    assert_eq!(committed_count_for_path(&store, "/home/ada/Desktop/leet.c").unwrap(), 0);
    drop(store);

    // any matching search now returns nothing for that path
    let rows = raw_search(&dir, "leet.c", 15);
    assert!(rows.iter().all(|(_, path, _)| path != "/home/ada/Desktop/leet.c"));
}

#[test]
fn stale_hits_self_heal() {
    let tmp = tempfile::tempdir().unwrap();
    let dir = tmp.path().to_str().unwrap().to_string();
    let (mut store, _) = open_store(&dir);

    index_entry(&mut store, "/home/ada/Desktop/gone.txt").unwrap();

    // the hit comes back from the index, but the path is gone from disk:
    // the ranking excludes it and reports it for deletion
    let hits = vec![SearchHit {
        name: "gone.txt".to_string(),
        path: "/home/ada/Desktop/gone.txt".to_string(),
        base_milli: 1000,
        on_disk: false,
        atime_secs: None,
    }];
    let (ranked, stale) = rank_hits(&hits, "gone", 0, 15);
    assert!(ranked.is_empty());
    assert_eq!(stale, vec!["/home/ada/Desktop/gone.txt".to_string()]);
    for p in &stale {
        remove_path(&mut store, p).unwrap();
    }
    assert_eq!(
        committed_count_for_path(&store, "/home/ada/Desktop/gone.txt").unwrap(),
        0
    );
}

#[test]
fn app_entry_guard() {
    let tmp = tempfile::tempdir().unwrap();
    let dir = tmp.path().to_str().unwrap().to_string();
    let (mut store, _) = open_store(&dir);

    // a non-bundle path is ignored by the applications write path
    assert!(!index_app_entry(&mut store, "/Applications/notes.txt").unwrap());
    assert_eq!(committed_count(&store).unwrap(), 0);

    assert!(index_app_entry(&mut store, "/Applications/Spotify.app").unwrap());
    assert_eq!(
        committed_count_for_path(&store, "/Applications/Spotify.app").unwrap(),
        1
    );
}

#[test]
fn snapshots_are_pinned() {
    let tmp = tempfile::tempdir().unwrap();
    let dir = tmp.path().to_str().unwrap().to_string();
    let (mut store, _) = open_store(&dir);

    index_entry(&mut store, "/d/a.txt").unwrap();
    let before = reader(&store).unwrap();
    assert_eq!(snapshot_doc_count(&before), 1);

    // a commit after the snapshot was taken is not observed by it
    index_entry(&mut store, "/d/b.txt").unwrap();
    assert_eq!(snapshot_doc_count(&before), 1);

    // a freshly requested reader observes the latest commit
    let after = reader(&store).unwrap();
    assert_eq!(snapshot_doc_count(&after), 2);
}

#[test]
fn ranking_at_the_clock_now() {
    let hits = vec![
        SearchHit {
            name: "report.pdf".to_string(),
            path: "/d/report.pdf".to_string(),
            base_milli: 1000,
            on_disk: true,
            atime_secs: None,
        },
        SearchHit {
            name: "gone.txt".to_string(),
            path: "/d/gone.txt".to_string(),
            base_milli: 1000,
            on_disk: false,
            atime_secs: None,
        },
    ];
    let (ranked, stale) = rank_hits_now(&hits, "report", 15);
    assert_eq!(ranked.len(), 1);
    assert_eq!(ranked[0].path, "/d/report.pdf");
    assert_eq!(stale, vec!["/d/gone.txt".to_string()]);
}

#[test]
fn icon_decoding_prefers_the_largest_variant() {
    let mut family = icns::IconFamily::new();
    let small = icns::Image::from_data(icns::PixelFormat::RGBA, 16, 16, vec![10u8; 16 * 16 * 4]).unwrap();
    let large = icns::Image::from_data(icns::PixelFormat::RGBA, 128, 128, vec![20u8; 128 * 128 * 4]).unwrap();
    family.add_icon_with_type(&small, icns::IconType::RGBA32_16x16).unwrap();
    family.add_icon_with_type(&large, icns::IconType::RGBA32_128x128).unwrap();
    let mut bytes: Vec<u8> = Vec::new();
    family.write(&mut bytes).unwrap();

    let uri = decode_icon_bytes(&bytes).unwrap();
    let b64 = uri.strip_prefix("data:image/png;base64,").unwrap();
    let png = base64::Engine::decode(&base64::engine::general_purpose::STANDARD, b64).unwrap();
    let img = image::load_from_memory(&png).unwrap();
    assert_eq!(image::GenericImageView::dimensions(&img), (128, 128));
}
