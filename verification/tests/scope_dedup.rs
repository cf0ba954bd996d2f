use aleph::dedup::{DedupCache, EventKind};
use aleph::scope::{apps_index_dir, index_dir_for_scope, infer_folder_and_index_dir, watched_folders};

#[test]
fn scope_directories() {
    assert_eq!(index_dir_for_scope("/home/ada/.cache/aleph", "Desktop"), "/home/ada/.cache/aleph/index/Desktop");
    assert_eq!(apps_index_dir("/home/ada/.cache/aleph"), "/home/ada/.cache/aleph/apps");
    let folders = watched_folders();
    assert_eq!(folders.len(), 7);
    assert_eq!(folders[0], "Documents");
    assert_eq!(folders[6], "Public");
}

#[test]
fn scope_inference() {
    let home = "/home/ada";
    let desktop = "/home/ada/Desktop";
    let cache = "/home/ada/.cache/aleph";

    let hit = infer_folder_and_index_dir(home, desktop, cache, "/home/ada/Desktop/report.pdf");
    let (name, dir) = hit.expect("desktop path must resolve");
    assert_eq!(name, "Desktop");
    assert_eq!(dir, "/home/ada/.cache/aleph/index/Desktop");

    let docs = infer_folder_and_index_dir(home, desktop, cache, "/home/ada/Documents/a/b.txt");
    let (name, dir) = docs.expect("documents path must resolve");
    assert_eq!(name, "Documents");
    assert_eq!(dir, "/home/ada/.cache/aleph/index/Documents");

    // the scope root itself belongs to the scope
    let root_hit = infer_folder_and_index_dir(home, desktop, cache, "/home/ada/Documents");
    assert_eq!(root_hit.unwrap().0, "Documents");

    // component boundary: a sibling with a matching prefix is not inside
    assert!(infer_folder_and_index_dir(home, desktop, cache, "/home/ada/DocumentsX/b.txt").is_none());
    assert!(infer_folder_and_index_dir(home, desktop, cache, "/tmp/b.txt").is_none());
}

#[test]
fn dedup_window_suppresses_repeats() {
    let mut cache = DedupCache::new(500);
    // first event passes, a repeat within the window is suppressed
    assert!(cache.observe("/a/f.txt", EventKind::Created, 1000));
    assert!(!cache.observe("/a/f.txt", EventKind::Created, 1200));
    assert!(!cache.observe("/a/f.txt", EventKind::Created, 1500));
    // beyond the window the key passes again
    assert!(cache.observe("/a/f.txt", EventKind::Created, 2001));
}

#[test]
fn dedup_window_expires() {
    let mut cache = DedupCache::new(500);
    assert!(cache.observe("/a/f.txt", EventKind::Created, 1000));
    // more than the TTL apart: both events pass through
    assert!(cache.observe("/a/f.txt", EventKind::Created, 1501));
}

#[test]
fn dedup_keys_on_path_and_kind() {
    let mut cache = DedupCache::new(500);
    assert!(cache.observe("/a/f.txt", EventKind::Created, 1000));
    // a different kind for the same path is a different key
    assert!(cache.observe("/a/f.txt", EventKind::Removed, 1001));
    // a different path is a different key
    assert!(cache.observe("/a/g.txt", EventKind::Created, 1002));
    // and the original key is still suppressed
    assert!(!cache.observe("/a/f.txt", EventKind::Created, 1003));
}
