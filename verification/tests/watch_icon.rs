use aleph::dedup::{DedupCache, EventKind};
use aleph::icon::{get_file_icon, icon_cache_key, icon_candidate_paths, is_executable};
use aleph::watch::{plan_app_event, plan_file_event, resolve_app_bundle, IndexOp};

#[test]
fn bundle_resolution() {
    assert_eq!(
        resolve_app_bundle("/Applications/Spotify.app/Contents/Resources/AppIcon.icns"),
        Some("/Applications/Spotify.app".to_string())
    );
    assert_eq!(
        resolve_app_bundle("/Applications/Spotify.app"),
        Some("/Applications/Spotify.app".to_string())
    );
    assert_eq!(resolve_app_bundle("/tmp/plain/file.txt"), None);
}

#[test]
fn file_events_filter_and_dedup() {
    let mut cache = DedupCache::new(500);

    // a create for something that is not a file is ignored
    assert!(plan_file_event(&mut cache, "/d/dir", EventKind::Created, false, 1000).is_none());

    // a fresh file create becomes an add
    match plan_file_event(&mut cache, "/d/f.txt", EventKind::Created, true, 1000) {
        Some(IndexOp::Add(p)) => assert_eq!(p, "/d/f.txt"),
        other => panic!("expected an add, got {:?}", other.is_some()),
    }
    // a burst repeat within the window is dropped
    assert!(plan_file_event(&mut cache, "/d/f.txt", EventKind::Created, true, 1200).is_none());

    // a removal is processed even when the path no longer is a file
    match plan_file_event(&mut cache, "/d/f.txt", EventKind::Removed, false, 1300) {
        Some(IndexOp::Remove(p)) => assert_eq!(p, "/d/f.txt"),
        other => panic!("expected a remove, got {:?}", other.is_some()),
    }
}

#[test]
fn app_events_resolve_to_bundle() {
    let mut cache = DedupCache::new(700);

    // an event deep inside the bundle maps to the bundle itself
    match plan_app_event(
        &mut cache,
        "/Applications/Spotify.app/Contents/Info.plist",
        EventKind::Created,
        1000,
    ) {
        Some(IndexOp::Add(p)) => assert_eq!(p, "/Applications/Spotify.app"),
        other => panic!("expected an add, got {:?}", other.is_some()),
    }
    // another event inside the same bundle within the window is dropped
    assert!(plan_app_event(
        &mut cache,
        "/Applications/Spotify.app/Contents/MacOS/Spotify",
        EventKind::Created,
        1400,
    )
    .is_none());

    // an event outside any bundle is ignored
    assert!(plan_app_event(&mut cache, "/Applications/notes.txt", EventKind::Created, 1500).is_none());
}

#[test]
fn icon_candidates() {
    let v = icon_candidate_paths("/Applications/Spotify.app");
    assert_eq!(v.len(), 3);
    assert_eq!(v[0], "/Applications/Spotify.app/Contents/Resources/AppIcon.icns");
    assert_eq!(v[1], "/Applications/Spotify.app/Contents/Resources/app.icns");
    assert_eq!(v[2], "/Applications/Spotify.app/Contents/Resources/icon.icns");
}

#[test]
fn extension_icons_are_total() {
    let pdf = get_file_icon("/d/a.pdf", "pdf").unwrap();
    let jpg = get_file_icon("/d/a.jpg", "jpg").unwrap();
    let png = get_file_icon("/d/a.PNG", "PNG").unwrap();
    let odd = get_file_icon("/d/a.xyz", "xyz").unwrap();
    assert!(pdf.starts_with("data:image/svg+xml;base64,"));
    assert!(odd.starts_with("data:image/svg+xml;base64,"));
    // the mapping folds case and distinguishes categories
    assert_eq!(jpg, png);
    assert_ne!(pdf, jpg);
    assert_ne!(pdf, odd);
}

#[test]
fn executability_routing() {
    assert!(is_executable("/Applications/Spotify.app", None));
    assert!(is_executable("/usr/bin/tool", Some(0o755)));
    assert!(!is_executable("/home/a/notes.txt", Some(0o644)));
    assert!(!is_executable("/home/a/notes.txt", None));
}

#[test]
fn cache_keys_are_content_derived() {
    // well-known 64-bit FNV-1a values, in hexadecimal
    assert_eq!(icon_cache_key(""), "cbf29ce484222325");
    assert_eq!(icon_cache_key("a"), "af63dc4c8601ec8c");

    // deterministic, and distinct paths get distinct keys
    let k1 = icon_cache_key("/Applications/Spotify.app/Contents/Resources/AppIcon.icns");
    let k2 = icon_cache_key("/Applications/Spotify.app/Contents/Resources/AppIcon.icns");
    let k3 = icon_cache_key("/Applications/Other.app/Contents/Resources/AppIcon.icns");
    assert_eq!(k1, k2);
    assert_ne!(k1, k3);
    assert_eq!(k1.len(), 16);
}
