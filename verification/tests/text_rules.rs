use aleph::rules::{app_path, crawl_keep, ext_chars, file_name_chars, split_slash_chars};
use aleph::text::{chars_contain, chars_of, contains_fold, count_char_exec, lower_chars_of};

#[test]
fn folding_and_contains() {
    assert!(contains_fold("/Users/ada/Desktop/Report.PDF", "report"));
    assert!(contains_fold("REPORT", "port"));
    assert!(!contains_fold("/Users/ada/Desktop/notes.txt", "report"));
    assert!(contains_fold("anything", ""));
    let lowered = lower_chars_of("MiXeD-123");
    assert_eq!(lowered, chars_of("mixed-123"));
}

#[test]
fn substring_search_over_chars() {
    let hay = chars_of("abcabd");
    assert!(chars_contain(&hay, &chars_of("cab")));
    assert!(!chars_contain(&hay, &chars_of("abe")));
    assert!(!chars_contain(&chars_of("ab"), &chars_of("abc")));
}

#[test]
fn file_names_and_extensions() {
    let p = chars_of("/home/ada/Desktop/report.pdf");
    let name = file_name_chars(&p);
    assert_eq!(name, chars_of("report.pdf"));
    assert_eq!(ext_chars(&name), chars_of("pdf"));

    let hidden = chars_of(".gitignore");
    assert_eq!(ext_chars(&hidden), chars_of(""));

    let plain = chars_of("Makefile");
    assert_eq!(ext_chars(&plain), chars_of(""));

    let multi = chars_of("archive.tar.gz");
    assert_eq!(ext_chars(&multi), chars_of("gz"));
}

#[test]
fn path_components() {
    let comps = split_slash_chars(&chars_of("a/b/c"));
    assert_eq!(comps.len(), 3);
    assert_eq!(comps[0], chars_of("a"));
    assert_eq!(comps[2], chars_of("c"));
    let root = split_slash_chars(&chars_of("/a"));
    assert_eq!(root.len(), 2);
    assert_eq!(root[0], chars_of(""));
}

#[test]
fn slash_depth_count() {
    assert_eq!(count_char_exec(&chars_of("/a/b/c.txt"), '/'), 3);
    assert_eq!(count_char_exec(&chars_of("abc"), '/'), 0);
}

#[test]
fn crawl_skip_rules() {
    let root = "/home/ada/Desktop";
    assert!(crawl_keep(root, "/home/ada/Desktop/report.pdf"));
    assert!(crawl_keep(root, "/home/ada/Desktop/projects/notes.md"));

    // temporary patterns
    assert!(!crawl_keep(root, "/home/ada/Desktop/report_old.pdf~"));
    assert!(!crawl_keep(root, "/home/ada/Desktop/#draft.txt"));
    assert!(!crawl_keep(root, "/home/ada/Desktop/draft.txt#"));
    assert!(!crawl_keep(root, "/home/ada/Desktop/save.TMP"));
    assert!(!crawl_keep(root, "/home/ada/Desktop/save.bak"));
    assert!(!crawl_keep(root, "/home/ada/Desktop/.DS_Store"));

    // hidden entries, anywhere on the way down
    assert!(!crawl_keep(root, "/home/ada/Desktop/.hidden_report.pdf"));
    assert!(!crawl_keep(root, "/home/ada/Desktop/.cfg/file.txt"));

    // denied directories
    assert!(!crawl_keep(root, "/home/ada/Desktop/node_modules/x.js"));
    assert!(!crawl_keep(root, "/home/ada/Desktop/proj/target/out.o"));
    assert!(!crawl_keep(root, "/home/ada/Desktop/proj/.git/config"));

    // not under the root at all
    assert!(!crawl_keep(root, "/home/ada/Documents/report.pdf"));
    assert!(!crawl_keep(root, "/home/ada/Desktop"));
    assert!(!crawl_keep(root, "/home/ada/DesktopX/report.pdf"));
}

#[test]
fn bundle_extension() {
    assert!(app_path("/Applications/Spotify.app"));
    assert!(app_path("/Applications/LOUD.APP"));
    assert!(!app_path("/Applications/Spotify.appx"));
    assert!(!app_path("/Applications/Spotify"));
}
