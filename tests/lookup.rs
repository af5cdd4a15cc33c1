use std::cell::Cell;
use std::path::Path;

use whereismybin::{PathConvention, first_regular_in, join_path, locate, split_path_list};

fn on_disk(p: &str) -> bool {
    Path::new(p).is_file()
}

#[test]
fn test_whereismybin_whoami() {
    let res = locate(Some("/usr/local/bin:/usr/bin:/bin"), "whoami", PathConvention::posix(), on_disk);
    assert_eq!(res, Some(String::from("/usr/bin/whoami")));
}

#[test]
fn test_whereismybin_expect_none() {
    let res = locate(
        Some("/usr/local/bin:/usr/bin:/bin"),
        "this-binary-does-not-exist",
        PathConvention::posix(),
        on_disk,
    );
    assert_eq!(res, None);
}

#[test]
fn later_directory_found_when_earlier_lacks_file() {
    let files = ["/usr/bin/sort"];
    let res = locate(Some("/usr/local/bin:/usr/bin"), "sort", PathConvention::posix(), |p: &str| {
        files.contains(&p)
    });
    assert_eq!(res, Some(String::from("/usr/bin/sort")));
}

#[test]
fn first_directory_wins() {
    let files = ["/a/tool", "/b/tool"];
    let res = locate(Some("/a:/b"), "tool", PathConvention::posix(), |p: &str| files.contains(&p));
    assert_eq!(res, Some(String::from("/a/tool")));
}

#[test]
fn unset_variable_finds_nothing() {
    let res = locate(None, "anything", PathConvention::posix(), |_p: &str| true);
    assert_eq!(res, None);
}

#[test]
fn empty_variable_finds_nothing() {
    let res = locate(Some(""), "sort", PathConvention::posix(), |p: &str| p == "/sort" || p == "/usr/bin/sort");
    assert_eq!(res, None);
}

#[test]
fn absent_everywhere_finds_nothing() {
    let files = ["/a/other", "/b/another"];
    let res = locate(Some("/a:/b"), "tool", PathConvention::posix(), |p: &str| files.contains(&p));
    assert_eq!(res, None);
}

#[test]
fn directory_candidate_is_passed_over() {
    // "/a/tool" is a directory: the probe reports it as no regular file.
    let regular = ["/b/tool"];
    let res = locate(Some("/a:/b"), "tool", PathConvention::posix(), |p: &str| regular.contains(&p));
    assert_eq!(res, Some(String::from("/b/tool")));
}

#[test]
fn directory_on_disk_is_no_match() {
    let res = locate(Some("/"), "tmp", PathConvention::posix(), on_disk);
    assert_eq!(res, None);
}

#[test]
fn repeated_lookups_agree() {
    let files = ["/b/tool", "/c/tool"];
    let probe = |p: &str| files.contains(&p);
    let first = locate(Some("/a:/b:/c"), "tool", PathConvention::posix(), probe);
    let second = locate(Some("/a:/b:/c"), "tool", PathConvention::posix(), probe);
    assert_eq!(first, second);
    assert_eq!(first, Some(String::from("/b/tool")));
}

#[test]
fn probing_stops_at_first_hit() {
    let calls = Cell::new(0u32);
    let seen = std::cell::RefCell::new(Vec::new());
    let res = locate(Some("/a:/b:/c:/d"), "tool", PathConvention::posix(), |p: &str| {
        calls.set(calls.get() + 1);
        seen.borrow_mut().push(String::from(p));
        p == "/b/tool" || p == "/d/tool"
    });
    assert_eq!(res, Some(String::from("/b/tool")));
    assert_eq!(calls.get(), 2);
    assert_eq!(seen.into_inner(), vec![String::from("/a/tool"), String::from("/b/tool")]);
}

#[test]
fn empty_segment_probes_bare_name() {
    let res = locate(Some("/a::/b"), "tool", PathConvention::posix(), |p: &str| p == "tool" || p == "/b/tool");
    assert_eq!(res, Some(String::from("tool")));
}

#[test]
fn windows_lookup() {
    let files = ["C:\\Tools\\app.exe"];
    let res = locate(Some("C:\\Windows;C:\\Tools\\"), "app.exe", PathConvention::windows(), |p: &str| {
        files.contains(&p)
    });
    assert_eq!(res, Some(String::from("C:\\Tools\\app.exe")));
}

#[test]
fn first_regular_in_given_directories() {
    let dirs = vec![String::from("/x"), String::from("/y/"), String::from("/z")];
    let res = first_regular_in(&dirs, "run", PathConvention::posix(), |p: &str| p == "/y/run" || p == "/z/run");
    assert_eq!(res, Some(String::from("/y/run")));
    let none = first_regular_in(&dirs, "run", PathConvention::posix(), |_p: &str| false);
    assert_eq!(none, None);
    let empty: Vec<String> = Vec::new();
    assert_eq!(first_regular_in(&empty, "run", PathConvention::posix(), |_p: &str| true), None);
}

#[test]
fn split_keeps_order_and_empty_segments() {
    assert_eq!(split_path_list("/a::/b/", ':'), vec![String::from("/a"), String::new(), String::from("/b/")]);
    assert_eq!(split_path_list(":/a:", ':'), vec![String::new(), String::from("/a"), String::new()]);
    assert_eq!(split_path_list("/usr/local/bin:/usr/bin", ':'), vec![
        String::from("/usr/local/bin"),
        String::from("/usr/bin"),
    ]);
}

#[test]
fn split_empty_list_has_one_empty_segment() {
    assert_eq!(split_path_list("", ':'), vec![String::new()]);
}

#[test]
fn split_on_other_delimiter() {
    assert_eq!(split_path_list("C:\\a;D:\\b", ';'), vec![String::from("C:\\a"), String::from("D:\\b")]);
    assert_eq!(split_path_list("C:\\a;D:\\b", ':'), vec![String::from("C"), String::from("\\a;D"), String::from("\\b")]);
}

#[test]
fn split_non_ascii() {
    assert_eq!(split_path_list("/ü/bin:/ö", ':'), vec![String::from("/ü/bin"), String::from("/ö")]);
}

#[test]
fn join_inserts_separator() {
    assert_eq!(join_path("/usr/bin", "sort", PathConvention::posix()), "/usr/bin/sort");
}

#[test]
fn join_keeps_trailing_separator() {
    assert_eq!(join_path("/usr/bin/", "sort", PathConvention::posix()), "/usr/bin/sort");
}

#[test]
fn join_empty_directory_gives_name() {
    assert_eq!(join_path("", "sort", PathConvention::posix()), "sort");
}

#[test]
fn join_windows() {
    assert_eq!(join_path("C:\\bin", "x.exe", PathConvention::windows()), "C:\\bin\\x.exe");
    assert_eq!(join_path("C:\\bin\\", "x.exe", PathConvention::windows()), "C:\\bin\\x.exe");
    assert_eq!(join_path("C:/bin/", "x.exe", PathConvention::windows()), "C:/bin/x.exe");
}

#[test]
fn conventions() {
    let p = PathConvention::posix();
    assert_eq!((p.delimiter, p.separator, p.alt_separator), (':', '/', '/'));
    let w = PathConvention::windows();
    assert_eq!((w.delimiter, w.separator, w.alt_separator), (';', '\\', '/'));
    assert!(w.is_separator('/'));
    assert!(w.is_separator('\\'));
    assert!(!p.is_separator('\\'));
}
