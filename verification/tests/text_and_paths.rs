use hdc_deploy::enclosure::is_enclosed;
use hdc_deploy::paths::{
    cache_file_name, cache_path_of, extraction_root_of, file_stem, is_archive, is_package, join,
};
use hdc_deploy::text::{chars_of, contains, ends_with_folded, find_cut, framed, to_lower};

#[test]
fn chars_of_keeps_every_character_in_order() {
    assert_eq!(chars_of("a/错b"), vec!['a', '/', '错', 'b']);
    assert_eq!(chars_of(""), Vec::<char>::new());
}

#[test]
fn contains_finds_a_needle_anywhere() {
    assert!(contains("List of targets\n[Empty]\n", "[Empty]"));
    assert!(contains("[Empty]", "[Empty]"));
    assert!(contains("xx[错误] device offline", "[错误]"));
    assert!(contains("abc", ""));
    assert!(contains("", ""));
}

#[test]
fn contains_misses_what_is_not_there() {
    assert!(!contains("192.168.0.2:5555\n", "[Empty]"));
    assert!(!contains("[Empt", "[Empty]"));
    assert!(!contains("", "x"));
    assert!(!contains("[empty]", "[Empty]"));
}

#[test]
fn to_lower_changes_ascii_capitals_only() {
    assert_eq!(to_lower('A'), 'a');
    assert_eq!(to_lower('Z'), 'z');
    assert_eq!(to_lower('q'), 'q');
    assert_eq!(to_lower('.'), '.');
    assert_eq!(to_lower('@'), '@');
    assert_eq!(to_lower('['), '[');
    assert_eq!(to_lower('É'), 'É');
}

#[test]
fn ends_with_folded_ignores_ascii_case() {
    assert!(ends_with_folded(&chars_of("Bundle.ZIP"), ".zip"));
    assert!(ends_with_folded(&chars_of(".zip"), ".zip"));
    assert!(!ends_with_folded(&chars_of("zip"), ".zip"));
    assert!(!ends_with_folded(&chars_of("bundle.zip.part"), ".zip"));
    assert!(ends_with_folded(&chars_of("anything"), ""));
}

#[test]
fn find_cut_is_behind_the_last_separator() {
    assert_eq!(find_cut(&chars_of("a/b/c"), '/'), 4);
    assert_eq!(find_cut(&chars_of("abc"), '/'), 0);
    assert_eq!(find_cut(&chars_of("abc/"), '/'), 4);
    assert_eq!(find_cut(&chars_of(""), '/'), 0);
    assert_eq!(find_cut(&chars_of("错/误"), '/'), 2);
}

#[test]
fn framed_puts_three_parts_together() {
    assert_eq!(framed("找到.hap文件: ", "/tmp/a.hap", "\n"), "找到.hap文件: /tmp/a.hap\n");
    assert_eq!(framed("", "", ""), "");
}

#[test]
fn cache_name_is_the_last_segment_of_the_url() {
    assert_eq!(cache_file_name("https://example.com/app.hap"), "app.hap");
    assert_eq!(cache_file_name("https://example.com/bundle.zip"), "bundle.zip");
    assert_eq!(cache_file_name("https://example.com/a/b/c.HAP"), "c.HAP");
    assert_eq!(cache_file_name("entry.hap"), "entry.hap");
}

#[test]
fn cache_name_falls_back_where_the_url_ends_in_a_slash() {
    assert_eq!(cache_file_name("https://example.com/"), "app.hap");
    assert_eq!(cache_file_name("https://example.com/downloads/"), "app.hap");
    assert_eq!(cache_file_name(""), "app.hap");
    assert_eq!(cache_file_name("/"), "app.hap");
}

#[test]
fn cache_name_is_the_same_for_the_same_url() {
    let url = "https://example.com/releases/entry-default-signed.hap";
    assert_eq!(cache_file_name(url), cache_file_name(url));
    assert_eq!(cache_file_name(url), "entry-default-signed.hap");
}

#[test]
fn join_puts_one_slash_between_directory_and_name() {
    assert_eq!(join("/tmp", "app.hap"), "/tmp/app.hap");
    assert_eq!(join("/tmp/", "app.hap"), "/tmp/app.hap");
    assert_eq!(join("", "app.hap"), "app.hap");
    assert_eq!(join("/tmp/bundle", "pkg/app.hap"), "/tmp/bundle/pkg/app.hap");
    assert_eq!(join("/tmp", ""), "/tmp/");
    assert_eq!(join("/", "x"), "/x");
}

#[test]
fn file_stem_strips_the_last_extension() {
    assert_eq!(file_stem("bundle.zip"), "bundle");
    assert_eq!(file_stem("a.b.zip"), "a.b");
    assert_eq!(file_stem("noext"), "noext");
    assert_eq!(file_stem(".zip"), ".zip");
    assert_eq!(file_stem("name."), "name");
    assert_eq!(file_stem(""), "");
}

#[test]
fn archives_are_told_by_their_extension_in_any_case() {
    assert!(is_archive("bundle.zip"));
    assert!(is_archive("BUNDLE.ZIP"));
    assert!(is_archive("b.Zip"));
    assert!(is_archive(".zip"));
    assert!(!is_archive("app.hap"));
    assert!(!is_archive("zip"));
    assert!(!is_archive("bundle.zip.hap"));
    assert!(!is_archive("bundlezip"));
    assert!(!is_archive(""));
}

#[test]
fn packages_are_told_by_their_extension_in_any_case() {
    assert!(is_package("/tmp/bundle/pkg/app.hap"));
    assert!(is_package("/tmp/bundle/APP.HAP"));
    assert!(is_package("app.Hap"));
    assert!(is_package("/x/..hap"));
    assert!(!is_package("/tmp/bundle/.hap"));
    assert!(!is_package(".hap"));
    assert!(!is_package("/tmp/bundle/app.hap.bak"));
    assert!(!is_package("/tmp/dir.hap/readme"));
    assert!(!is_package("/tmp/bundle/apphap"));
    assert!(!is_package("/tmp/bundle/app.zip"));
    assert!(!is_package(""));
}

#[test]
fn relative_paths_below_the_start_are_enclosed() {
    assert!(is_enclosed("pkg/app.hap"));
    assert!(is_enclosed("app.hap"));
    assert!(is_enclosed("a/../b"));
    assert!(is_enclosed("a/b/../../c"));
    assert!(is_enclosed("./a"));
    assert!(is_enclosed("a/./.."));
    assert!(is_enclosed("a//b/"));
    assert!(is_enclosed(""));
    assert!(is_enclosed("."));
    assert!(is_enclosed("..."));
    assert!(is_enclosed("..a/x"));
    assert!(is_enclosed("a/.."));
}

#[test]
fn paths_that_climb_out_are_not_enclosed() {
    assert!(!is_enclosed("../evil.txt"));
    assert!(!is_enclosed(".."));
    assert!(!is_enclosed("a/../../b"));
    assert!(!is_enclosed("a/../.."));
    assert!(!is_enclosed("./../x"));
    assert!(!is_enclosed("a/b/../../../c/d"));
    assert!(!is_enclosed("../a/b/c"));
}

#[test]
fn a_climb_is_not_made_good_by_a_later_descent() {
    assert!(!is_enclosed("../a/b"));
    assert!(!is_enclosed("x/../../x/y"));
}

#[test]
fn absolute_paths_are_not_enclosed() {
    assert!(!is_enclosed("/etc/passwd"));
    assert!(!is_enclosed("/"));
    assert!(!is_enclosed("//a"));
}

#[test]
fn an_artifact_is_cached_directly_in_the_cache_directory() {
    assert_eq!(cache_path_of("/tmp", "https://example.com/app.hap"), "/tmp/app.hap");
    assert_eq!(cache_path_of("/tmp/", "https://example.com/a/b/bundle.zip"), "/tmp/bundle.zip");
    assert_eq!(cache_path_of("/tmp", "https://example.com/"), "/tmp/app.hap");
    assert_eq!(cache_path_of("C:\\Temp", "x/y.hap"), "C:\\Temp/y.hap");
}

#[test]
fn an_archive_is_unpacked_beside_itself_under_its_base_name() {
    assert_eq!(extraction_root_of("/tmp", "https://example.com/bundle.zip"), "/tmp/bundle");
    assert_eq!(extraction_root_of("/tmp", "https://example.com/a.b.ZIP"), "/tmp/a.b");
    assert_eq!(extraction_root_of("/tmp/", "https://example.com/.zip"), "/tmp/.zip");
}
