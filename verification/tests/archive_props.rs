use site_archiver::archiver::{get_file_name, resolve_filename, Archiver, Category};
use site_archiver::urls::resolve;

#[test]
fn relative_reference_joins_against_origin() {
    let origin = "http://example.com/a/b";
    assert_eq!(resolve("/logo.png", origin).unwrap(), "http://example.com/logo.png");
    assert_eq!(resolve("style.css", origin).unwrap(), "http://example.com/a/style.css");
    assert_eq!(resolve("../up.js", origin).unwrap(), "http://example.com/up.js");
}

#[test]
fn absolute_reference_resolves_to_itself() {
    let origin = "http://example.com/";
    assert_eq!(resolve("http://cdn.example.com/x.js", origin).unwrap(), "http://cdn.example.com/x.js");
    // kept verbatim, even where re-serializing would have normalized it
    assert_eq!(resolve("http://example.com", origin).unwrap(), "http://example.com");
}

#[test]
fn unusable_reference_is_rejected() {
    // fails to parse, but not with the relative-without-a-base condition
    assert!(resolve("http://", "http://example.com/").is_none());
}

#[test]
fn filename_comes_from_the_last_path_segment() {
    assert_eq!(get_file_name("http://example.com/a/logo.png").unwrap(), "logo.png");
    assert_eq!(get_file_name("http://example.com/deep/path/main.js").unwrap(), "main.js");
}

#[test]
fn query_string_always_rejects_the_path_name() {
    assert!(get_file_name("http://example.com/a/logo.png?v=2").is_none());
    let name = resolve_filename("http://example.com/a/logo.png?v=2", Category::Image);
    assert_eq!(name.len(), 12);
    assert!(name.ends_with(".png"));
    assert!(name[..8].chars().all(|c| c.is_ascii_alphanumeric()));
}

#[test]
fn empty_segment_falls_back_to_a_generated_name() {
    assert!(get_file_name("http://example.com/").is_none());
    let name = resolve_filename("http://example.com/", Category::Stylesheet);
    assert_eq!(name.len(), 11);
    assert_eq!(&name[8..], "css");
    assert!(name[..8].chars().all(|c| c.is_ascii_alphanumeric()));
    let name = resolve_filename("http://example.com/", Category::Script);
    assert_eq!(name.len(), 10);
    assert_eq!(&name[8..], "js");
}

#[test]
fn derived_names_are_kept_for_plain_urls() {
    let name = resolve_filename("http://example.com/a/logo.png", Category::Image);
    assert_eq!(name, "logo.png");
}

#[test]
fn archive_directory_layout() {
    let dir = Archiver::archive_directory("http://example.com/a/b", "/tmp/x", "T").unwrap();
    assert_eq!(dir, "/tmp/x/example.com/a/b/T");
}

#[test]
fn trailing_separators_are_not_doubled() {
    let dir = Archiver::archive_directory("http://example.com/a/", "/tmp/x/", "T").unwrap();
    assert_eq!(dir, "/tmp/x/example.com/a/T");
}

#[test]
fn distinct_timestamps_give_independent_directories() {
    let d1 = Archiver::archive_directory("http://example.com/a/b", "/tmp/x", "01-01-2020-00:00:00").unwrap();
    let d2 = Archiver::archive_directory("http://example.com/a/b", "/tmp/x", "01-01-2020-00:00:01").unwrap();
    assert_ne!(d1, d2);
    // two runs in the same second collide: the directory depends only on
    // origin, base and timestamp
    let d3 = Archiver::archive_directory("http://example.com/a/b", "/tmp/x", "01-01-2020-00:00:00").unwrap();
    assert_eq!(d1, d3);
}

#[test]
fn origin_without_a_host_is_rejected() {
    assert!(Archiver::archive_directory("data:text/plain,hi", "/tmp/x", "T").is_none());
}
