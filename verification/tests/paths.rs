use burnsubs::paths::{
    extension, file_stem, make_absolute, normalized_stem, path_comparison_key, path_sort_key, FileFacts,
};
use burnsubs::text::{eq_ignore_ascii_case, trim};

#[test]
fn stems_and_extensions_follow_std() {
    assert_eq!(file_stem("/a/movie.tar.gz").as_deref(), Some("movie.tar"));
    assert_eq!(extension("/a/movie.tar.gz").as_deref(), Some("gz"));
    assert_eq!(file_stem("/a/.bashrc").as_deref(), Some(".bashrc"));
    assert_eq!(extension("/a/.bashrc"), None);
    assert_eq!(extension("/a/name."), Some(String::new()));
    assert_eq!(file_stem("/a/.."), None);
}

#[test]
fn keys_for_matching_and_sorting() {
    assert_eq!(normalized_stem("/x/Movie.MKV").as_deref(), Some("movie"));
    assert_eq!(path_comparison_key("C:\\Videos\\A.mp4"), "c:/videos/a.mp4");
    assert_eq!(path_sort_key("/x/Zeta.mkv"), "zeta.mkv");
    assert_eq!(make_absolute("rel/a", &Some("/base".to_owned())).as_deref(), Some("/base/rel/a"));
    assert_eq!(make_absolute("/abs", &None).as_deref(), Some("/abs"));
}

#[test]
fn facts_lookups() {
    let facts = FileFacts {
        regular_files: vec!["/f".to_owned()],
        directories: vec!["/d".to_owned()],
        other_entries: Vec::new(),
        canonical: vec![("/f".to_owned(), "/real/f".to_owned()), ("/f".to_owned(), "/other".to_owned())],
    };
    assert!(facts.is_file("/f") && !facts.is_file("/d"));
    assert!(facts.path_exists("/d") && !facts.path_exists("/x"));
    assert_eq!(facts.absolute("/f"), "/real/f");
    assert_eq!(facts.absolute("/x"), "/x");
}

#[test]
fn text_helpers() {
    assert!(eq_ignore_ascii_case("SRT", "srt"));
    assert!(!eq_ignore_ascii_case("É", "é"));
    assert_eq!(trim("\u{3000} a b \t"), "a b");
}
