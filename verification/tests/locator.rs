use burnsubs::locator::{
    candidate_directories, current_target_directory, ffmpeg_file_name, ffprobe_file_name, locate_ffmpeg,
    paths_to_check, remove_duplicate_paths, validate_binary_files, FfmpegPaths, LocatorEnvironment, LocatorError,
};
use burnsubs::model::Platform;
use burnsubs::paths::FileFacts;

fn linux_env() -> LocatorEnvironment {
    LocatorEnvironment {
        os: "linux".to_owned(),
        arch: "x86_64".to_owned(),
        override_directory: None,
        executable_path: Some("/opt/burnsubs/bin/BurnSubs".to_owned()),
        current_directory: Some("/home/user".to_owned()),
        system_path: vec!["/usr/local/bin".to_owned(), "/usr/bin".to_owned()],
    }
}

fn files(paths: &[&str]) -> FileFacts {
    FileFacts {
        regular_files: paths.iter().map(|p| p.to_string()).collect(),
        directories: Vec::new(),
        other_entries: Vec::new(),
        canonical: Vec::new(),
    }
}

#[test]
fn target_directories_by_platform() {
    assert_eq!(current_target_directory("linux", "x86_64").unwrap(), "x86_64-unknown-linux-gnu");
    assert_eq!(current_target_directory("macos", "aarch64").unwrap(), "aarch64-apple-darwin");
    assert_eq!(current_target_directory("windows", "x86_64").unwrap(), "x86_64-pc-windows-msvc");
    let error = current_target_directory("freebsd", "x86_64").unwrap_err();
    assert_eq!(error.message(), "BurnSubs does not currently support target freebsd-x86_64.");
}

#[test]
fn binary_names_by_platform() {
    assert_eq!(ffmpeg_file_name(Platform::Windows), "ffmpeg.exe");
    assert_eq!(ffprobe_file_name(Platform::Linux), "ffprobe");
}

#[test]
fn candidate_folders_in_search_order() {
    let mut env = linux_env();
    env.override_directory = Some("/custom".to_owned());
    let dirs = candidate_directories("x86_64-unknown-linux-gnu", &env);
    assert_eq!(
        dirs,
        vec![
            "/custom",
            "/opt/burnsubs/bin/tools/x86_64-unknown-linux-gnu",
            "/opt/burnsubs/bin/tools",
            "/opt/burnsubs/bin",
            "/opt/burnsubs/tools/x86_64-unknown-linux-gnu",
            "/opt/tools/x86_64-unknown-linux-gnu",
            "/tools/x86_64-unknown-linux-gnu",
            "/home/user/tools/x86_64-unknown-linux-gnu",
            "/home/user/tools",
        ]
    );
}

#[test]
fn macos_bundle_folders_are_searched() {
    let env = LocatorEnvironment {
        os: "macos".to_owned(),
        arch: "aarch64".to_owned(),
        override_directory: None,
        executable_path: Some("/Applications/BurnSubs.app/Contents/MacOS/BurnSubs".to_owned()),
        current_directory: None,
        system_path: Vec::new(),
    };
    let dirs = candidate_directories("aarch64-apple-darwin", &env);
    assert!(dirs.contains(&"/Applications/BurnSubs.app/Contents/Resources/tools/aarch64-apple-darwin".to_owned()));
    assert_eq!(dirs.last().unwrap(), "/Applications/BurnSubs.app/Contents/Resources/tools");
}

#[test]
fn duplicates_are_removed_keeping_the_first() {
    let unique = remove_duplicate_paths(vec![
        "/a".to_owned(),
        "/b".to_owned(),
        "/a/".to_owned(),
        "/c".to_owned(),
        "/b".to_owned(),
    ]);
    assert_eq!(unique, vec!["/a", "/b", "/c"]);
}

#[test]
fn finds_binaries_in_first_candidate_folder() {
    let facts = files(&[
        "/home/user/tools/ffmpeg",
        "/home/user/tools/ffprobe",
        "/usr/bin/ffmpeg",
        "/usr/bin/ffprobe",
    ]);
    let paths = locate_ffmpeg(&None, &linux_env(), &facts).unwrap();
    assert_eq!(paths.ffmpeg, "/home/user/tools/ffmpeg");
    assert_eq!(paths.ffprobe, "/home/user/tools/ffprobe");
}

#[test]
fn falls_back_to_system_path_with_canonical_paths() {
    let mut facts = files(&["/usr/local/bin/ffprobe", "/usr/bin/ffmpeg", "/usr/bin/ffprobe"]);
    facts.canonical = vec![("/usr/bin/ffmpeg".to_owned(), "/usr/lib/ffmpeg/ffmpeg".to_owned())];
    let paths = locate_ffmpeg(&None, &linux_env(), &facts).unwrap();
    assert_eq!(paths.ffmpeg, "/usr/lib/ffmpeg/ffmpeg");
    assert_eq!(paths.ffprobe, "/usr/local/bin/ffprobe");
}

#[test]
fn reports_every_searched_folder() {
    let env = LocatorEnvironment {
        executable_path: None,
        current_directory: Some("/w".to_owned()),
        system_path: Vec::new(),
        ..linux_env()
    };
    let error = locate_ffmpeg(&None, &env, &files(&[])).unwrap_err();
    assert_eq!(
        error.message(),
        "Could not locate FFmpeg and FFprobe.\nExpected both binaries in one of these directories:\n  - /w/tools/x86_64-unknown-linux-gnu\n  - /w/tools\nOr available through the system PATH."
    );
}

#[test]
fn custom_folder_is_searched_alone() {
    let facts = files(&["/usr/bin/ffmpeg", "/usr/bin/ffprobe", "/ff/x86_64-unknown-linux-gnu/ffmpeg", "/ff/x86_64-unknown-linux-gnu/ffprobe"]);
    let paths = locate_ffmpeg(&Some("/ff".to_owned()), &linux_env(), &facts).unwrap();
    assert_eq!(paths.ffmpeg, "/ff/x86_64-unknown-linux-gnu/ffmpeg");

    let error = locate_ffmpeg(&Some("/empty".to_owned()), &linux_env(), &facts).unwrap_err();
    assert!(matches!(error, LocatorError::CustomDirectoryIncomplete { .. }));
    assert_eq!(
        error.message(),
        "The custom FFmpeg folder '/empty' does not contain both ffmpeg and ffprobe.\nSearched:\n  - /empty\n  - /empty/x86_64-unknown-linux-gnu"
    );
}

#[test]
fn lists_the_paths_the_search_reads() {
    let checked = paths_to_check(&Some("/ff".to_owned()), &linux_env());
    assert_eq!(
        checked,
        vec![
            "/ff/ffmpeg",
            "/ff/ffprobe",
            "/ff/x86_64-unknown-linux-gnu/ffmpeg",
            "/ff/x86_64-unknown-linux-gnu/ffprobe",
        ]
    );
    let all = paths_to_check(&None, &linux_env());
    assert!(all.contains(&"/usr/bin/ffprobe".to_owned()));
    assert!(all.contains(&"/opt/burnsubs/bin/ffmpeg".to_owned()));
}

#[test]
fn validates_binary_files() {
    let paths = FfmpegPaths { ffmpeg: "/b/ffmpeg".to_owned(), ffprobe: "/b/ffprobe".to_owned() };
    let mut facts = files(&["/b/ffmpeg"]);
    assert_eq!(
        validate_binary_files(&paths, &facts).unwrap_err().message(),
        "FFprobe binary does not exist: /b/ffprobe"
    );
    facts.regular_files.push("/b/ffprobe".to_owned());
    assert_eq!(
        validate_binary_files(&paths, &facts).unwrap_err().message(),
        "Could not access FFmpeg binary: /b/ffmpeg"
    );
    facts.canonical = vec![
        ("/b/ffmpeg".to_owned(), "/b/ffmpeg".to_owned()),
        ("/b/ffprobe".to_owned(), "/b/ffprobe".to_owned()),
    ];
    assert!(validate_binary_files(&paths, &facts).is_ok());
}
