use burnsubs::interface::{find_matching_srt, subtitle_beside, AppStatus, BurnSubsApp};
use burnsubs::model::{AppMode, OutputFormat};
use burnsubs::paths::FileFacts;

fn facts(files: &[&str], dirs: &[&str]) -> FileFacts {
    FileFacts {
        regular_files: files.iter().map(|p| p.to_string()).collect(),
        directories: dirs.iter().map(|p| p.to_string()).collect(),
        other_entries: Vec::new(),
        canonical: Vec::new(),
    }
}

#[test]
fn new_window_state() {
    let app = BurnSubsApp::new();
    assert_eq!(app.selected_mode, AppMode::Single);
    assert_eq!(app.postfix, "_hardsub");
    assert_eq!(app.output_format, OutputFormat::Mp4);
    assert!(!app.can_validate());
    assert!(app.status.is_none());
}

#[test]
fn choosing_a_video_sets_defaults() {
    let mut app = BurnSubsApp::new();
    app.on_video_selected("/v/movie.mkv".to_owned(), Some("/v/movie.srt".to_owned()));
    assert_eq!(app.output_directory.as_deref(), Some("/v"));
    assert_eq!(app.single_subtitle.as_deref(), Some("/v/movie.srt"));
    assert!(matches!(&app.status, Some(AppStatus::Info(m)) if m == "Matching subtitle detected: /v/movie.srt"));
    assert!(app.can_validate());
    assert_eq!(app.single_output_path().as_deref(), Some("/v/movie_hardsub.mp4"));

    app.on_output_directory_selected("/out".to_owned());
    app.on_video_selected("/w/other.mp4".to_owned(), None);
    assert_eq!(app.output_directory.as_deref(), Some("/out"));
    assert!(app.status.is_none());
    assert_eq!(app.subtitle_dialog_directory().as_deref(), Some("/w"));
}

#[test]
fn choosing_a_batch_folder_sets_output() {
    let mut app = BurnSubsApp::new();
    app.selected_mode = AppMode::Batch;
    app.on_batch_input_selected("/batch".to_owned());
    assert_eq!(app.output_directory.as_deref(), Some("/batch"));
    assert!(app.can_validate());
}

#[test]
fn checks_single_configuration() {
    let mut app = BurnSubsApp::new();
    app.on_video_selected("/v/movie.mkv".to_owned(), Some("/v/movie.srt".to_owned()));
    let fs = facts(&["/v/movie.mkv", "/v/movie.srt"], &["/v"]);
    assert_eq!(
        app.validate_configuration(&fs),
        Ok("Configuration is valid. Output: /v/movie_hardsub.mp4".to_owned())
    );
    let exists = facts(&["/v/movie.mkv", "/v/movie.srt", "/v/movie_hardsub.mp4"], &["/v"]);
    assert_eq!(
        app.validate_configuration(&exists),
        Err("The output already exists: /v/movie_hardsub.mp4".to_owned())
    );
    app.overwrite_existing = true;
    assert!(app.validate_configuration(&exists).is_ok());
    assert_eq!(
        app.validate_configuration(&facts(&["/v/movie.mkv"], &["/v"])),
        Err("The selected subtitle file no longer exists.".to_owned())
    );
    app.check_configuration(&facts(&[], &[]));
    assert!(matches!(&app.status, Some(AppStatus::Error(m)) if m == "The selected output folder does not exist."));
}

#[test]
fn output_may_not_replace_the_video() {
    let mut app = BurnSubsApp::new();
    app.postfix = String::new();
    app.on_video_selected("/v/movie.mp4".to_owned(), Some("/v/movie.srt".to_owned()));
    let fs = facts(&["/v/movie.mp4", "/v/movie.srt"], &["/v"]);
    assert_eq!(
        app.validate_configuration(&fs),
        Err("The output path cannot replace the input video directly.".to_owned())
    );
}

#[test]
fn checks_batch_configuration() {
    let mut app = BurnSubsApp::new();
    app.selected_mode = AppMode::Batch;
    assert_eq!(app.validate_configuration(&facts(&[], &[])), Err("Select an output folder.".to_owned()));
    app.on_output_directory_selected("/out".to_owned());
    assert_eq!(app.validate_configuration(&facts(&[], &["/out"])), Err("Select a batch input folder.".to_owned()));
    app.on_batch_input_selected("/in".to_owned());
    assert_eq!(
        app.validate_configuration(&facts(&[], &["/out"])),
        Err("The selected batch input folder no longer exists.".to_owned())
    );
    assert_eq!(
        app.validate_configuration(&facts(&[], &["/out", "/in"])),
        Ok("Configuration is valid. Batch scanning will be connected next.".to_owned())
    );
}

#[test]
fn finds_subtitle_beside_the_video() {
    assert_eq!(subtitle_beside("/v/movie.mkv"), "/v/movie.srt");
    let direct = facts(&["/v/movie.srt"], &[]);
    assert_eq!(find_matching_srt("/v/movie.mkv", &direct, &Vec::new()).as_deref(), Some("/v/movie.srt"));

    let entries = vec!["/v/other.srt".to_owned(), "/v/MOVIE.SRT".to_owned(), "/v/movie.Srt".to_owned()];
    assert_eq!(
        find_matching_srt("/v/movie.mkv", &facts(&[], &[]), &entries).as_deref(),
        Some("/v/MOVIE.SRT")
    );
    assert_eq!(find_matching_srt("/v/film.mkv", &facts(&[], &[]), &entries), None);
}
