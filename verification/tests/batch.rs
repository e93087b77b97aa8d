use burnsubs::batch::{
    has_supported_video_extension, join_paths, plan_batch, validate_input_directory, BatchScanError,
    BatchScanResult, BatchSkipReason,
};
use burnsubs::model::{AccelerationPreference, EncodeSettings, OutputFormat, QualityPreset};
use burnsubs::paths::FileFacts;

const DIRECTORY: &str = "/data/batch";

fn settings_for(output_directory: &str) -> EncodeSettings {
    EncodeSettings {
        prefix: String::new(),
        postfix: "_hardsub".to_owned(),
        output_directory: output_directory.to_owned(),
        output_format: OutputFormat::Mp4,
        quality: QualityPreset::Balanced,
        acceleration: AccelerationPreference::Auto,
        overwrite_existing: false,
        custom_ffmpeg_directory: None,
    }
}

fn in_directory(names: &[&str]) -> Vec<String> {
    names.iter().map(|name| format!("{DIRECTORY}/{name}")).collect()
}

/// Plans the folder as the program would after listing it: the outputs that
/// exist are those among the listed files.
fn scan(names: &[&str], settings: &EncodeSettings) -> BatchScanResult {
    let files = in_directory(names);
    let existing: Vec<String> = files
        .iter()
        .filter(|file| has_supported_video_extension(file))
        .map(|video| settings.create_output_path(video))
        .filter(|output| files.contains(output))
        .collect();
    plan_batch(&files, settings, &existing, &Some("/home/user".to_owned())).unwrap()
}

#[test]
fn matches_video_and_subtitle_by_stem() {
    let result = scan(&["Movie.mkv", "movie.SRT"], &settings_for(DIRECTORY));

    assert_eq!(result.jobs.len(), 1);
    assert!(result.skipped_videos.is_empty());
    assert!(result.orphan_subtitles.is_empty());
    assert_eq!(result.jobs[0].video_name(), "Movie.mkv");
    assert_eq!(result.jobs[0].subtitle_name(), "movie.SRT");
}

#[test]
fn reports_missing_subtitle() {
    let result = scan(&["movie.mkv"], &settings_for(DIRECTORY));

    assert!(result.jobs.is_empty());
    assert_eq!(result.skipped_videos.len(), 1);

    assert!(matches!(
        result.skipped_videos[0].reason,
        BatchSkipReason::MissingSubtitle
    ));
}

#[test]
fn reports_orphan_subtitle() {
    let result = scan(&["movie.mkv", "movie.srt", "unused.srt"], &settings_for(DIRECTORY));

    assert_eq!(result.jobs.len(), 1);
    assert_eq!(result.orphan_subtitles.len(), 1);
    assert_eq!(
        std::path::Path::new(&result.orphan_subtitles[0])
            .file_name()
            .unwrap()
            .to_string_lossy(),
        "unused.srt"
    );
}

#[test]
fn reports_ambiguous_subtitles() {
    let result = scan(&["movie.mkv", "movie.srt", "MOVIE.SRT"], &settings_for(DIRECTORY));

    assert!(result.jobs.is_empty());
    assert_eq!(result.skipped_videos.len(), 1);

    match &result.skipped_videos[0].reason {
        BatchSkipReason::AmbiguousSubtitle { candidates } => {
            assert_eq!(candidates.len(), 2);
        }
        other => panic!("Unexpected skip reason: {other:?}"),
    }
}

#[test]
fn reports_output_conflict_for_duplicate_video_stems() {
    let result = scan(&["movie.mkv", "movie.mp4", "movie.srt"], &settings_for(DIRECTORY));

    assert!(result.jobs.is_empty());
    assert_eq!(result.skipped_videos.len(), 2);

    assert!(
        result
            .skipped_videos
            .iter()
            .all(|skipped| matches!(skipped.reason, BatchSkipReason::OutputConflict { .. }))
    );
}

#[test]
fn skips_existing_output_when_overwrite_is_disabled() {
    let result = scan(&["movie.mkv", "movie.srt", "movie_hardsub.mp4"], &settings_for(DIRECTORY));

    assert!(result.jobs.is_empty());
    assert_eq!(result.skipped_videos.len(), 1);
    assert_eq!(result.ignored_file_count, 1);

    assert!(matches!(
        result.skipped_videos[0].reason,
        BatchSkipReason::OutputAlreadyExists { .. }
    ));
}

#[test]
fn counts_ignored_files() {
    let result = scan(&["movie.mkv", "movie.srt", "notes.txt"], &settings_for(DIRECTORY));

    assert_eq!(result.jobs.len(), 1);
    assert_eq!(result.ignored_file_count, 1);
}

#[test]
fn overwrite_allows_existing_output() {
    let mut settings = settings_for(DIRECTORY);
    settings.overwrite_existing = true;
    let result = scan(&["movie.mkv", "movie.srt", "movie_hardsub.mp4"], &settings);
    assert_eq!(result.jobs.len(), 1);
    assert_eq!(result.jobs[0].output_path, "/data/batch/movie_hardsub.mp4");
    assert_eq!(result.ignored_file_count, 1);
}

#[test]
fn jobs_are_numbered_in_name_order_with_distinct_outputs() {
    let result = scan(
        &["b.mkv", "a.mp4", "C.avi", "a.srt", "b.srt", "c.srt", "readme.md"],
        &settings_for("/data/out"),
    );
    let names: Vec<String> = result.jobs.iter().map(|job| job.video_name()).collect();
    assert_eq!(names, vec!["a.mp4", "b.mkv", "C.avi"]);
    let ids: Vec<u64> = result.jobs.iter().map(|job| job.id).collect();
    assert_eq!(ids, vec![1, 2, 3]);
    let outputs: Vec<&str> = result.jobs.iter().map(|job| job.output_path.as_str()).collect();
    assert_eq!(outputs, vec!["/data/out/a_hardsub.mp4", "/data/out/b_hardsub.mp4", "/data/out/C_hardsub.mp4"]);
    assert_eq!(result.ignored_file_count, 1);
    assert!(result.skipped_videos.is_empty());
}

#[test]
fn every_video_is_accounted_for() {
    let names = ["x.mkv", "x.srt", "y.mp4", "z.mov", "z.srt", "Z.SRT", "x_hardsub.mp4", "w.webm", "w.srt", "w.m4v"];
    let result = scan(&names, &settings_for(DIRECTORY));
    let videos = in_directory(&names).iter().filter(|p| has_supported_video_extension(p)).count();
    let absorbed = 1;
    assert_eq!(result.jobs.len() + result.skipped_videos.len() + absorbed, videos);
}

#[test]
fn output_replacing_its_input_is_skipped() {
    let mut settings = settings_for(DIRECTORY);
    settings.postfix = String::new();
    let result = scan(&["movie.mp4", "movie.srt"], &settings);
    assert!(result.jobs.is_empty());
    assert!(matches!(
        result.skipped_videos[0].reason,
        BatchSkipReason::OutputWouldReplaceInput { .. }
    ));
}

#[test]
fn relative_paths_need_the_current_directory() {
    let files = vec!["movie.mkv".to_owned(), "movie.srt".to_owned()];
    let error = plan_batch(&files, &settings_for("out"), &Vec::new(), &None).unwrap_err();
    assert!(matches!(error, BatchScanError::CurrentDirectoryUnavailable));
    assert_eq!(error.message(), "Could not determine the current directory");
}

#[test]
fn skip_reasons_read_as_messages() {
    assert_eq!(BatchSkipReason::MissingSubtitle.message(), "No same-name SRT subtitle was found");
    let reason = BatchSkipReason::OutputConflict {
        output_path: "/o/a.mp4".to_owned(),
        videos: vec!["/i/a.mkv".to_owned(), "/i/a.mp4".to_owned()],
    };
    assert_eq!(
        reason.message(),
        "Multiple videos would produce the same output '/o/a.mp4': /i/a.mkv, /i/a.mp4"
    );
    assert_eq!(join_paths(&Vec::new()), "");
    assert_eq!(
        BatchSkipReason::AmbiguousSubtitle { candidates: vec!["a.srt".to_owned(), "A.SRT".to_owned()] }.message(),
        "Multiple matching SRT files were found: a.srt, A.SRT"
    );
}

#[test]
fn input_folder_must_exist() {
    let facts = FileFacts {
        regular_files: vec!["/data/file.txt".to_owned()],
        directories: vec![DIRECTORY.to_owned()],
        other_entries: Vec::new(),
        canonical: Vec::new(),
    };
    assert!(validate_input_directory(DIRECTORY, &facts).is_ok());
    assert_eq!(
        validate_input_directory("/nowhere", &facts).unwrap_err().message(),
        "Batch input directory does not exist: /nowhere"
    );
    assert_eq!(
        validate_input_directory("/data/file.txt", &facts).unwrap_err().message(),
        "Batch input path is not a directory: /data/file.txt"
    );
}

#[test]
fn supported_video_extensions_ignore_case() {
    assert!(has_supported_video_extension("a/Movie.MKV"));
    assert!(has_supported_video_extension("clip.m4v"));
    assert!(!has_supported_video_extension("movie.srt"));
    assert!(!has_supported_video_extension("mkv"));
}

#[test]
fn equal_names_keep_listing_order() {
    let result = scan(&["movie.mkv", "Movie.mkv", "a.mp4"], &settings_for(DIRECTORY));
    let skipped: Vec<&str> = result.skipped_videos.iter().map(|s| s.video_path.as_str()).collect();
    assert_eq!(skipped, vec!["/data/batch/a.mp4", "/data/batch/movie.mkv", "/data/batch/Movie.mkv"]);
}
