use burnsubs::model::{
    file_name_or_path, AccelerationPreference, EncodeJob, EncodeSettings, JobStatus, OutputFormat, Platform,
    QualityPreset,
};
use std::path::PathBuf;

fn settings(prefix: &str, output_directory: &str, format: OutputFormat) -> EncodeSettings {
    EncodeSettings {
        prefix: prefix.to_owned(),
        postfix: "_hardsub".to_owned(),
        output_directory: output_directory.to_owned(),
        output_format: format,
        quality: QualityPreset::Balanced,
        acceleration: AccelerationPreference::Auto,
        overwrite_existing: false,
        custom_ffmpeg_directory: None,
    }
}

#[test]
fn creates_output_path_with_prefix_and_postfix() {
    let settings = settings("processed_", "output", OutputFormat::Mp4);

    let result = settings.create_output_path("movie.mkv");

    assert_eq!(
        PathBuf::from(result),
        PathBuf::from("output").join("processed_movie_hardsub.mp4")
    );
}

#[test]
fn output_path_keeps_inner_dots_and_uses_mkv() {
    let settings = settings("", "/videos/out", OutputFormat::Mkv);
    assert_eq!(settings.create_output_path("/videos/My.Show.S01.mp4"), "/videos/out/My.Show.S01_hardsub.mkv");
    assert_eq!(settings.create_output_path("/videos/.hidden"), "/videos/out/.hidden_hardsub.mkv");
}

#[test]
fn reports_terminal_statuses() {
    assert!(JobStatus::Completed.is_terminal());
    assert!(JobStatus::Cancelled.is_terminal());
    assert!(JobStatus::Failed("error".to_owned()).is_terminal());
    assert!(!JobStatus::Encoding.is_terminal());
}

#[test]
fn new_jobs_are_queued() {
    let job = EncodeJob::new(
        3,
        "/in/movie.mkv".to_owned(),
        "/in/movie.srt".to_owned(),
        "/out/movie_hardsub.mp4".to_owned(),
    );
    assert_eq!(job.id, 3);
    assert_eq!(job.status, JobStatus::Queued);
    assert_eq!(job.video_name(), "movie.mkv");
    assert_eq!(job.subtitle_name(), "movie.srt");
    assert_eq!(job.output_name(), "movie_hardsub.mp4");
    assert!(job.encoder_name.is_none());
}

#[test]
fn names_fall_back_to_whole_path() {
    assert_eq!(file_name_or_path("/"), "/");
    assert_eq!(file_name_or_path("dir/video.mp4"), "video.mp4");
}

#[test]
fn labels_and_extensions() {
    assert_eq!(OutputFormat::Mp4.extension(), "mp4");
    assert_eq!(OutputFormat::Mkv.label(), "MKV");
    assert_eq!(QualityPreset::Balanced.label(), "Balanced");
    assert_eq!(AccelerationPreference::Auto.label(), "Automatic (recommended)");
    assert_eq!(JobStatus::Failed("x".to_owned()).label(), "Failed");
}

#[test]
fn platform_choices() {
    assert_eq!(Platform::from_os_name("macos"), Platform::MacOs);
    assert_eq!(Platform::from_os_name("freebsd"), Platform::Other);
    assert_eq!(
        AccelerationPreference::choices_for_current_platform(Platform::MacOs),
        vec![
            AccelerationPreference::Auto,
            AccelerationPreference::Cpu,
            AccelerationPreference::VideoToolbox
        ]
    );
}

#[test]
fn output_paths_keep_the_format_extension() {
    for format in OutputFormat::ALL {
        let output = settings("p_", "/out", format).create_output_path("/v/clip.v2.webm");
        assert!(burnsubs::batch::has_supported_video_extension(&output));
        assert!(output.ends_with(&format!("p_clip.v2_hardsub.{}", format.extension())));
    }
}
