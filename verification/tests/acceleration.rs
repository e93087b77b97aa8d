use burnsubs::acceleration::{
    apply_video_options, concise_details, concise_stderr, encoder_for_preference, encoder_list_failure,
    encoder_probe_arguments, parse_encoder_names, runtime_test_failure, select_encoder, subtitle_filter,
    EncoderSearch, SelectionError, SelectionStep, VideoEncoder, ENCODER_PROBE_SOURCE,
};
use burnsubs::model::{AccelerationPreference, Platform, QualityPreset};

#[test]
fn parses_only_video_encoder_rows() {
    let output = "Encoders:\n V....D libx264 description\n A....D aac description\n V..... h264_qsv description\n";
    let names = parse_encoder_names(output);

    assert!(names.contains("libx264"));
    assert!(names.contains("h264_qsv"));
    assert!(!names.contains("aac"));
}

#[test]
fn maps_preferences_to_encoders() {
    assert_eq!(
        encoder_for_preference(AccelerationPreference::Nvidia),
        Some(VideoEncoder::NvidiaNvenc)
    );
    assert_eq!(encoder_for_preference(AccelerationPreference::Cpu), None);
}

#[test]
fn builds_cpu_quality_options() {
    let mut command = vec!["ffmpeg".to_owned()];
    apply_video_options(&mut command, VideoEncoder::Software, QualityPreset::High);
    let debug = format!("{command:?}");

    assert!(debug.contains("libx264"));
    assert!(debug.contains("-crf"));
    assert!(debug.contains("slow"));
}

#[test]
fn vaapi_filter_uploads_frames() {
    assert!(subtitle_filter(VideoEncoder::Vaapi).ends_with("format=nv12,hwupload"));
}

#[test]
fn hardware_probe_uses_nvenc_compatible_dimensions() {
    assert!(ENCODER_PROBE_SOURCE.contains("s=640x360"));
}

#[test]
fn software_options_are_exact() {
    let mut arguments = Vec::new();
    apply_video_options(&mut arguments, VideoEncoder::Software, QualityPreset::Balanced);
    assert_eq!(
        arguments,
        vec!["-c:v", "libx264", "-crf", "21", "-preset", "medium", "-pix_fmt", "yuv420p"]
    );
}

#[test]
fn encoder_names_need_six_flag_characters() {
    let names = parse_encoder_names(" V..... ok_encoder x\n V.... short_flags x\n VFS..D h264_nvenc NVIDIA\n");
    assert!(names.contains("ok_encoder"));
    assert!(names.contains("h264_nvenc"));
    assert!(!names.contains("short_flags"));
}

fn expect_probe(step: SelectionStep) -> VideoEncoder {
    match step {
        SelectionStep::Probe(encoder) => encoder,
        SelectionStep::Finished(result) => panic!("expected a runtime test, got {result:?}"),
    }
}

fn finish(step: SelectionStep) -> Result<burnsubs::acceleration::EncoderSelection, SelectionError> {
    match step {
        SelectionStep::Finished(result) => result,
        SelectionStep::Probe(encoder) => panic!("expected a result, got a test of {encoder:?}"),
    }
}

fn run_search(
    compiled: &str,
    preference: AccelerationPreference,
    platform: Platform,
    passes: &[VideoEncoder],
) -> (Vec<VideoEncoder>, Result<burnsubs::acceleration::EncoderSelection, SelectionError>) {
    let (mut search, mut step): (EncoderSearch, SelectionStep) =
        select_encoder(parse_encoder_names(compiled), preference, platform);
    let mut tested = Vec::new();
    loop {
        match step {
            SelectionStep::Finished(result) => {
                assert_eq!(search.pending(), None);
                assert!(tested.len() <= 4);
                return (tested, result);
            }
            SelectionStep::Probe(encoder) => {
                assert_eq!(search.pending(), Some(encoder));
                assert!(!tested.contains(&encoder));
                tested.push(encoder);
                let outcome = if passes.contains(&encoder) {
                    Ok(())
                } else {
                    Err(format!("{} failed", encoder.label()))
                };
                step = search.probe_finished(outcome);
            }
        }
    }
}

#[test]
fn automatic_selection_takes_first_working_hardware_encoder() {
    let compiled = " V..... libx264 x\n V..... h264_nvenc x\n V..... h264_vaapi x\n V..... h264_qsv x\n";
    let (tested, result) = run_search(
        compiled,
        AccelerationPreference::Auto,
        Platform::Linux,
        &[VideoEncoder::Software, VideoEncoder::Vaapi, VideoEncoder::IntelQuickSync],
    );
    assert_eq!(tested, vec![VideoEncoder::Software, VideoEncoder::NvidiaNvenc, VideoEncoder::Vaapi]);
    let selection = result.unwrap();
    assert_eq!(selection.encoder, VideoEncoder::Vaapi);
    assert!(selection.note.is_none());
}

#[test]
fn automatic_selection_skips_encoders_ffmpeg_lacks() {
    let compiled = " V..... libx264 x\n V..... h264_qsv x\n";
    let (tested, result) = run_search(
        compiled,
        AccelerationPreference::Auto,
        Platform::Linux,
        &[VideoEncoder::Software, VideoEncoder::IntelQuickSync],
    );
    assert_eq!(tested, vec![VideoEncoder::Software, VideoEncoder::IntelQuickSync]);
    assert_eq!(result.unwrap().encoder, VideoEncoder::IntelQuickSync);
}

#[test]
fn falls_back_to_cpu_with_a_note() {
    let compiled = " V..... libx264 x\n V..... h264_nvenc x\n";
    let (_, result) = run_search(compiled, AccelerationPreference::Nvidia, Platform::Windows, &[VideoEncoder::Software]);
    let selection = result.unwrap();
    assert_eq!(selection.encoder, VideoEncoder::Software);
    assert_eq!(
        selection.note.as_deref(),
        Some("NVIDIA NVENC is unavailable on this system; using CPU encoding.")
    );

    let (_, result) = run_search(compiled, AccelerationPreference::Auto, Platform::Other, &[VideoEncoder::Software]);
    assert_eq!(
        result.unwrap().note.as_deref(),
        Some("No compatible GPU encoder passed the runtime test; using CPU encoding.")
    );
}

#[test]
fn cpu_preference_tests_only_libx264() {
    let compiled = " V..... libx264 x\n V..... h264_nvenc x\n";
    let (tested, result) = run_search(compiled, AccelerationPreference::Cpu, Platform::Windows, &[VideoEncoder::Software]);
    assert_eq!(tested, vec![VideoEncoder::Software]);
    let selection = result.unwrap();
    assert_eq!(selection.encoder, VideoEncoder::Software);
    assert!(selection.note.is_none());
}

#[test]
fn selection_fails_without_libx264() {
    let (search, step) = select_encoder(
        parse_encoder_names(" V..... h264_nvenc x\n"),
        AccelerationPreference::Auto,
        Platform::Windows,
    );
    drop(search);
    let error = finish(step).unwrap_err();
    assert!(matches!(error, SelectionError::MissingCpuEncoder));
    assert_eq!(
        error.message(),
        "This FFmpeg build does not include the required CPU encoder 'libx264'."
    );
}

#[test]
fn selection_fails_when_libx264_test_fails() {
    let (mut search, step) = select_encoder(
        parse_encoder_names(" V..... libx264 x\n"),
        AccelerationPreference::Auto,
        Platform::Windows,
    );
    assert_eq!(expect_probe(step), VideoEncoder::Software);
    let error = finish(search.probe_finished(Err("broken".to_owned()))).unwrap_err();
    assert_eq!(error.message(), "The required CPU fallback encoder is unavailable: broken");
}

#[test]
fn probe_arguments_for_quick_sync() {
    let arguments = encoder_probe_arguments(VideoEncoder::IntelQuickSync, &Vec::new());
    let text = arguments.join(" ");
    assert!(text.starts_with("-hide_banner -loglevel error -f lavfi -i color=c=black:s=640x360:r=30:d=1"));
    assert!(text.contains("-vf format=nv12 "));
    assert!(text.contains("h264_qsv"));
    assert!(text.ends_with("-f null -"));
}

#[test]
fn shortens_long_error_output() {
    assert_eq!(concise_details("   \n"), "FFmpeg returned no error details.");
    assert_eq!(concise_details("  broken pipe \n"), "broken pipe");
    let long = "x".repeat(2500) + "END";
    let short = concise_details(&long);
    assert_eq!(short.chars().count(), 2001);
    assert!(short.starts_with('…'));
    assert!(short.ends_with("END"));
}

#[test]
fn decodes_error_output_bytes() {
    assert_eq!(concise_stderr(b"  bad \xff input \n"), "bad \u{FFFD} input");
    assert_eq!(encoder_list_failure(b""), "FFmpeg could not list its encoders: FFmpeg returned no error details.");
    assert_eq!(
        runtime_test_failure(VideoEncoder::AmdAmf, b"no device\n"),
        "AMD AMF runtime test failed: no device"
    );
}
