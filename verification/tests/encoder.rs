use burnsubs::acceleration::VideoEncoder;
use burnsubs::encoder::{
    check_output_absent, classify_progress_line, create_partial_output_path, decimal, encode_arguments,
    finalize_output, output_location, run_outcome, signed_decimal, subtitle_working_directory, validate_inputs,
    EncodeError, PartialPathError, ProgressLine,
};
use burnsubs::model::{AccelerationPreference, EncodeSettings, OutputFormat, QualityPreset};
use burnsubs::paths::FileFacts;

fn settings(format: OutputFormat) -> EncodeSettings {
    EncodeSettings {
        prefix: String::new(),
        postfix: "_hardsub".to_owned(),
        output_directory: "/out".to_owned(),
        output_format: format,
        quality: QualityPreset::High,
        acceleration: AccelerationPreference::Cpu,
        overwrite_existing: false,
        custom_ffmpeg_directory: None,
    }
}

#[test]
fn encode_arguments_for_mp4() {
    let arguments = encode_arguments("/in/movie.mkv", "/out/.movie.part.mp4", VideoEncoder::Software, &settings(OutputFormat::Mp4), &Vec::new());
    assert_eq!(
        arguments.join(" "),
        "-hide_banner -nostdin -y -progress pipe:1 -nostats -stats_period 0.25 -i /in/movie.mkv -map 0:v:0 -map 0:a? -map_metadata 0 -map_chapters 0 -vf subtitles=filename=subtitle.srt:charenc=UTF-8 -c:v libx264 -crf 18 -preset slow -pix_fmt yuv420p -c:a aac -b:a 192k -movflags +faststart /out/.movie.part.mp4"
    );
}

#[test]
fn encode_arguments_for_vaapi_mkv() {
    let device = vec!["-vaapi_device".to_owned(), "/dev/dri/renderD128".to_owned()];
    let arguments = encode_arguments("v.mkv", "p.mkv", VideoEncoder::Vaapi, &settings(OutputFormat::Mkv), &device);
    let text = arguments.join(" ");
    assert!(text.contains("-stats_period 0.25 -vaapi_device /dev/dri/renderD128 -i v.mkv"));
    assert!(text.ends_with("-c:a copy p.mkv"));
}

#[test]
fn partial_output_is_hidden_beside_output() {
    assert_eq!(
        create_partial_output_path("/out/movie_hardsub.mp4", 7, 4242).unwrap(),
        "/out/.movie_hardsub.burnsubs-part-4242-7.mp4"
    );
    assert_eq!(create_partial_output_path("/out/noext", 1, 1), Err(PartialPathError::NoExtension));
    assert_eq!(create_partial_output_path("/", 1, 1), Err(PartialPathError::NoParentDirectory));
}

#[test]
fn classifies_progress_lines() {
    assert!(matches!(classify_progress_line("progress=end"), ProgressLine::End));
    assert!(matches!(classify_progress_line("out_time_us=5000000"), ProgressLine::Microseconds(v) if v == "5000000"));
    assert!(matches!(classify_progress_line("out_time_ms=20000000"), ProgressLine::Microseconds(v) if v == "20000000"));
    assert!(matches!(
        classify_progress_line("out_time=00:01:30.000000"),
        ProgressLine::Timestamp(h, m, s) if h == "00" && m == "01" && s == "30.000000"
    ));
    assert!(matches!(classify_progress_line("out_time=1:2:3:4"), ProgressLine::Other));
    assert!(matches!(classify_progress_line("frame=10"), ProgressLine::Other));
    assert!(matches!(classify_progress_line("garbage"), ProgressLine::Other));
}

#[test]
fn decimal_numbers() {
    assert_eq!(decimal(0), "0");
    assert_eq!(decimal(1234567890), "1234567890");
    assert_eq!(signed_decimal(-1), "-1");
    assert_eq!(signed_decimal(i32::MIN), "-2147483648");
}

#[test]
fn input_checks_in_order() {
    let facts = FileFacts {
        regular_files: vec!["/ff".to_owned(), "/v.mkv".to_owned()],
        directories: Vec::new(),
        other_entries: Vec::new(),
        canonical: Vec::new(),
    };
    assert_eq!(
        validate_inputs("/ff", "/v.mkv", "/s.srt", true, &facts).unwrap_err().message(),
        "Subtitle file was not found: /s.srt"
    );
    assert_eq!(
        validate_inputs("/nope", "/v.mkv", "/s.srt", false, &facts).unwrap_err().message(),
        "FFmpeg binary was not found: /nope"
    );
    let mut facts = facts;
    facts.regular_files.push("/s.srt".to_owned());
    assert!(matches!(validate_inputs("/ff", "/v.mkv", "/s.srt", false, &facts), Err(EncodeError::InvalidDuration)));
    assert!(validate_inputs("/ff", "/v.mkv", "/s.srt", true, &facts).is_ok());
}

#[test]
fn output_location_and_checks() {
    assert_eq!(
        output_location("out/a.mp4", &Some("/home".to_owned())).unwrap(),
        ("/home/out/a.mp4".to_owned(), "/home/out".to_owned())
    );
    assert!(matches!(output_location("out/a.mp4", &None), Err(EncodeError::CurrentDirectoryUnavailable)));
    assert_eq!(
        check_output_absent("/o.mp4", true, false).unwrap_err().message(),
        "The output file already exists: /o.mp4"
    );
    assert!(check_output_absent("/o.mp4", true, true).is_ok());
    assert_eq!(finalize_output("/o.mp4", true, true).unwrap(), true);
    assert_eq!(finalize_output("/o.mp4", false, false).unwrap(), false);
    assert_eq!(
        finalize_output("/o.mp4", true, false).unwrap_err().message(),
        "The output file appeared while encoding: /o.mp4"
    );
}

#[test]
fn working_directory_name() {
    assert_eq!(subtitle_working_directory("/tmp", 12, 3), "/tmp/BurnSubs/subtitle-12-3");
}

#[test]
fn run_outcomes() {
    assert!(run_outcome(false, true, Some(0), "").is_ok());
    assert_eq!(run_outcome(true, false, Some(255), "x").unwrap_err().message(), "Encoding was cancelled.");
    assert_eq!(
        run_outcome(false, false, None, "  \n").unwrap_err().message(),
        "FFmpeg failed with exit code -1.\nFFmpeg returned no error details."
    );
    assert_eq!(
        run_outcome(false, false, Some(1), " bad input\n").unwrap_err().message(),
        "FFmpeg failed with exit code 1.\nbad input"
    );
}
