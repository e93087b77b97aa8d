use burnsubs::paths::FileFacts;
use burnsubs::probe::{
    probe_arguments, probe_failure, summarize_probe_output, validate_paths, ProbeError, ProbeFormat, ProbeOutput,
    ProbeStream,
};

fn stream(kind: &str, codec: Option<&str>, size: Option<(u32, u32)>, duration: Option<&str>) -> ProbeStream {
    ProbeStream {
        codec_type: Some(kind.to_owned()),
        codec_name: codec.map(str::to_owned),
        width: size.map(|s| s.0),
        height: size.map(|s| s.1),
        duration: duration.map(str::to_owned),
    }
}

#[test]
fn rejects_files_without_video_streams() {
    let probe = ProbeOutput {
        streams: vec![stream("audio", Some("aac"), None, Some("20.0"))],
        format: ProbeFormat { duration: Some("20.0".to_owned()), format_name: Some("mp3".to_owned()) },
    };

    let error = summarize_probe_output(&probe).unwrap_err();

    assert!(error.message().contains("does not contain a video stream"));
}

#[test]
fn summarizes_video_information() {
    let probe = ProbeOutput {
        streams: vec![
            stream("video", Some("h264"), Some((1920, 1080)), Some("120.500000")),
            stream("audio", Some("aac"), None, None),
        ],
        format: ProbeFormat { duration: Some("120.500000".to_owned()), format_name: Some("matroska,webm".to_owned()) },
    };
    let summary = summarize_probe_output(&probe).unwrap();
    assert_eq!(summary.video_codec, "h264");
    assert_eq!(summary.width, Some(1920));
    assert_eq!(summary.height, Some(1080));
    assert_eq!(summary.audio_stream_count, 1);
    assert_eq!(summary.format_name.as_deref(), Some("matroska,webm"));
}

#[test]
fn unknown_codec_and_later_video_stream() {
    let probe = ProbeOutput {
        streams: vec![
            stream("audio", Some("aac"), None, None),
            stream("video", None, None, None),
            stream("audio", Some("opus"), None, None),
        ],
        format: ProbeFormat { duration: None, format_name: None },
    };
    let summary = summarize_probe_output(&probe).unwrap();
    assert_eq!(summary.video_codec, "unknown");
    assert_eq!(summary.audio_stream_count, 2);
}

#[test]
fn probe_checks_and_messages() {
    let facts = FileFacts { regular_files: vec!["/ffprobe".to_owned()], directories: Vec::new(), other_entries: Vec::new(), canonical: Vec::new() };
    assert!(matches!(validate_paths("/ffprobe", "/v.mkv", &facts), Err(ProbeError::VideoNotFound { .. })));
    assert_eq!(
        validate_paths("/x", "/v.mkv", &facts).unwrap_err().message(),
        "FFprobe binary was not found: /x"
    );
    assert_eq!(
        probe_failure("/v.mkv", "\n").message(),
        "FFprobe failed for '/v.mkv'.\nFFprobe returned no error details."
    );
    assert_eq!(probe_arguments("/v.mkv").last().unwrap(), "/v.mkv");
    assert_eq!(probe_arguments("/v.mkv")[3], "json");
}
