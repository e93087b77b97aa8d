//! The video information FFprobe reports, read from its parsed JSON output.
//! Durations are decimal fractions and are read by the program that runs
//! FFprobe; everything else is decided here.

use crate::paths::{is_file_in, opt_view, FileFacts};
use crate::text::{push_arg, push_str, spec_trim, strings_view, trim};
use vstd::prelude::*;

verus! {

/// One stream of FFprobe's report.
#[derive(Debug, Clone)]
pub struct ProbeStream {
    pub codec_type: Option<String>,
    pub codec_name: Option<String>,
    pub width: Option<u32>,
    pub height: Option<u32>,
    pub duration: Option<String>,
}

/// The container part of FFprobe's report.
#[derive(Debug, Clone)]
pub struct ProbeFormat {
    pub duration: Option<String>,
    pub format_name: Option<String>,
}

/// FFprobe's report: streams and container.
#[derive(Debug, Clone)]
pub struct ProbeOutput {
    pub streams: Vec<ProbeStream>,
    pub format: ProbeFormat,
}

/// What is known of a video apart from its duration.
#[derive(Debug, Clone)]
pub struct VideoSummary {
    pub format_name: Option<String>,
    pub video_codec: String,
    pub width: Option<u32>,
    pub height: Option<u32>,
    pub audio_stream_count: usize,
}

/// Why a video's information could not be read.
#[derive(Debug, Clone)]
pub enum ProbeError {
    FfprobeNotFound { path: String },
    VideoNotFound { path: String },
    /// FFprobe failed on the video, with its trimmed error output.
    Failed { video: String, details: String },
    NoVideoStream,
}

/// The message shown for a probe error.
pub open spec fn spec_probe_error_message(e: ProbeError) -> Seq<char> {
    match e {
        ProbeError::FfprobeNotFound { path } => "FFprobe binary was not found: "@ + path@,
        ProbeError::VideoNotFound { path } => "Video file was not found: "@ + path@,
        ProbeError::Failed { video, details } => "FFprobe failed for '"@ + video@ + "'.\n"@ + if details@.len() == 0 {
            "FFprobe returned no error details."@
        } else {
            details@
        },
        ProbeError::NoVideoStream => "The selected file does not contain a video stream"@,
    }
}

impl ProbeError {
    /// The message shown for the error.
    pub fn message(&self) -> (text: String)
        ensures
            text@ == spec_probe_error_message(*self),
    {
        let mut text = String::new();
        match self {
            ProbeError::FfprobeNotFound { path } => {
                push_str(&mut text, "FFprobe binary was not found: ");
                push_str(&mut text, path.as_str());
            },
            ProbeError::VideoNotFound { path } => {
                push_str(&mut text, "Video file was not found: ");
                push_str(&mut text, path.as_str());
            },
            ProbeError::Failed { video, details } => {
                push_str(&mut text, "FFprobe failed for '");
                push_str(&mut text, video.as_str());
                push_str(&mut text, "'.\n");
                if details.as_str().is_empty() {
                    push_str(&mut text, "FFprobe returned no error details.");
                } else {
                    push_str(&mut text, details.as_str());
                }
            },
            ProbeError::NoVideoStream => push_str(&mut text, "The selected file does not contain a video stream"),
        }
        assert(text@ =~= spec_probe_error_message(*self));
        text
    }
}

/// Checks that FFprobe and the video are regular files, FFprobe first.
pub fn validate_paths(ffprobe_path: &str, video_path: &str, facts: &FileFacts) -> (r: Result<(), ProbeError>)
    ensures
        r is Ok <==> (is_file_in(*facts, ffprobe_path@) && is_file_in(*facts, video_path@)),
        match r {
            Ok(_) => is_file_in(*facts, ffprobe_path@) && is_file_in(*facts, video_path@),
            Err(ProbeError::FfprobeNotFound { path }) => !is_file_in(*facts, ffprobe_path@) && path@ == ffprobe_path@,
            Err(ProbeError::VideoNotFound { path }) => is_file_in(*facts, ffprobe_path@) && !is_file_in(*facts, video_path@)
                && path@ == video_path@,
            Err(_) => false,
        },
{
    if !facts.is_file(ffprobe_path) {
        return Err(ProbeError::FfprobeNotFound { path: ffprobe_path.to_owned() });
    }
    if !facts.is_file(video_path) {
        return Err(ProbeError::VideoNotFound { path: video_path.to_owned() });
    }
    Ok(())
}

/// The FFprobe arguments that report, as JSON, the container's duration and
/// name and each stream's type, codec, size and duration.
pub open spec fn spec_probe_arguments(video_path: Seq<char>) -> Seq<Seq<char>> {
    seq![
        "-v"@, "error"@, "-of"@, "json"@, "-show_entries"@,
        "format=duration,format_name:stream=codec_type,codec_name,width,height,duration"@, video_path,
    ]
}

/// The FFprobe arguments for a video.
pub fn probe_arguments(video_path: &str) -> (arguments: Vec<String>)
    ensures
        strings_view(arguments@) == spec_probe_arguments(video_path@),
{
    let mut arguments: Vec<String> = Vec::new();
    push_arg(&mut arguments, "-v");
    push_arg(&mut arguments, "error");
    push_arg(&mut arguments, "-of");
    push_arg(&mut arguments, "json");
    push_arg(&mut arguments, "-show_entries");
    push_arg(&mut arguments, "format=duration,format_name:stream=codec_type,codec_name,width,height,duration");
    push_arg(&mut arguments, video_path);
    assert(strings_view(arguments@) =~= spec_probe_arguments(video_path@));
    arguments
}

/// The error where FFprobe fails on a video, from its error output.
pub fn probe_failure(video_path: &str, error_output: &str) -> (e: ProbeError)
    ensures
        e matches ProbeError::Failed { video, details } && video@ == video_path@ && details@ == spec_trim(error_output@),
{
    ProbeError::Failed { video: video_path.to_owned(), details: trim(error_output) }
}

/// A stream of the given type.
pub open spec fn is_stream_of_type(stream: ProbeStream, kind: Seq<char>) -> bool {
    opt_view(stream.codec_type) == Some(kind)
}

/// Position of the first video stream, or -1.
pub open spec fn first_video_stream(streams: Seq<ProbeStream>) -> int
    decreases streams.len(),
{
    if streams.len() == 0 {
        -1
    } else if is_stream_of_type(streams[0], "video"@) {
        0
    } else {
        let r = first_video_stream(streams.drop_first());
        if r < 0 {
            -1
        } else {
            r + 1
        }
    }
}

proof fn lemma_first_video_stream(streams: Seq<ProbeStream>, k: int)
    requires
        0 <= k <= streams.len(),
        forall|j: int| 0 <= j < k ==> !is_stream_of_type(#[trigger] streams[j], "video"@),
        k < streams.len() ==> is_stream_of_type(streams[k], "video"@),
    ensures
        first_video_stream(streams) == if k < streams.len() { k } else { -1 },
    decreases k,
{
    if k > 0 {
        lemma_first_video_stream(streams.drop_first(), k - 1);
    }
}

/// The number of audio streams.
pub open spec fn audio_stream_count(streams: Seq<ProbeStream>) -> nat {
    streams.filter(|s: ProbeStream| is_stream_of_type(s, "audio"@)).len()
}

fn stream_has_type(stream: &ProbeStream, kind: &str) -> (r: bool)
    ensures
        r == is_stream_of_type(*stream, kind@),
{
    match &stream.codec_type {
        Some(t) => *t == kind.to_owned(),
        None => false,
    }
}

/// The facts of the first video stream, the container name and the number of
/// audio streams; a missing codec name reads `unknown`.
pub fn summarize_probe_output(probe: &ProbeOutput) -> (r: Result<VideoSummary, ProbeError>)
    ensures
        ({
            let streams = probe.streams@;
            let i = first_video_stream(streams);
            match r {
                Err(e) => e is NoVideoStream && i < 0,
                Ok(summary) => {
                    &&& 0 <= i < streams.len()
                    &&& opt_view(summary.format_name) == opt_view(probe.format.format_name)
                    &&& summary.video_codec@ == match streams[i].codec_name {
                        Some(name) => name@,
                        None => "unknown"@,
                    }
                    &&& summary.width == streams[i].width
                    &&& summary.height == streams[i].height
                    &&& summary.audio_stream_count == audio_stream_count(streams)
                },
            }
        }),
{
    let streams = &probe.streams;
    let mut k: usize = 0;
    while k < streams.len() && !stream_has_type(&streams[k], "video")
        invariant
            k <= streams.len(),
            forall|j: int| 0 <= j < k ==> !is_stream_of_type(#[trigger] streams@[j], "video"@),
        decreases streams.len() - k,
    {
        k = k + 1;
    }
    proof {
        lemma_first_video_stream(streams@, k as int);
    }
    if k == streams.len() {
        return Err(ProbeError::NoVideoStream);
    }
    let mut audio: usize = 0;
    let mut i: usize = 0;
    while i < streams.len()
        invariant
            i <= streams.len(),
            audio == streams@.take(i as int).filter(|s: ProbeStream| is_stream_of_type(s, "audio"@)).len(),
            audio <= i,
        decreases streams.len() - i,
    {
        proof {
            reveal(Seq::filter);
            assert(streams@.take(i + 1).drop_last() =~= streams@.take(i as int));
            streams@.take(i as int).lemma_filter_len(|s: ProbeStream| is_stream_of_type(s, "audio"@));
        }
        if stream_has_type(&streams[i], "audio") {
            audio = audio + 1;
        }
        i = i + 1;
    }
    assert(streams@.take(streams.len() as int) =~= streams@);
    let video = &streams[k];
    let video_codec = match &video.codec_name {
        Some(name) => name.clone(),
        None => "unknown".to_owned(),
    };
    let format_name = match &probe.format.format_name {
        Some(name) => Some(name.clone()),
        None => None,
    };
    Ok(VideoSummary { format_name, video_codec, width: video.width, height: video.height, audio_stream_count: audio })
}

} // verus!
