//! The FFmpeg command that burns a subtitle into a video, the temporary file it
//! writes, and the reading of its progress report.

use crate::acceleration::{
    apply_video_options, spec_subtitle_filter, spec_video_options, subtitle_filter,
    VideoEncoder,
};
use crate::model::{EncodeSettings, OutputFormat};
use crate::paths::{
    extension, file_stem, is_file_in, join, make_absolute, opt_view, parent, spec_extension, spec_file_stem,
    spec_make_absolute, std_join, std_parent, FileFacts,
};
use crate::text::{
    all_whitespace, law_trim_ignores_surrounding_whitespace,
    append_args, index_of, chars_of, push_arg, push_char, push_str, slice_chars, spec_trim, string_of, strings_view, trim,
};
use vstd::prelude::*;

verus! {

/// The audio options of a container: AAC for MP4 (with the index moved to the
/// front), the source audio copied for MKV.
pub open spec fn spec_audio_options(format: OutputFormat) -> Seq<Seq<char>> {
    match format {
        OutputFormat::Mp4 => seq!["-c:a"@, "aac"@, "-b:a"@, "192k"@, "-movflags"@, "+faststart"@],
        OutputFormat::Mkv => seq!["-c:a"@, "copy"@],
    }
}

/// The arguments that encode `video_path` with the subtitle filter into
/// `partial_output_path`, reporting progress on standard output. The first
/// video stream, all audio streams, metadata and chapters are kept.
pub open spec fn spec_encode_arguments(
    video_path: Seq<char>,
    partial_output_path: Seq<char>,
    encoder: VideoEncoder,
    settings: EncodeSettings,
    device_arguments: Seq<Seq<char>>,
) -> Seq<Seq<char>> {
    seq![
        "-hide_banner"@, "-nostdin"@, "-y"@, "-progress"@, "pipe:1"@, "-nostats"@,
        "-stats_period"@, "0.25"@,
    ] + device_arguments + seq![
        "-i"@, video_path, "-map"@, "0:v:0"@, "-map"@, "0:a?"@, "-map_metadata"@, "0"@,
        "-map_chapters"@, "0"@, "-vf"@, spec_subtitle_filter(encoder),
    ] + spec_video_options(encoder, settings.quality) + spec_audio_options(settings.output_format) + seq![
        partial_output_path,
    ]
}

/// The FFmpeg arguments of one encoding run.
pub fn encode_arguments(
    video_path: &str,
    partial_output_path: &str,
    encoder: VideoEncoder,
    settings: &EncodeSettings,
    device_arguments: &Vec<String>,
) -> (arguments: Vec<String>)
    ensures
        strings_view(arguments@) == spec_encode_arguments(
            video_path@,
            partial_output_path@,
            encoder,
            *settings,
            strings_view(device_arguments@),
        ),
{
    let mut arguments: Vec<String> = Vec::new();
    push_arg(&mut arguments, "-hide_banner");
    push_arg(&mut arguments, "-nostdin");
    push_arg(&mut arguments, "-y");
    push_arg(&mut arguments, "-progress");
    push_arg(&mut arguments, "pipe:1");
    push_arg(&mut arguments, "-nostats");
    push_arg(&mut arguments, "-stats_period");
    push_arg(&mut arguments, "0.25");
    append_args(&mut arguments, device_arguments);
    push_arg(&mut arguments, "-i");
    push_arg(&mut arguments, video_path);
    push_arg(&mut arguments, "-map");
    push_arg(&mut arguments, "0:v:0");
    push_arg(&mut arguments, "-map");
    push_arg(&mut arguments, "0:a?");
    push_arg(&mut arguments, "-map_metadata");
    push_arg(&mut arguments, "0");
    push_arg(&mut arguments, "-map_chapters");
    push_arg(&mut arguments, "0");
    push_arg(&mut arguments, "-vf");
    push_arg(&mut arguments, subtitle_filter(encoder));
    apply_video_options(&mut arguments, encoder, settings.quality);
    let ghost before_audio = strings_view(arguments@);
    match settings.output_format {
        OutputFormat::Mp4 => {
            push_arg(&mut arguments, "-c:a");
            push_arg(&mut arguments, "aac");
            push_arg(&mut arguments, "-b:a");
            push_arg(&mut arguments, "192k");
            push_arg(&mut arguments, "-movflags");
            push_arg(&mut arguments, "+faststart");
        },
        OutputFormat::Mkv => {
            push_arg(&mut arguments, "-c:a");
            push_arg(&mut arguments, "copy");
        },
    }
    assert(strings_view(arguments@) =~= before_audio + spec_audio_options(settings.output_format));
    push_arg(&mut arguments, partial_output_path);
    assert(strings_view(arguments@) =~= spec_encode_arguments(
        video_path@,
        partial_output_path@,
        encoder,
        *settings,
        strings_view(device_arguments@),
    ));
    arguments
}

/// Decimal digits of a number, most significant first, without leading zeros.
pub open spec fn spec_decimal(n: nat) -> Seq<char>
    decreases n,
{
    if n < 10 {
        seq![digit_char(n)]
    } else {
        spec_decimal(n / 10).push(digit_char(n % 10))
    }
}

pub open spec fn digit_char(d: nat) -> char {
    if d == 0 { '0' } else if d == 1 { '1' } else if d == 2 { '2' } else if d == 3 { '3' } else if d == 4 { '4' }
    else if d == 5 { '5' } else if d == 6 { '6' } else if d == 7 { '7' } else if d == 8 { '8' } else { '9' }
}

fn digit(d: u64) -> (c: char)
    requires
        d < 10,
    ensures
        c == digit_char(d as nat),
{
    if d == 0 { '0' } else if d == 1 { '1' } else if d == 2 { '2' } else if d == 3 { '3' } else if d == 4 { '4' }
    else if d == 5 { '5' } else if d == 6 { '6' } else if d == 7 { '7' } else if d == 8 { '8' } else { '9' }
}

/// A number in decimal.
pub fn decimal(n: u64) -> (text: String)
    ensures
        text@ == spec_decimal(n as nat),
    decreases n,
{
    if n < 10 {
        let mut s = String::new();
        push_char(&mut s, digit(n));
        assert(s@ =~= seq![digit_char(n as nat)]);
        s
    } else {
        let mut s = decimal(n / 10);
        push_char(&mut s, digit(n % 10));
        s
    }
}

/// Why no temporary output path can be derived from an output path.
#[derive(Debug, Clone, PartialEq, Eq, Structural)]
pub enum PartialPathError {
    NoParentDirectory,
    NoExtension,
}

impl PartialPathError {
    /// The message shown for the error.
    pub fn message(&self) -> (text: &'static str)
        ensures
            text@ == match self {
                PartialPathError::NoParentDirectory => "Output path has no parent directory"@,
                PartialPathError::NoExtension => "Output path has no file extension"@,
            },
    {
        match self {
            PartialPathError::NoParentDirectory => "Output path has no parent directory",
            PartialPathError::NoExtension => "Output path has no file extension",
        }
    }
}

/// The hidden temporary file encoding writes next to the output before renaming
/// it: `.<stem>.burnsubs-part-<process>-<id>.<extension>` in the output's
/// directory (with `output` for a missing stem).
pub open spec fn spec_partial_output_path(output_path: Seq<char>, temporary_id: u64, process_id: u32) -> Result<Seq<char>, PartialPathError> {
    match std_parent(output_path) {
        None => Err(PartialPathError::NoParentDirectory),
        Some(directory) => match spec_extension(output_path) {
            None => Err(PartialPathError::NoExtension),
            Some(ext) => {
                let stem = match spec_file_stem(output_path) {
                    Some(stem) => stem,
                    None => "output"@,
                };
                Ok(std_join(directory, "."@ + stem + ".burnsubs-part-"@ + spec_decimal(process_id as nat) + "-"@
                    + spec_decimal(temporary_id as nat) + "."@ + ext))
            },
        },
    }
}

/// The temporary output path of an encoding run.
pub fn create_partial_output_path(output_path: &str, temporary_id: u64, process_id: u32) -> (r: Result<String, PartialPathError>)
    ensures
        match r {
            Ok(p) => spec_partial_output_path(output_path@, temporary_id, process_id) == Ok::<Seq<char>, PartialPathError>(p@),
            Err(e) => spec_partial_output_path(output_path@, temporary_id, process_id) == Err::<Seq<char>, PartialPathError>(e),
        },
{
    let directory = match parent(output_path) {
        Some(d) => d,
        None => return Err(PartialPathError::NoParentDirectory),
    };
    let ext = match extension(output_path) {
        Some(e) => e,
        None => return Err(PartialPathError::NoExtension),
    };
    let mut name = ".".to_owned();
    match file_stem(output_path) {
        Some(stem) => push_str(&mut name, stem.as_str()),
        None => push_str(&mut name, "output"),
    }
    push_str(&mut name, ".burnsubs-part-");
    push_str(&mut name, decimal(process_id as u64).as_str());
    push_str(&mut name, "-");
    push_str(&mut name, decimal(temporary_id).as_str());
    push_str(&mut name, ".");
    push_str(&mut name, ext.as_str());
    Ok(join(directory.as_str(), name.as_str()))
}

/// What one trimmed line of FFmpeg's progress report says.
#[derive(Debug, Clone)]
pub enum ProgressLine {
    /// `progress=end`: the encoding is complete.
    End,
    /// `out_time_us` or `out_time_ms`: elapsed output time in microseconds, as written.
    Microseconds(String),
    /// `out_time`: elapsed output time as hours, minutes and seconds, as written.
    Timestamp(String, String, String),
    /// Anything else.
    Other,
}

pub enum ProgressLineView {
    End,
    Microseconds(Seq<char>),
    Timestamp(Seq<char>, Seq<char>, Seq<char>),
    Other,
}

impl View for ProgressLine {
    type V = ProgressLineView;

    open spec fn view(&self) -> ProgressLineView {
        match self {
            ProgressLine::End => ProgressLineView::End,
            ProgressLine::Microseconds(v) => ProgressLineView::Microseconds(v@),
            ProgressLine::Timestamp(h, m, s) => ProgressLineView::Timestamp(h@, m@, s@),
            ProgressLine::Other => ProgressLineView::Other,
        }
    }
}

/// A timestamp value split at its colons, where it has exactly three sections.
pub open spec fn spec_timestamp_sections(value: Seq<char>) -> Option<(Seq<char>, Seq<char>, Seq<char>)> {
    let i = index_of(value, ':');
    if i < 0 {
        None
    } else {
        let rest = value.skip(i + 1);
        let j = index_of(rest, ':');
        if j < 0 {
            None
        } else {
            let last = rest.skip(j + 1);
            if index_of(last, ':') >= 0 {
                None
            } else {
                Some((value.take(i), rest.take(j), last))
            }
        }
    }
}

/// A line is read after trimming white space: `progress=end` ends the report;
/// otherwise the part before the first `=` is the key and the rest its value.
pub open spec fn spec_classify_progress_line(line: Seq<char>) -> ProgressLineView {
    let t = spec_trim(line);
    if t == "progress=end"@ {
        ProgressLineView::End
    } else {
        let i = index_of(t, '=');
        if i < 0 {
            ProgressLineView::Other
        } else {
            let key = t.take(i);
            let value = t.skip(i + 1);
            if key == "out_time_us"@ || key == "out_time_ms"@ {
                ProgressLineView::Microseconds(value)
            } else if key == "out_time"@ {
                match spec_timestamp_sections(value) {
                    Some((h, m, s)) => ProgressLineView::Timestamp(h, m, s),
                    None => ProgressLineView::Other,
                }
            } else {
                ProgressLineView::Other
            }
        }
    }
}

/// Position of the first `c` in `v`, if any.
fn find_char(v: &Vec<char>, c: char) -> (r: Option<usize>)
    ensures
        index_of(v@, c) == match r {
            Some(i) => i as int,
            None => -1,
        },
        r matches Some(i) ==> i < v.len(),
{
    let mut k: usize = 0;
    while k < v.len() && v[k] != c
        invariant
            k <= v.len(),
            forall|j: int| 0 <= j < k ==> #[trigger] v@[j] != c,
        decreases v.len() - k,
    {
        k = k + 1;
    }
    proof {
        crate::text::lemma_index_of(v@, c, k as int);
    }
    if k < v.len() {
        Some(k)
    } else {
        None
    }
}

fn seq_equals(v: &Vec<char>, text: &str) -> (r: bool)
    ensures
        r == (v@ == text@),
{
    let t = chars_of(text);
    if t.len() != v.len() {
        return false;
    }
    let mut i: usize = 0;
    while i < v.len()
        invariant
            i <= v.len(),
            t.len() == v.len(),
            t@ == text@,
            forall|j: int| 0 <= j < i ==> v@[j] == t@[j],
        decreases v.len() - i,
    {
        if v[i] != t[i] {
            return false;
        }
        i = i + 1;
    }
    assert(v@ =~= t@);
    true
}

/// Reads one line of FFmpeg's progress report.
pub fn classify_progress_line(line: &str) -> (r: ProgressLine)
    ensures
        r@ == spec_classify_progress_line(line@),
{
    let trimmed = trim(line);
    let t = chars_of(trimmed.as_str());
    if seq_equals(&t, "progress=end") {
        return ProgressLine::End;
    }
    let i = match find_char(&t, '=') {
        Some(i) => i,
        None => return ProgressLine::Other,
    };
    let key = slice_chars(&t, 0, i);
    let value = slice_chars(&t, i + 1, t.len());
    assert(key@ =~= t@.take(i as int));
    assert(value@ =~= t@.skip(i + 1));
    if seq_equals(&key, "out_time_us") || seq_equals(&key, "out_time_ms") {
        return ProgressLine::Microseconds(string_of(&value));
    }
    if !seq_equals(&key, "out_time") {
        return ProgressLine::Other;
    }
    let a = match find_char(&value, ':') {
        Some(a) => a,
        None => return ProgressLine::Other,
    };
    let rest = slice_chars(&value, a + 1, value.len());
    assert(rest@ =~= value@.skip(a + 1));
    let b = match find_char(&rest, ':') {
        Some(b) => b,
        None => return ProgressLine::Other,
    };
    let last = slice_chars(&rest, b + 1, rest.len());
    assert(last@ =~= rest@.skip(b + 1));
    if find_char(&last, ':').is_some() {
        return ProgressLine::Other;
    }
    let hours = slice_chars(&value, 0, a);
    let minutes = slice_chars(&rest, 0, b);
    assert(hours@ =~= value@.take(a as int));
    assert(minutes@ =~= rest@.take(b as int));
    ProgressLine::Timestamp(string_of(&hours), string_of(&minutes), string_of(&last))
}

/// A signed number in decimal, with `-` before a negative one.
pub open spec fn spec_signed_decimal(n: int) -> Seq<char> {
    if n < 0 {
        seq!['-'] + spec_decimal((-n) as nat)
    } else {
        spec_decimal(n as nat)
    }
}

/// A signed number in decimal.
pub fn signed_decimal(n: i32) -> (text: String)
    ensures
        text@ == spec_signed_decimal(n as int),
{
    if n < 0 {
        let magnitude: u64 = (0i64 - (n as i64)) as u64;
        let mut text = String::new();
        push_char(&mut text, '-');
        push_str(&mut text, decimal(magnitude).as_str());
        assert(text@ =~= seq!['-'] + spec_decimal(magnitude as nat));
        text
    } else {
        decimal(n as u64)
    }
}

/// Why a video could not be encoded, as far as the checks made here tell.
#[derive(Debug, Clone)]
pub enum EncodeError {
    FfmpegNotFound { path: String },
    VideoNotFound { path: String },
    SubtitleNotFound { path: String },
    InvalidDuration,
    CurrentDirectoryUnavailable,
    OutputWithoutParent,
    OutputExists { path: String },
    OutputAppeared { path: String },
    Cancelled,
    FfmpegFailed { exit_code: i32, details: String },
}

/// The message shown for an encoding error.
pub open spec fn spec_encode_error_message(e: EncodeError) -> Seq<char> {
    match e {
        EncodeError::FfmpegNotFound { path } => "FFmpeg binary was not found: "@ + path@,
        EncodeError::VideoNotFound { path } => "Video file was not found: "@ + path@,
        EncodeError::SubtitleNotFound { path } => "Subtitle file was not found: "@ + path@,
        EncodeError::InvalidDuration => "Video duration must be greater than zero."@,
        EncodeError::CurrentDirectoryUnavailable => "Could not determine the current directory"@,
        EncodeError::OutputWithoutParent => "The output path does not have a parent directory"@,
        EncodeError::OutputExists { path } => "The output file already exists: "@ + path@,
        EncodeError::OutputAppeared { path } => "The output file appeared while encoding: "@ + path@,
        EncodeError::Cancelled => "Encoding was cancelled."@,
        EncodeError::FfmpegFailed { exit_code, details } => "FFmpeg failed with exit code "@ + spec_signed_decimal(exit_code as int)
            + ".\n"@ + if details@.len() == 0 {
            "FFmpeg returned no error details."@
        } else {
            details@
        },
    }
}

impl EncodeError {
    /// The message shown for the error.
    pub fn message(&self) -> (text: String)
        ensures
            text@ == spec_encode_error_message(*self),
    {
        let mut text = String::new();
        match self {
            EncodeError::FfmpegNotFound { path } => {
                push_str(&mut text, "FFmpeg binary was not found: ");
                push_str(&mut text, path.as_str());
            },
            EncodeError::VideoNotFound { path } => {
                push_str(&mut text, "Video file was not found: ");
                push_str(&mut text, path.as_str());
            },
            EncodeError::SubtitleNotFound { path } => {
                push_str(&mut text, "Subtitle file was not found: ");
                push_str(&mut text, path.as_str());
            },
            EncodeError::InvalidDuration => push_str(&mut text, "Video duration must be greater than zero."),
            EncodeError::CurrentDirectoryUnavailable => push_str(&mut text, "Could not determine the current directory"),
            EncodeError::OutputWithoutParent => push_str(&mut text, "The output path does not have a parent directory"),
            EncodeError::OutputExists { path } => {
                push_str(&mut text, "The output file already exists: ");
                push_str(&mut text, path.as_str());
            },
            EncodeError::OutputAppeared { path } => {
                push_str(&mut text, "The output file appeared while encoding: ");
                push_str(&mut text, path.as_str());
            },
            EncodeError::Cancelled => push_str(&mut text, "Encoding was cancelled."),
            EncodeError::FfmpegFailed { exit_code, details } => {
                push_str(&mut text, "FFmpeg failed with exit code ");
                push_str(&mut text, signed_decimal(*exit_code).as_str());
                push_str(&mut text, ".\n");
                if details.as_str().is_empty() {
                    push_str(&mut text, "FFmpeg returned no error details.");
                } else {
                    push_str(&mut text, details.as_str());
                }
            },
        }
        assert(text@ =~= spec_encode_error_message(*self));
        text
    }
}

/// Checks the inputs of an encoding run: FFmpeg, the video and the subtitle
/// must be regular files, in that order, and the duration must be positive
/// (`duration_is_positive`: finite and greater than zero).
pub fn validate_inputs(
    ffmpeg_path: &str,
    video_path: &str,
    subtitle_path: &str,
    duration_is_positive: bool,
    facts: &FileFacts,
) -> (r: Result<(), EncodeError>)
    ensures
        r is Ok <==> (is_file_in(*facts, ffmpeg_path@) && is_file_in(*facts, video_path@) && is_file_in(*facts, subtitle_path@)
            && duration_is_positive),
        match r {
            Ok(_) => is_file_in(*facts, ffmpeg_path@) && is_file_in(*facts, video_path@) && is_file_in(*facts, subtitle_path@)
                && duration_is_positive,
            Err(e) => e == if !is_file_in(*facts, ffmpeg_path@) {
                EncodeError::FfmpegNotFound { path: e->FfmpegNotFound_path }
            } else if !is_file_in(*facts, video_path@) {
                EncodeError::VideoNotFound { path: e->VideoNotFound_path }
            } else if !is_file_in(*facts, subtitle_path@) {
                EncodeError::SubtitleNotFound { path: e->SubtitleNotFound_path }
            } else {
                EncodeError::InvalidDuration
            },
        },
        r matches Err(EncodeError::FfmpegNotFound { path }) ==> path@ == ffmpeg_path@,
        r matches Err(EncodeError::VideoNotFound { path }) ==> path@ == video_path@,
        r matches Err(EncodeError::SubtitleNotFound { path }) ==> path@ == subtitle_path@,
{
    if !facts.is_file(ffmpeg_path) {
        return Err(EncodeError::FfmpegNotFound { path: ffmpeg_path.to_owned() });
    }
    if !facts.is_file(video_path) {
        return Err(EncodeError::VideoNotFound { path: video_path.to_owned() });
    }
    if !facts.is_file(subtitle_path) {
        return Err(EncodeError::SubtitleNotFound { path: subtitle_path.to_owned() });
    }
    if !duration_is_positive {
        return Err(EncodeError::InvalidDuration);
    }
    Ok(())
}

/// Where an encoding run writes: the output made absolute against the current
/// directory, and the folder it lies in.
pub fn output_location(output_path: &str, current_dir: &Option<String>) -> (r: Result<(String, String), EncodeError>)
    ensures
        r is Ok <==> (spec_make_absolute(output_path@, opt_view(*current_dir)) matches Some(a) && std_parent(a) is Some),
        match r {
            Ok((absolute, directory)) => spec_make_absolute(output_path@, opt_view(*current_dir)) == Some(absolute@)
                && std_parent(absolute@) == Some(directory@),
            Err(EncodeError::CurrentDirectoryUnavailable) => spec_make_absolute(output_path@, opt_view(*current_dir)) is None,
            Err(EncodeError::OutputWithoutParent) => spec_make_absolute(output_path@, opt_view(*current_dir)) matches Some(a)
                && std_parent(a) is None,
            Err(_) => false,
        },
{
    let absolute = match make_absolute(output_path, current_dir) {
        Some(a) => a,
        None => return Err(EncodeError::CurrentDirectoryUnavailable),
    };
    match parent(absolute.as_str()) {
        Some(directory) => Ok((absolute, directory)),
        None => Err(EncodeError::OutputWithoutParent),
    }
}

/// Before encoding: an existing output is an error unless overwriting is allowed.
pub fn check_output_absent(output_path: &str, output_exists: bool, overwrite_existing: bool) -> (r: Result<(), EncodeError>)
    ensures
        r is Ok <==> (!output_exists || overwrite_existing),
        match r {
            Ok(_) => !output_exists || overwrite_existing,
            Err(EncodeError::OutputExists { path }) => output_exists && !overwrite_existing && path@ == output_path@,
            Err(_) => false,
        },
{
    if output_exists && !overwrite_existing {
        return Err(EncodeError::OutputExists { path: output_path.to_owned() });
    }
    Ok(())
}

/// After encoding, before the temporary file is renamed: whether an existing
/// output must be removed first; an output that appeared while encoding is an
/// error unless overwriting is allowed.
pub fn finalize_output(output_path: &str, output_exists: bool, overwrite_existing: bool) -> (r: Result<bool, EncodeError>)
    ensures
        r is Ok <==> (!output_exists || overwrite_existing),
        match r {
            Ok(remove_first) => remove_first == output_exists && (!output_exists || overwrite_existing),
            Err(EncodeError::OutputAppeared { path }) => output_exists && !overwrite_existing && path@ == output_path@,
            Err(_) => false,
        },
{
    if output_exists {
        if !overwrite_existing {
            return Err(EncodeError::OutputAppeared { path: output_path.to_owned() });
        }
        return Ok(true);
    }
    Ok(false)
}

/// The folder an encoding run copies its subtitle into:
/// `<temp>/BurnSubs/subtitle-<process>-<id>`.
pub fn subtitle_working_directory(temp_dir: &str, process_id: u32, temporary_id: u64) -> (dir: String)
    ensures
        dir@ == std_join(std_join(temp_dir@, "BurnSubs"@), "subtitle-"@ + spec_decimal(process_id as nat) + "-"@
            + spec_decimal(temporary_id as nat)),
{
    let base = join(temp_dir, "BurnSubs");
    let mut name = "subtitle-".to_owned();
    push_str(&mut name, decimal(process_id as u64).as_str());
    push_str(&mut name, "-");
    push_str(&mut name, decimal(temporary_id).as_str());
    join(base.as_str(), name.as_str())
}

/// How an FFmpeg run ended: cancelled (whatever FFmpeg reported), failed with
/// its exit code (-1 where it has none) and its trimmed error output, or
/// succeeded.
pub fn run_outcome(was_cancelled: bool, success: bool, exit_code: Option<i32>, error_output: &str) -> (r: Result<(), EncodeError>)
    ensures
        r is Ok <==> (!was_cancelled && success),
        match r {
            Ok(_) => !was_cancelled && success,
            Err(EncodeError::Cancelled) => was_cancelled,
            Err(EncodeError::FfmpegFailed { exit_code: code, details }) => !was_cancelled && !success
                && code == match exit_code {
                    Some(c) => c,
                    None => -1i32,
                } && details@ == spec_trim(error_output@),
            Err(_) => false,
        },
{
    if was_cancelled {
        return Err(EncodeError::Cancelled);
    }
    if !success {
        let code = match exit_code {
            Some(c) => c,
            None => -1,
        };
        return Err(EncodeError::FfmpegFailed { exit_code: code, details: trim(error_output) });
    }
    Ok(())
}

/// A progress line is read the same whatever white space surrounds it, such
/// as the line feed that ends each line FFmpeg writes.
pub proof fn law_progress_line_ignores_surrounding_whitespace(before: Seq<char>, line: Seq<char>, after: Seq<char>)
    requires
        all_whitespace(before),
        all_whitespace(after),
    ensures
        spec_classify_progress_line(before + line + after) == spec_classify_progress_line(line),
{
    law_trim_ignores_surrounding_whitespace(before, line, after);
}

} // verus!
