//! Video encoders, their FFmpeg options, and the choice of one for a queue.

use crate::model::{spec_platform_choices, spec_preference_label, AccelerationPreference, Platform, QualityPreset};
use crate::text::{
    append_args, chars_of, count_leading_token, count_leading_whitespace, from_utf8_lossy, index_of, leading_token,
    leading_whitespace, lemma_index_of, lemma_index_of_bound, push_arg, push_str, skip_chars, slice_chars, spec_trim,
    string_of, strings_view, trim, utf8_lossy,
};
use vstd::prelude::*;

verus! {

/// A synthetic source used to test an encoder. 640x360 is accepted by current
/// NVENC generations; tiny frames such as 64x64 are below its minimum size and
/// would make a healthy encoder look unavailable.
pub const ENCODER_PROBE_SOURCE: &'static str = "color=c=black:s=640x360:r=30:d=1";

/// The H.264 encoders FFmpeg may offer.
#[derive(Debug, Clone, Copy, PartialEq, Eq, Structural)]
pub enum VideoEncoder {
    Software,
    NvidiaNvenc,
    IntelQuickSync,
    AmdAmf,
    Vaapi,
    VideoToolbox,
}

pub open spec fn spec_ffmpeg_name(encoder: VideoEncoder) -> Seq<char> {
    match encoder {
        VideoEncoder::Software => "libx264"@,
        VideoEncoder::NvidiaNvenc => "h264_nvenc"@,
        VideoEncoder::IntelQuickSync => "h264_qsv"@,
        VideoEncoder::AmdAmf => "h264_amf"@,
        VideoEncoder::Vaapi => "h264_vaapi"@,
        VideoEncoder::VideoToolbox => "h264_videotoolbox"@,
    }
}

pub open spec fn spec_encoder_label(encoder: VideoEncoder) -> Seq<char> {
    match encoder {
        VideoEncoder::Software => "CPU (libx264)"@,
        VideoEncoder::NvidiaNvenc => "NVIDIA NVENC"@,
        VideoEncoder::IntelQuickSync => "Intel Quick Sync"@,
        VideoEncoder::AmdAmf => "AMD AMF"@,
        VideoEncoder::Vaapi => "VA-API"@,
        VideoEncoder::VideoToolbox => "Apple VideoToolbox"@,
    }
}

impl VideoEncoder {
    /// The encoder's name in FFmpeg.
    pub fn ffmpeg_name(self) -> (name: &'static str)
        ensures
            name@ == spec_ffmpeg_name(self),
    {
        match self {
            VideoEncoder::Software => "libx264",
            VideoEncoder::NvidiaNvenc => "h264_nvenc",
            VideoEncoder::IntelQuickSync => "h264_qsv",
            VideoEncoder::AmdAmf => "h264_amf",
            VideoEncoder::Vaapi => "h264_vaapi",
            VideoEncoder::VideoToolbox => "h264_videotoolbox",
        }
    }

    /// Name shown for the encoder.
    pub fn label(self) -> (label: &'static str)
        ensures
            label@ == spec_encoder_label(self),
    {
        match self {
            VideoEncoder::Software => "CPU (libx264)",
            VideoEncoder::NvidiaNvenc => "NVIDIA NVENC",
            VideoEncoder::IntelQuickSync => "Intel Quick Sync",
            VideoEncoder::AmdAmf => "AMD AMF",
            VideoEncoder::Vaapi => "VA-API",
            VideoEncoder::VideoToolbox => "Apple VideoToolbox",
        }
    }

    /// Every encoder but the software one runs on a GPU.
    pub fn is_hardware(self) -> (hardware: bool)
        ensures
            hardware == (self != VideoEncoder::Software),
    {
        !matches!(self, VideoEncoder::Software)
    }
}

/// The encoder and, where it is not what was asked for, a note that says why.
#[derive(Debug, Clone)]
pub struct EncoderSelection {
    pub encoder: VideoEncoder,
    pub note: Option<String>,
}

pub open spec fn spec_subtitle_filter(encoder: VideoEncoder) -> Seq<char> {
    match encoder {
        VideoEncoder::IntelQuickSync | VideoEncoder::AmdAmf => "subtitles=filename=subtitle.srt:charenc=UTF-8,format=nv12"@,
        VideoEncoder::Vaapi => "subtitles=filename=subtitle.srt:charenc=UTF-8,format=nv12,hwupload"@,
        _ => "subtitles=filename=subtitle.srt:charenc=UTF-8"@,
    }
}

/// The filter that draws `subtitle.srt` (in the working directory) onto the
/// frames, converted as the encoder needs them.
pub fn subtitle_filter(encoder: VideoEncoder) -> (filter: &'static str)
    ensures
        filter@ == spec_subtitle_filter(encoder),
{
    match encoder {
        VideoEncoder::IntelQuickSync | VideoEncoder::AmdAmf => "subtitles=filename=subtitle.srt:charenc=UTF-8,format=nv12",
        VideoEncoder::Vaapi => "subtitles=filename=subtitle.srt:charenc=UTF-8,format=nv12,hwupload",
        VideoEncoder::Software | VideoEncoder::NvidiaNvenc | VideoEncoder::VideoToolbox => "subtitles=filename=subtitle.srt:charenc=UTF-8",
    }
}

/// Constant rate factor and preset of libx264.
pub open spec fn spec_software_quality(quality: QualityPreset) -> (Seq<char>, Seq<char>) {
    match quality {
        QualityPreset::High => ("18"@, "slow"@),
        QualityPreset::Balanced => ("21"@, "medium"@),
        QualityPreset::SmallerFile => ("24"@, "slow"@),
    }
}

/// Quality value and preset of NVENC, Quick Sync and VA-API.
pub open spec fn spec_hardware_quality(quality: QualityPreset) -> (Seq<char>, Seq<char>) {
    match quality {
        QualityPreset::High => ("18"@, "slow"@),
        QualityPreset::Balanced => ("21"@, "medium"@),
        QualityPreset::SmallerFile => ("25"@, "slow"@),
    }
}

/// Quantizer and quality mode of AMF.
pub open spec fn spec_amd_quality(quality: QualityPreset) -> (Seq<char>, Seq<char>) {
    match quality {
        QualityPreset::High => ("18"@, "quality"@),
        QualityPreset::Balanced => ("21"@, "balanced"@),
        QualityPreset::SmallerFile => ("25"@, "quality"@),
    }
}

/// Quality value of VideoToolbox.
pub open spec fn spec_videotoolbox_quality(quality: QualityPreset) -> Seq<char> {
    match quality {
        QualityPreset::High => "75"@,
        QualityPreset::Balanced => "60"@,
        QualityPreset::SmallerFile => "45"@,
    }
}

fn software_quality(quality: QualityPreset) -> (r: (&'static str, &'static str))
    ensures
        (r.0@, r.1@) == spec_software_quality(quality),
{
    match quality {
        QualityPreset::High => ("18", "slow"),
        QualityPreset::Balanced => ("21", "medium"),
        QualityPreset::SmallerFile => ("24", "slow"),
    }
}

fn hardware_quality(quality: QualityPreset) -> (r: (&'static str, &'static str))
    ensures
        (r.0@, r.1@) == spec_hardware_quality(quality),
{
    match quality {
        QualityPreset::High => ("18", "slow"),
        QualityPreset::Balanced => ("21", "medium"),
        QualityPreset::SmallerFile => ("25", "slow"),
    }
}

fn amd_quality(quality: QualityPreset) -> (r: (&'static str, &'static str))
    ensures
        (r.0@, r.1@) == spec_amd_quality(quality),
{
    match quality {
        QualityPreset::High => ("18", "quality"),
        QualityPreset::Balanced => ("21", "balanced"),
        QualityPreset::SmallerFile => ("25", "quality"),
    }
}

fn videotoolbox_quality(quality: QualityPreset) -> (r: &'static str)
    ensures
        r@ == spec_videotoolbox_quality(quality),
{
    match quality {
        QualityPreset::High => "75",
        QualityPreset::Balanced => "60",
        QualityPreset::SmallerFile => "45",
    }
}

/// The FFmpeg output options that select and tune an encoder.
pub open spec fn spec_video_options(encoder: VideoEncoder, quality: QualityPreset) -> Seq<Seq<char>> {
    let name = spec_ffmpeg_name(encoder);
    match encoder {
        VideoEncoder::Software => {
            let (crf, preset) = spec_software_quality(quality);
            seq!["-c:v"@, name, "-crf"@, crf, "-preset"@, preset, "-pix_fmt"@, "yuv420p"@]
        },
        VideoEncoder::NvidiaNvenc => {
            let (cq, preset) = spec_hardware_quality(quality);
            seq![
                "-c:v"@, name, "-preset"@, preset, "-tune"@, "hq"@, "-rc"@, "vbr"@, "-cq"@, cq,
                "-b:v"@, "0"@, "-pix_fmt"@, "yuv420p"@,
            ]
        },
        VideoEncoder::IntelQuickSync => {
            let (value, preset) = spec_hardware_quality(quality);
            seq!["-c:v"@, name, "-global_quality"@, value, "-preset"@, preset]
        },
        VideoEncoder::AmdAmf => {
            let (qp, mode) = spec_amd_quality(quality);
            seq![
                "-c:v"@, name, "-usage"@, "transcoding"@, "-quality"@, mode, "-rc"@, "cqp"@,
                "-qp_i"@, qp, "-qp_p"@, qp, "-qp_b"@, qp,
            ]
        },
        VideoEncoder::Vaapi => {
            let (qp, _) = spec_hardware_quality(quality);
            seq!["-c:v"@, name, "-rc_mode"@, "CQP"@, "-qp"@, qp]
        },
        VideoEncoder::VideoToolbox => seq![
            "-c:v"@, name, "-q:v"@, spec_videotoolbox_quality(quality), "-pix_fmt"@, "yuv420p"@,
        ],
    }
}

/// Appends the options that select and tune `encoder` at `quality`.
pub fn apply_video_options(arguments: &mut Vec<String>, encoder: VideoEncoder, quality: QualityPreset)
    ensures
        strings_view(final(arguments)@) == strings_view(old(arguments)@) + spec_video_options(encoder, quality),
{
    let ghost start = strings_view(arguments@);
    push_arg(arguments, "-c:v");
    push_arg(arguments, encoder.ffmpeg_name());
    match encoder {
        VideoEncoder::Software => {
            let (crf, preset) = software_quality(quality);
            push_arg(arguments, "-crf");
            push_arg(arguments, crf);
            push_arg(arguments, "-preset");
            push_arg(arguments, preset);
            push_arg(arguments, "-pix_fmt");
            push_arg(arguments, "yuv420p");
        },
        VideoEncoder::NvidiaNvenc => {
            let (cq, preset) = hardware_quality(quality);
            push_arg(arguments, "-preset");
            push_arg(arguments, preset);
            push_arg(arguments, "-tune");
            push_arg(arguments, "hq");
            push_arg(arguments, "-rc");
            push_arg(arguments, "vbr");
            push_arg(arguments, "-cq");
            push_arg(arguments, cq);
            push_arg(arguments, "-b:v");
            push_arg(arguments, "0");
            push_arg(arguments, "-pix_fmt");
            push_arg(arguments, "yuv420p");
        },
        VideoEncoder::IntelQuickSync => {
            let (value, preset) = hardware_quality(quality);
            push_arg(arguments, "-global_quality");
            push_arg(arguments, value);
            push_arg(arguments, "-preset");
            push_arg(arguments, preset);
        },
        VideoEncoder::AmdAmf => {
            let (qp, mode) = amd_quality(quality);
            push_arg(arguments, "-usage");
            push_arg(arguments, "transcoding");
            push_arg(arguments, "-quality");
            push_arg(arguments, mode);
            push_arg(arguments, "-rc");
            push_arg(arguments, "cqp");
            push_arg(arguments, "-qp_i");
            push_arg(arguments, qp);
            push_arg(arguments, "-qp_p");
            push_arg(arguments, qp);
            push_arg(arguments, "-qp_b");
            push_arg(arguments, qp);
        },
        VideoEncoder::Vaapi => {
            let (qp, _) = hardware_quality(quality);
            push_arg(arguments, "-rc_mode");
            push_arg(arguments, "CQP");
            push_arg(arguments, "-qp");
            push_arg(arguments, qp);
        },
        VideoEncoder::VideoToolbox => {
            push_arg(arguments, "-q:v");
            push_arg(arguments, videotoolbox_quality(quality));
            push_arg(arguments, "-pix_fmt");
            push_arg(arguments, "yuv420p");
        },
    }
    assert(strings_view(arguments@) =~= start + spec_video_options(encoder, quality));
}

/// The hardware encoder a preference names, if it names one.
pub open spec fn spec_encoder_for_preference(preference: AccelerationPreference) -> Option<VideoEncoder> {
    match preference {
        AccelerationPreference::Auto | AccelerationPreference::Cpu => None,
        AccelerationPreference::Nvidia => Some(VideoEncoder::NvidiaNvenc),
        AccelerationPreference::IntelQuickSync => Some(VideoEncoder::IntelQuickSync),
        AccelerationPreference::Amd => Some(VideoEncoder::AmdAmf),
        AccelerationPreference::Vaapi => Some(VideoEncoder::Vaapi),
        AccelerationPreference::VideoToolbox => Some(VideoEncoder::VideoToolbox),
    }
}

/// The hardware encoder a preference names, if it names one.
pub fn encoder_for_preference(preference: AccelerationPreference) -> (encoder: Option<VideoEncoder>)
    ensures
        encoder == spec_encoder_for_preference(preference),
{
    match preference {
        AccelerationPreference::Auto | AccelerationPreference::Cpu => None,
        AccelerationPreference::Nvidia => Some(VideoEncoder::NvidiaNvenc),
        AccelerationPreference::IntelQuickSync => Some(VideoEncoder::IntelQuickSync),
        AccelerationPreference::Amd => Some(VideoEncoder::AmdAmf),
        AccelerationPreference::Vaapi => Some(VideoEncoder::Vaapi),
        AccelerationPreference::VideoToolbox => Some(VideoEncoder::VideoToolbox),
    }
}

/// The hardware encoders tried, in order, when the preference is automatic.
pub open spec fn spec_automatic_candidates(platform: Platform) -> Seq<VideoEncoder> {
    match platform {
        Platform::Windows => seq![VideoEncoder::NvidiaNvenc, VideoEncoder::IntelQuickSync, VideoEncoder::AmdAmf],
        Platform::Linux => seq![VideoEncoder::NvidiaNvenc, VideoEncoder::Vaapi, VideoEncoder::IntelQuickSync],
        Platform::MacOs => seq![VideoEncoder::VideoToolbox],
        Platform::Other => seq![],
    }
}

/// The hardware encoders tried, in order, when the preference is automatic.
pub fn automatic_candidates(platform: Platform) -> (candidates: Vec<VideoEncoder>)
    ensures
        candidates@ == spec_automatic_candidates(platform),
{
    match platform {
        Platform::Windows => vec![VideoEncoder::NvidiaNvenc, VideoEncoder::IntelQuickSync, VideoEncoder::AmdAmf],
        Platform::Linux => vec![VideoEncoder::NvidiaNvenc, VideoEncoder::Vaapi, VideoEncoder::IntelQuickSync],
        Platform::MacOs => vec![VideoEncoder::VideoToolbox],
        Platform::Other => Vec::new(),
    }
}

/// The lines of a text: the pieces between line feeds.
pub open spec fn split_lines(s: Seq<char>) -> Seq<Seq<char>>
    decreases s.len(),
{
    let i = index_of(s, '\n');
    if i < 0 {
        seq![s]
    } else {
        proof {
            lemma_index_of_bound(s, '\n');
        }
        seq![s.take(i)] + split_lines(s.skip(i + 1))
    }
}

/// The first white-space separated field of a line, if it has one.
pub open spec fn first_field(s: Seq<char>) -> Option<Seq<char>> {
    let t = s.skip(leading_whitespace(s) as int);
    if t.len() == 0 {
        None
    } else {
        Some(t.take(leading_token(t) as int))
    }
}

/// What follows the first field of a line.
pub open spec fn after_first_field(s: Seq<char>) -> Seq<char> {
    let t = s.skip(leading_whitespace(s) as int);
    t.skip(leading_token(t) as int)
}

/// Bytes of a character in UTF-8.
pub open spec fn utf8_width(c: char) -> nat {
    if (c as u32) < 0x80 {
        1
    } else if (c as u32) < 0x800 {
        2
    } else if (c as u32) < 0x10000 {
        3
    } else {
        4
    }
}

/// Bytes of a character sequence in UTF-8.
pub open spec fn utf8_len(s: Seq<char>) -> nat
    decreases s.len(),
{
    if s.len() == 0 {
        0
    } else {
        utf8_len(s.drop_last()) + utf8_width(s.last())
    }
}

/// The encoder a row of `ffmpeg -encoders` names: its second field, where the
/// first field (the capability flags) is six bytes long and starts with `V`.
pub open spec fn encoder_row_name(line: Seq<char>) -> Option<Seq<char>> {
    match first_field(line) {
        Some(flags) => if utf8_len(flags) == 6 && flags[0] == 'V' {
            first_field(after_first_field(line))
        } else {
            None
        },
        None => None,
    }
}

/// The video encoder names of a sequence of rows, in order.
pub open spec fn encoder_names_of_lines(lines: Seq<Seq<char>>) -> Seq<Seq<char>>
    decreases lines.len(),
{
    if lines.len() == 0 {
        seq![]
    } else {
        let prev = encoder_names_of_lines(lines.drop_last());
        match encoder_row_name(lines.last()) {
            Some(name) => prev.push(name),
            None => prev,
        }
    }
}

/// The names of the video encoders that `ffmpeg -hide_banner -encoders` lists.
#[derive(Debug, Clone)]
pub struct EncoderNameSet {
    names: Vec<String>,
}

impl View for EncoderNameSet {
    type V = Seq<Seq<char>>;

    closed spec fn view(&self) -> Seq<Seq<char>> {
        strings_view(self.names@)
    }
}

impl EncoderNameSet {
    /// Whether FFmpeg lists an encoder of this name.
    pub fn contains(&self, name: &str) -> (r: bool)
        ensures
            r == self@.contains(name@),
    {
        let wanted = name.to_owned();
        let mut i: usize = 0;
        while i < self.names.len()
            invariant
                i <= self.names.len(),
                wanted@ == name@,
                forall|j: int| 0 <= j < i ==> (#[trigger] self.names@[j])@ != name@,
            decreases self.names.len() - i,
        {
            if self.names[i] == wanted {
                assert(self@[i as int] == name@);
                return true;
            }
            i = i + 1;
        }
        assert forall|j: int| 0 <= j < self@.len() implies self@[j] != name@ by {
            assert(self@[j] == self.names@[j]@);
        }
        false
    }
}

fn utf8_len_is_six(v: &Vec<char>) -> (r: bool)
    ensures
        r == (utf8_len(v@) == 6),
{
    let mut total: usize = 0;
    let mut i: usize = 0;
    while i < v.len()
        invariant
            i <= v.len(),
            total == utf8_len(v@.take(i as int)),
            total <= 6,
        decreases v.len() - i,
    {
        let x: u32 = v[i] as u32;
        let w: usize = if x < 0x80 { 1 } else if x < 0x800 { 2 } else if x < 0x10000 { 3 } else { 4 };
        assert(v@.take(i + 1).drop_last() =~= v@.take(i as int));
        if total + w > 6 {
            proof {
                lemma_utf8_len_prefix(v@, i + 1);
            }
            return false;
        }
        total = total + w;
        i = i + 1;
    }
    assert(v@.take(v.len() as int) =~= v@);
    total == 6
}

proof fn lemma_utf8_len_prefix(s: Seq<char>, k: int)
    requires
        0 <= k <= s.len(),
    ensures
        utf8_len(s.take(k)) <= utf8_len(s),
    decreases s.len(),
{
    if k < s.len() {
        assert(s.drop_last().take(k) =~= s.take(k));
        lemma_utf8_len_prefix(s.drop_last(), k);
    } else {
        assert(s.take(k) =~= s);
    }
}

/// The first field of `v[from..]` as positions `(start, end)` in `v`, if any.
fn field_at(v: &Vec<char>, from: usize) -> (r: Option<(usize, usize)>)
    requires
        from <= v.len(),
    ensures
        match r {
            Some((a, b)) => {
                &&& from <= a < b <= v.len()
                &&& first_field(v@.skip(from as int)) == Some(v@.subrange(a as int, b as int))
                &&& after_first_field(v@.skip(from as int)) == v@.skip(b as int)
            },
            None => first_field(v@.skip(from as int)) is None,
        },
{
    let ghost s = v@.skip(from as int);
    let lead = count_leading_whitespace(v, from);
    let a = from + lead;
    assert(s.skip(lead as int) =~= v@.skip(a as int));
    if a == v.len() {
        return None;
    }
    let len = count_leading_token(v, a);
    proof {
        assert(v@.skip(a as int)[0] == v@[a as int]);
        assert(!crate::text::spec_is_whitespace(v@[a as int])) by {
            let t = s;
            if crate::text::spec_is_whitespace(v@[a as int]) {
                assert(lead == leading_whitespace(s));
                lemma_lw_stops(s);
                assert(s[lead as int] == v@[a as int]);
            }
        }
        lemma_token_nonempty(v@.skip(a as int));
    }
    let b = a + len;
    assert(v@.skip(a as int).take(len as int) =~= v@.subrange(a as int, b as int));
    assert(v@.skip(a as int).skip(len as int) =~= v@.skip(b as int));
    Some((a, b))
}

proof fn lemma_lw_stops(s: Seq<char>)
    ensures
        leading_whitespace(s) <= s.len(),
        leading_whitespace(s) < s.len() ==> !crate::text::spec_is_whitespace(s[leading_whitespace(s) as int]),
    decreases s.len(),
{
    if s.len() > 0 && crate::text::spec_is_whitespace(s[0]) {
        lemma_lw_stops(s.drop_first());
    }
}

proof fn lemma_token_nonempty(s: Seq<char>)
    requires
        s.len() > 0,
        !crate::text::spec_is_whitespace(s[0]),
    ensures
        leading_token(s) >= 1,
{
}

/// The video encoder named in one row, if the row is a video encoder row.
fn row_encoder_name(line: &Vec<char>) -> (r: Option<String>)
    ensures
        crate::paths::opt_view(r) == encoder_row_name(line@),
{
    assert(line@.skip(0) =~= line@);
    match field_at(line, 0) {
        None => None,
        Some((a, b)) => {
            let flags = slice_chars(line, a, b);
            if utf8_len_is_six(&flags) && flags[0] == 'V' {
                match field_at(line, b) {
                    None => None,
                    Some((c, d)) => Some(string_of(&slice_chars(line, c, d))),
                }
            } else {
                None
            }
        },
    }
}

/// The names of the video encoders in the output of `ffmpeg -hide_banner -encoders`.
pub fn parse_encoder_names(output: &str) -> (names: EncoderNameSet)
    ensures
        names@ == encoder_names_of_lines(split_lines(output@)),
{
    let v = chars_of(output);
    let mut names: Vec<String> = Vec::new();
    let ghost mut done: Seq<Seq<char>> = seq![];
    let mut p: usize = 0;
    assert(v@.skip(0) =~= v@);
    loop
        invariant_except_break
            p <= v.len(),
            split_lines(v@) == done + split_lines(v@.skip(p as int)),
        invariant
            v@ == output@,
            strings_view(names@) == encoder_names_of_lines(done),
        ensures
            split_lines(v@) == done,
        decreases v.len() - p,
    {
        let ghost s = v@.skip(p as int);
        let mut q: usize = p;
        while q < v.len() && v[q] != '\n'
            invariant
                p <= q <= v.len(),
                forall|j: int| p <= j < q ==> #[trigger] v@[j] != '\n',
            decreases v.len() - q,
        {
            q = q + 1;
        }
        proof {
            assert forall|j: int| 0 <= j < q - p implies #[trigger] s[j] != '\n' by {
                assert(s[j] == v@[p + j]);
            }
            if q < v.len() {
                assert(s[q - p] == v@[q as int]);
            }
            lemma_index_of(s, '\n', q - p);
        }
        let line = slice_chars(&v, p, q);
        assert(line@ =~= s.take(q - p));
        let ghost old_names = names@;
        match row_encoder_name(&line) {
            Some(name) => {
                names.push(name);
            },
            None => {},
        }
        proof {
            let new_done = done.push(line@);
            assert(new_done.drop_last() =~= done);
            assert(strings_view(names@) =~= encoder_names_of_lines(new_done));
            done = new_done;
        }
        if q == v.len() {
            assert(split_lines(s) =~= seq![s]);
            assert(line@ =~= s);
            assert(split_lines(v@) =~= done);
            break;
        }
        assert(s.skip(q - p + 1) =~= v@.skip(q + 1));
        assert(split_lines(v@) =~= done + split_lines(v@.skip(q + 1)));
        p = q + 1;
    }
    EncoderNameSet { names }
}

/// How the runtime test of each encoder went: `Ok` where it passed, the
/// error message where it failed.
pub type ProbeAnswers = spec_fn(VideoEncoder) -> Result<(), Seq<char>>;

/// Why no encoder could be selected.
#[derive(Debug, Clone)]
pub enum SelectionError {
    /// FFmpeg does not include libx264.
    MissingCpuEncoder,
    /// libx264's runtime test failed with this message.
    CpuEncoderUnavailable(String),
    /// The preference names no hardware encoder.
    NotHardware,
}

/// A selection error with its message as a character sequence.
pub enum SelectionErrorView {
    MissingCpuEncoder,
    CpuEncoderUnavailable(Seq<char>),
    NotHardware,
}

impl View for SelectionError {
    type V = SelectionErrorView;

    open spec fn view(&self) -> SelectionErrorView {
        match self {
            SelectionError::MissingCpuEncoder => SelectionErrorView::MissingCpuEncoder,
            SelectionError::CpuEncoderUnavailable(m) => SelectionErrorView::CpuEncoderUnavailable(m@),
            SelectionError::NotHardware => SelectionErrorView::NotHardware,
        }
    }
}

impl SelectionError {
    /// The message shown for the error.
    pub fn message(&self) -> (text: String)
        ensures
            text@ == match self@ {
                SelectionErrorView::MissingCpuEncoder => "This FFmpeg build does not include the required CPU encoder 'libx264'."@,
                SelectionErrorView::CpuEncoderUnavailable(m) => "The required CPU fallback encoder is unavailable: "@ + m,
                SelectionErrorView::NotHardware => "The selected acceleration mode is not a hardware encoder."@,
            },
    {
        match self {
            SelectionError::MissingCpuEncoder => "This FFmpeg build does not include the required CPU encoder 'libx264'.".to_owned(),
            SelectionError::CpuEncoderUnavailable(m) => {
                let mut text = "The required CPU fallback encoder is unavailable: ".to_owned();
                push_str(&mut text, m.as_str());
                text
            },
            SelectionError::NotHardware => "The selected acceleration mode is not a hardware encoder.".to_owned(),
        }
    }
}

/// A selection with its note as a character sequence.
pub type SelectionView = Result<(VideoEncoder, Option<Seq<char>>), SelectionErrorView>;

pub open spec fn selection_view(r: Result<EncoderSelection, SelectionError>) -> SelectionView {
    match r {
        Ok(sel) => Ok((sel.encoder, crate::paths::opt_view(sel.note))),
        Err(e) => Err(e@),
    }
}

/// The note given when the CPU encoder is used in place of the preference.
pub open spec fn spec_fallback_note(preference: AccelerationPreference) -> Seq<char> {
    if preference == AccelerationPreference::Auto {
        "No compatible GPU encoder passed the runtime test; using CPU encoding."@
    } else {
        spec_preference_label(preference) + " is unavailable on this system; using CPU encoding."@
    }
}

/// The hardware encoders to try for a preference other than CPU: the platform's
/// list for automatic, the named encoder otherwise.
pub open spec fn spec_hardware_candidates(preference: AccelerationPreference, platform: Platform) -> Option<Seq<VideoEncoder>> {
    if preference == AccelerationPreference::Auto {
        Some(spec_automatic_candidates(platform))
    } else {
        match spec_encoder_for_preference(preference) {
            Some(e) => Some(seq![e]),
            None => None,
        }
    }
}

/// The first candidate from position `i` on that FFmpeg includes and whose test
/// passes, or the CPU encoder with the fallback note.
pub open spec fn spec_hardware_outcome(
    candidates: Seq<VideoEncoder>,
    compiled: Seq<Seq<char>>,
    i: int,
    answers: ProbeAnswers,
    note: Seq<char>,
) -> SelectionView
    decreases candidates.len() - i,
{
    if i < 0 || i >= candidates.len() {
        Ok((VideoEncoder::Software, Some(note)))
    } else if compiled.contains(spec_ffmpeg_name(candidates[i])) && answers(candidates[i]) is Ok {
        Ok((candidates[i], None))
    } else {
        spec_hardware_outcome(candidates, compiled, i + 1, answers, note)
    }
}

/// The encoder chosen for a queue. libx264 must be included and pass its test;
/// the CPU preference then takes it. Otherwise the first hardware candidate that
/// is included and passes its test is taken, and where none does, libx264 with a
/// note.
pub open spec fn spec_select_encoder(
    compiled: Seq<Seq<char>>,
    preference: AccelerationPreference,
    platform: Platform,
    answers: ProbeAnswers,
) -> SelectionView {
    if !compiled.contains(spec_ffmpeg_name(VideoEncoder::Software)) {
        Err(SelectionErrorView::MissingCpuEncoder)
    } else {
        match answers(VideoEncoder::Software) {
            Err(m) => Err(SelectionErrorView::CpuEncoderUnavailable(m)),
            Ok(_) => if preference == AccelerationPreference::Cpu {
                Ok((VideoEncoder::Software, None))
            } else {
                match spec_hardware_candidates(preference, platform) {
                    None => Err(SelectionErrorView::NotHardware),
                    Some(c) => spec_hardware_outcome(c, compiled, 0, answers, spec_fallback_note(preference)),
                }
            },
        }
    }
}

/// What the search asks for next, or its result.
#[derive(Debug)]
pub enum SelectionStep {
    /// Run the runtime test of this encoder and report how it went.
    Probe(VideoEncoder),
    Finished(Result<EncoderSelection, SelectionError>),
}

#[derive(Debug, Clone, Copy)]
enum SearchPhase {
    AwaitingCpuProbe,
    AwaitingHardwareProbe(usize),
    Done,
}

/// The state of an encoder selection between runtime tests.
#[derive(Debug)]
pub struct EncoderSearch {
    compiled: EncoderNameSet,
    preference: AccelerationPreference,
    platform: Platform,
    candidates: Vec<VideoEncoder>,
    phase: SearchPhase,
}

impl EncoderSearch {
    /// The encoder whose test result the search waits for, if any.
    pub closed spec fn pending_probe(self) -> Option<VideoEncoder> {
        match self.phase {
            SearchPhase::AwaitingCpuProbe => Some(VideoEncoder::Software),
            SearchPhase::AwaitingHardwareProbe(i) => Some(self.candidates@[i as int]),
            SearchPhase::Done => None,
        }
    }

    /// The result the search reaches if every test it asks for goes as `answers` says.
    pub closed spec fn outcome(self, answers: ProbeAnswers) -> SelectionView {
        match self.phase {
            SearchPhase::AwaitingCpuProbe => spec_select_encoder(self.compiled@, self.preference, self.platform, answers),
            SearchPhase::AwaitingHardwareProbe(i) => spec_hardware_outcome(
                self.candidates@,
                self.compiled@,
                i as int,
                answers,
                spec_fallback_note(self.preference),
            ),
            SearchPhase::Done => Ok((VideoEncoder::Software, None)),
        }
    }

    /// How many runtime tests the search may still ask for at most. Each
    /// request lowers it, so the search finishes after at most
    /// `probe_budget` tests.
    pub closed spec fn remaining(self) -> nat {
        match self.phase {
            SearchPhase::AwaitingCpuProbe => probe_budget(self.preference, self.platform),
            SearchPhase::AwaitingHardwareProbe(i) => (self.candidates.len() - i) as nat,
            SearchPhase::Done => 0,
        }
    }

    #[verifier::type_invariant]
    closed spec fn wf(self) -> bool {
        match self.phase {
            SearchPhase::AwaitingCpuProbe => self.compiled@.contains(spec_ffmpeg_name(VideoEncoder::Software)),
            SearchPhase::AwaitingHardwareProbe(i) => i < self.candidates.len()
                && self.compiled@.contains(spec_ffmpeg_name(self.candidates@[i as int])),
            SearchPhase::Done => true,
        }
    }
}

/// The most runtime tests a search asks for: libx264's, then one per hardware
/// candidate of the preference.
pub open spec fn probe_budget(preference: AccelerationPreference, platform: Platform) -> nat {
    1 + match spec_hardware_candidates(preference, platform) {
        Some(c) => c.len(),
        None => 0,
    }
}

/// `step` is the search's request for `pending`, or its result, and agrees with `expected`.
pub open spec fn step_agrees(search: EncoderSearch, step: SelectionStep, answers: ProbeAnswers, expected: SelectionView) -> bool {
    match step {
        SelectionStep::Probe(e) => search.pending_probe() == Some(e) && search.outcome(answers) == expected,
        SelectionStep::Finished(r) => search.pending_probe() is None && selection_view(r) == expected,
    }
}

fn fallback_note(preference: AccelerationPreference) -> (note: String)
    ensures
        note@ == spec_fallback_note(preference),
{
    if preference == AccelerationPreference::Auto {
        "No compatible GPU encoder passed the runtime test; using CPU encoding.".to_owned()
    } else {
        let mut note = preference.label().to_owned();
        push_str(&mut note, " is unavailable on this system; using CPU encoding.");
        note
    }
}

impl EncoderSearch {
    /// The encoder whose test result the search waits for, if any.
    pub fn pending(&self) -> (encoder: Option<VideoEncoder>)
        ensures
            encoder == self.pending_probe(),
    {
        proof {
            use_type_invariant(self);
        }
        match self.phase {
            SearchPhase::AwaitingCpuProbe => Some(VideoEncoder::Software),
            SearchPhase::AwaitingHardwareProbe(i) => Some(self.candidates[i]),
            SearchPhase::Done => None,
        }
    }

    /// Moves to the first included candidate from `from` on, or finishes with libx264.
    fn advance(&mut self, from: usize) -> (step: SelectionStep)
        requires
            from <= old(self).candidates.len(),
        ensures
            final(self).compiled == old(self).compiled,
            final(self).preference == old(self).preference,
            final(self).platform == old(self).platform,
            final(self).candidates == old(self).candidates,
            step is Probe ==> final(self).remaining() <= old(self).candidates.len() - from,
            step is Finished ==> final(self).remaining() == 0,
            forall|answers: ProbeAnswers| step_agrees(*final(self), step, answers, #[trigger] spec_hardware_outcome(
                old(self).candidates@, old(self).compiled@, from as int, answers, spec_fallback_note(old(self).preference))),
    {
        let mut i: usize = from;
        while i < self.candidates.len() && !self.compiled.contains(self.candidates[i].ffmpeg_name())
            invariant
                from <= i <= self.candidates.len(),
                forall|answers: ProbeAnswers| #[trigger] spec_hardware_outcome(self.candidates@, self.compiled@, from as int, answers, spec_fallback_note(self.preference))
                    == spec_hardware_outcome(self.candidates@, self.compiled@, i as int, answers, spec_fallback_note(self.preference)),
            decreases self.candidates.len() - i,
        {
            i = i + 1;
        }
        if i < self.candidates.len() {
            self.phase = SearchPhase::AwaitingHardwareProbe(i);
            SelectionStep::Probe(self.candidates[i])
        } else {
            self.phase = SearchPhase::Done;
            let note = fallback_note(self.preference);
            SelectionStep::Finished(Ok(EncoderSelection { encoder: VideoEncoder::Software, note: Some(note) }))
        }
    }

    /// Reports how the requested test went and returns the next request or the result.
    pub fn probe_finished(&mut self, outcome: Result<(), String>) -> (step: SelectionStep)
        requires
            old(self).pending_probe() is Some,
        ensures
            step is Probe ==> final(self).remaining() < old(self).remaining(),
            step is Finished ==> final(self).remaining() == 0,
            forall|answers: ProbeAnswers|
                answers(old(self).pending_probe()->0) == match outcome { Ok(_) => Ok::<(), Seq<char>>(()), Err(m) => Err(m@) }
                    ==> step_agrees(*final(self), step, answers, #[trigger] old(self).outcome(answers)),
    {
        proof {
            use_type_invariant(&*self);
        }
        match self.phase {
            SearchPhase::AwaitingCpuProbe => {
                match outcome {
                    Err(m) => {
                        self.phase = SearchPhase::Done;
                        let step = SelectionStep::Finished(Err(SelectionError::CpuEncoderUnavailable(m)));
                        assert(self.pending_probe() is None);
                        assert forall|answers: ProbeAnswers| answers(VideoEncoder::Software) == Err::<(), Seq<char>>(m@)
                            implies step_agrees(*self, step, answers, spec_select_encoder(self.compiled@, self.preference, self.platform, answers)) by {
                        }
                        step
                    },
                    Ok(()) => {
                        if self.preference == AccelerationPreference::Cpu {
                            self.phase = SearchPhase::Done;
                            return SelectionStep::Finished(Ok(EncoderSelection { encoder: VideoEncoder::Software, note: None }));
                        }
                        if self.preference == AccelerationPreference::Auto {
                            self.candidates = automatic_candidates(self.platform);
                        } else {
                            match encoder_for_preference(self.preference) {
                                Some(e) => {
                                    self.candidates = vec![e];
                                    assert(self.candidates@ =~= seq![e]);
                                },
                                None => {
                                    self.phase = SearchPhase::Done;
                                    return SelectionStep::Finished(Err(SelectionError::NotHardware));
                                },
                            }
                        }
                        assert(spec_hardware_candidates(self.preference, self.platform) == Some(self.candidates@));
                        let ghost compiled = self.compiled@;
                        let ghost preference = self.preference;
                        let ghost platform = self.platform;
                        let ghost candidates = self.candidates@;
                        let step = self.advance(0);
                        assert forall|answers: ProbeAnswers| answers(VideoEncoder::Software) == Ok::<(), Seq<char>>(())
                            implies step_agrees(*self, step, answers, spec_select_encoder(compiled, preference, platform, answers)) by {
                            assert(spec_select_encoder(compiled, preference, platform, answers) == spec_hardware_outcome(
                                candidates, compiled, 0, answers, spec_fallback_note(preference)));
                        }
                        step
                    },
                }
            },
            SearchPhase::AwaitingHardwareProbe(i) => {
                match outcome {
                    Ok(()) => {
                        self.phase = SearchPhase::Done;
                        SelectionStep::Finished(Ok(EncoderSelection { encoder: self.candidates[i], note: None }))
                    },
                    Err(m) => {
                        let ghost compiled = self.compiled@;
                        let ghost preference = self.preference;
                        let ghost candidates = self.candidates@;
                        let step = self.advance(i + 1);
                        assert forall|answers: ProbeAnswers| answers(candidates[i as int]) == Err::<(), Seq<char>>(m@)
                            implies step_agrees(*self, step, answers, spec_hardware_outcome(candidates, compiled, i as int, answers, spec_fallback_note(preference))) by {
                            assert(spec_hardware_outcome(candidates, compiled, i as int, answers, spec_fallback_note(preference))
                                == spec_hardware_outcome(candidates, compiled, i + 1, answers, spec_fallback_note(preference)));
                        }
                        step
                    },
                }
            },
            SearchPhase::Done => {
                SelectionStep::Finished(Ok(EncoderSelection { encoder: VideoEncoder::Software, note: None }))
            },
        }
    }
}

/// Starts choosing the encoder for a queue from the encoders FFmpeg includes.
/// The search asks for libx264's runtime test first (or fails at once where
/// FFmpeg lacks it), then for the tests of the hardware candidates in order,
/// one at a time, until one passes.
pub fn select_encoder(compiled: EncoderNameSet, preference: AccelerationPreference, platform: Platform) -> (r: (EncoderSearch, SelectionStep))
    ensures
        r.0.remaining() <= probe_budget(preference, platform),
        r.1 is Finished ==> r.0.remaining() == 0,
        forall|answers: ProbeAnswers| step_agrees(r.0, r.1, answers, #[trigger] spec_select_encoder(compiled@, preference, platform, answers)),
{
    let has_cpu = compiled.contains(VideoEncoder::Software.ffmpeg_name());
    if !has_cpu {
        let search = EncoderSearch { compiled, preference, platform, candidates: Vec::new(), phase: SearchPhase::Done };
        return (search, SelectionStep::Finished(Err(SelectionError::MissingCpuEncoder)));
    }
    let search = EncoderSearch { compiled, preference, platform, candidates: Vec::new(), phase: SearchPhase::AwaitingCpuProbe };
    (search, SelectionStep::Probe(VideoEncoder::Software))
}

/// The extra filter a runtime test applies before the encoder.
pub open spec fn spec_probe_filter(encoder: VideoEncoder) -> Seq<Seq<char>> {
    match encoder {
        VideoEncoder::IntelQuickSync | VideoEncoder::AmdAmf => seq!["-vf"@, "format=nv12"@],
        VideoEncoder::Vaapi => seq!["-vf"@, "format=nv12,hwupload"@],
        _ => seq![],
    }
}

/// The arguments of an encoder's runtime test: one frame of the synthetic
/// source encoded at balanced quality into the null muxer. `device_arguments`
/// select the hardware device, where the encoder needs one.
pub open spec fn spec_encoder_probe_arguments(encoder: VideoEncoder, device_arguments: Seq<Seq<char>>) -> Seq<Seq<char>> {
    seq!["-hide_banner"@, "-loglevel"@, "error"@] + device_arguments + seq![
        "-f"@, "lavfi"@, "-i"@, ENCODER_PROBE_SOURCE@, "-frames:v"@, "1"@, "-an"@,
    ] + spec_probe_filter(encoder) + spec_video_options(encoder, QualityPreset::Balanced) + seq![
        "-f"@, "null"@, "-"@,
    ]
}

/// The FFmpeg arguments of an encoder's runtime test.
pub fn encoder_probe_arguments(encoder: VideoEncoder, device_arguments: &Vec<String>) -> (arguments: Vec<String>)
    ensures
        strings_view(arguments@) == spec_encoder_probe_arguments(encoder, strings_view(device_arguments@)),
{
    let mut arguments: Vec<String> = Vec::new();
    push_arg(&mut arguments, "-hide_banner");
    push_arg(&mut arguments, "-loglevel");
    push_arg(&mut arguments, "error");
    append_args(&mut arguments, device_arguments);
    let ghost after_device = strings_view(arguments@);
    push_arg(&mut arguments, "-f");
    push_arg(&mut arguments, "lavfi");
    push_arg(&mut arguments, "-i");
    push_arg(&mut arguments, ENCODER_PROBE_SOURCE);
    push_arg(&mut arguments, "-frames:v");
    push_arg(&mut arguments, "1");
    push_arg(&mut arguments, "-an");
    let ghost after_source = strings_view(arguments@);
    match encoder {
        VideoEncoder::IntelQuickSync | VideoEncoder::AmdAmf => {
            push_arg(&mut arguments, "-vf");
            push_arg(&mut arguments, "format=nv12");
        },
        VideoEncoder::Vaapi => {
            push_arg(&mut arguments, "-vf");
            push_arg(&mut arguments, "format=nv12,hwupload");
        },
        _ => {},
    }
    assert(strings_view(arguments@) =~= after_source + spec_probe_filter(encoder));
    apply_video_options(&mut arguments, encoder, QualityPreset::Balanced);
    let ghost after_options = strings_view(arguments@);
    push_arg(&mut arguments, "-f");
    push_arg(&mut arguments, "null");
    push_arg(&mut arguments, "-");
    assert(strings_view(arguments@) =~= spec_encoder_probe_arguments(encoder, strings_view(device_arguments@)));
    arguments
}


/// What the hardware search returns: the CPU encoder with the note where no
/// candidate from `i` on is included and passes, and otherwise the first that is.
proof fn lemma_hardware_outcome(
    candidates: Seq<VideoEncoder>,
    compiled: Seq<Seq<char>>,
    i: int,
    answers: ProbeAnswers,
    note: Seq<char>,
)
    requires
        0 <= i,
    ensures
        ({
            let r = spec_hardware_outcome(candidates, compiled, i, answers, note);
            let works = |e: VideoEncoder| compiled.contains(spec_ffmpeg_name(e)) && answers(e) is Ok;
            ||| (r == Ok::<(VideoEncoder, Option<Seq<char>>), SelectionErrorView>((VideoEncoder::Software, Some(note)))
                && forall|j: int| i <= j < candidates.len() ==> !works(#[trigger] candidates[j]))
            ||| exists|k: int| #![trigger candidates[k]]
                i <= k < candidates.len() && works(candidates[k])
                && r == Ok::<(VideoEncoder, Option<Seq<char>>), SelectionErrorView>((candidates[k], None))
                && forall|j: int| i <= j < k ==> !works(#[trigger] candidates[j])
        }),
    decreases candidates.len() - i,
{
    if i < candidates.len() {
        lemma_hardware_outcome(candidates, compiled, i + 1, answers, note);
        let r = spec_hardware_outcome(candidates, compiled, i + 1, answers, note);
        let works = |e: VideoEncoder| compiled.contains(spec_ffmpeg_name(e)) && answers(e) is Ok;
        if !works(candidates[i]) {
            if exists|k: int| #![trigger candidates[k]]
                i + 1 <= k < candidates.len() && works(candidates[k])
                && r == Ok::<(VideoEncoder, Option<Seq<char>>), SelectionErrorView>((candidates[k], None))
                && forall|j: int| i + 1 <= j < k ==> !works(#[trigger] candidates[j]) {
                let k = choose|k: int| #![trigger candidates[k]]
                    i + 1 <= k < candidates.len() && works(candidates[k])
                    && r == Ok::<(VideoEncoder, Option<Seq<char>>), SelectionErrorView>((candidates[k], None))
                    && forall|j: int| i + 1 <= j < k ==> !works(#[trigger] candidates[j]);
                assert forall|j: int| i <= j < k implies !works(#[trigger] candidates[j]) by {
                    if j > i {
                        assert(i + 1 <= j < k);
                    }
                }
            }
        }
    }
}

/// A hardware encoder is chosen only when FFmpeg includes libx264 and its test
/// passes, FFmpeg includes the hardware encoder, its own runtime test passes,
/// and it is one the preference allows on this platform, the first of them
/// that works; it comes without a note.
pub proof fn law_hardware_encoder_is_tested(
    compiled: Seq<Seq<char>>,
    preference: AccelerationPreference,
    platform: Platform,
    answers: ProbeAnswers,
    encoder: VideoEncoder,
    note: Option<Seq<char>>,
)
    requires
        spec_select_encoder(compiled, preference, platform, answers) == Ok::<(VideoEncoder, Option<Seq<char>>), SelectionErrorView>((encoder, note)),
        encoder != VideoEncoder::Software,
    ensures
        compiled.contains(spec_ffmpeg_name(VideoEncoder::Software)),
        answers(VideoEncoder::Software) is Ok,
        compiled.contains(spec_ffmpeg_name(encoder)),
        answers(encoder) is Ok,
        note is None,
        ({
            let candidates = spec_hardware_candidates(preference, platform)->0;
            &&& spec_hardware_candidates(preference, platform) is Some
            &&& exists|k: int| #![trigger candidates[k]]
                0 <= k < candidates.len() && candidates[k] == encoder
                && forall|j: int| 0 <= j < k ==> !(compiled.contains(spec_ffmpeg_name(#[trigger] candidates[j])) && answers(candidates[j]) is Ok)
        }),
{
    let c = spec_hardware_candidates(preference, platform)->0;
    lemma_hardware_outcome(c, compiled, 0, answers, spec_fallback_note(preference));
}

/// Where FFmpeg includes libx264 and its test passes, an encoder is always
/// chosen: where no allowed hardware encoder is included and passes its test,
/// it is libx264, with a note for every preference but the CPU one.
pub proof fn law_cpu_encoder_is_the_fallback(
    compiled: Seq<Seq<char>>,
    preference: AccelerationPreference,
    platform: Platform,
    answers: ProbeAnswers,
)
    requires
        compiled.contains(spec_ffmpeg_name(VideoEncoder::Software)),
        answers(VideoEncoder::Software) is Ok,
    ensures
        spec_select_encoder(compiled, preference, platform, answers) is Ok,
        preference == AccelerationPreference::Cpu ==> spec_select_encoder(compiled, preference, platform, answers)
            == Ok::<(VideoEncoder, Option<Seq<char>>), SelectionErrorView>((VideoEncoder::Software, None)),
        ({
            let candidates = spec_hardware_candidates(preference, platform)->0;
            preference != AccelerationPreference::Cpu
                && (forall|j: int| 0 <= j < candidates.len()
                    ==> !(compiled.contains(spec_ffmpeg_name(#[trigger] candidates[j])) && answers(candidates[j]) is Ok))
                ==> spec_select_encoder(compiled, preference, platform, answers)
                    == Ok::<(VideoEncoder, Option<Seq<char>>), SelectionErrorView>((VideoEncoder::Software, Some(spec_fallback_note(preference))))
        }),
{
    let c = spec_hardware_candidates(preference, platform)->0;
    lemma_hardware_outcome(c, compiled, 0, answers, spec_fallback_note(preference));
}

/// No encoder is chosen where FFmpeg lacks libx264, or where its test fails;
/// the error says which, with the test's message.
pub proof fn law_selection_needs_cpu_encoder(
    compiled: Seq<Seq<char>>,
    preference: AccelerationPreference,
    platform: Platform,
    answers: ProbeAnswers,
)
    ensures
        !compiled.contains(spec_ffmpeg_name(VideoEncoder::Software)) ==> spec_select_encoder(compiled, preference, platform, answers)
            == Err::<(VideoEncoder, Option<Seq<char>>), SelectionErrorView>(SelectionErrorView::MissingCpuEncoder),
        compiled.contains(spec_ffmpeg_name(VideoEncoder::Software)) && answers(VideoEncoder::Software) is Err
            ==> spec_select_encoder(compiled, preference, platform, answers)
            == Err::<(VideoEncoder, Option<Seq<char>>), SelectionErrorView>(SelectionErrorView::CpuEncoderUnavailable(answers(VideoEncoder::Software)->Err_0)),
{
}

/// Characters kept of FFmpeg's error output.
pub const MAX_STDERR_CHARACTERS: usize = 2000;

/// FFmpeg's error output for a message: trimmed; a fixed text where nothing
/// is left; its last 2000 characters after `…` where it is longer.
pub open spec fn spec_concise_details(output: Seq<char>) -> Seq<char> {
    let details = spec_trim(output);
    if details.len() == 0 {
        "FFmpeg returned no error details."@
    } else if details.len() <= MAX_STDERR_CHARACTERS {
        details
    } else {
        seq!['…'] + details.skip(details.len() - MAX_STDERR_CHARACTERS)
    }
}

/// FFmpeg's decoded error output shortened for a message.
pub fn concise_details(output: &str) -> (text: String)
    ensures
        text@ == spec_concise_details(output@),
{
    let details = trim(output);
    let chars = chars_of(details.as_str());
    if chars.len() == 0 {
        return "FFmpeg returned no error details.".to_owned();
    }
    if chars.len() <= MAX_STDERR_CHARACTERS {
        return details;
    }
    let mut text: Vec<char> = vec!['…'];
    let tail = skip_chars(&chars, chars.len() - MAX_STDERR_CHARACTERS);
    let mut i: usize = 0;
    while i < tail.len()
        invariant
            i <= tail.len(),
            text@ == seq!['…'] + tail@.take(i as int),
        decreases tail.len() - i,
    {
        text.push(tail[i]);
        assert(tail@.take(i + 1) =~= tail@.take(i as int).push(tail@[i as int]));
        i = i + 1;
    }
    assert(tail@.take(tail.len() as int) =~= tail@);
    string_of(&text)
}

/// FFmpeg's raw error output, decoded and shortened for a message.
pub fn concise_stderr(stderr: &[u8]) -> (text: String)
    ensures
        text@ == spec_concise_details(utf8_lossy(stderr@)),
{
    let output = from_utf8_lossy(stderr);
    concise_details(output.as_str())
}

/// The error where FFmpeg fails to list its encoders.
pub fn encoder_list_failure(stderr: &[u8]) -> (message: String)
    ensures
        message@ == "FFmpeg could not list its encoders: "@ + spec_concise_details(utf8_lossy(stderr@)),
{
    let mut message = "FFmpeg could not list its encoders: ".to_owned();
    let details = concise_stderr(stderr);
    push_str(&mut message, details.as_str());
    message
}

/// The error where an encoder's runtime test fails.
pub fn runtime_test_failure(encoder: VideoEncoder, stderr: &[u8]) -> (message: String)
    ensures
        message@ == spec_encoder_label(encoder) + " runtime test failed: "@ + spec_concise_details(utf8_lossy(stderr@)),
{
    let mut message = encoder.label().to_owned();
    push_str(&mut message, " runtime test failed: ");
    let details = concise_stderr(stderr);
    push_str(&mut message, details.as_str());
    message
}

/// The filter that draws `subtitle.srt` onto the frames, read as UTF-8.
pub open spec fn burn_in_filter() -> Seq<char> {
    "subtitles=filename=subtitle.srt:charenc=UTF-8"@
}

/// Whatever the encoder, its filter chain first draws the subtitle onto the
/// frames; what follows only converts the frames for the encoder.
pub proof fn law_every_filter_draws_the_subtitle(encoder: VideoEncoder)
    ensures
        spec_subtitle_filter(encoder).len() >= burn_in_filter().len(),
        spec_subtitle_filter(encoder).take(burn_in_filter().len() as int) == burn_in_filter(),
{
    reveal_strlit("subtitles=filename=subtitle.srt:charenc=UTF-8");
    reveal_strlit("subtitles=filename=subtitle.srt:charenc=UTF-8,format=nv12");
    reveal_strlit("subtitles=filename=subtitle.srt:charenc=UTF-8,format=nv12,hwupload");
    assert(spec_subtitle_filter(encoder).take(burn_in_filter().len() as int) =~= burn_in_filter());
}

/// Automatic tries exactly the GPU encoders the platform offers: an encoder is
/// an automatic candidate when, and only when, a preference offered on the
/// platform names it.
pub proof fn law_automatic_tries_offered_encoders(platform: Platform, encoder: VideoEncoder)
    ensures
        spec_automatic_candidates(platform).contains(encoder) <==> exists|p: AccelerationPreference|
            spec_platform_choices(platform).contains(p) && #[trigger] spec_encoder_for_preference(p) == Some(encoder),
{
    let c = spec_automatic_candidates(platform);
    let ch = spec_platform_choices(platform);
    assert forall|p: AccelerationPreference| ch.contains(p) && #[trigger] spec_encoder_for_preference(p) == Some(encoder)
        implies c.contains(encoder) by {
        let k = choose|k: int| 0 <= k < ch.len() && ch[k] == p;
        match platform {
            Platform::Windows => {
                if encoder == VideoEncoder::NvidiaNvenc { assert(c[0] == encoder); }
                else if encoder == VideoEncoder::IntelQuickSync { assert(c[1] == encoder); }
                else { assert(c[2] == encoder); }
            },
            Platform::Linux => {
                if encoder == VideoEncoder::NvidiaNvenc { assert(c[0] == encoder); }
                else if encoder == VideoEncoder::Vaapi { assert(c[1] == encoder); }
                else { assert(c[2] == encoder); }
            },
            Platform::MacOs => { assert(c[0] == encoder); },
            Platform::Other => {},
        }
    }
    if c.contains(encoder) {
        let k = choose|k: int| 0 <= k < c.len() && c[k] == encoder;
        let p = match encoder {
            VideoEncoder::NvidiaNvenc => AccelerationPreference::Nvidia,
            VideoEncoder::IntelQuickSync => AccelerationPreference::IntelQuickSync,
            VideoEncoder::AmdAmf => AccelerationPreference::Amd,
            VideoEncoder::Vaapi => AccelerationPreference::Vaapi,
            VideoEncoder::VideoToolbox => AccelerationPreference::VideoToolbox,
            VideoEncoder::Software => AccelerationPreference::Cpu,
        };
        match platform {
            Platform::Windows => {
                if encoder == VideoEncoder::NvidiaNvenc { assert(ch[2] == p); }
                else if encoder == VideoEncoder::IntelQuickSync { assert(ch[3] == p); }
                else { assert(ch[4] == p); }
            },
            Platform::Linux => {
                if encoder == VideoEncoder::NvidiaNvenc { assert(ch[2] == p); }
                else if encoder == VideoEncoder::Vaapi { assert(ch[4] == p); }
                else { assert(ch[3] == p); }
            },
            Platform::MacOs => { assert(ch[2] == p); },
            Platform::Other => {},
        }
        assert(ch.contains(p) && spec_encoder_for_preference(p) == Some(encoder));
    }
}

/// Under the automatic preference, where libx264 works and some GPU encoder
/// the platform offers is included in FFmpeg and passes its test, a GPU
/// encoder is chosen, with no note, rather than libx264.
pub proof fn law_automatic_selects_a_working_offered_encoder(
    compiled: Seq<Seq<char>>,
    platform: Platform,
    answers: ProbeAnswers,
    preference: AccelerationPreference,
)
    requires
        compiled.contains(spec_ffmpeg_name(VideoEncoder::Software)),
        answers(VideoEncoder::Software) is Ok,
        spec_platform_choices(platform).contains(preference),
        spec_encoder_for_preference(preference) is Some,
        compiled.contains(spec_ffmpeg_name(spec_encoder_for_preference(preference)->0)),
        answers(spec_encoder_for_preference(preference)->0) is Ok,
    ensures
        spec_select_encoder(compiled, AccelerationPreference::Auto, platform, answers) matches Ok((e, note))
            && e != VideoEncoder::Software && note is None,
{
    let h = spec_encoder_for_preference(preference)->0;
    law_automatic_tries_offered_encoders(platform, h);
    let c = spec_automatic_candidates(platform);
    let k = choose|k: int| 0 <= k < c.len() && c[k] == h;
    let note = spec_fallback_note(AccelerationPreference::Auto);
    lemma_hardware_outcome(c, compiled, 0, answers, note);
    assert(!c.contains(VideoEncoder::Software)) by {
        if c.contains(VideoEncoder::Software) {
            law_automatic_tries_offered_encoders(platform, VideoEncoder::Software);
            let p = choose|p: AccelerationPreference| spec_platform_choices(platform).contains(p)
                && #[trigger] spec_encoder_for_preference(p) == Some(VideoEncoder::Software);
        }
    }
    let r = spec_hardware_outcome(c, compiled, 0, answers, note);
    if r == Ok::<(VideoEncoder, Option<Seq<char>>), SelectionErrorView>((VideoEncoder::Software, Some(note))) {
        assert(c[k] == h);
    } else {
        let j = choose|j: int| #![trigger c[j]]
            0 <= j < c.len() && (compiled.contains(spec_ffmpeg_name(c[j])) && answers(c[j]) is Ok)
            && r == Ok::<(VideoEncoder, Option<Seq<char>>), SelectionErrorView>((c[j], None))
            && forall|i: int| 0 <= i < j ==> !(compiled.contains(spec_ffmpeg_name(#[trigger] c[i])) && answers(c[i]) is Ok);
        assert(c.contains(c[j]));
    }
}

} // verus!
