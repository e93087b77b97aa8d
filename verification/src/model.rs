//! The values that describe a job and the settings it is encoded with.

use crate::paths::{
    extension_of_name, file_name, file_stem, join, last_index_of, lemma_last_index_of_append, spec_file_stem,
    std_file_name, std_join, stem_of_name,
};
use crate::text::{push_str, same_text};
use vstd::prelude::*;

verus! {

/// Whether the user works on one video or a whole folder.
#[derive(Debug, Clone, Copy, PartialEq, Eq, Structural)]
pub enum AppMode {
    Single,
    Batch,
}

impl Default for AppMode {
    fn default() -> (mode: Self)
        ensures
            mode == AppMode::Single,
    {
        AppMode::Single
    }
}

/// The container written for each output file.
#[derive(Debug, Clone, Copy, PartialEq, Eq, Structural)]
pub enum OutputFormat {
    Mp4,
    Mkv,
}

impl Default for OutputFormat {
    fn default() -> (format: Self)
        ensures
            format == OutputFormat::Mp4,
    {
        OutputFormat::Mp4
    }
}

pub open spec fn spec_format_extension(format: OutputFormat) -> Seq<char> {
    match format {
        OutputFormat::Mp4 => "mp4"@,
        OutputFormat::Mkv => "mkv"@,
    }
}

pub open spec fn spec_format_label(format: OutputFormat) -> Seq<char> {
    match format {
        OutputFormat::Mp4 => "MP4"@,
        OutputFormat::Mkv => "MKV"@,
    }
}

impl OutputFormat {
    pub const ALL: [OutputFormat; 2] = [OutputFormat::Mp4, OutputFormat::Mkv];

    /// File extension of the container, without a dot.
    pub fn extension(self) -> (ext: &'static str)
        ensures
            ext@ == spec_format_extension(self),
    {
        match self {
            OutputFormat::Mp4 => "mp4",
            OutputFormat::Mkv => "mkv",
        }
    }

    /// Name shown for the container.
    pub fn label(self) -> (label: &'static str)
        ensures
            label@ == spec_format_label(self),
    {
        match self {
            OutputFormat::Mp4 => "MP4",
            OutputFormat::Mkv => "MKV",
        }
    }
}

/// How much quality is traded for file size.
#[derive(Debug, Clone, Copy, PartialEq, Eq, Structural)]
pub enum QualityPreset {
    High,
    Balanced,
    SmallerFile,
}

impl Default for QualityPreset {
    fn default() -> (quality: Self)
        ensures
            quality == QualityPreset::Balanced,
    {
        QualityPreset::Balanced
    }
}

pub open spec fn spec_quality_label(quality: QualityPreset) -> Seq<char> {
    match quality {
        QualityPreset::High => "High quality"@,
        QualityPreset::Balanced => "Balanced"@,
        QualityPreset::SmallerFile => "Smaller file"@,
    }
}

impl QualityPreset {
    pub const ALL: [QualityPreset; 3] = [QualityPreset::High, QualityPreset::Balanced, QualityPreset::SmallerFile];

    /// Name shown for the preset.
    pub fn label(self) -> (label: &'static str)
        ensures
            label@ == spec_quality_label(self),
    {
        match self {
            QualityPreset::High => "High quality",
            QualityPreset::Balanced => "Balanced",
            QualityPreset::SmallerFile => "Smaller file",
        }
    }
}

/// The operating system the program runs on, as far as encoder choice depends on it.
#[derive(Debug, Clone, Copy, PartialEq, Eq, Structural)]
pub enum Platform {
    Windows,
    Linux,
    MacOs,
    Other,
}

/// The platform named by an operating system name as `std::env::consts::OS` gives it.
pub open spec fn spec_platform_of(os: Seq<char>) -> Platform {
    if os == "windows"@ {
        Platform::Windows
    } else if os == "linux"@ {
        Platform::Linux
    } else if os == "macos"@ {
        Platform::MacOs
    } else {
        Platform::Other
    }
}

impl Platform {
    /// The platform named by an operating system name as `std::env::consts::OS` gives it.
    pub fn from_os_name(os: &str) -> (platform: Platform)
        ensures
            platform == spec_platform_of(os@),
    {
        if same_text(os, "windows") {
            Platform::Windows
        } else if same_text(os, "linux") {
            Platform::Linux
        } else if same_text(os, "macos") {
            Platform::MacOs
        } else {
            Platform::Other
        }
    }
}

/// Which video encoder the user asks for.
#[derive(Debug, Clone, Copy, PartialEq, Eq, Structural)]
pub enum AccelerationPreference {
    Auto,
    Cpu,
    Nvidia,
    IntelQuickSync,
    Amd,
    Vaapi,
    VideoToolbox,
}

impl Default for AccelerationPreference {
    fn default() -> (preference: Self)
        ensures
            preference == AccelerationPreference::Auto,
    {
        AccelerationPreference::Auto
    }
}

/// The preferences offered on a platform, in display order.
pub open spec fn spec_platform_choices(platform: Platform) -> Seq<AccelerationPreference> {
    match platform {
        Platform::Windows => seq![
            AccelerationPreference::Auto,
            AccelerationPreference::Cpu,
            AccelerationPreference::Nvidia,
            AccelerationPreference::IntelQuickSync,
            AccelerationPreference::Amd,
        ],
        Platform::Linux => seq![
            AccelerationPreference::Auto,
            AccelerationPreference::Cpu,
            AccelerationPreference::Nvidia,
            AccelerationPreference::IntelQuickSync,
            AccelerationPreference::Vaapi,
        ],
        Platform::MacOs => seq![
            AccelerationPreference::Auto,
            AccelerationPreference::Cpu,
            AccelerationPreference::VideoToolbox,
        ],
        Platform::Other => seq![AccelerationPreference::Auto, AccelerationPreference::Cpu],
    }
}

pub open spec fn spec_preference_label(preference: AccelerationPreference) -> Seq<char> {
    match preference {
        AccelerationPreference::Auto => "Automatic (recommended)"@,
        AccelerationPreference::Cpu => "CPU (libx264)"@,
        AccelerationPreference::Nvidia => "NVIDIA NVENC"@,
        AccelerationPreference::IntelQuickSync => "Intel Quick Sync"@,
        AccelerationPreference::Amd => "AMD AMF"@,
        AccelerationPreference::Vaapi => "VA-API (Intel / AMD)"@,
        AccelerationPreference::VideoToolbox => "Apple VideoToolbox"@,
    }
}

pub open spec fn spec_preference_description(preference: AccelerationPreference) -> Seq<char> {
    match preference {
        AccelerationPreference::Auto => "Tests installed GPU encoders and safely falls back to the CPU."@,
        AccelerationPreference::Cpu => "Uses the slower software encoder with the most consistent quality."@,
        AccelerationPreference::Nvidia => "Uses the NVIDIA H.264 hardware encoder when the driver supports it."@,
        AccelerationPreference::IntelQuickSync => "Uses Intel Quick Sync H.264 hardware encoding."@,
        AccelerationPreference::Amd => "Uses AMD Advanced Media Framework on Windows."@,
        AccelerationPreference::Vaapi => "Uses VA-API on Linux for Intel and AMD graphics."@,
        AccelerationPreference::VideoToolbox => "Uses Apple's H.264 hardware encoder on macOS."@,
    }
}

impl AccelerationPreference {
    /// The preferences offered on the given platform.
    pub fn choices_for_current_platform(platform: Platform) -> (choices: Vec<AccelerationPreference>)
        ensures
            choices@ == spec_platform_choices(platform),
    {
        match platform {
            Platform::Windows => vec![
                AccelerationPreference::Auto,
                AccelerationPreference::Cpu,
                AccelerationPreference::Nvidia,
                AccelerationPreference::IntelQuickSync,
                AccelerationPreference::Amd,
            ],
            Platform::Linux => vec![
                AccelerationPreference::Auto,
                AccelerationPreference::Cpu,
                AccelerationPreference::Nvidia,
                AccelerationPreference::IntelQuickSync,
                AccelerationPreference::Vaapi,
            ],
            Platform::MacOs => vec![
                AccelerationPreference::Auto,
                AccelerationPreference::Cpu,
                AccelerationPreference::VideoToolbox,
            ],
            Platform::Other => vec![AccelerationPreference::Auto, AccelerationPreference::Cpu],
        }
    }

    /// Name shown for the preference.
    pub fn label(self) -> (label: &'static str)
        ensures
            label@ == spec_preference_label(self),
    {
        match self {
            AccelerationPreference::Auto => "Automatic (recommended)",
            AccelerationPreference::Cpu => "CPU (libx264)",
            AccelerationPreference::Nvidia => "NVIDIA NVENC",
            AccelerationPreference::IntelQuickSync => "Intel Quick Sync",
            AccelerationPreference::Amd => "AMD AMF",
            AccelerationPreference::Vaapi => "VA-API (Intel / AMD)",
            AccelerationPreference::VideoToolbox => "Apple VideoToolbox",
        }
    }

    /// One sentence that explains the preference.
    pub fn description(self) -> (text: &'static str)
        ensures
            text@ == spec_preference_description(self),
    {
        match self {
            AccelerationPreference::Auto => "Tests installed GPU encoders and safely falls back to the CPU.",
            AccelerationPreference::Cpu => "Uses the slower software encoder with the most consistent quality.",
            AccelerationPreference::Nvidia => "Uses the NVIDIA H.264 hardware encoder when the driver supports it.",
            AccelerationPreference::IntelQuickSync => "Uses Intel Quick Sync H.264 hardware encoding.",
            AccelerationPreference::Amd => "Uses AMD Advanced Media Framework on Windows.",
            AccelerationPreference::Vaapi => "Uses VA-API on Linux for Intel and AMD graphics.",
            AccelerationPreference::VideoToolbox => "Uses Apple's H.264 hardware encoder on macOS.",
        }
    }
}

/// Where a job stands.
#[derive(Debug, Clone, PartialEq, Eq)]
pub enum JobStatus {
    Queued,
    Probing,
    Encoding,
    Completed,
    Failed(String),
    Cancelled,
}

pub open spec fn spec_status_label(status: JobStatus) -> Seq<char> {
    match status {
        JobStatus::Queued => "Queued"@,
        JobStatus::Probing => "Reading video information"@,
        JobStatus::Encoding => "Encoding"@,
        JobStatus::Completed => "Completed"@,
        JobStatus::Failed(_) => "Failed"@,
        JobStatus::Cancelled => "Cancelled"@,
    }
}

/// A status that no further work changes.
pub open spec fn spec_is_terminal(status: JobStatus) -> bool {
    match status {
        JobStatus::Completed | JobStatus::Failed(_) | JobStatus::Cancelled => true,
        _ => false,
    }
}

impl JobStatus {
    /// Name shown for the status.
    pub fn label(&self) -> (label: &'static str)
        ensures
            label@ == spec_status_label(*self),
    {
        match self {
            JobStatus::Queued => "Queued",
            JobStatus::Probing => "Reading video information",
            JobStatus::Encoding => "Encoding",
            JobStatus::Completed => "Completed",
            JobStatus::Failed(_) => "Failed",
            JobStatus::Cancelled => "Cancelled",
        }
    }

    /// Completed, failed and cancelled jobs are finished.
    pub fn is_terminal(&self) -> (terminal: bool)
        ensures
            terminal == spec_is_terminal(*self),
    {
        match self {
            JobStatus::Completed | JobStatus::Failed(_) | JobStatus::Cancelled => true,
            _ => false,
        }
    }
}

/// The file name of a path, or the whole path where it has none.
pub open spec fn spec_file_name_or_path(path: Seq<char>) -> Seq<char> {
    match std_file_name(path) {
        Some(name) => name,
        None => path,
    }
}

/// The file name of a path, or the whole path where it has none.
pub fn file_name_or_path(path: &str) -> (name: String)
    ensures
        name@ == spec_file_name_or_path(path@),
{
    match file_name(path) {
        Some(name) => name,
        None => path.to_owned(),
    }
}

/// One video to encode with its subtitle into an output file. Encoding progress
/// is tracked beside the job by the program that runs it.
#[derive(Debug, Clone)]
pub struct EncodeJob {
    pub id: u64,
    pub video_path: String,
    pub subtitle_path: String,
    pub output_path: String,
    pub status: JobStatus,
    pub encoder_name: Option<String>,
    pub fallback_note: Option<String>,
}

impl EncodeJob {
    /// A queued job.
    pub fn new(id: u64, video_path: String, subtitle_path: String, output_path: String) -> (job: Self)
        ensures
            job.id == id,
            job.video_path == video_path,
            job.subtitle_path == subtitle_path,
            job.output_path == output_path,
            job.status == JobStatus::Queued,
            job.encoder_name is None,
            job.fallback_note is None,
    {
        EncodeJob {
            id,
            video_path,
            subtitle_path,
            output_path,
            status: JobStatus::Queued,
            encoder_name: None,
            fallback_note: None,
        }
    }

    pub fn video_name(&self) -> (name: String)
        ensures
            name@ == spec_file_name_or_path(self.video_path@),
    {
        file_name_or_path(self.video_path.as_str())
    }

    pub fn subtitle_name(&self) -> (name: String)
        ensures
            name@ == spec_file_name_or_path(self.subtitle_path@),
    {
        file_name_or_path(self.subtitle_path.as_str())
    }

    pub fn output_name(&self) -> (name: String)
        ensures
            name@ == spec_file_name_or_path(self.output_path@),
    {
        file_name_or_path(self.output_path.as_str())
    }
}

/// The settings shared by every job of a queue.
#[derive(Debug, Clone)]
pub struct EncodeSettings {
    pub prefix: String,
    pub postfix: String,
    pub output_directory: String,
    pub output_format: OutputFormat,
    pub quality: QualityPreset,
    pub acceleration: AccelerationPreference,
    pub overwrite_existing: bool,
    pub custom_ffmpeg_directory: Option<String>,
}

/// The output file name for a video: prefix, the video's stem (or `video`),
/// postfix, a dot and the container's extension.
pub open spec fn spec_output_name(settings: EncodeSettings, video_path: Seq<char>) -> Seq<char> {
    let stem = match spec_file_stem(video_path) {
        Some(stem) => stem,
        None => "video"@,
    };
    settings.prefix@ + stem + settings.postfix@ + "."@ + spec_format_extension(settings.output_format)
}

/// The output path for a video: the output name inside the output directory.
pub open spec fn spec_output_path(settings: EncodeSettings, video_path: Seq<char>) -> Seq<char> {
    std_join(settings.output_directory@, spec_output_name(settings, video_path))
}

impl EncodeSettings {
    /// The path the encoded copy of `video_path` is written to.
    pub fn create_output_path(&self, video_path: &str) -> (path: String)
        ensures
            path@ == spec_output_path(*self, video_path@),
    {
        let mut name = self.prefix.clone();
        match file_stem(video_path) {
            Some(stem) => push_str(&mut name, stem.as_str()),
            None => push_str(&mut name, "video"),
        }
        push_str(&mut name, self.postfix.as_str());
        push_str(&mut name, ".");
        push_str(&mut name, self.output_format.extension());
        join(self.output_directory.as_str(), name.as_str())
    }
}

/// An output file name carries its container's extension: read as `Path`
/// reads file names, its extension is `mp4` or `mkv` as the format says, and
/// its stem is the prefix, the video's stem and the postfix. This holds where
/// that stem is not empty, as the stem `Path` gives for a named file is not.
pub proof fn law_output_name_has_format_extension(settings: EncodeSettings, video_path: Seq<char>)
    requires
        match spec_file_stem(video_path) {
            Some(stem) => stem.len() > 0,
            None => true,
        },
    ensures
        extension_of_name(spec_output_name(settings, video_path)) == Some(spec_format_extension(settings.output_format)),
        stem_of_name(spec_output_name(settings, video_path)) == settings.prefix@ + match spec_file_stem(video_path) {
            Some(stem) => stem,
            None => "video"@,
        } + settings.postfix@,
{
    reveal_strlit("video");
    reveal_strlit(".");
    reveal_strlit("mp4");
    reveal_strlit("mkv");
    let stem = match spec_file_stem(video_path) {
        Some(stem) => stem,
        None => "video"@,
    };
    let base = settings.prefix@ + stem + settings.postfix@;
    let ext = spec_format_extension(settings.output_format);
    let name = spec_output_name(settings, video_path);
    assert(name =~= base.push('.') + ext);
    assert(base.len() > 0);
    lemma_last_index_of_append(base.push('.'), ext, '.');
    assert(last_index_of(base.push('.'), '.') == base.len());
    assert(!(name =~= seq!['.', '.'])) by {
        if name =~= seq!['.', '.'] {
            assert(name.len() == 2);
        }
    }
    assert(name.skip(base.len() as int + 1) =~= ext);
    assert(name.take(base.len() as int) =~= base);
}

} // verus!
