//! The settings kept between runs: their defaults, where they are stored, and
//! the steps of storing them. Reading, writing and the JSON form are the work
//! of the program that stores them.

use crate::model::{AccelerationPreference, AppMode, OutputFormat, QualityPreset};
use crate::paths::{join, opt_view, parent, std_join, std_parent, std_with_extension, with_extension};
use crate::text::push_str;
use vstd::prelude::*;

verus! {

/// The name of the settings file in the configuration folder.
pub const SETTINGS_FILE_NAME: &'static str = "settings.json";

/// The settings kept between runs.
#[derive(Debug, Clone)]
pub struct AppSettings {
    pub selected_mode: AppMode,
    pub last_video_directory: Option<String>,
    pub last_subtitle_directory: Option<String>,
    pub last_batch_input_directory: Option<String>,
    pub last_output_directory: Option<String>,
    pub prefix: String,
    pub postfix: String,
    pub output_format: OutputFormat,
    pub quality: QualityPreset,
    pub acceleration: AccelerationPreference,
    pub overwrite_existing: bool,
    pub custom_ffmpeg_directory: Option<String>,
}

/// The settings of a first run: single mode, no remembered folders, no
/// prefix, the postfix `_hardsub`, MP4, balanced quality, automatic
/// acceleration, no overwriting and no custom FFmpeg folder.
pub open spec fn is_default_settings(s: AppSettings) -> bool {
    &&& s.selected_mode == AppMode::Single
    &&& s.last_video_directory is None
    &&& s.last_subtitle_directory is None
    &&& s.last_batch_input_directory is None
    &&& s.last_output_directory is None
    &&& s.prefix@ == Seq::<char>::empty()
    &&& s.postfix@ == "_hardsub"@
    &&& s.output_format == OutputFormat::Mp4
    &&& s.quality == QualityPreset::Balanced
    &&& s.acceleration == AccelerationPreference::Auto
    &&& !s.overwrite_existing
    &&& s.custom_ffmpeg_directory is None
}

impl Default for AppSettings {
    fn default() -> (settings: Self)
        ensures
            is_default_settings(settings),
    {
        AppSettings {
            selected_mode: AppMode::Single,
            last_video_directory: None,
            last_subtitle_directory: None,
            last_batch_input_directory: None,
            last_output_directory: None,
            prefix: String::new(),
            postfix: "_hardsub".to_owned(),
            output_format: OutputFormat::Mp4,
            quality: QualityPreset::Balanced,
            acceleration: AccelerationPreference::Auto,
            overwrite_existing: false,
            custom_ffmpeg_directory: None,
        }
    }
}

/// Why settings could not be found, read or stored.
#[derive(Debug, Clone)]
pub enum SettingsError {
    DirectoryUnavailable,
    Unreadable { path: String },
    InvalidJson { path: String },
    NoParentDirectory,
    CreateDirectory { path: String },
    Serialize,
    WriteTemporary { path: String },
    ReplaceExisting { path: String },
    Finalize { path: String },
}

/// A settings error with its path as a character sequence.
pub enum SettingsErrorView {
    DirectoryUnavailable,
    Unreadable(Seq<char>),
    InvalidJson(Seq<char>),
    NoParentDirectory,
    CreateDirectory(Seq<char>),
    Serialize,
    WriteTemporary(Seq<char>),
    ReplaceExisting(Seq<char>),
    Finalize(Seq<char>),
}

impl View for SettingsError {
    type V = SettingsErrorView;

    open spec fn view(&self) -> SettingsErrorView {
        match self {
            SettingsError::DirectoryUnavailable => SettingsErrorView::DirectoryUnavailable,
            SettingsError::Unreadable { path } => SettingsErrorView::Unreadable(path@),
            SettingsError::InvalidJson { path } => SettingsErrorView::InvalidJson(path@),
            SettingsError::NoParentDirectory => SettingsErrorView::NoParentDirectory,
            SettingsError::CreateDirectory { path } => SettingsErrorView::CreateDirectory(path@),
            SettingsError::Serialize => SettingsErrorView::Serialize,
            SettingsError::WriteTemporary { path } => SettingsErrorView::WriteTemporary(path@),
            SettingsError::ReplaceExisting { path } => SettingsErrorView::ReplaceExisting(path@),
            SettingsError::Finalize { path } => SettingsErrorView::Finalize(path@),
        }
    }
}

/// The message shown for a settings error.
pub open spec fn spec_settings_message(e: SettingsErrorView) -> Seq<char> {
    match e {
        SettingsErrorView::DirectoryUnavailable => "Could not determine the application settings directory"@,
        SettingsErrorView::Unreadable(p) => "Could not read settings file: "@ + p,
        SettingsErrorView::InvalidJson(p) => "Settings file contains invalid JSON: "@ + p,
        SettingsErrorView::NoParentDirectory => "Settings path does not have a parent directory"@,
        SettingsErrorView::CreateDirectory(p) => "Could not create settings directory: "@ + p,
        SettingsErrorView::Serialize => "Could not serialize application settings"@,
        SettingsErrorView::WriteTemporary(p) => "Could not write temporary settings file: "@ + p,
        SettingsErrorView::ReplaceExisting(p) => "Could not replace existing settings file: "@ + p,
        SettingsErrorView::Finalize(p) => "Could not finalize settings file: "@ + p,
    }
}

impl SettingsError {
    /// The message shown for the error.
    pub fn message(&self) -> (text: String)
        ensures
            text@ == spec_settings_message(self@),
    {
        let (head, path): (&str, Option<&String>) = match self {
            SettingsError::DirectoryUnavailable => ("Could not determine the application settings directory", None),
            SettingsError::Unreadable { path } => ("Could not read settings file: ", Some(path)),
            SettingsError::InvalidJson { path } => ("Settings file contains invalid JSON: ", Some(path)),
            SettingsError::NoParentDirectory => ("Settings path does not have a parent directory", None),
            SettingsError::CreateDirectory { path } => ("Could not create settings directory: ", Some(path)),
            SettingsError::Serialize => ("Could not serialize application settings", None),
            SettingsError::WriteTemporary { path } => ("Could not write temporary settings file: ", Some(path)),
            SettingsError::ReplaceExisting { path } => ("Could not replace existing settings file: ", Some(path)),
            SettingsError::Finalize { path } => ("Could not finalize settings file: ", Some(path)),
        };
        let mut text = head.to_owned();
        if let Some(p) = path {
            push_str(&mut text, p.as_str());
        }
        assert(text@ =~= spec_settings_message(self@));
        text
    }
}

/// The settings file in the application's configuration folder, where the
/// platform gives one.
pub fn settings_file_path(config_directory: &Option<String>) -> (r: Result<String, SettingsError>)
    ensures
        match r {
            Ok(path) => opt_view(*config_directory) matches Some(d) && path@ == std_join(d, SETTINGS_FILE_NAME@),
            Err(e) => config_directory is None && e@ == SettingsErrorView::DirectoryUnavailable,
        },
{
    match config_directory {
        Some(d) => Ok(join(d.as_str(), SETTINGS_FILE_NAME)),
        None => Err(SettingsError::DirectoryUnavailable),
    }
}

/// How the settings are stored: the folder to create, the temporary file the
/// JSON is written to, and the settings file it then replaces.
#[derive(Debug, Clone)]
pub struct SavePlan {
    pub directory: String,
    pub temporary_path: String,
    pub settings_path: String,
}

impl AppSettings {
    /// The settings from the stored file: the defaults where there is no file,
    /// else what reading and parsing it gave.
    pub fn load(stored: Option<Result<AppSettings, SettingsError>>) -> (r: Result<AppSettings, SettingsError>)
        ensures
            match stored {
                None => r matches Ok(s) && is_default_settings(s),
                Some(read) => r == read,
            },
    {
        match stored {
            None => Ok(AppSettings::default()),
            Some(read) => read,
        }
    }

    /// The loaded settings, or the defaults where loading failed.
    pub fn load_or_default(loaded: Result<AppSettings, SettingsError>) -> (settings: AppSettings)
        ensures
            match loaded {
                Ok(s) => settings == s,
                Err(_) => is_default_settings(settings),
            },
    {
        match loaded {
            Ok(settings) => settings,
            Err(_) => AppSettings::default(),
        }
    }

    /// How these settings are stored at the settings path: written to
    /// `settings.json.tmp` beside it, which then replaces the file. Fails where
    /// the path has no parent folder.
    pub fn save(&self, settings_path: &str) -> (r: Result<SavePlan, SettingsError>)
        ensures
            match r {
                Ok(plan) => std_parent(settings_path@) == Some(plan.directory@)
                    && plan.temporary_path@ == std_with_extension(settings_path@, "json.tmp"@)
                    && plan.settings_path@ == settings_path@,
                Err(e) => std_parent(settings_path@) is None && e@ == SettingsErrorView::NoParentDirectory,
            },
    {
        proof {
            reveal_strlit("json.tmp");
        }
        match parent(settings_path) {
            None => Err(SettingsError::NoParentDirectory),
            Some(directory) => Ok(SavePlan {
                directory,
                temporary_path: with_extension(settings_path, "json.tmp"),
                settings_path: settings_path.to_owned(),
            }),
        }
    }
}

} // verus!
