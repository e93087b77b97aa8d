//! The state behind the main window: what is selected, the output options and
//! the status line, and how each action of the user changes them. Drawing the
//! window, the file dialogs and the file system checks belong to the program
//! that shows it; it hands the results to these functions.

use crate::model::{spec_output_path, AccelerationPreference, AppMode, EncodeSettings, OutputFormat, QualityPreset};
use crate::paths::{
    exists_in, has_extension, is_dir_in, is_file_in, opt_view, parent, paths_equal, spec_file_stem, spec_has_extension,
    std_parent, std_path_eq, std_with_extension, with_extension, file_stem, FileFacts,
};
use crate::text::{eq_ignore_ascii_case, eq_ignore_ascii_case_spec, push_str, strings_view};
use vstd::prelude::*;

verus! {

/// The line shown under the actions: information or an error.
#[derive(Debug, Clone)]
pub enum AppStatus {
    Info(String),
    Error(String),
}

/// The state of the main window.
#[derive(Debug, Clone)]
pub struct BurnSubsApp {
    pub selected_mode: AppMode,
    pub single_video: Option<String>,
    pub single_subtitle: Option<String>,
    pub batch_input_directory: Option<String>,
    pub output_directory: Option<String>,
    pub prefix: String,
    pub postfix: String,
    pub output_format: OutputFormat,
    pub quality: QualityPreset,
    pub overwrite_existing: bool,
    pub status: Option<AppStatus>,
}

/// The folder an optional path lies in.
pub open spec fn parent_of(path: Option<Seq<char>>) -> Option<Seq<char>> {
    match path {
        Some(p) => std_parent(p),
        None => None,
    }
}

/// The folder a path lies in, for a dialog to open in.
pub fn selected_parent(path: &Option<String>) -> (dir: Option<String>)
    ensures
        opt_view(dir) == parent_of(opt_view(*path)),
{
    match path {
        Some(p) => parent(p.as_str()),
        None => None,
    }
}

/// The subtitle file beside a video with the video's name: its extension replaced by `srt`.
pub fn subtitle_beside(video_path: &str) -> (path: String)
    ensures
        path@ == std_with_extension(video_path@, "srt"@),
{
    proof {
        reveal_strlit("srt");
    }
    with_extension(video_path, "srt")
}

/// An `.srt` file (ignoring ASCII case) whose stem equals `stem`, ignoring ASCII case.
pub open spec fn srt_matches(entry: Seq<char>, stem: Seq<char>) -> bool {
    spec_has_extension(entry, "srt"@) && match spec_file_stem(entry) {
        Some(s) => eq_ignore_ascii_case_spec(s, stem),
        None => false,
    }
}

/// The first entry that is a matching subtitle.
pub open spec fn first_matching_srt(entries: Seq<Seq<char>>, stem: Seq<char>) -> Option<Seq<char>>
    decreases entries.len(),
{
    if entries.len() == 0 {
        None
    } else if srt_matches(entries[0], stem) {
        Some(entries[0])
    } else {
        first_matching_srt(entries.drop_first(), stem)
    }
}

/// The subtitle found for a video: the `.srt` beside it with its name where
/// that is a regular file, else the first entry of its folder that is an
/// `.srt` file with its stem, both ignoring ASCII case.
pub open spec fn spec_find_matching_srt(video_path: Seq<char>, facts: FileFacts, entries: Seq<Seq<char>>) -> Option<Seq<char>> {
    let direct = std_with_extension(video_path, "srt"@);
    if is_file_in(facts, direct) {
        Some(direct)
    } else {
        match (std_parent(video_path), spec_file_stem(video_path)) {
            (Some(_), Some(stem)) => first_matching_srt(entries, stem),
            _ => None,
        }
    }
}

/// Finds the subtitle for a video from what is known of the file beside it
/// (see `subtitle_beside`) and the entries of the video's folder in listing
/// order (none where the folder could not be read).
pub fn find_matching_srt(video_path: &str, facts: &FileFacts, directory_entries: &Vec<String>) -> (found: Option<String>)
    ensures
        opt_view(found) == spec_find_matching_srt(video_path@, *facts, strings_view(directory_entries@)),
{
    let direct = subtitle_beside(video_path);
    if facts.is_file(direct.as_str()) {
        return Some(direct);
    }
    if parent(video_path).is_none() {
        return None;
    }
    let video_stem = match file_stem(video_path) {
        Some(stem) => stem,
        None => return None,
    };
    let ghost all = strings_view(directory_entries@);
    let mut i: usize = 0;
    assert(all.skip(0) =~= all);
    assert(spec_find_matching_srt(video_path@, *facts, all) == first_matching_srt(all, video_stem@));
    while i < directory_entries.len()
        invariant
            i <= directory_entries.len(),
            all == strings_view(directory_entries@),
            first_matching_srt(all, video_stem@) == first_matching_srt(all.skip(i as int), video_stem@),
            spec_find_matching_srt(video_path@, *facts, all) == first_matching_srt(all, video_stem@),
        decreases directory_entries.len() - i,
    {
        assert(all.skip(i as int)[0] == directory_entries@[i as int]@);
        assert(all.skip(i as int).drop_first() =~= all.skip(i + 1));
        let entry = directory_entries[i].as_str();
        if has_extension(entry, "srt") {
            match file_stem(entry) {
                Some(stem) => {
                    if eq_ignore_ascii_case(stem.as_str(), video_stem.as_str()) {
                        let found = directory_entries[i].clone();
                        assert(srt_matches(all.skip(i as int)[0], video_stem@));
                        assert(found@ == all.skip(i as int)[0]);
                        return Some(found);
                    }
                },
                None => {},
            }
        }
        i = i + 1;
    }
    None
}

/// The encode settings the window's options describe, with automatic
/// acceleration and no custom FFmpeg folder, which this window does not offer.
pub open spec fn spec_encode_settings(app: BurnSubsApp) -> Option<EncodeSettings> {
    match app.output_directory {
        None => None,
        Some(dir) => Some(
            EncodeSettings {
                prefix: app.prefix,
                postfix: app.postfix,
                output_directory: dir,
                output_format: app.output_format,
                quality: app.quality,
                acceleration: AccelerationPreference::Auto,
                overwrite_existing: app.overwrite_existing,
                custom_ffmpeg_directory: None,
            },
        ),
    }
}

/// The result of checking the configuration: the message shown on success, or the error.
pub open spec fn spec_validate_configuration(app: BurnSubsApp, facts: FileFacts) -> Result<Seq<char>, Seq<char>> {
    match app.output_directory {
        None => Err("Select an output folder."@),
        Some(out) => if !is_dir_in(facts, out@) {
            Err("The selected output folder does not exist."@)
        } else {
            match app.selected_mode {
                AppMode::Single => match (app.single_video, app.single_subtitle) {
                    (None, _) => Err("Select a video file."@),
                    (Some(_), None) => Err("Select an SRT subtitle file."@),
                    (Some(video), Some(subtitle)) => if !is_file_in(facts, video@) {
                        Err("The selected video file no longer exists."@)
                    } else if !is_file_in(facts, subtitle@) {
                        Err("The selected subtitle file no longer exists."@)
                    } else {
                        let output = spec_output_path(spec_encode_settings(app)->0, video@);
                        if std_path_eq(output, video@) {
                            Err("The output path cannot replace the input video directly."@)
                        } else if exists_in(facts, output) && !app.overwrite_existing {
                            Err("The output already exists: "@ + output)
                        } else {
                            Ok("Configuration is valid. Output: "@ + output)
                        }
                    },
                },
                AppMode::Batch => match app.batch_input_directory {
                    None => Err("Select a batch input folder."@),
                    Some(dir) => if !is_dir_in(facts, dir@) {
                        Err("The selected batch input folder no longer exists."@)
                    } else {
                        Ok("Configuration is valid. Batch scanning will be connected next."@)
                    },
                },
            }
        },
    }
}

/// The status a check of the configuration leaves.
pub open spec fn status_of(r: Result<Seq<char>, Seq<char>>, status: Option<AppStatus>) -> bool {
    match (r, status) {
        (Ok(m), Some(AppStatus::Info(s))) => s@ == m,
        (Err(m), Some(AppStatus::Error(s))) => s@ == m,
        _ => false,
    }
}

impl BurnSubsApp {
    /// The window as it opens: single mode, nothing selected, no prefix, the
    /// postfix `_hardsub`, MP4, balanced quality, no overwriting, no status.
    pub fn new() -> (app: Self)
        ensures
            app.selected_mode == AppMode::Single,
            app.single_video is None,
            app.single_subtitle is None,
            app.batch_input_directory is None,
            app.output_directory is None,
            app.prefix@ == Seq::<char>::empty(),
            app.postfix@ == "_hardsub"@,
            app.output_format == OutputFormat::Mp4,
            app.quality == QualityPreset::Balanced,
            !app.overwrite_existing,
            app.status is None,
    {
        BurnSubsApp {
            selected_mode: AppMode::Single,
            single_video: None,
            single_subtitle: None,
            batch_input_directory: None,
            output_directory: None,
            prefix: String::new(),
            postfix: "_hardsub".to_owned(),
            output_format: OutputFormat::Mp4,
            quality: QualityPreset::Balanced,
            overwrite_existing: false,
            status: None,
        }
    }

    /// Whether everything the mode needs is selected, so the configuration can be checked.
    pub fn can_validate(&self) -> (r: bool)
        ensures
            r == match self.selected_mode {
                AppMode::Single => self.single_video is Some && self.single_subtitle is Some && self.output_directory is Some,
                AppMode::Batch => self.batch_input_directory is Some && self.output_directory is Some,
            },
    {
        match self.selected_mode {
            AppMode::Single => self.single_video.is_some() && self.single_subtitle.is_some() && self.output_directory.is_some(),
            AppMode::Batch => self.batch_input_directory.is_some() && self.output_directory.is_some(),
        }
    }

    /// The folder the video dialog opens in.
    pub fn video_dialog_directory(&self) -> (dir: Option<String>)
        ensures
            opt_view(dir) == parent_of(opt_view(self.single_video)),
    {
        selected_parent(&self.single_video)
    }

    /// The folder the subtitle dialog opens in: the video's, else the subtitle's.
    pub fn subtitle_dialog_directory(&self) -> (dir: Option<String>)
        ensures
            opt_view(dir) == match parent_of(opt_view(self.single_video)) {
                Some(d) => Some(d),
                None => parent_of(opt_view(self.single_subtitle)),
            },
    {
        match selected_parent(&self.single_video) {
            Some(d) => Some(d),
            None => selected_parent(&self.single_subtitle),
        }
    }

    /// A video was chosen, with the subtitle found for it (see
    /// `find_matching_srt`). The output folder defaults to the video's folder;
    /// the status reports a found subtitle.
    pub fn on_video_selected(&mut self, video_path: String, matching_subtitle: Option<String>)
        ensures
            final(self).single_video == Some(video_path),
            final(self).single_subtitle == matching_subtitle,
            opt_view(final(self).output_directory) == match old(self).output_directory {
                Some(d) => Some(d@),
                None => std_parent(video_path@),
            },
            match matching_subtitle {
                Some(s) => final(self).status matches Some(AppStatus::Info(m)) && m@ == "Matching subtitle detected: "@ + s@,
                None => final(self).status is None,
            },
            final(self).selected_mode == old(self).selected_mode,
            final(self).batch_input_directory == old(self).batch_input_directory,
            final(self).prefix == old(self).prefix,
            final(self).postfix == old(self).postfix,
            final(self).output_format == old(self).output_format,
            final(self).quality == old(self).quality,
            final(self).overwrite_existing == old(self).overwrite_existing,
    {
        if self.output_directory.is_none() {
            self.output_directory = parent(video_path.as_str());
        }
        self.status = match &matching_subtitle {
            Some(path) => {
                let mut message = "Matching subtitle detected: ".to_owned();
                push_str(&mut message, path.as_str());
                Some(AppStatus::Info(message))
            },
            None => None,
        };
        self.single_subtitle = matching_subtitle;
        self.single_video = Some(video_path);
    }

    /// A subtitle was chosen; the status is cleared.
    pub fn on_subtitle_selected(&mut self, path: String)
        ensures
            *final(self) == (BurnSubsApp { single_subtitle: Some(path), status: None, ..*old(self) }),
    {
        self.single_subtitle = Some(path);
        self.status = None;
    }

    /// A batch folder was chosen; the output folder defaults to it and the status is cleared.
    pub fn on_batch_input_selected(&mut self, path: String)
        ensures
            *final(self) == (BurnSubsApp {
                batch_input_directory: Some(path),
                output_directory: match old(self).output_directory {
                    Some(d) => Some(d),
                    None => Some(path),
                },
                status: None,
                ..*old(self)
            }),
    {
        if self.output_directory.is_none() {
            self.output_directory = Some(path.clone());
        }
        self.batch_input_directory = Some(path);
        self.status = None;
    }

    /// An output folder was chosen; the status is cleared.
    pub fn on_output_directory_selected(&mut self, path: String)
        ensures
            *final(self) == (BurnSubsApp { output_directory: Some(path), status: None, ..*old(self) }),
    {
        self.output_directory = Some(path);
        self.status = None;
    }

    /// The encode settings the options describe, once an output folder is chosen.
    pub fn encode_settings(&self) -> (settings: Option<EncodeSettings>)
        ensures
            settings == spec_encode_settings(*self),
    {
        match &self.output_directory {
            None => None,
            Some(dir) => Some(EncodeSettings {
                prefix: self.prefix.clone(),
                postfix: self.postfix.clone(),
                output_directory: dir.clone(),
                output_format: self.output_format,
                quality: self.quality,
                acceleration: AccelerationPreference::Auto,
                overwrite_existing: self.overwrite_existing,
                custom_ffmpeg_directory: None,
            }),
        }
    }

    /// The output path of the single video, once a video and an output folder are chosen.
    pub fn single_output_path(&self) -> (path: Option<String>)
        ensures
            opt_view(path) == match (self.single_video, spec_encode_settings(*self)) {
                (Some(video), Some(settings)) => Some(spec_output_path(settings, video@)),
                _ => None,
            },
    {
        let video = match &self.single_video {
            Some(v) => v,
            None => return None,
        };
        match self.encode_settings() {
            Some(settings) => Some(settings.create_output_path(video.as_str())),
            None => None,
        }
    }

    /// Checks the configuration against what is known of the selected paths
    /// and of the output path.
    pub fn validate_configuration(&self, facts: &FileFacts) -> (r: Result<String, String>)
        ensures
            match r {
                Ok(m) => spec_validate_configuration(*self, *facts) == Ok::<Seq<char>, Seq<char>>(m@),
                Err(m) => spec_validate_configuration(*self, *facts) == Err::<Seq<char>, Seq<char>>(m@),
            },
    {
        let output_directory = match &self.output_directory {
            Some(d) => d,
            None => return Err("Select an output folder.".to_owned()),
        };
        if !facts.is_dir(output_directory.as_str()) {
            return Err("The selected output folder does not exist.".to_owned());
        }
        match self.selected_mode {
            AppMode::Single => {
                let video = match &self.single_video {
                    Some(v) => v,
                    None => return Err("Select a video file.".to_owned()),
                };
                let subtitle = match &self.single_subtitle {
                    Some(s) => s,
                    None => return Err("Select an SRT subtitle file.".to_owned()),
                };
                if !facts.is_file(video.as_str()) {
                    return Err("The selected video file no longer exists.".to_owned());
                }
                if !facts.is_file(subtitle.as_str()) {
                    return Err("The selected subtitle file no longer exists.".to_owned());
                }
                let output = match self.single_output_path() {
                    Some(o) => o,
                    None => return Err("Could not generate the output filename.".to_owned()),
                };
                if paths_equal(output.as_str(), video.as_str()) {
                    return Err("The output path cannot replace the input video directly.".to_owned());
                }
                if facts.path_exists(output.as_str()) && !self.overwrite_existing {
                    let mut message = "The output already exists: ".to_owned();
                    push_str(&mut message, output.as_str());
                    return Err(message);
                }
                let mut message = "Configuration is valid. Output: ".to_owned();
                push_str(&mut message, output.as_str());
                Ok(message)
            },
            AppMode::Batch => {
                let input = match &self.batch_input_directory {
                    Some(d) => d,
                    None => return Err("Select a batch input folder.".to_owned()),
                };
                if !facts.is_dir(input.as_str()) {
                    return Err("The selected batch input folder no longer exists.".to_owned());
                }
                Ok("Configuration is valid. Batch scanning will be connected next.".to_owned())
            },
        }
    }

    /// Checks the configuration and shows the result in the status line.
    pub fn check_configuration(&mut self, facts: &FileFacts)
        ensures
            status_of(spec_validate_configuration(*old(self), *facts), final(self).status),
            *final(self) == (BurnSubsApp { status: final(self).status, ..*old(self) }),
    {
        let status = match self.validate_configuration(facts) {
            Ok(message) => AppStatus::Info(message),
            Err(message) => AppStatus::Error(message),
        };
        self.status = Some(status);
    }
}

/// A single video passes the check only when its output neither is the video
/// nor exists (unless overwriting is allowed), and the video, the subtitle and
/// the output folder are all there.
pub proof fn law_single_check_protects_outputs(app: BurnSubsApp, facts: FileFacts)
    requires
        app.selected_mode == AppMode::Single,
        spec_validate_configuration(app, facts) is Ok,
    ensures
        ({
            let video = app.single_video->0;
            let output = spec_output_path(spec_encode_settings(app)->0, video@);
            &&& app.single_video is Some && app.single_subtitle is Some && app.output_directory is Some
            &&& is_file_in(facts, video@) && is_file_in(facts, (app.single_subtitle->0)@)
            &&& is_dir_in(facts, (app.output_directory->0)@)
            &&& !std_path_eq(output, video@)
            &&& (exists_in(facts, output) ==> app.overwrite_existing)
        }),
{
}

} // verus!
