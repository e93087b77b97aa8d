//! Pairing the videos of a folder with their same-name SRT subtitles and
//! planning one encoding job per pair.

use crate::model::{spec_output_path, EncodeJob, EncodeSettings};
use crate::order::{
    key_le, keyed_view, law_sort_orders_and_keeps_elements, lemma_sort_len, lemma_sort_map, sort_by_key, sort_keyed,
};
use crate::paths::{
    exists_in, is_dir_in, FileFacts, has_extension, make_absolute, normalized_stem, opt_view, path_comparison_key, path_sort_key,
    spec_comparison_key, spec_has_extension, spec_make_absolute, spec_normalized_stem,
    spec_sort_key,
};
use crate::text::{chars_of, push_str, strings_view};
use vstd::prelude::*;

verus! {

/// Extensions, compared ignoring ASCII case, of the files treated as videos.
pub const VIDEO_EXTENSIONS: [&'static str; 6] = ["mkv", "mp4", "avi", "mov", "webm", "m4v"];

/// A video of the folder that gets no job.
#[derive(Debug, Clone)]
pub struct SkippedVideo {
    pub video_path: String,
    pub reason: BatchSkipReason,
}

/// Why a video gets no job.
#[derive(Debug, Clone)]
pub enum BatchSkipReason {
    MissingSubtitle,
    AmbiguousSubtitle { candidates: Vec<String> },
    OutputAlreadyExists { output_path: String },
    OutputWouldReplaceInput { output_path: String },
    OutputConflict { output_path: String, videos: Vec<String> },
}

/// A skip reason with its paths as character sequences.
pub enum SkipReasonView {
    MissingSubtitle,
    AmbiguousSubtitle(Seq<Seq<char>>),
    OutputAlreadyExists(Seq<char>),
    OutputWouldReplaceInput(Seq<char>),
    OutputConflict(Seq<char>, Seq<Seq<char>>),
}

impl View for BatchSkipReason {
    type V = SkipReasonView;

    open spec fn view(&self) -> SkipReasonView {
        match self {
            BatchSkipReason::MissingSubtitle => SkipReasonView::MissingSubtitle,
            BatchSkipReason::AmbiguousSubtitle { candidates } => SkipReasonView::AmbiguousSubtitle(
                strings_view(candidates@),
            ),
            BatchSkipReason::OutputAlreadyExists { output_path } => SkipReasonView::OutputAlreadyExists(
                output_path@,
            ),
            BatchSkipReason::OutputWouldReplaceInput { output_path } =>
                SkipReasonView::OutputWouldReplaceInput(output_path@),
            BatchSkipReason::OutputConflict { output_path, videos } => SkipReasonView::OutputConflict(
                output_path@,
                strings_view(videos@),
            ),
        }
    }
}

impl View for SkippedVideo {
    type V = (Seq<char>, SkipReasonView);

    open spec fn view(&self) -> (Seq<char>, SkipReasonView) {
        (self.video_path@, self.reason@)
    }
}

/// The outcome of planning a batch folder.
#[derive(Debug, Clone)]
pub struct BatchScanResult {
    pub jobs: Vec<EncodeJob>,
    pub skipped_videos: Vec<SkippedVideo>,
    pub orphan_subtitles: Vec<String>,
    pub ignored_file_count: usize,
}

/// Why a batch folder could not be scanned or planned.
#[derive(Debug, Clone)]
pub enum BatchScanError {
    /// Nothing exists at the input path.
    InputMissing { path: String },
    /// The input path is not a folder.
    NotADirectory { path: String },
    /// The folder could not be listed.
    Unreadable { path: String },
    /// An entry of the folder could not be read.
    UnreadableEntry { path: String },
    /// A relative path had to be compared as an absolute one, but the current
    /// directory is unknown.
    CurrentDirectoryUnavailable,
}

/// The message shown for a scan error.
pub open spec fn spec_scan_error_message(e: BatchScanError) -> Seq<char> {
    match e {
        BatchScanError::InputMissing { path } => "Batch input directory does not exist: "@ + path@,
        BatchScanError::NotADirectory { path } => "Batch input path is not a directory: "@ + path@,
        BatchScanError::Unreadable { path } => "Could not read batch input directory: "@ + path@,
        BatchScanError::UnreadableEntry { path } => "Could not read an entry inside: "@ + path@,
        BatchScanError::CurrentDirectoryUnavailable => "Could not determine the current directory"@,
    }
}

impl BatchScanError {
    /// The message shown for the error.
    pub fn message(&self) -> (text: String)
        ensures
            text@ == spec_scan_error_message(*self),
    {
        let (head, path): (&str, Option<&String>) = match self {
            BatchScanError::InputMissing { path } => ("Batch input directory does not exist: ", Some(path)),
            BatchScanError::NotADirectory { path } => ("Batch input path is not a directory: ", Some(path)),
            BatchScanError::Unreadable { path } => ("Could not read batch input directory: ", Some(path)),
            BatchScanError::UnreadableEntry { path } => ("Could not read an entry inside: ", Some(path)),
            BatchScanError::CurrentDirectoryUnavailable => ("Could not determine the current directory", None),
        };
        let mut text = head.to_owned();
        if let Some(p) = path {
            push_str(&mut text, p.as_str());
        }
        assert(text@ =~= spec_scan_error_message(*self));
        text
    }
}

/// Checks that the batch input path exists and is a folder.
pub fn validate_input_directory(input_directory: &str, facts: &FileFacts) -> (r: Result<(), BatchScanError>)
    ensures
        r is Ok <==> (exists_in(*facts, input_directory@) && is_dir_in(*facts, input_directory@)),
        match r {
            Ok(_) => exists_in(*facts, input_directory@) && is_dir_in(*facts, input_directory@),
            Err(BatchScanError::InputMissing { path }) => !exists_in(*facts, input_directory@) && path@ == input_directory@,
            Err(BatchScanError::NotADirectory { path }) => exists_in(*facts, input_directory@)
                && !is_dir_in(*facts, input_directory@) && path@ == input_directory@,
            Err(_) => false,
        },
{
    if !facts.path_exists(input_directory) {
        return Err(BatchScanError::InputMissing { path: input_directory.to_owned() });
    }
    if !facts.is_dir(input_directory) {
        return Err(BatchScanError::NotADirectory { path: input_directory.to_owned() });
    }
    Ok(())
}

/// The paths separated by `, `.
pub open spec fn comma_joined(paths: Seq<Seq<char>>) -> Seq<char>
    decreases paths.len(),
{
    if paths.len() == 0 {
        seq![]
    } else if paths.len() == 1 {
        paths[0]
    } else {
        comma_joined(paths.drop_last()) + ", "@ + paths.last()
    }
}

/// The paths separated by `, `.
pub fn join_paths(paths: &Vec<String>) -> (text: String)
    ensures
        text@ == comma_joined(strings_view(paths@)),
{
    let ghost all = strings_view(paths@);
    let mut text = String::new();
    let mut i: usize = 0;
    assert(all.take(0) =~= Seq::<Seq<char>>::empty());
    while i < paths.len()
        invariant
            i <= paths.len(),
            all == strings_view(paths@),
            text@ == comma_joined(all.take(i as int)),
        decreases paths.len() - i,
    {
        assert(all.take(i + 1).drop_last() =~= all.take(i as int));
        assert(all.take(i + 1).last() == paths@[i as int]@);
        if i > 0 {
            push_str(&mut text, ", ");
        }
        push_str(&mut text, paths[i].as_str());
        proof {
            if i == 0 {
                assert(all.take(1)[0] == paths@[0]@);
                assert(text@ =~= comma_joined(all.take(1)));
            } else {
                assert(text@ =~= comma_joined(all.take(i + 1)));
            }
        }
        i = i + 1;
    }
    assert(all.take(paths.len() as int) =~= all);
    text
}

/// The message shown for a skip reason.
pub open spec fn spec_skip_message(reason: SkipReasonView) -> Seq<char> {
    match reason {
        SkipReasonView::MissingSubtitle => "No same-name SRT subtitle was found"@,
        SkipReasonView::AmbiguousSubtitle(candidates) => "Multiple matching SRT files were found: "@ + comma_joined(candidates),
        SkipReasonView::OutputAlreadyExists(output) => "Output already exists: "@ + output,
        SkipReasonView::OutputWouldReplaceInput(output) => "Output would replace the input video: "@ + output,
        SkipReasonView::OutputConflict(output, videos) => "Multiple videos would produce the same output '"@ + output + "': "@
            + comma_joined(videos),
    }
}

impl BatchSkipReason {
    /// The message shown for the reason.
    pub fn message(&self) -> (text: String)
        ensures
            text@ == spec_skip_message(self@),
    {
        let mut text = String::new();
        match self {
            BatchSkipReason::MissingSubtitle => push_str(&mut text, "No same-name SRT subtitle was found"),
            BatchSkipReason::AmbiguousSubtitle { candidates } => {
                push_str(&mut text, "Multiple matching SRT files were found: ");
                let list = join_paths(candidates);
                push_str(&mut text, list.as_str());
            },
            BatchSkipReason::OutputAlreadyExists { output_path } => {
                push_str(&mut text, "Output already exists: ");
                push_str(&mut text, output_path.as_str());
            },
            BatchSkipReason::OutputWouldReplaceInput { output_path } => {
                push_str(&mut text, "Output would replace the input video: ");
                push_str(&mut text, output_path.as_str());
            },
            BatchSkipReason::OutputConflict { output_path, videos } => {
                push_str(&mut text, "Multiple videos would produce the same output '");
                push_str(&mut text, output_path.as_str());
                push_str(&mut text, "': ");
                let list = join_paths(videos);
                push_str(&mut text, list.as_str());
            },
        }
        assert(text@ =~= spec_skip_message(self@));
        text
    }
}

/// A path with one of the supported video extensions.
pub open spec fn spec_is_video(path: Seq<char>) -> bool {
    ||| spec_has_extension(path, "mkv"@)
    ||| spec_has_extension(path, "mp4"@)
    ||| spec_has_extension(path, "avi"@)
    ||| spec_has_extension(path, "mov"@)
    ||| spec_has_extension(path, "webm"@)
    ||| spec_has_extension(path, "m4v"@)
}

/// A path that is no video and has the `srt` extension.
pub open spec fn spec_is_subtitle(path: Seq<char>) -> bool {
    !spec_is_video(path) && spec_has_extension(path, "srt"@)
}

/// A path that is neither video nor subtitle.
pub open spec fn spec_is_ignored(path: Seq<char>) -> bool {
    !spec_is_video(path) && !spec_is_subtitle(path)
}

/// Whether the path has one of the supported video extensions.
pub fn has_supported_video_extension(path: &str) -> (r: bool)
    ensures
        r == spec_is_video(path@),
{
    has_extension(path, "mkv") || has_extension(path, "mp4") || has_extension(path, "avi")
        || has_extension(path, "mov") || has_extension(path, "webm") || has_extension(path, "m4v")
}

/// Paths keyed by their sort key.
pub open spec fn keyed_paths(s: Seq<Seq<char>>) -> Seq<(Seq<char>, Seq<char>)> {
    s.map_values(|p: Seq<char>| (spec_sort_key(p), p))
}

/// Paths in the order of their sort keys; paths with equal keys keep their order.
pub open spec fn spec_sort_paths(s: Seq<Seq<char>>) -> Seq<Seq<char>> {
    sort_by_key(keyed_paths(s)).map_values(|e: (Seq<char>, Seq<char>)| e.1)
}

/// Sorts paths by their sort keys, stably.
pub fn sort_paths(paths: Vec<String>) -> (sorted: Vec<String>)
    ensures
        strings_view(sorted@) == spec_sort_paths(strings_view(paths@)),
        sorted.len() == paths.len(),
{
    let ghost input = paths@;
    let mut keyed: Vec<(Vec<char>, String)> = Vec::new();
    let mut i: usize = 0;
    while i < paths.len()
        invariant
            i <= paths.len(),
            input == paths@,
            keyed.len() == i,
            forall|j: int| 0 <= j < i ==> (#[trigger] keyed@[j]).1 == input[j] && keyed@[j].0@ == spec_sort_key(input[j]@),
        decreases paths.len() - i,
    {
        let path = paths[i].clone();
        let key = chars_of(path_sort_key(path.as_str()).as_str());
        keyed.push((key, path));
        i = i + 1;
    }
    let ghost kv = keyed_view(keyed@);
    let ghost f = |s: String| s@;
    assert(kv.map_values(|e: (Seq<char>, String)| (e.0, f(e.1))) =~= keyed_paths(strings_view(input)));
    let sorted_keyed = sort_keyed(keyed);
    proof {
        lemma_sort_map(kv, f);
    }
    let ghost sk = keyed_view(sorted_keyed@);
    let mut sorted: Vec<String> = Vec::new();
    let mut k: usize = 0;
    while k < sorted_keyed.len()
        invariant
            k <= sorted_keyed.len(),
            sk == keyed_view(sorted_keyed@),
            sorted.len() == k,
            forall|j: int| 0 <= j < k ==> #[trigger] sorted@[j] == sk[j].1,
        decreases sorted_keyed.len() - k,
    {
        sorted.push(sorted_keyed[k].1.clone());
        k = k + 1;
    }
    assert(strings_view(sorted@) =~= spec_sort_paths(strings_view(input))) by {
        assert(sort_by_key(kv).map_values(|e: (Seq<char>, String)| (e.0, f(e.1))) == sort_by_key(
            keyed_paths(strings_view(input)),
        ));
        assert(sk == sort_by_key(kv));
        assert(sort_by_key(kv).map_values(|e: (Seq<char>, String)| (e.0, f(e.1))).len() == sk.len());
    }
    sorted
}

/// Splits the files of a folder into videos, subtitles and the number of others,
/// keeping their order.
pub fn classify_files(files: &Vec<String>) -> (r: (Vec<String>, Vec<String>, usize))
    ensures
        strings_view(r.0@) == strings_view(files@).filter(|p: Seq<char>| spec_is_video(p)),
        strings_view(r.1@) == strings_view(files@).filter(|p: Seq<char>| spec_is_subtitle(p)),
        r.2 == strings_view(files@).filter(|p: Seq<char>| spec_is_ignored(p)).len(),
        r.0.len() + r.1.len() + r.2 == files.len(),
{
    let ghost all = strings_view(files@);
    let mut videos: Vec<String> = Vec::new();
    let mut subtitles: Vec<String> = Vec::new();
    let mut ignored: usize = 0;
    let mut i: usize = 0;
    while i < files.len()
        invariant
            i <= files.len(),
            all == strings_view(files@),
            strings_view(videos@) == all.take(i as int).filter(|p: Seq<char>| spec_is_video(p)),
            strings_view(subtitles@) == all.take(i as int).filter(|p: Seq<char>| spec_is_subtitle(p)),
            ignored == all.take(i as int).filter(|p: Seq<char>| spec_is_ignored(p)).len(),
            videos.len() + subtitles.len() + ignored == i,
        decreases files.len() - i,
    {
        let path = files[i].clone();
        proof {
            reveal(Seq::filter);
            assert(all.take(i + 1).drop_last() =~= all.take(i as int));
            assert(all.take(i + 1).last() == path@);
            all.take(i as int).lemma_filter_len(|p: Seq<char>| spec_is_ignored(p));
        }
        if has_supported_video_extension(path.as_str()) {
            videos.push(path);
            assert(strings_view(videos@) =~= strings_view(videos@).drop_last().push(videos@.last()@));
        } else if has_extension(path.as_str(), "srt") {
            subtitles.push(path);
            assert(strings_view(subtitles@) =~= strings_view(subtitles@).drop_last().push(subtitles@.last()@));
        } else {
            ignored = ignored + 1;
        }
        i = i + 1;
    }
    assert(all.take(files.len() as int) =~= all);
    (videos, subtitles, ignored)
}

/// The normalized stems of paths, in order.
pub fn stems_of(paths: &Vec<String>) -> (stems: Vec<Option<String>>)
    ensures
        stems.len() == paths.len(),
        forall|j: int| 0 <= j < paths.len() ==> opt_view(#[trigger] stems@[j]) == spec_normalized_stem(paths@[j]@),
{
    let mut stems: Vec<Option<String>> = Vec::new();
    let mut i: usize = 0;
    while i < paths.len()
        invariant
            i <= paths.len(),
            stems.len() == i,
            forall|j: int| 0 <= j < i ==> opt_view(#[trigger] stems@[j]) == spec_normalized_stem(paths@[j]@),
        decreases paths.len() - i,
    {
        stems.push(normalized_stem(paths[i].as_str()));
        i = i + 1;
    }
    stems
}

/// Some video among `videos` has the normalized stem `stem`.
pub open spec fn has_video_with_stem(videos: Seq<Seq<char>>, stem: Seq<char>) -> bool {
    exists|j: int| 0 <= j < videos.len() && spec_normalized_stem(#[trigger] videos[j]) == Some(stem)
}

/// A subtitle that no video claims: it has no stem or no video has its stem.
pub open spec fn spec_is_orphan(subtitle: Seq<char>, videos: Seq<Seq<char>>) -> bool {
    match spec_normalized_stem(subtitle) {
        Some(stem) => !has_video_with_stem(videos, stem),
        None => true,
    }
}

fn stem_listed(stems: &Vec<Option<String>>, stem: &String) -> (r: bool)
    ensures
        r == exists|j: int| 0 <= j < stems.len() && opt_view(#[trigger] stems@[j]) == Some(stem@),
{
    let mut i: usize = 0;
    while i < stems.len()
        invariant
            i <= stems.len(),
            forall|j: int| 0 <= j < i ==> opt_view(#[trigger] stems@[j]) != Some(stem@),
        decreases stems.len() - i,
    {
        match &stems[i] {
            Some(s) => {
                if *s == *stem {
                    assert(opt_view(stems@[i as int]) == Some(stem@));
                    return true;
                }
            },
            None => {},
        }
        i = i + 1;
    }
    false
}

/// The subtitles that no video claims, in order.
fn find_orphans(subtitles: &Vec<String>, videos: &Vec<String>, video_stems: &Vec<Option<String>>) -> (orphans: Vec<String>)
    requires
        video_stems.len() == videos.len(),
        forall|j: int| 0 <= j < videos.len() ==> opt_view(#[trigger] video_stems@[j]) == spec_normalized_stem(videos@[j]@),
    ensures
        strings_view(orphans@) == strings_view(subtitles@).filter(
            |s: Seq<char>| spec_is_orphan(s, strings_view(videos@)),
        ),
{
    let ghost all = strings_view(subtitles@);
    let ghost vs = strings_view(videos@);
    let mut orphans: Vec<String> = Vec::new();
    let mut i: usize = 0;
    while i < subtitles.len()
        invariant
            i <= subtitles.len(),
            all == strings_view(subtitles@),
            vs == strings_view(videos@),
            video_stems.len() == videos.len(),
            forall|j: int| 0 <= j < videos.len() ==> opt_view(#[trigger] video_stems@[j]) == spec_normalized_stem(videos@[j]@),
            strings_view(orphans@) == all.take(i as int).filter(|s: Seq<char>| spec_is_orphan(s, vs)),
        decreases subtitles.len() - i,
    {
        let path = subtitles[i].clone();
        let orphan = match normalized_stem(path.as_str()) {
            None => true,
            Some(stem) => {
                let listed = stem_listed(video_stems, &stem);
                proof {
                    if listed {
                        let j = choose|j: int| 0 <= j < video_stems.len() && opt_view(#[trigger] video_stems@[j]) == Some(stem@);
                        assert(vs[j] == videos@[j]@);
                    } else {
                        assert forall|j: int| 0 <= j < vs.len() implies spec_normalized_stem(#[trigger] vs[j]) != Some(stem@) by {
                            assert(vs[j] == videos@[j]@);
                            assert(opt_view(video_stems@[j]) != Some(stem@));
                        }
                    }
                }
                !listed
            },
        };
        proof {
            reveal(Seq::filter);
            assert(all.take(i + 1).drop_last() =~= all.take(i as int));
            assert(all.take(i + 1).last() == path@);
        }
        if orphan {
            orphans.push(path);
            assert(strings_view(orphans@) =~= strings_view(orphans@).drop_last().push(orphans@.last()@));
        }
        i = i + 1;
    }
    assert(all.take(subtitles.len() as int) =~= all);
    orphans
}

/// The subtitles whose normalized stem is `stem`, in order.
pub open spec fn matching_subtitles(subtitles: Seq<Seq<char>>, stem: Seq<char>) -> Seq<Seq<char>> {
    subtitles.filter(|s: Seq<char>| spec_normalized_stem(s) == Some(stem))
}

/// What becomes of one video before outputs are compared.
pub enum VideoDecision {
    MissingSubtitle,
    AmbiguousSubtitle(Seq<Seq<char>>),
    /// The one matching subtitle and the output path.
    Candidate(Seq<char>, Seq<char>),
}

/// A video without a stem, or without a subtitle of its stem, misses its
/// subtitle; with several it is ambiguous; with exactly one it is a candidate.
pub open spec fn spec_decide(video: Seq<char>, subtitles: Seq<Seq<char>>, settings: EncodeSettings) -> VideoDecision {
    match spec_normalized_stem(video) {
        None => VideoDecision::MissingSubtitle,
        Some(stem) => {
            let m = matching_subtitles(subtitles, stem);
            if m.len() == 0 {
                VideoDecision::MissingSubtitle
            } else if m.len() > 1 {
                VideoDecision::AmbiguousSubtitle(m)
            } else {
                VideoDecision::Candidate(m[0], spec_output_path(settings, video))
            }
        },
    }
}

/// The candidates among the videos, in order: video, subtitle and output path.
pub open spec fn spec_candidates(videos: Seq<Seq<char>>, subtitles: Seq<Seq<char>>, settings: EncodeSettings) -> Seq<(Seq<char>, Seq<char>, Seq<char>)>
    decreases videos.len(),
{
    if videos.len() == 0 {
        seq![]
    } else {
        let prev = spec_candidates(videos.drop_last(), subtitles, settings);
        match spec_decide(videos.last(), subtitles, settings) {
            VideoDecision::Candidate(subtitle, output) => prev.push((videos.last(), subtitle, output)),
            _ => prev,
        }
    }
}

/// The videos skipped for their subtitles, in order, with their reasons.
pub open spec fn spec_early_skips(videos: Seq<Seq<char>>, subtitles: Seq<Seq<char>>, settings: EncodeSettings) -> Seq<(Seq<char>, SkipReasonView)>
    decreases videos.len(),
{
    if videos.len() == 0 {
        seq![]
    } else {
        let prev = spec_early_skips(videos.drop_last(), subtitles, settings);
        match spec_decide(videos.last(), subtitles, settings) {
            VideoDecision::MissingSubtitle => prev.push((videos.last(), SkipReasonView::MissingSubtitle)),
            VideoDecision::AmbiguousSubtitle(m) => prev.push(
                (videos.last(), SkipReasonView::AmbiguousSubtitle(m)),
            ),
            VideoDecision::Candidate(_, _) => prev,
        }
    }
}

/// A video paired with its subtitle and output path, before outputs are compared.
pub struct CandidateJob {
    pub video_path: String,
    pub subtitle_path: String,
    pub output_path: String,
}

impl View for CandidateJob {
    type V = (Seq<char>, Seq<char>, Seq<char>);

    open spec fn view(&self) -> (Seq<char>, Seq<char>, Seq<char>) {
        (self.video_path@, self.subtitle_path@, self.output_path@)
    }
}

/// The subtitles whose stem is `stem`.
fn subtitles_with_stem(subtitles: &Vec<String>, subtitle_stems: &Vec<Option<String>>, stem: &String) -> (m: Vec<String>)
    requires
        subtitle_stems.len() == subtitles.len(),
        forall|j: int| 0 <= j < subtitles.len() ==> opt_view(#[trigger] subtitle_stems@[j]) == spec_normalized_stem(subtitles@[j]@),
    ensures
        strings_view(m@) == matching_subtitles(strings_view(subtitles@), stem@),
{
    let ghost all = strings_view(subtitles@);
    let mut m: Vec<String> = Vec::new();
    let mut i: usize = 0;
    while i < subtitles.len()
        invariant
            i <= subtitles.len(),
            all == strings_view(subtitles@),
            subtitle_stems.len() == subtitles.len(),
            forall|j: int| 0 <= j < subtitles.len() ==> opt_view(#[trigger] subtitle_stems@[j]) == spec_normalized_stem(subtitles@[j]@),
            strings_view(m@) == all.take(i as int).filter(|s: Seq<char>| spec_normalized_stem(s) == Some(stem@)),
        decreases subtitles.len() - i,
    {
        let matches = match &subtitle_stems[i] {
            Some(s) => *s == *stem,
            None => false,
        };
        proof {
            reveal(Seq::filter);
            assert(all.take(i + 1).drop_last() =~= all.take(i as int));
            assert(all.take(i + 1).last() == subtitles@[i as int]@);
        }
        if matches {
            m.push(subtitles[i].clone());
            assert(strings_view(m@) =~= strings_view(m@).drop_last().push(m@.last()@));
        }
        i = i + 1;
    }
    assert(all.take(subtitles.len() as int) =~= all);
    m
}

/// Decides each video: candidates with their one subtitle, skips for the rest.
pub fn decide_videos(videos: &Vec<String>, subtitles: &Vec<String>, settings: &EncodeSettings) -> (r: (Vec<CandidateJob>, Vec<SkippedVideo>))
    ensures
        r.0@.map_values(|c: CandidateJob| c@) == spec_candidates(strings_view(videos@), strings_view(subtitles@), *settings),
        r.1@.map_values(|s: SkippedVideo| s@) == spec_early_skips(strings_view(videos@), strings_view(subtitles@), *settings),
        r.0.len() + r.1.len() == videos.len(),
{
    let ghost vs = strings_view(videos@);
    let ghost ss = strings_view(subtitles@);
    let subtitle_stems = stems_of(subtitles);
    let mut candidates: Vec<CandidateJob> = Vec::new();
    let mut skipped: Vec<SkippedVideo> = Vec::new();
    let mut i: usize = 0;
    while i < videos.len()
        invariant
            i <= videos.len(),
            vs == strings_view(videos@),
            ss == strings_view(subtitles@),
            subtitle_stems.len() == subtitles.len(),
            forall|j: int| 0 <= j < subtitles.len() ==> opt_view(#[trigger] subtitle_stems@[j]) == spec_normalized_stem(subtitles@[j]@),
            candidates@.map_values(|c: CandidateJob| c@) == spec_candidates(vs.take(i as int), ss, *settings),
            skipped@.map_values(|s: SkippedVideo| s@) == spec_early_skips(vs.take(i as int), ss, *settings),
            candidates.len() + skipped.len() == i,
        decreases videos.len() - i,
    {
        let video = videos[i].clone();
        let ghost prefix = vs.take(i + 1);
        assert(prefix.drop_last() =~= vs.take(i as int));
        assert(prefix.last() == video@);
        let ghost old_c = candidates@;
        let ghost old_s = skipped@;
        match normalized_stem(video.as_str()) {
            None => {
                skipped.push(SkippedVideo { video_path: video, reason: BatchSkipReason::MissingSubtitle });
                assert(skipped@ =~= old_s.push(skipped@.last()));
            },
            Some(stem) => {
                let m = subtitles_with_stem(subtitles, &subtitle_stems, &stem);
                if m.len() == 0 {
                    skipped.push(SkippedVideo { video_path: video, reason: BatchSkipReason::MissingSubtitle });
                    assert(skipped@ =~= old_s.push(skipped@.last()));
                } else if m.len() > 1 {
                    skipped.push(SkippedVideo { video_path: video, reason: BatchSkipReason::AmbiguousSubtitle { candidates: m } });
                    assert(skipped@ =~= old_s.push(skipped@.last()));
                } else {
                    let output = settings.create_output_path(video.as_str());
                    let subtitle = m[0].clone();
                    candidates.push(CandidateJob { video_path: video, subtitle_path: subtitle, output_path: output });
                    assert(candidates@ =~= old_c.push(candidates@.last()));
                }
            },
        }
        i = i + 1;
    }
    assert(vs.take(videos.len() as int) =~= vs);
    (candidates, skipped)
}

/// Some candidate's output has the comparison key `key`.
pub open spec fn output_key_generated(candidates: Seq<(Seq<char>, Seq<char>, Seq<char>)>, key: Seq<char>) -> bool {
    exists|j: int| 0 <= j < candidates.len() && spec_comparison_key(#[trigger] candidates[j].2) == key
}

/// A video skipped for a missing subtitle that is itself the output another
/// candidate will write: an earlier result, counted as an ignored file.
pub open spec fn spec_absorbed(skip: (Seq<char>, SkipReasonView), candidates: Seq<(Seq<char>, Seq<char>, Seq<char>)>) -> bool {
    skip.1 is MissingSubtitle && output_key_generated(candidates, spec_comparison_key(skip.0))
}

/// The comparison keys of the candidates' outputs.
fn output_keys(candidates: &Vec<CandidateJob>) -> (keys: Vec<String>)
    ensures
        keys.len() == candidates.len(),
        forall|j: int| 0 <= j < candidates.len() ==> #[trigger] keys@[j]@ == spec_comparison_key(candidates@[j].output_path@),
{
    let mut keys: Vec<String> = Vec::new();
    let mut i: usize = 0;
    while i < candidates.len()
        invariant
            i <= candidates.len(),
            keys.len() == i,
            forall|j: int| 0 <= j < i ==> #[trigger] keys@[j]@ == spec_comparison_key(candidates@[j].output_path@),
        decreases candidates.len() - i,
    {
        keys.push(path_comparison_key(candidates[i].output_path.as_str()));
        i = i + 1;
    }
    keys
}

fn string_listed(list: &Vec<String>, s: &String) -> (r: bool)
    ensures
        r == exists|j: int| 0 <= j < list.len() && (#[trigger] list@[j])@ == s@,
{
    let mut i: usize = 0;
    while i < list.len()
        invariant
            i <= list.len(),
            forall|j: int| 0 <= j < i ==> (#[trigger] list@[j])@ != s@,
        decreases list.len() - i,
    {
        if list[i] == *s {
            return true;
        }
        i = i + 1;
    }
    false
}

/// Drops the skipped videos that are outputs of other candidates, and counts them.
fn absorb_generated_outputs(early: Vec<SkippedVideo>, candidates: &Vec<CandidateJob>) -> (r: (Vec<SkippedVideo>, usize))
    ensures
        r.0@.map_values(|s: SkippedVideo| s@) == early@.map_values(|s: SkippedVideo| s@).filter(
            |e: (Seq<char>, SkipReasonView)| !spec_absorbed(e, candidates@.map_values(|c: CandidateJob| c@)),
        ),
        r.1 == early@.map_values(|s: SkippedVideo| s@).filter(
            |e: (Seq<char>, SkipReasonView)| spec_absorbed(e, candidates@.map_values(|c: CandidateJob| c@)),
        ).len(),
        r.1 <= early.len(),
{
    let ghost all = early@.map_values(|s: SkippedVideo| s@);
    let ghost cands = candidates@.map_values(|c: CandidateJob| c@);
    let keys = output_keys(candidates);
    let mut retained: Vec<SkippedVideo> = Vec::new();
    let mut absorbed: usize = 0;
    let mut rest = early;
    let ghost n = all.len();
    assert(n == rest.len());
    assert(rest@.map_values(|s: SkippedVideo| s@) =~= all.skip(0));
    let mut i: usize = 0;
    while rest.len() > 0
        invariant
            i + rest.len() == n,
            n == all.len(),
            n <= usize::MAX,
            cands == candidates@.map_values(|c: CandidateJob| c@),
            keys.len() == candidates.len(),
            forall|j: int| 0 <= j < candidates.len() ==> #[trigger] keys@[j]@ == spec_comparison_key(candidates@[j].output_path@),
            rest@.map_values(|s: SkippedVideo| s@) == all.skip(i as int),
            retained@.map_values(|s: SkippedVideo| s@) == all.take(i as int).filter(
                |e: (Seq<char>, SkipReasonView)| !spec_absorbed(e, cands),
            ),
            absorbed == all.take(i as int).filter(|e: (Seq<char>, SkipReasonView)| spec_absorbed(e, cands)).len(),
            absorbed <= i,
        decreases rest.len(),
    {
        let ghost old_rest = rest@;
        let x = rest.remove(0);
        let ghost xv = x@;
        assert(xv == all[i as int]) by {
            assert(old_rest.map_values(|s: SkippedVideo| s@)[0] == xv);
        }
        assert(rest@.map_values(|s: SkippedVideo| s@) =~= all.skip(i + 1)) by {
            assert(rest@ =~= old_rest.drop_first());
            assert(rest@.map_values(|s: SkippedVideo| s@) =~= old_rest.map_values(|s: SkippedVideo| s@).drop_first());
            assert(all.skip(i as int).drop_first() =~= all.skip(i + 1));
        }
        let is_absorbed = match x.reason {
            BatchSkipReason::MissingSubtitle => {
                let key = path_comparison_key(x.video_path.as_str());
                let listed = string_listed(&keys, &key);
                proof {
                    if listed {
                        let j = choose|j: int| 0 <= j < keys.len() && (#[trigger] keys@[j])@ == key@;
                        assert(spec_comparison_key(cands[j].2) == key@);
                    } else {
                        assert forall|j: int| 0 <= j < cands.len() implies spec_comparison_key(#[trigger] cands[j].2) != key@ by {
                            assert(keys@[j]@ != key@);
                        }
                    }
                }
                listed
            },
            _ => false,
        };
        assert(is_absorbed == spec_absorbed(xv, cands));
        proof {
            reveal(Seq::filter);
            assert(all.take(i + 1).drop_last() =~= all.take(i as int));
            assert(all.take(i + 1).last() == xv);
        }
        if is_absorbed {
            absorbed = absorbed + 1;
        } else {
            let ghost before = retained@;
            retained.push(x);
            assert(retained@.map_values(|s: SkippedVideo| s@) =~= before.map_values(|s: SkippedVideo| s@).push(xv));
        }
        i = i + 1;
    }
    assert(all.take(n as int) =~= all);
    (retained, absorbed)
}

/// The videos of all candidates whose outputs have the comparison key `key`, in order.
pub open spec fn conflict_group(candidates: Seq<(Seq<char>, Seq<char>, Seq<char>)>, key: Seq<char>) -> Seq<Seq<char>> {
    candidates.filter(|c: (Seq<char>, Seq<char>, Seq<char>)| spec_comparison_key(c.2) == key).map_values(
        |c: (Seq<char>, Seq<char>, Seq<char>)| c.0,
    )
}

/// What becomes of one candidate once outputs are compared.
pub enum CandidateOutcome {
    Job,
    Skip(SkipReasonView),
    /// Its paths would have to be made absolute, but the current directory is unknown.
    NoCurrentDirectory,
}

/// A candidate whose output key is shared with another candidate conflicts; one
/// whose output is its own input (compared as absolute paths) would replace it;
/// one whose output exists is skipped unless overwriting is allowed; the rest
/// become jobs.
pub open spec fn spec_outcome(
    c: (Seq<char>, Seq<char>, Seq<char>),
    candidates: Seq<(Seq<char>, Seq<char>, Seq<char>)>,
    settings: EncodeSettings,
    existing_outputs: Seq<Seq<char>>,
    current_dir: Option<Seq<char>>,
) -> CandidateOutcome {
    let group = conflict_group(candidates, spec_comparison_key(c.2));
    if group.len() >= 2 {
        CandidateOutcome::Skip(SkipReasonView::OutputConflict(c.2, group))
    } else {
        match (spec_make_absolute(c.0, current_dir), spec_make_absolute(c.2, current_dir)) {
            (Some(video), Some(output)) => if spec_comparison_key(video) == spec_comparison_key(output) {
                CandidateOutcome::Skip(SkipReasonView::OutputWouldReplaceInput(c.2))
            } else if existing_outputs.contains(c.2) && !settings.overwrite_existing {
                CandidateOutcome::Skip(SkipReasonView::OutputAlreadyExists(c.2))
            } else {
                CandidateOutcome::Job
            },
            _ => CandidateOutcome::NoCurrentDirectory,
        }
    }
}

/// The candidates among `prefix` that become jobs, in order.
pub open spec fn spec_jobs(
    prefix: Seq<(Seq<char>, Seq<char>, Seq<char>)>,
    candidates: Seq<(Seq<char>, Seq<char>, Seq<char>)>,
    settings: EncodeSettings,
    existing_outputs: Seq<Seq<char>>,
    current_dir: Option<Seq<char>>,
) -> Seq<(Seq<char>, Seq<char>, Seq<char>)>
    decreases prefix.len(),
{
    if prefix.len() == 0 {
        seq![]
    } else {
        let prev = spec_jobs(prefix.drop_last(), candidates, settings, existing_outputs, current_dir);
        match spec_outcome(prefix.last(), candidates, settings, existing_outputs, current_dir) {
            CandidateOutcome::Job => prev.push(prefix.last()),
            _ => prev,
        }
    }
}

/// The candidates among `prefix` that are skipped, in order, with their reasons.
pub open spec fn spec_late_skips(
    prefix: Seq<(Seq<char>, Seq<char>, Seq<char>)>,
    candidates: Seq<(Seq<char>, Seq<char>, Seq<char>)>,
    settings: EncodeSettings,
    existing_outputs: Seq<Seq<char>>,
    current_dir: Option<Seq<char>>,
) -> Seq<(Seq<char>, SkipReasonView)>
    decreases prefix.len(),
{
    if prefix.len() == 0 {
        seq![]
    } else {
        let prev = spec_late_skips(prefix.drop_last(), candidates, settings, existing_outputs, current_dir);
        match spec_outcome(prefix.last(), candidates, settings, existing_outputs, current_dir) {
            CandidateOutcome::Skip(reason) => prev.push((prefix.last().0, reason)),
            _ => prev,
        }
    }
}

/// Some candidate needs the current directory, and it is unknown.
pub open spec fn spec_needs_current_dir(
    candidates: Seq<(Seq<char>, Seq<char>, Seq<char>)>,
    settings: EncodeSettings,
    existing_outputs: Seq<Seq<char>>,
    current_dir: Option<Seq<char>>,
) -> bool {
    exists|i: int|
        0 <= i < candidates.len() && #[trigger] spec_outcome(
            candidates[i],
            candidates,
            settings,
            existing_outputs,
            current_dir,
        ) is NoCurrentDirectory
}

/// The planned job at position `k`: numbered from one, queued, paths as planned.
pub open spec fn is_planned_job(job: EncodeJob, k: int, plan: (Seq<char>, Seq<char>, Seq<char>)) -> bool {
    &&& job.id == k + 1
    &&& (job.video_path@, job.subtitle_path@, job.output_path@) == plan
    &&& job.status == crate::model::JobStatus::Queued
    &&& job.encoder_name is None
    &&& job.fallback_note is None
}

/// The videos of candidates whose outputs have the given key.
fn videos_with_output_key(candidates: &Vec<CandidateJob>, keys: &Vec<String>, key: &String) -> (videos: Vec<String>)
    requires
        keys.len() == candidates.len(),
        forall|j: int| 0 <= j < candidates.len() ==> #[trigger] keys@[j]@ == spec_comparison_key(candidates@[j].output_path@),
    ensures
        strings_view(videos@) == conflict_group(candidates@.map_values(|c: CandidateJob| c@), key@),
{
    let ghost cands = candidates@.map_values(|c: CandidateJob| c@);
    let mut videos: Vec<String> = Vec::new();
    let mut i: usize = 0;
    while i < candidates.len()
        invariant
            i <= candidates.len(),
            cands == candidates@.map_values(|c: CandidateJob| c@),
            keys.len() == candidates.len(),
            forall|j: int| 0 <= j < candidates.len() ==> #[trigger] keys@[j]@ == spec_comparison_key(candidates@[j].output_path@),
            strings_view(videos@) == conflict_group(cands.take(i as int), key@),
        decreases candidates.len() - i,
    {
        proof {
            reveal(Seq::filter);
            assert(cands.take(i + 1).drop_last() =~= cands.take(i as int));
            assert(cands.take(i + 1).last() == candidates@[i as int]@);
        }
        let ghost before = videos@;
        if keys[i] == *key {
            videos.push(candidates[i].video_path.clone());
            assert(strings_view(videos@) =~= strings_view(before).push(candidates@[i as int].video_path@));
        }
        i = i + 1;
    }
    assert(cands.take(candidates.len() as int) =~= cands);
    videos
}

/// Compares the candidates' outputs and turns each into a job or a skip.
fn resolve_candidates(
    candidates: Vec<CandidateJob>,
    settings: &EncodeSettings,
    existing_outputs: &Vec<String>,
    current_dir: &Option<String>,
) -> (r: Result<(Vec<EncodeJob>, Vec<SkippedVideo>), BatchScanError>)
    ensures
        ({
            let cands = candidates@.map_values(|c: CandidateJob| c@);
            let existing = strings_view(existing_outputs@);
            let cwd = opt_view(*current_dir);
            match r {
                Err(e) => e is CurrentDirectoryUnavailable && spec_needs_current_dir(cands, *settings, existing, cwd),
                Ok((jobs, skipped)) => {
                    &&& !spec_needs_current_dir(cands, *settings, existing, cwd)
                    &&& jobs.len() == spec_jobs(cands, cands, *settings, existing, cwd).len()
                    &&& forall|k: int| 0 <= k < jobs.len() ==> is_planned_job(#[trigger] jobs@[k], k, spec_jobs(cands, cands, *settings, existing, cwd)[k])
                    &&& skipped@.map_values(|s: SkippedVideo| s@) == spec_late_skips(cands, cands, *settings, existing, cwd)
                },
            }
        }),
{
    let ghost cands = candidates@.map_values(|c: CandidateJob| c@);
    let ghost existing = strings_view(existing_outputs@);
    let ghost cwd = opt_view(*current_dir);
    let keys = output_keys(&candidates);
    let mut jobs: Vec<EncodeJob> = Vec::new();
    let mut skipped: Vec<SkippedVideo> = Vec::new();
    let mut i: usize = 0;
    while i < candidates.len()
        invariant
            i <= candidates.len(),
            cands == candidates@.map_values(|c: CandidateJob| c@),
            existing == strings_view(existing_outputs@),
            cwd == opt_view(*current_dir),
            keys.len() == candidates.len(),
            forall|j: int| 0 <= j < candidates.len() ==> #[trigger] keys@[j]@ == spec_comparison_key(candidates@[j].output_path@),
            forall|j: int| 0 <= j < i ==> !(#[trigger] spec_outcome(cands[j], cands, *settings, existing, cwd) is NoCurrentDirectory),
            jobs.len() <= i,
            jobs.len() == spec_jobs(cands.take(i as int), cands, *settings, existing, cwd).len(),
            forall|k: int| 0 <= k < jobs.len() ==> is_planned_job(#[trigger] jobs@[k], k, spec_jobs(cands.take(i as int), cands, *settings, existing, cwd)[k]),
            skipped@.map_values(|s: SkippedVideo| s@) == spec_late_skips(cands.take(i as int), cands, *settings, existing, cwd),
        decreases candidates.len() - i,
    {
        let ghost c = cands[i as int];
        assert(c == candidates@[i as int]@);
        assert(cands.take(i + 1).drop_last() =~= cands.take(i as int));
        assert(cands.take(i + 1).last() == c);
        let ghost prev_jobs = spec_jobs(cands.take(i as int), cands, *settings, existing, cwd);
        let ghost old_jobs = jobs@;
        let ghost old_skipped = skipped@;
        let candidate = &candidates[i];
        let group = videos_with_output_key(&candidates, &keys, &keys[i]);
        if group.len() >= 2 {
            skipped.push(SkippedVideo {
                video_path: candidate.video_path.clone(),
                reason: BatchSkipReason::OutputConflict { output_path: candidate.output_path.clone(), videos: group },
            });
            assert(skipped@.map_values(|s: SkippedVideo| s@) =~= old_skipped.map_values(|s: SkippedVideo| s@).push(skipped@.last()@));
        } else {
            let video_abs = make_absolute(candidate.video_path.as_str(), current_dir);
            let output_abs = make_absolute(candidate.output_path.as_str(), current_dir);
            match (video_abs, output_abs) {
                (Some(video_abs), Some(output_abs)) => {
                    if path_comparison_key(video_abs.as_str()) == path_comparison_key(output_abs.as_str()) {
                        skipped.push(SkippedVideo {
                            video_path: candidate.video_path.clone(),
                            reason: BatchSkipReason::OutputWouldReplaceInput { output_path: candidate.output_path.clone() },
                        });
                        assert(skipped@.map_values(|s: SkippedVideo| s@) =~= old_skipped.map_values(|s: SkippedVideo| s@).push(skipped@.last()@));
                    } else {
                        let exists = string_listed(existing_outputs, &candidate.output_path);
                        proof {
                            if exists {
                                let j = choose|j: int| 0 <= j < existing_outputs.len() && (#[trigger] existing_outputs@[j])@ == candidate.output_path@;
                                assert(existing[j] == c.2);
                            } else {
                                assert forall|j: int| 0 <= j < existing.len() implies #[trigger] existing[j] != c.2 by {
                                    assert(existing[j] == existing_outputs@[j]@);
                                }
                            }
                        }
                        if exists && !settings.overwrite_existing {
                            skipped.push(SkippedVideo {
                                video_path: candidate.video_path.clone(),
                                reason: BatchSkipReason::OutputAlreadyExists { output_path: candidate.output_path.clone() },
                            });
                            assert(skipped@.map_values(|s: SkippedVideo| s@) =~= old_skipped.map_values(|s: SkippedVideo| s@).push(skipped@.last()@));
                        } else {
                            let job_id: u64 = jobs.len() as u64 + 1;
                            jobs.push(EncodeJob::new(
                                job_id,
                                candidate.video_path.clone(),
                                candidate.subtitle_path.clone(),
                                candidate.output_path.clone(),
                            ));
                            assert forall|k: int| 0 <= k < jobs.len() implies is_planned_job(#[trigger] jobs@[k], k, prev_jobs.push(c)[k]) by {
                                if k < old_jobs.len() {
                                    assert(jobs@[k] == old_jobs[k]);
                                }
                            }
                        }
                    }
                },
                _ => {
                    assert(spec_outcome(cands[i as int], cands, *settings, existing, cwd) is NoCurrentDirectory);
                    return Err(BatchScanError::CurrentDirectoryUnavailable);
                },
            }
        }
        i = i + 1;
    }
    assert(cands.take(candidates.len() as int) =~= cands);
    Ok((jobs, skipped))
}

/// Skipped videos in the order of their videos' sort keys, stably.
pub open spec fn spec_sort_skips(s: Seq<(Seq<char>, SkipReasonView)>) -> Seq<(Seq<char>, SkipReasonView)> {
    sort_by_key(s.map_values(|e: (Seq<char>, SkipReasonView)| (spec_sort_key(e.0), e))).map_values(
        |e: (Seq<char>, (Seq<char>, SkipReasonView))| e.1,
    )
}

/// Sorts skipped videos by the sort keys of their videos, stably.
fn sort_skipped(skipped: Vec<SkippedVideo>) -> (sorted: Vec<SkippedVideo>)
    ensures
        sorted@.map_values(|s: SkippedVideo| s@) == spec_sort_skips(skipped@.map_values(|s: SkippedVideo| s@)),
{
    let ghost input = skipped@;
    let ghost n = input.len();
    let mut rest = skipped;
    let mut keyed: Vec<(Vec<char>, SkippedVideo)> = Vec::new();
    assert(rest@ =~= input.skip(0));
    while rest.len() > 0
        invariant
            keyed.len() + rest.len() == n,
            n == input.len(),
            rest@ == input.skip(keyed.len() as int),
            forall|j: int| 0 <= j < keyed.len() ==> (#[trigger] keyed@[j]).1 == input[j]
                && keyed@[j].0@ == spec_sort_key(input[j].video_path@),
        decreases rest.len(),
    {
        let ghost old_rest = rest@;
        let x = rest.remove(0);
        assert(rest@ =~= input.skip(keyed.len() + 1)) by {
            assert(input.skip(keyed.len() as int).drop_first() =~= input.skip(keyed.len() + 1));
        }
        let key = chars_of(path_sort_key(x.video_path.as_str()).as_str());
        keyed.push((key, x));
    }
    let ghost kv = keyed_view(keyed@);
    let ghost f = |s: SkippedVideo| s@;
    assert(kv.map_values(|e: (Seq<char>, SkippedVideo)| (e.0, f(e.1))) =~= input.map_values(|s: SkippedVideo| s@).map_values(
        |e: (Seq<char>, SkipReasonView)| (spec_sort_key(e.0), e),
    ));
    let sorted_keyed = sort_keyed(keyed);
    proof {
        lemma_sort_map(kv, f);
    }
    let ghost sk = keyed_view(sorted_keyed@);
    let mut rest2 = sorted_keyed;
    let mut sorted: Vec<SkippedVideo> = Vec::new();
    assert(keyed_view(rest2@) =~= sk.skip(0));
    while rest2.len() > 0
        invariant
            sorted.len() + rest2.len() == sk.len(),
            keyed_view(rest2@) == sk.skip(sorted.len() as int),
            forall|j: int| 0 <= j < sorted.len() ==> #[trigger] sorted@[j] == sk[j].1,
        decreases rest2.len(),
    {
        let ghost old_rest = rest2@;
        let e = rest2.remove(0);
        assert(keyed_view(rest2@) =~= sk.skip(sorted.len() + 1)) by {
            assert(keyed_view(rest2@) =~= keyed_view(old_rest).drop_first());
            assert(sk.skip(sorted.len() as int).drop_first() =~= sk.skip(sorted.len() + 1));
        }
        assert(keyed_view(old_rest)[0] == (e.0@, e.1));
        sorted.push(e.1);
    }
    assert(sorted@.map_values(|s: SkippedVideo| s@) =~= spec_sort_skips(input.map_values(|s: SkippedVideo| s@))) by {
        assert(sk == sort_by_key(kv));
        assert(sort_by_key(kv).map_values(|e: (Seq<char>, SkippedVideo)| (e.0, f(e.1))).len() == sk.len());
    }
    sorted
}

/// Plans a batch from the regular files of a folder (in listing order), the
/// outputs among the videos' would-be outputs that already exist, and the
/// current directory, if it is known.
///
/// Videos and subtitles are listed by their lowercased file names. A video gets
/// a job when exactly one subtitle has its stem (ignoring case), no other
/// candidate writes the same output, its output is not the video itself, and
/// its output does not exist unless overwriting is allowed. Subtitles that no
/// video claims are orphans. Files that are neither videos nor subtitles, and
/// videos without a subtitle that are another candidate's output, are counted
/// as ignored.
pub fn plan_batch(
    files: &Vec<String>,
    settings: &EncodeSettings,
    existing_outputs: &Vec<String>,
    current_dir: &Option<String>,
) -> (r: Result<BatchScanResult, BatchScanError>)
    ensures
        ({
            let videos = spec_sort_paths(strings_view(files@).filter(|p: Seq<char>| spec_is_video(p)));
            let subtitles = spec_sort_paths(strings_view(files@).filter(|p: Seq<char>| spec_is_subtitle(p)));
            let cands = spec_candidates(videos, subtitles, *settings);
            let early = spec_early_skips(videos, subtitles, *settings);
            let existing = strings_view(existing_outputs@);
            let cwd = opt_view(*current_dir);
            let jobs = spec_jobs(cands, cands, *settings, existing, cwd);
            match r {
                Err(e) => e is CurrentDirectoryUnavailable && spec_needs_current_dir(cands, *settings, existing, cwd),
                Ok(result) => {
                    &&& !spec_needs_current_dir(cands, *settings, existing, cwd)
                    &&& result.jobs.len() == jobs.len()
                    &&& forall|k: int| 0 <= k < jobs.len() ==> is_planned_job(#[trigger] result.jobs@[k], k, jobs[k])
                    &&& result.skipped_videos@.map_values(|s: SkippedVideo| s@) == spec_sort_skips(
                        early.filter(|e: (Seq<char>, SkipReasonView)| !spec_absorbed(e, cands))
                            + spec_late_skips(cands, cands, *settings, existing, cwd),
                    )
                    &&& strings_view(result.orphan_subtitles@) == subtitles.filter(|s: Seq<char>| spec_is_orphan(s, videos))
                    &&& result.ignored_file_count == strings_view(files@).filter(|p: Seq<char>| spec_is_ignored(p)).len()
                        + early.filter(|e: (Seq<char>, SkipReasonView)| spec_absorbed(e, cands)).len()
                },
            }
        }),
{
    let (videos, subtitles, ignored) = classify_files(files);
    let videos = sort_paths(videos);
    let subtitles = sort_paths(subtitles);
    let video_stems = stems_of(&videos);
    let orphan_subtitles = find_orphans(&subtitles, &videos, &video_stems);
    let (candidates, early) = decide_videos(&videos, &subtitles, settings);
    let (retained, absorbed) = absorb_generated_outputs(early, &candidates);
    match resolve_candidates(candidates, settings, existing_outputs, current_dir) {
        Err(e) => Err(e),
        Ok((jobs, late)) => {
            let mut all_skipped = retained;
            let ghost first = all_skipped@;
            let mut late = late;
            let ghost second = late@;
            all_skipped.append(&mut late);
            assert(all_skipped@.map_values(|s: SkippedVideo| s@) =~= first.map_values(|s: SkippedVideo| s@)
                + second.map_values(|s: SkippedVideo| s@));
            let skipped_videos = sort_skipped(all_skipped);
            Ok(BatchScanResult {
                jobs,
                skipped_videos,
                orphan_subtitles,
                ignored_file_count: ignored + absorbed,
            })
        },
    }
}


/// The videos of a folder listing, sorted.
pub open spec fn folder_videos(files: Seq<Seq<char>>) -> Seq<Seq<char>> {
    spec_sort_paths(files.filter(|p: Seq<char>| spec_is_video(p)))
}

/// The subtitles of a folder listing, sorted.
pub open spec fn folder_subtitles(files: Seq<Seq<char>>) -> Seq<Seq<char>> {
    spec_sort_paths(files.filter(|p: Seq<char>| spec_is_subtitle(p)))
}

/// The jobs planned for a folder listing: video, subtitle and output path.
pub open spec fn folder_jobs(
    files: Seq<Seq<char>>,
    settings: EncodeSettings,
    existing_outputs: Seq<Seq<char>>,
    current_dir: Option<Seq<char>>,
) -> Seq<(Seq<char>, Seq<char>, Seq<char>)> {
    let cands = spec_candidates(folder_videos(files), folder_subtitles(files), settings);
    spec_jobs(cands, cands, settings, existing_outputs, current_dir)
}

proof fn lemma_candidates_decided(videos: Seq<Seq<char>>, subtitles: Seq<Seq<char>>, settings: EncodeSettings)
    ensures
        forall|k: int| 0 <= k < spec_candidates(videos, subtitles, settings).len() ==> {
            let c = #[trigger] spec_candidates(videos, subtitles, settings)[k];
            videos.contains(c.0) && spec_decide(c.0, subtitles, settings) == VideoDecision::Candidate(c.1, c.2)
        },
    decreases videos.len(),
{
    if videos.len() > 0 {
        let rest = videos.drop_last();
        lemma_candidates_decided(rest, subtitles, settings);
        let prev = spec_candidates(rest, subtitles, settings);
        let cands = spec_candidates(videos, subtitles, settings);
        assert forall|k: int| 0 <= k < cands.len() implies {
            let c = #[trigger] cands[k];
            videos.contains(c.0) && spec_decide(c.0, subtitles, settings) == VideoDecision::Candidate(c.1, c.2)
        } by {
            if k < prev.len() {
                assert(cands[k] == prev[k]);
                let i = choose|i: int| 0 <= i < rest.len() && rest[i] == prev[k].0;
                assert(videos[i] == rest[i]);
            } else {
                assert(videos[videos.len() - 1] == videos.last());
            }
        }
    }
}

proof fn lemma_jobs_are_candidates(
    prefix: Seq<(Seq<char>, Seq<char>, Seq<char>)>,
    cands: Seq<(Seq<char>, Seq<char>, Seq<char>)>,
    settings: EncodeSettings,
    existing_outputs: Seq<Seq<char>>,
    current_dir: Option<Seq<char>>,
)
    ensures
        forall|k: int| 0 <= k < spec_jobs(prefix, cands, settings, existing_outputs, current_dir).len() ==> {
            let j = #[trigger] spec_jobs(prefix, cands, settings, existing_outputs, current_dir)[k];
            prefix.contains(j) && spec_outcome(j, cands, settings, existing_outputs, current_dir) is Job
        },
    decreases prefix.len(),
{
    if prefix.len() > 0 {
        let rest = prefix.drop_last();
        lemma_jobs_are_candidates(rest, cands, settings, existing_outputs, current_dir);
        let prev = spec_jobs(rest, cands, settings, existing_outputs, current_dir);
        let jobs = spec_jobs(prefix, cands, settings, existing_outputs, current_dir);
        assert forall|k: int| 0 <= k < jobs.len() implies {
            let j = #[trigger] jobs[k];
            prefix.contains(j) && spec_outcome(j, cands, settings, existing_outputs, current_dir) is Job
        } by {
            if k < prev.len() {
                assert(jobs[k] == prev[k]);
                let i = choose|i: int| 0 <= i < rest.len() && rest[i] == prev[k];
                assert(prefix[i] == rest[i]);
            } else {
                assert(prefix[prefix.len() - 1] == prefix.last());
            }
        }
    }
}

proof fn lemma_filter_two<A>(s: Seq<A>, pred: spec_fn(A) -> bool, p: int, q: int)
    requires
        0 <= p < q < s.len(),
        pred(s[p]),
        pred(s[q]),
    ensures
        s.filter(pred).len() >= 2,
    decreases s.len(),
{
    reveal(Seq::filter);
    let rest = s.drop_last();
    if q == s.len() - 1 {
        assert(rest[p] == s[p]);
        rest.lemma_filter_contains(pred, p);
        assert(rest.filter(pred).len() >= 1);
    } else {
        assert(rest[p] == s[p] && rest[q] == s[q]);
        lemma_filter_two(rest, pred, p, q);
    }
}

proof fn lemma_job_outputs_distinct(
    cands: Seq<(Seq<char>, Seq<char>, Seq<char>)>,
    n: int,
    settings: EncodeSettings,
    existing_outputs: Seq<Seq<char>>,
    current_dir: Option<Seq<char>>,
)
    requires
        0 <= n <= cands.len(),
    ensures
        forall|i: int, j: int|
            #![trigger spec_jobs(cands.take(n), cands, settings, existing_outputs, current_dir)[i], spec_jobs(cands.take(n), cands, settings, existing_outputs, current_dir)[j]]
            0 <= i < j < spec_jobs(cands.take(n), cands, settings, existing_outputs, current_dir).len()
            ==> spec_comparison_key(spec_jobs(cands.take(n), cands, settings, existing_outputs, current_dir)[i].2)
                != spec_comparison_key(spec_jobs(cands.take(n), cands, settings, existing_outputs, current_dir)[j].2),
    decreases n,
{
    if n > 0 {
        let prefix = cands.take(n);
        let rest = cands.take(n - 1);
        assert(prefix.drop_last() =~= rest);
        assert(prefix.last() == cands[n - 1]);
        lemma_job_outputs_distinct(cands, n - 1, settings, existing_outputs, current_dir);
        lemma_jobs_are_candidates(rest, cands, settings, existing_outputs, current_dir);
        let prev = spec_jobs(rest, cands, settings, existing_outputs, current_dir);
        let jobs = spec_jobs(prefix, cands, settings, existing_outputs, current_dir);
        let last = cands[n - 1];
        if spec_outcome(last, cands, settings, existing_outputs, current_dir) is Job {
            assert(jobs == prev.push(last));
            assert forall|i: int, j: int| 0 <= i < j < jobs.len()
                implies spec_comparison_key(#[trigger] jobs[i].2) != spec_comparison_key(#[trigger] jobs[j].2) by {
                if j < prev.len() {
                    assert(jobs[i] == prev[i] && jobs[j] == prev[j]);
                } else {
                    assert(jobs[i] == prev[i]);
                    assert(jobs[j] == last);
                    if spec_comparison_key(prev[i].2) == spec_comparison_key(last.2) {
                        assert(rest.contains(prev[i]));
                        let p = choose|p: int| 0 <= p < rest.len() && rest[p] == prev[i];
                        assert(cands[p] == prev[i]);
                        let key = spec_comparison_key(last.2);
                        let pred = |c: (Seq<char>, Seq<char>, Seq<char>)| spec_comparison_key(c.2) == key;
                        lemma_filter_two(cands, pred, p, n - 1);
                        assert(conflict_group(cands, key).len() == cands.filter(pred).len());
                    }
                }
            }
        } else {
            assert(jobs == prev);
        }
    }
}

/// Every planned job pairs a video of the folder with the one subtitle that
/// has its base name, ignoring case, and writes the output path the settings
/// give for that video.
pub proof fn law_job_has_exactly_one_subtitle(
    files: Seq<Seq<char>>,
    settings: EncodeSettings,
    existing_outputs: Seq<Seq<char>>,
    current_dir: Option<Seq<char>>,
)
    ensures
        forall|k: int| 0 <= k < folder_jobs(files, settings, existing_outputs, current_dir).len() ==> {
            let job = #[trigger] folder_jobs(files, settings, existing_outputs, current_dir)[k];
            &&& folder_videos(files).contains(job.0)
            &&& spec_normalized_stem(job.0) is Some
            &&& matching_subtitles(folder_subtitles(files), spec_normalized_stem(job.0)->0) == seq![job.1]
            &&& job.2 == spec_output_path(settings, job.0)
        },
{
    let videos = folder_videos(files);
    let subtitles = folder_subtitles(files);
    let cands = spec_candidates(videos, subtitles, settings);
    lemma_candidates_decided(videos, subtitles, settings);
    lemma_jobs_are_candidates(cands, cands, settings, existing_outputs, current_dir);
    let jobs = folder_jobs(files, settings, existing_outputs, current_dir);
    assert forall|k: int| 0 <= k < jobs.len() implies {
        let job = #[trigger] jobs[k];
        &&& videos.contains(job.0)
        &&& spec_normalized_stem(job.0) is Some
        &&& matching_subtitles(subtitles, spec_normalized_stem(job.0)->0) == seq![job.1]
        &&& job.2 == spec_output_path(settings, job.0)
    } by {
        let i = choose|i: int| 0 <= i < cands.len() && cands[i] == jobs[k];
        assert(cands[i] == jobs[k]);
        let m = matching_subtitles(subtitles, spec_normalized_stem(jobs[k].0)->0);
        assert(m =~= seq![jobs[k].1]);
    }
}

/// No planned job writes an output that exists unless overwriting is allowed,
/// or writes over its own video; no two planned jobs write the same output, and
/// no other candidate, planned or skipped, would write a job's output.
pub proof fn law_jobs_never_clobber(
    files: Seq<Seq<char>>,
    settings: EncodeSettings,
    existing_outputs: Seq<Seq<char>>,
    current_dir: Option<Seq<char>>,
)
    ensures
        forall|k: int| 0 <= k < folder_jobs(files, settings, existing_outputs, current_dir).len() ==> {
            let job = #[trigger] folder_jobs(files, settings, existing_outputs, current_dir)[k];
            &&& existing_outputs.contains(job.2) ==> settings.overwrite_existing
            &&& spec_make_absolute(job.0, current_dir) is Some
            &&& spec_make_absolute(job.2, current_dir) is Some
            &&& spec_comparison_key(spec_make_absolute(job.0, current_dir)->0)
                != spec_comparison_key(spec_make_absolute(job.2, current_dir)->0)
        },
        forall|i: int, j: int|
            #![trigger folder_jobs(files, settings, existing_outputs, current_dir)[i], folder_jobs(files, settings, existing_outputs, current_dir)[j]]
            0 <= i < j < folder_jobs(files, settings, existing_outputs, current_dir).len()
            ==> spec_comparison_key(folder_jobs(files, settings, existing_outputs, current_dir)[i].2)
                != spec_comparison_key(folder_jobs(files, settings, existing_outputs, current_dir)[j].2),
        ({
            let cands = spec_candidates(folder_videos(files), folder_subtitles(files), settings);
            let jobs = folder_jobs(files, settings, existing_outputs, current_dir);
            forall|k: int, i: int|
                0 <= k < jobs.len() && 0 <= i < cands.len()
                    && spec_comparison_key((#[trigger] cands[i]).2) == spec_comparison_key((#[trigger] jobs[k]).2)
                ==> cands[i] == jobs[k]
        }),
{
    let cands = spec_candidates(folder_videos(files), folder_subtitles(files), settings);
    let jobs = folder_jobs(files, settings, existing_outputs, current_dir);
    lemma_jobs_are_candidates(cands, cands, settings, existing_outputs, current_dir);
    lemma_job_outputs_distinct(cands, cands.len() as int, settings, existing_outputs, current_dir);
    assert(cands.take(cands.len() as int) =~= cands);
    assert forall|k: int, i: int|
        0 <= k < jobs.len() && 0 <= i < cands.len()
            && spec_comparison_key((#[trigger] cands[i]).2) == spec_comparison_key((#[trigger] jobs[k]).2)
        implies cands[i] == jobs[k] by {
        let job = jobs[k];
        let p = choose|p: int| 0 <= p < cands.len() && cands[p] == job;
        if cands[i] != job {
            let key = spec_comparison_key(job.2);
            let pred = |c: (Seq<char>, Seq<char>, Seq<char>)| spec_comparison_key(c.2) == key;
            if p < i {
                lemma_filter_two(cands, pred, p, i);
            } else {
                lemma_filter_two(cands, pred, i, p);
            }
            assert(conflict_group(cands, key).len() == cands.filter(pred).len());
        }
    }
}


proof fn lemma_decisions_split(videos: Seq<Seq<char>>, subtitles: Seq<Seq<char>>, settings: EncodeSettings)
    ensures
        spec_candidates(videos, subtitles, settings).len() + spec_early_skips(videos, subtitles, settings).len() == videos.len(),
    decreases videos.len(),
{
    if videos.len() > 0 {
        lemma_decisions_split(videos.drop_last(), subtitles, settings);
    }
}

proof fn lemma_outcomes_split(
    prefix: Seq<(Seq<char>, Seq<char>, Seq<char>)>,
    cands: Seq<(Seq<char>, Seq<char>, Seq<char>)>,
    settings: EncodeSettings,
    existing_outputs: Seq<Seq<char>>,
    current_dir: Option<Seq<char>>,
)
    requires
        forall|i: int| 0 <= i < prefix.len() ==> !(#[trigger] spec_outcome(prefix[i], cands, settings, existing_outputs, current_dir) is NoCurrentDirectory),
    ensures
        spec_jobs(prefix, cands, settings, existing_outputs, current_dir).len()
            + spec_late_skips(prefix, cands, settings, existing_outputs, current_dir).len() == prefix.len(),
    decreases prefix.len(),
{
    if prefix.len() > 0 {
        let rest = prefix.drop_last();
        assert forall|i: int| 0 <= i < rest.len() implies !(#[trigger] spec_outcome(rest[i], cands, settings, existing_outputs, current_dir) is NoCurrentDirectory) by {
            assert(rest[i] == prefix[i]);
        }
        lemma_outcomes_split(rest, cands, settings, existing_outputs, current_dir);
        assert(prefix[prefix.len() - 1] == prefix.last());
    }
}

proof fn lemma_filter_complement<A>(s: Seq<A>, pred: spec_fn(A) -> bool)
    ensures
        s.filter(pred).len() + s.filter(|x: A| !pred(x)).len() == s.len(),
    decreases s.len(),
{
    reveal(Seq::filter);
    if s.len() > 0 {
        lemma_filter_complement(s.drop_last(), pred);
    }
}

/// Every video of a folder is accounted for once: it gets a job, is skipped
/// with a reason, or is counted as ignored because another job writes it.
pub proof fn law_every_video_is_accounted_for(
    files: Seq<Seq<char>>,
    settings: EncodeSettings,
    existing_outputs: Seq<Seq<char>>,
    current_dir: Option<Seq<char>>,
)
    requires
        !spec_needs_current_dir(
            spec_candidates(folder_videos(files), folder_subtitles(files), settings),
            settings,
            existing_outputs,
            current_dir,
        ),
    ensures
        ({
            let cands = spec_candidates(folder_videos(files), folder_subtitles(files), settings);
            let early = spec_early_skips(folder_videos(files), folder_subtitles(files), settings);
            let skipped = spec_sort_skips(
                early.filter(|e: (Seq<char>, SkipReasonView)| !spec_absorbed(e, cands))
                    + spec_late_skips(cands, cands, settings, existing_outputs, current_dir),
            );
            folder_jobs(files, settings, existing_outputs, current_dir).len() + skipped.len()
                + early.filter(|e: (Seq<char>, SkipReasonView)| spec_absorbed(e, cands)).len() == folder_videos(files).len()
        }),
{
    let videos = folder_videos(files);
    let subtitles = folder_subtitles(files);
    let cands = spec_candidates(videos, subtitles, settings);
    let early = spec_early_skips(videos, subtitles, settings);
    lemma_decisions_split(videos, subtitles, settings);
    lemma_outcomes_split(cands, cands, settings, existing_outputs, current_dir);
    let absorbed = |e: (Seq<char>, SkipReasonView)| spec_absorbed(e, cands);
    lemma_filter_complement(early, absorbed);
    let kept_a = |e: (Seq<char>, SkipReasonView)| !absorbed(e);
    let kept_b = |e: (Seq<char>, SkipReasonView)| !spec_absorbed(e, cands);
    assert(kept_a =~= kept_b);
    assert(early.filter(absorbed) =~= early.filter(|e: (Seq<char>, SkipReasonView)| spec_absorbed(e, cands)));
    let all = early.filter(|e: (Seq<char>, SkipReasonView)| !spec_absorbed(e, cands))
        + spec_late_skips(cands, cands, settings, existing_outputs, current_dir);
    let keyed = all.map_values(|e: (Seq<char>, SkipReasonView)| (spec_sort_key(e.0), e));
    lemma_sort_len(keyed);
}

proof fn lemma_sorted_by<T>(s: Seq<T>, key: spec_fn(T) -> Seq<char>)
    ensures
        ({
            let sorted = sort_by_key(s.map_values(|e: T| (key(e), e)));
            &&& forall|k: int| 0 <= k < sorted.len() ==> (#[trigger] sorted[k]).0 == key(sorted[k].1)
            &&& forall|i: int, j: int| 0 <= i < j < sorted.len() ==> key_le(key(#[trigger] sorted[i].1), key(#[trigger] sorted[j].1))
        }),
{
    broadcast use vstd::seq_lib::group_to_multiset_ensures;

    let keyed = s.map_values(|e: T| (key(e), e));
    let sorted = sort_by_key(keyed);
    law_sort_orders_and_keeps_elements(keyed);
    assert forall|k: int| 0 <= k < sorted.len() implies (#[trigger] sorted[k]).0 == key(sorted[k].1) by {
        assert(sorted.contains(sorted[k]));
        assert(sorted.to_multiset().count(sorted[k]) > 0);
        assert(keyed.contains(sorted[k]));
    }
    assert forall|i: int, j: int| 0 <= i < j < sorted.len() implies key_le(key(#[trigger] sorted[i].1), key(#[trigger] sorted[j].1)) by {
        assert(key_le(sorted[i].0, sorted[j].0));
        assert(sorted[i].0 == key(sorted[i].1));
        assert(sorted[j].0 == key(sorted[j].1));
    }
}

/// The videos and the subtitles of a folder are taken in the order of their
/// sort keys (file names, ignoring case), and the skipped videos are listed in
/// the order of their videos' sort keys.
pub proof fn law_batch_lists_are_sorted(
    files: Seq<Seq<char>>,
    settings: EncodeSettings,
    existing_outputs: Seq<Seq<char>>,
    current_dir: Option<Seq<char>>,
)
    ensures
        forall|i: int, j: int| 0 <= i < j < folder_videos(files).len()
            ==> key_le(spec_sort_key(#[trigger] folder_videos(files)[i]), spec_sort_key(#[trigger] folder_videos(files)[j])),
        forall|i: int, j: int| 0 <= i < j < folder_subtitles(files).len()
            ==> key_le(spec_sort_key(#[trigger] folder_subtitles(files)[i]), spec_sort_key(#[trigger] folder_subtitles(files)[j])),
        ({
            let cands = spec_candidates(folder_videos(files), folder_subtitles(files), settings);
            let early = spec_early_skips(folder_videos(files), folder_subtitles(files), settings);
            let skipped = spec_sort_skips(
                early.filter(|e: (Seq<char>, SkipReasonView)| !spec_absorbed(e, cands))
                    + spec_late_skips(cands, cands, settings, existing_outputs, current_dir),
            );
            forall|i: int, j: int| 0 <= i < j < skipped.len()
                ==> key_le(spec_sort_key((#[trigger] skipped[i]).0), spec_sort_key((#[trigger] skipped[j]).0))
        }),
{
    let key = |p: Seq<char>| spec_sort_key(p);
    let videos_in = files.filter(|p: Seq<char>| spec_is_video(p));
    let subtitles_in = files.filter(|p: Seq<char>| spec_is_subtitle(p));
    lemma_sorted_by(videos_in, key);
    lemma_sorted_by(subtitles_in, key);
    assert(videos_in.map_values(|e: Seq<char>| (key(e), e)) =~= keyed_paths(videos_in));
    assert(subtitles_in.map_values(|e: Seq<char>| (key(e), e)) =~= keyed_paths(subtitles_in));
    let sv = sort_by_key(keyed_paths(videos_in));
    assert forall|i: int, j: int| 0 <= i < j < folder_videos(files).len()
        implies key_le(spec_sort_key(#[trigger] folder_videos(files)[i]), spec_sort_key(#[trigger] folder_videos(files)[j])) by {
        assert(folder_videos(files)[i] == sv[i].1);
        assert(folder_videos(files)[j] == sv[j].1);
    }
    let ss = sort_by_key(keyed_paths(subtitles_in));
    assert forall|i: int, j: int| 0 <= i < j < folder_subtitles(files).len()
        implies key_le(spec_sort_key(#[trigger] folder_subtitles(files)[i]), spec_sort_key(#[trigger] folder_subtitles(files)[j])) by {
        assert(folder_subtitles(files)[i] == ss[i].1);
        assert(folder_subtitles(files)[j] == ss[j].1);
    }
    let cands = spec_candidates(folder_videos(files), folder_subtitles(files), settings);
    let early = spec_early_skips(folder_videos(files), folder_subtitles(files), settings);
    let all = early.filter(|e: (Seq<char>, SkipReasonView)| !spec_absorbed(e, cands))
        + spec_late_skips(cands, cands, settings, existing_outputs, current_dir);
    let skip_key = |e: (Seq<char>, SkipReasonView)| spec_sort_key(e.0);
    lemma_sorted_by(all, skip_key);
    assert(all.map_values(|e: (Seq<char>, SkipReasonView)| (skip_key(e), e)) =~= all.map_values(
        |e: (Seq<char>, SkipReasonView)| (spec_sort_key(e.0), e),
    ));
    let sk = sort_by_key(all.map_values(|e: (Seq<char>, SkipReasonView)| (spec_sort_key(e.0), e)));
    let skipped = spec_sort_skips(all);
    assert forall|i: int, j: int| 0 <= i < j < skipped.len()
        implies key_le(spec_sort_key((#[trigger] skipped[i]).0), spec_sort_key((#[trigger] skipped[j]).0)) by {
        assert(skipped[i] == sk[i].1);
        assert(skipped[j] == sk[j].1);
    }
}

/// A path is a video exactly when its extension equals, ignoring ASCII case,
/// one of the entries of `VIDEO_EXTENSIONS`.
pub proof fn law_video_means_listed_extension(path: Seq<char>)
    ensures
        spec_is_video(path) <==> exists|i: int|
            0 <= i < VIDEO_EXTENSIONS@.len() && spec_has_extension(path, #[trigger] VIDEO_EXTENSIONS@[i]@),
{
    let listed = VIDEO_EXTENSIONS@;
    assert(listed.len() == 6);
    assert(listed[0]@ == "mkv"@ && listed[1]@ == "mp4"@ && listed[2]@ == "avi"@);
    assert(listed[3]@ == "mov"@ && listed[4]@ == "webm"@ && listed[5]@ == "m4v"@);
    if spec_is_video(path) {
        if spec_has_extension(path, "mkv"@) { assert(spec_has_extension(path, listed[0]@)); }
        else if spec_has_extension(path, "mp4"@) { assert(spec_has_extension(path, listed[1]@)); }
        else if spec_has_extension(path, "avi"@) { assert(spec_has_extension(path, listed[2]@)); }
        else if spec_has_extension(path, "mov"@) { assert(spec_has_extension(path, listed[3]@)); }
        else if spec_has_extension(path, "webm"@) { assert(spec_has_extension(path, listed[4]@)); }
        else { assert(spec_has_extension(path, listed[5]@)); }
    }
}

} // verus!
