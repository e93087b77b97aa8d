//! Finding FFmpeg and FFprobe: which folders are searched, in which order, and
//! what is reported where none holds both programs. The program that runs the
//! search reads the environment and the file system; the decision is made here
//! from what it read.

use crate::model::{spec_platform_of, Platform};
use crate::paths::{
    absolute_in, canonical_in, is_file_in, join, opt_view, parent, paths_equal, std_join, std_parent,
    std_path_eq, FileFacts,
};
use crate::text::{push_str, same_text, strings_view};
use vstd::prelude::*;

verus! {

/// The two programs found.
#[derive(Debug, Clone)]
pub struct FfmpegPaths {
    pub ffmpeg: String,
    pub ffprobe: String,
}

impl View for FfmpegPaths {
    type V = (Seq<char>, Seq<char>);

    open spec fn view(&self) -> (Seq<char>, Seq<char>) {
        (self.ffmpeg@, self.ffprobe@)
    }
}

/// What the search reads of the environment: the operating system and
/// architecture names as `std::env::consts` gives them, the folder named by
/// `BURNSUBS_FFMPEG_DIR`, the path of the running program, the current
/// directory, and the folders of `PATH` in order.
#[derive(Debug, Clone)]
pub struct LocatorEnvironment {
    pub os: String,
    pub arch: String,
    pub override_directory: Option<String>,
    pub executable_path: Option<String>,
    pub current_directory: Option<String>,
    pub system_path: Vec<String>,
}

/// Why FFmpeg could not be found or used.
#[derive(Debug, Clone)]
pub enum LocatorError {
    UnsupportedTarget { os: String, arch: String },
    CustomDirectoryIncomplete { directory: String, ffmpeg_name: String, ffprobe_name: String, searched: Vec<String> },
    NotFound { searched: Vec<String> },
    FfmpegMissing(String),
    FfprobeMissing(String),
    FfmpegInaccessible(String),
    FfprobeInaccessible(String),
}

/// A locator error with its texts as character sequences.
pub enum LocatorErrorView {
    UnsupportedTarget(Seq<char>, Seq<char>),
    CustomDirectoryIncomplete(Seq<char>, Seq<char>, Seq<char>, Seq<Seq<char>>),
    NotFound(Seq<Seq<char>>),
    FfmpegMissing(Seq<char>),
    FfprobeMissing(Seq<char>),
    FfmpegInaccessible(Seq<char>),
    FfprobeInaccessible(Seq<char>),
}

impl View for LocatorError {
    type V = LocatorErrorView;

    open spec fn view(&self) -> LocatorErrorView {
        match self {
            LocatorError::UnsupportedTarget { os, arch } => LocatorErrorView::UnsupportedTarget(os@, arch@),
            LocatorError::CustomDirectoryIncomplete { directory, ffmpeg_name, ffprobe_name, searched } =>
                LocatorErrorView::CustomDirectoryIncomplete(directory@, ffmpeg_name@, ffprobe_name@, strings_view(searched@)),
            LocatorError::NotFound { searched } => LocatorErrorView::NotFound(strings_view(searched@)),
            LocatorError::FfmpegMissing(p) => LocatorErrorView::FfmpegMissing(p@),
            LocatorError::FfprobeMissing(p) => LocatorErrorView::FfprobeMissing(p@),
            LocatorError::FfmpegInaccessible(p) => LocatorErrorView::FfmpegInaccessible(p@),
            LocatorError::FfprobeInaccessible(p) => LocatorErrorView::FfprobeInaccessible(p@),
        }
    }
}

/// The file name of FFmpeg on the platform.
pub open spec fn spec_ffmpeg_file_name(platform: Platform) -> Seq<char> {
    if platform == Platform::Windows {
        "ffmpeg.exe"@
    } else {
        "ffmpeg"@
    }
}

/// The file name of FFprobe on the platform.
pub open spec fn spec_ffprobe_file_name(platform: Platform) -> Seq<char> {
    if platform == Platform::Windows {
        "ffprobe.exe"@
    } else {
        "ffprobe"@
    }
}

/// The file name of FFmpeg on the platform.
pub fn ffmpeg_file_name(platform: Platform) -> (name: &'static str)
    ensures
        name@ == spec_ffmpeg_file_name(platform),
{
    if platform == Platform::Windows {
        "ffmpeg.exe"
    } else {
        "ffmpeg"
    }
}

/// The file name of FFprobe on the platform.
pub fn ffprobe_file_name(platform: Platform) -> (name: &'static str)
    ensures
        name@ == spec_ffprobe_file_name(platform),
{
    if platform == Platform::Windows {
        "ffprobe.exe"
    } else {
        "ffprobe"
    }
}

/// The folder, named by target triple, that holds bundled binaries for the
/// operating system and architecture, where there is one.
pub open spec fn spec_target_directory(os: Seq<char>, arch: Seq<char>) -> Option<Seq<char>> {
    if os == "windows"@ && arch == "x86_64"@ {
        Some("x86_64-pc-windows-msvc"@)
    } else if os == "windows"@ && arch == "aarch64"@ {
        Some("aarch64-pc-windows-msvc"@)
    } else if os == "macos"@ && arch == "x86_64"@ {
        Some("x86_64-apple-darwin"@)
    } else if os == "macos"@ && arch == "aarch64"@ {
        Some("aarch64-apple-darwin"@)
    } else if os == "linux"@ && arch == "x86_64"@ {
        Some("x86_64-unknown-linux-gnu"@)
    } else if os == "linux"@ && arch == "aarch64"@ {
        Some("aarch64-unknown-linux-gnu"@)
    } else {
        None
    }
}

/// The target folder name for the operating system and architecture, or the
/// error that the target is not supported.
pub fn current_target_directory(os: &str, arch: &str) -> (r: Result<&'static str, LocatorError>)
    ensures
        match r {
            Ok(t) => spec_target_directory(os@, arch@) == Some(t@),
            Err(e) => spec_target_directory(os@, arch@) is None && e@ == LocatorErrorView::UnsupportedTarget(os@, arch@),
        },
{
    let windows = same_text(os, "windows");
    let macos = same_text(os, "macos");
    let linux = same_text(os, "linux");
    let x86_64 = same_text(arch, "x86_64");
    let aarch64 = same_text(arch, "aarch64");
    if windows && x86_64 {
        Ok("x86_64-pc-windows-msvc")
    } else if windows && aarch64 {
        Ok("aarch64-pc-windows-msvc")
    } else if macos && x86_64 {
        Ok("x86_64-apple-darwin")
    } else if macos && aarch64 {
        Ok("aarch64-apple-darwin")
    } else if linux && x86_64 {
        Ok("x86_64-unknown-linux-gnu")
    } else if linux && aarch64 {
        Ok("aarch64-unknown-linux-gnu")
    } else {
        Err(LocatorError::UnsupportedTarget { os: os.to_owned(), arch: arch.to_owned() })
    }
}

/// `base/tools/target` and `base/tools`.
pub open spec fn tools_dirs(base: Seq<char>, target: Seq<char>) -> Seq<Seq<char>> {
    seq![std_join(std_join(base, "tools"@), target), std_join(base, "tools"@)]
}

/// `tools/target` under the folder and under each of its ancestors, up to `n` folders in all.
pub open spec fn spec_ancestor_candidates(dir: Option<Seq<char>>, target: Seq<char>, n: nat) -> Seq<Seq<char>>
    decreases n,
{
    if n == 0 {
        seq![]
    } else {
        match dir {
            None => seq![],
            Some(d) => seq![std_join(std_join(d, "tools"@), target)] + spec_ancestor_candidates(std_parent(d), target, (n - 1) as nat),
        }
    }
}

/// On macOS, the tools folders of an application bundle whose executable lies
/// in `executable_directory`.
pub open spec fn spec_bundle_candidates(executable_directory: Seq<char>, target: Seq<char>, platform: Platform) -> Seq<Seq<char>> {
    if platform == Platform::MacOs {
        match std_parent(executable_directory) {
            Some(contents) => tools_dirs(std_join(contents, "Resources"@), target),
            None => seq![],
        }
    } else {
        seq![]
    }
}

/// The folders searched next to the running program.
pub open spec fn spec_executable_candidates(executable_path: Option<Seq<char>>, target: Seq<char>, platform: Platform) -> Seq<Seq<char>> {
    match executable_path {
        None => seq![],
        Some(path) => match std_parent(path) {
            None => seq![],
            Some(dir) => tools_dirs(dir, target).push(dir) + spec_ancestor_candidates(Some(dir), target, 6)
                + spec_bundle_candidates(dir, target, platform),
        },
    }
}

/// The sequence without every element that equals (as a path) an element kept before it.
pub open spec fn spec_dedup(s: Seq<Seq<char>>) -> Seq<Seq<char>>
    decreases s.len(),
{
    if s.len() == 0 {
        s
    } else {
        let kept = spec_dedup(s.drop_last());
        if exists|k: int| 0 <= k < kept.len() && std_path_eq(s.last(), #[trigger] kept[k]) {
            kept
        } else {
            kept.push(s.last())
        }
    }
}

/// The folders searched, in order, where no custom folder is configured: the
/// override folder, the tools folders next to the running program and its
/// ancestors (and, on macOS, in the application bundle), and the tools folders
/// of the current directory, without repeats.
pub open spec fn spec_candidate_directories(target: Seq<char>, env: LocatorEnvironment) -> Seq<Seq<char>> {
    let overridden = match opt_view(env.override_directory) {
        Some(d) => seq![d],
        None => seq![],
    };
    let current = match opt_view(env.current_directory) {
        Some(d) => tools_dirs(d, target),
        None => seq![],
    };
    spec_dedup(overridden + spec_executable_candidates(opt_view(env.executable_path), target, spec_platform_of(env.os@)) + current)
}

/// Both programs in the folder, as absolute paths, where both are regular files there.
pub open spec fn spec_binaries_in(directory: Seq<char>, platform: Platform, facts: FileFacts) -> Option<(Seq<char>, Seq<char>)> {
    let ffmpeg = std_join(directory, spec_ffmpeg_file_name(platform));
    let ffprobe = std_join(directory, spec_ffprobe_file_name(platform));
    if is_file_in(facts, ffmpeg) && is_file_in(facts, ffprobe) {
        Some((absolute_in(facts, ffmpeg), absolute_in(facts, ffprobe)))
    } else {
        None
    }
}

/// The programs in the first of the folders that holds both.
pub open spec fn spec_first_binaries(dirs: Seq<Seq<char>>, platform: Platform, facts: FileFacts) -> Option<(Seq<char>, Seq<char>)>
    decreases dirs.len(),
{
    if dirs.len() == 0 {
        None
    } else {
        match spec_binaries_in(dirs[0], platform, facts) {
            Some(found) => Some(found),
            None => spec_first_binaries(dirs.drop_first(), platform, facts),
        }
    }
}

/// The program of this name in the first of the `PATH` folders that has it, as an absolute path.
pub open spec fn spec_find_in_path(name: Seq<char>, dirs: Seq<Seq<char>>, facts: FileFacts) -> Option<Seq<char>>
    decreases dirs.len(),
{
    if dirs.len() == 0 {
        None
    } else if is_file_in(facts, std_join(dirs[0], name)) {
        Some(absolute_in(facts, std_join(dirs[0], name)))
    } else {
        spec_find_in_path(name, dirs.drop_first(), facts)
    }
}

/// Where FFmpeg and FFprobe are found. A custom folder is searched alone, first
/// itself and then its folder for the target; otherwise the candidate folders
/// are searched in order, then the `PATH` for each program separately.
pub open spec fn spec_locate(custom_directory: Option<Seq<char>>, env: LocatorEnvironment, facts: FileFacts) -> Result<(Seq<char>, Seq<char>), LocatorErrorView> {
    let platform = spec_platform_of(env.os@);
    match spec_target_directory(env.os@, env.arch@) {
        None => Err(LocatorErrorView::UnsupportedTarget(env.os@, env.arch@)),
        Some(target) => match custom_directory {
            Some(d) => {
                let searched = seq![d, std_join(d, target)];
                match spec_first_binaries(searched, platform, facts) {
                    Some(found) => Ok(found),
                    None => Err(LocatorErrorView::CustomDirectoryIncomplete(
                        d,
                        spec_ffmpeg_file_name(platform),
                        spec_ffprobe_file_name(platform),
                        searched,
                    )),
                }
            },
            None => {
                let dirs = spec_candidate_directories(target, env);
                match spec_first_binaries(dirs, platform, facts) {
                    Some(found) => Ok(found),
                    None => {
                        let system = strings_view(env.system_path@);
                        match (
                            spec_find_in_path(spec_ffmpeg_file_name(platform), system, facts),
                            spec_find_in_path(spec_ffprobe_file_name(platform), system, facts),
                        ) {
                            (Some(ffmpeg), Some(ffprobe)) => Ok((ffmpeg, ffprobe)),
                            _ => Err(LocatorErrorView::NotFound(dirs)),
                        }
                    },
                }
            },
        },
    }
}

fn push_tools_dirs(dirs: &mut Vec<String>, base: &str, target: &str)
    ensures
        strings_view(final(dirs)@) == strings_view(old(dirs)@) + tools_dirs(base@, target@),
{
    let tools = join(base, "tools");
    dirs.push(join(tools.as_str(), target));
    dirs.push(tools);
    assert(strings_view(dirs@) =~= strings_view(old(dirs)@) + tools_dirs(base@, target@));
}

fn push_ancestor_candidates(dirs: &mut Vec<String>, dir: Option<String>, target: &str, n: usize)
    ensures
        strings_view(final(dirs)@) == strings_view(old(dirs)@) + spec_ancestor_candidates(opt_view(dir), target@, n as nat),
    decreases n,
{
    if n == 0 {
        assert(strings_view(dirs@) =~= strings_view(old(dirs)@) + Seq::<Seq<char>>::empty());
        return;
    }
    match dir {
        None => {
            assert(strings_view(dirs@) =~= strings_view(old(dirs)@) + Seq::<Seq<char>>::empty());
        },
        Some(d) => {
            let tools = join(d.as_str(), "tools");
            dirs.push(join(tools.as_str(), target));
            let ghost after_first = strings_view(dirs@);
            let up = parent(d.as_str());
            push_ancestor_candidates(dirs, up, target, n - 1);
            assert(strings_view(dirs@) =~= strings_view(old(dirs)@) + spec_ancestor_candidates(opt_view(Some(d)), target@, n as nat));
        },
    }
}

fn contains_equal_path(kept: &Vec<String>, path: &str) -> (r: bool)
    ensures
        r == exists|k: int| 0 <= k < kept.len() && std_path_eq(path@, #[trigger] kept@[k]@),
{
    let mut k: usize = 0;
    while k < kept.len()
        invariant
            k <= kept.len(),
            forall|j: int| 0 <= j < k ==> !std_path_eq(path@, #[trigger] kept@[j]@),
        decreases kept.len() - k,
    {
        if paths_equal(path, kept[k].as_str()) {
            return true;
        }
        k = k + 1;
    }
    false
}

/// The paths without those equal (as paths) to one kept before them.
pub fn remove_duplicate_paths(paths: Vec<String>) -> (unique: Vec<String>)
    ensures
        strings_view(unique@) == spec_dedup(strings_view(paths@)),
{
    let ghost all = strings_view(paths@);
    let mut unique: Vec<String> = Vec::new();
    let mut i: usize = 0;
    assert(all.take(0) =~= Seq::<Seq<char>>::empty());
    while i < paths.len()
        invariant
            i <= paths.len(),
            all == strings_view(paths@),
            strings_view(unique@) == spec_dedup(all.take(i as int)),
        decreases paths.len() - i,
    {
        let ghost before = strings_view(unique@);
        assert(all.take(i + 1).drop_last() =~= all.take(i as int));
        assert(all.take(i + 1).last() == paths@[i as int]@);
        let seen = contains_equal_path(&unique, paths[i].as_str());
        proof {
            if seen {
                let k = choose|k: int| 0 <= k < unique.len() && std_path_eq(paths@[i as int]@, #[trigger] unique@[k]@);
                assert(std_path_eq(all.take(i + 1).last(), before[k]));
            } else {
                assert forall|k: int| 0 <= k < before.len() implies !std_path_eq(all.take(i + 1).last(), #[trigger] before[k]) by {
                    assert(before[k] == unique@[k]@);
                }
            }
        }
        if !seen {
            unique.push(paths[i].clone());
            assert(strings_view(unique@) =~= before.push(paths@[i as int]@));
        }
        i = i + 1;
    }
    assert(all.take(paths.len() as int) =~= all);
    unique
}

/// The folders searched where no custom folder is configured, in order, without repeats.
pub fn candidate_directories(target: &str, env: &LocatorEnvironment) -> (dirs: Vec<String>)
    ensures
        strings_view(dirs@) == spec_candidate_directories(target@, *env),
{
    let platform = Platform::from_os_name(env.os.as_str());
    let mut candidates: Vec<String> = Vec::new();
    if let Some(d) = &env.override_directory {
        candidates.push(d.clone());
    }
    let ghost overridden = strings_view(candidates@);
    assert(overridden =~= match opt_view(env.override_directory) {
        Some(d) => seq![d],
        None => Seq::<Seq<char>>::empty(),
    });
    if let Some(executable_path) = &env.executable_path {
        if let Some(dir) = parent(executable_path.as_str()) {
            push_tools_dirs(&mut candidates, dir.as_str(), target);
            let ghost with_tools = strings_view(candidates@);
            assert(with_tools == overridden + tools_dirs(dir@, target@));
            let copy = dir.clone();
            assert(copy@ == dir@);
            candidates.push(copy);
            let ghost near = strings_view(candidates@);
            assert(near =~= with_tools.push(dir@));
            push_ancestor_candidates(&mut candidates, Some(dir.clone()), target, 6);
            let ghost with_ancestors = strings_view(candidates@);
            if platform == Platform::MacOs {
                if let Some(contents) = parent(dir.as_str()) {
                    let resources = join(contents.as_str(), "Resources");
                    push_tools_dirs(&mut candidates, resources.as_str(), target);
                }
            }
            assert(strings_view(candidates@) =~= with_ancestors + spec_bundle_candidates(dir@, target@, platform));
            assert(near =~= overridden + tools_dirs(dir@, target@).push(dir@));
        }
    }
    let ghost with_executable = strings_view(candidates@);
    assert(with_executable =~= overridden + spec_executable_candidates(opt_view(env.executable_path), target@, platform));
    if let Some(current) = &env.current_directory {
        push_tools_dirs(&mut candidates, current.as_str(), target);
    }
    assert(strings_view(candidates@) =~= with_executable + match opt_view(env.current_directory) {
        Some(d) => tools_dirs(d, target@),
        None => Seq::<Seq<char>>::empty(),
    });
    remove_duplicate_paths(candidates)
}

fn binaries_in_directory(directory: &str, platform: Platform, facts: &FileFacts) -> (found: Option<FfmpegPaths>)
    ensures
        match found {
            Some(p) => spec_binaries_in(directory@, platform, *facts) == Some(p@),
            None => spec_binaries_in(directory@, platform, *facts) is None,
        },
{
    let ffmpeg = join(directory, ffmpeg_file_name(platform));
    let ffprobe = join(directory, ffprobe_file_name(platform));
    if facts.is_file(ffmpeg.as_str()) && facts.is_file(ffprobe.as_str()) {
        Some(FfmpegPaths { ffmpeg: facts.absolute(ffmpeg.as_str()), ffprobe: facts.absolute(ffprobe.as_str()) })
    } else {
        None
    }
}

fn first_binaries(dirs: &Vec<String>, platform: Platform, facts: &FileFacts) -> (found: Option<FfmpegPaths>)
    ensures
        match found {
            Some(p) => spec_first_binaries(strings_view(dirs@), platform, *facts) == Some(p@),
            None => spec_first_binaries(strings_view(dirs@), platform, *facts) is None,
        },
{
    let ghost all = strings_view(dirs@);
    let mut i: usize = 0;
    assert(all.skip(0) =~= all);
    while i < dirs.len()
        invariant
            i <= dirs.len(),
            all == strings_view(dirs@),
            spec_first_binaries(all, platform, *facts) == spec_first_binaries(all.skip(i as int), platform, *facts),
        decreases dirs.len() - i,
    {
        assert(all.skip(i as int)[0] == dirs@[i as int]@);
        assert(all.skip(i as int).drop_first() =~= all.skip(i + 1));
        match binaries_in_directory(dirs[i].as_str(), platform, facts) {
            Some(found) => return Some(found),
            None => {},
        }
        i = i + 1;
    }
    None
}

fn find_in_path(name: &str, system_path: &Vec<String>, facts: &FileFacts) -> (found: Option<String>)
    ensures
        opt_view(found) == spec_find_in_path(name@, strings_view(system_path@), *facts),
{
    let ghost all = strings_view(system_path@);
    let mut i: usize = 0;
    assert(all.skip(0) =~= all);
    while i < system_path.len()
        invariant
            i <= system_path.len(),
            all == strings_view(system_path@),
            spec_find_in_path(name@, all, *facts) == spec_find_in_path(name@, all.skip(i as int), *facts),
        decreases system_path.len() - i,
    {
        assert(all.skip(i as int)[0] == system_path@[i as int]@);
        assert(all.skip(i as int).drop_first() =~= all.skip(i + 1));
        let candidate = join(system_path[i].as_str(), name);
        if facts.is_file(candidate.as_str()) {
            return Some(facts.absolute(candidate.as_str()));
        }
        i = i + 1;
    }
    None
}

/// Finds FFmpeg and FFprobe from what was read of the environment and the file
/// system: in the custom folder where one is configured, else in the candidate
/// folders, else through `PATH`.
pub fn locate_ffmpeg(custom_directory: &Option<String>, env: &LocatorEnvironment, facts: &FileFacts) -> (r: Result<FfmpegPaths, LocatorError>)
    ensures
        match r {
            Ok(p) => spec_locate(opt_view(*custom_directory), *env, *facts) == Ok::<(Seq<char>, Seq<char>), LocatorErrorView>(p@),
            Err(e) => spec_locate(opt_view(*custom_directory), *env, *facts) == Err::<(Seq<char>, Seq<char>), LocatorErrorView>(e@),
        },
{
    let platform = Platform::from_os_name(env.os.as_str());
    let target = match current_target_directory(env.os.as_str(), env.arch.as_str()) {
        Ok(t) => t,
        Err(e) => return Err(e),
    };
    match custom_directory {
        Some(d) => {
            let searched = vec![d.clone(), join(d.as_str(), target)];
            assert(strings_view(searched@) =~= seq![d@, std_join(d@, target@)]);
            match first_binaries(&searched, platform, facts) {
                Some(found) => Ok(found),
                None => Err(LocatorError::CustomDirectoryIncomplete {
                    directory: d.clone(),
                    ffmpeg_name: ffmpeg_file_name(platform).to_owned(),
                    ffprobe_name: ffprobe_file_name(platform).to_owned(),
                    searched,
                }),
            }
        },
        None => {
            let dirs = candidate_directories(target, env);
            match first_binaries(&dirs, platform, facts) {
                Some(found) => Ok(found),
                None => {
                    let ffmpeg = find_in_path(ffmpeg_file_name(platform), &env.system_path, facts);
                    let ffprobe = find_in_path(ffprobe_file_name(platform), &env.system_path, facts);
                    match (ffmpeg, ffprobe) {
                        (Some(ffmpeg), Some(ffprobe)) => Ok(FfmpegPaths { ffmpeg, ffprobe }),
                        _ => Err(LocatorError::NotFound { searched: dirs }),
                    }
                },
            }
        },
    }
}

/// Both program paths in each folder, folder by folder.
pub open spec fn binary_paths(dirs: Seq<Seq<char>>, platform: Platform) -> Seq<Seq<char>>
    decreases dirs.len(),
{
    if dirs.len() == 0 {
        seq![]
    } else {
        binary_paths(dirs.drop_last(), platform).push(std_join(dirs.last(), spec_ffmpeg_file_name(platform))).push(
            std_join(dirs.last(), spec_ffprobe_file_name(platform)),
        )
    }
}

/// The paths whose facts the search reads: both programs in every folder it
/// may search, the `PATH` folders included where no custom folder is configured.
pub open spec fn spec_paths_to_check(custom_directory: Option<Seq<char>>, env: LocatorEnvironment) -> Seq<Seq<char>> {
    let platform = spec_platform_of(env.os@);
    match spec_target_directory(env.os@, env.arch@) {
        None => seq![],
        Some(target) => match custom_directory {
            Some(d) => binary_paths(seq![d, std_join(d, target)], platform),
            None => binary_paths(spec_candidate_directories(target, env) + strings_view(env.system_path@), platform),
        },
    }
}

fn push_binary_paths(paths: &mut Vec<String>, dirs: &Vec<String>, platform: Platform)
    ensures
        strings_view(final(paths)@) == strings_view(old(paths)@) + binary_paths(strings_view(dirs@), platform),
{
    let ghost start = strings_view(paths@);
    let ghost all = strings_view(dirs@);
    let mut i: usize = 0;
    assert(all.take(0) =~= Seq::<Seq<char>>::empty());
    assert(start + binary_paths(Seq::<Seq<char>>::empty(), platform) =~= start);
    while i < dirs.len()
        invariant
            i <= dirs.len(),
            all == strings_view(dirs@),
            strings_view(paths@) == start + binary_paths(all.take(i as int), platform),
        decreases dirs.len() - i,
    {
        assert(all.take(i + 1).drop_last() =~= all.take(i as int));
        assert(all.take(i + 1).last() == dirs@[i as int]@);
        let ghost prev = strings_view(paths@);
        let ffmpeg = join(dirs[i].as_str(), ffmpeg_file_name(platform));
        let ffprobe = join(dirs[i].as_str(), ffprobe_file_name(platform));
        paths.push(ffmpeg);
        paths.push(ffprobe);
        assert(strings_view(paths@) =~= prev.push(ffmpeg@).push(ffprobe@));
        assert(binary_paths(all.take(i + 1), platform) == binary_paths(all.take(i as int), platform).push(ffmpeg@).push(ffprobe@));
        assert(strings_view(paths@) =~= start + binary_paths(all.take(i + 1), platform));
        i = i + 1;
    }
    assert(all.take(dirs.len() as int) =~= all);
}

/// The paths whose facts `locate_ffmpeg` reads, so that the caller can learn
/// whether each is a regular file and what its canonical form is.
pub fn paths_to_check(custom_directory: &Option<String>, env: &LocatorEnvironment) -> (paths: Vec<String>)
    ensures
        strings_view(paths@) == spec_paths_to_check(opt_view(*custom_directory), *env),
{
    let platform = Platform::from_os_name(env.os.as_str());
    let mut paths: Vec<String> = Vec::new();
    let target = match current_target_directory(env.os.as_str(), env.arch.as_str()) {
        Ok(t) => t,
        Err(_) => {
            assert(strings_view(paths@) =~= Seq::<Seq<char>>::empty());
            return paths;
        },
    };
    match custom_directory {
        Some(d) => {
            let searched = vec![d.clone(), join(d.as_str(), target)];
            assert(strings_view(searched@) =~= seq![d@, std_join(d@, target@)]);
            push_binary_paths(&mut paths, &searched, platform);
        },
        None => {
            let mut dirs = candidate_directories(target, env);
            let ghost first = strings_view(dirs@);
            let mut system = env.system_path.clone();
            assert(strings_view(system@) =~= strings_view(env.system_path@)) by {
                assert(system@ =~= env.system_path@);
            }
            dirs.append(&mut system);
            assert(strings_view(dirs@) =~= first + strings_view(env.system_path@));
            push_binary_paths(&mut paths, &dirs, platform);
        },
    }
    assert(strings_view(paths@) =~= Seq::<Seq<char>>::empty() + strings_view(paths@));
    paths
}

/// The paths as a list, one per line, each after `  - `.
pub open spec fn bullet_lines(paths: Seq<Seq<char>>) -> Seq<char>
    decreases paths.len(),
{
    if paths.len() == 0 {
        seq![]
    } else if paths.len() == 1 {
        "  - "@ + paths[0]
    } else {
        bullet_lines(paths.drop_last()) + "\n  - "@ + paths.last()
    }
}

fn bullets(paths: &Vec<String>) -> (text: String)
    ensures
        text@ == bullet_lines(strings_view(paths@)),
{
    let ghost all = strings_view(paths@);
    let mut text = String::new();
    let mut i: usize = 0;
    assert(all.take(0) =~= Seq::<Seq<char>>::empty());
    while i < paths.len()
        invariant
            i <= paths.len(),
            all == strings_view(paths@),
            text@ == bullet_lines(all.take(i as int)),
        decreases paths.len() - i,
    {
        assert(all.take(i + 1).drop_last() =~= all.take(i as int));
        assert(all.take(i + 1).last() == paths@[i as int]@);
        if i > 0 {
            push_str(&mut text, "\n  - ");
        } else {
            push_str(&mut text, "  - ");
        }
        push_str(&mut text, paths[i].as_str());
        proof {
            if i == 0 {
                assert(all.take(1)[0] == paths@[0]@);
                assert(text@ =~= bullet_lines(all.take(1)));
            } else {
                assert(text@ =~= bullet_lines(all.take(i + 1)));
            }
        }
        i = i + 1;
    }
    assert(all.take(paths.len() as int) =~= all);
    text
}

/// The message shown for a locator error.
pub open spec fn spec_locator_message(e: LocatorErrorView) -> Seq<char> {
    match e {
        LocatorErrorView::UnsupportedTarget(os, arch) => "BurnSubs does not currently support target "@ + os + "-"@ + arch + "."@,
        LocatorErrorView::CustomDirectoryIncomplete(d, ffmpeg, ffprobe, searched) => "The custom FFmpeg folder '"@ + d
            + "' does not contain both "@ + ffmpeg + " and "@ + ffprobe + ".\nSearched:\n"@ + bullet_lines(searched),
        LocatorErrorView::NotFound(searched) => "Could not locate FFmpeg and FFprobe.\nExpected both binaries in one of these directories:\n"@
            + bullet_lines(searched) + "\nOr available through the system PATH."@,
        LocatorErrorView::FfmpegMissing(p) => "FFmpeg binary does not exist: "@ + p,
        LocatorErrorView::FfprobeMissing(p) => "FFprobe binary does not exist: "@ + p,
        LocatorErrorView::FfmpegInaccessible(p) => "Could not access FFmpeg binary: "@ + p,
        LocatorErrorView::FfprobeInaccessible(p) => "Could not access FFprobe binary: "@ + p,
    }
}

impl LocatorError {
    /// The message shown for the error.
    pub fn message(&self) -> (text: String)
        ensures
            text@ == spec_locator_message(self@),
    {
        let mut text = String::new();
        match self {
            LocatorError::UnsupportedTarget { os, arch } => {
                push_str(&mut text, "BurnSubs does not currently support target ");
                push_str(&mut text, os.as_str());
                push_str(&mut text, "-");
                push_str(&mut text, arch.as_str());
                push_str(&mut text, ".");
            },
            LocatorError::CustomDirectoryIncomplete { directory, ffmpeg_name, ffprobe_name, searched } => {
                push_str(&mut text, "The custom FFmpeg folder '");
                push_str(&mut text, directory.as_str());
                push_str(&mut text, "' does not contain both ");
                push_str(&mut text, ffmpeg_name.as_str());
                push_str(&mut text, " and ");
                push_str(&mut text, ffprobe_name.as_str());
                push_str(&mut text, ".\nSearched:\n");
                let list = bullets(searched);
                push_str(&mut text, list.as_str());
            },
            LocatorError::NotFound { searched } => {
                push_str(&mut text, "Could not locate FFmpeg and FFprobe.\nExpected both binaries in one of these directories:\n");
                let list = bullets(searched);
                push_str(&mut text, list.as_str());
                push_str(&mut text, "\nOr available through the system PATH.");
            },
            LocatorError::FfmpegMissing(p) => {
                push_str(&mut text, "FFmpeg binary does not exist: ");
                push_str(&mut text, p.as_str());
            },
            LocatorError::FfprobeMissing(p) => {
                push_str(&mut text, "FFprobe binary does not exist: ");
                push_str(&mut text, p.as_str());
            },
            LocatorError::FfmpegInaccessible(p) => {
                push_str(&mut text, "Could not access FFmpeg binary: ");
                push_str(&mut text, p.as_str());
            },
            LocatorError::FfprobeInaccessible(p) => {
                push_str(&mut text, "Could not access FFprobe binary: ");
                push_str(&mut text, p.as_str());
            },
        }
        assert(text@ =~= spec_locator_message(self@));
        text
    }
}

/// Checks that both programs are regular files that can be resolved, FFmpeg first.
pub fn validate_binary_files(paths: &FfmpegPaths, facts: &FileFacts) -> (r: Result<(), LocatorError>)
    ensures
        r is Ok <==> (is_file_in(*facts, paths.ffmpeg@) && is_file_in(*facts, paths.ffprobe@)
            && canonical_in(*facts, paths.ffmpeg@) is Some && canonical_in(*facts, paths.ffprobe@) is Some),
        match r {
            Ok(_) => is_file_in(*facts, paths.ffmpeg@) && is_file_in(*facts, paths.ffprobe@)
                && canonical_in(*facts, paths.ffmpeg@) is Some && canonical_in(*facts, paths.ffprobe@) is Some,
            Err(e) => e@ == if !is_file_in(*facts, paths.ffmpeg@) {
                LocatorErrorView::FfmpegMissing(paths.ffmpeg@)
            } else if !is_file_in(*facts, paths.ffprobe@) {
                LocatorErrorView::FfprobeMissing(paths.ffprobe@)
            } else if canonical_in(*facts, paths.ffmpeg@) is None {
                LocatorErrorView::FfmpegInaccessible(paths.ffmpeg@)
            } else {
                LocatorErrorView::FfprobeInaccessible(paths.ffprobe@)
            },
        },
{
    if !facts.is_file(paths.ffmpeg.as_str()) {
        return Err(LocatorError::FfmpegMissing(paths.ffmpeg.clone()));
    }
    if !facts.is_file(paths.ffprobe.as_str()) {
        return Err(LocatorError::FfprobeMissing(paths.ffprobe.clone()));
    }
    if facts.canonical(paths.ffmpeg.as_str()).is_none() {
        return Err(LocatorError::FfmpegInaccessible(paths.ffmpeg.clone()));
    }
    if facts.canonical(paths.ffprobe.as_str()).is_none() {
        return Err(LocatorError::FfprobeInaccessible(paths.ffprobe.clone()));
    }
    Ok(())
}

/// Two sets of facts say the same of a path.
pub open spec fn facts_agree(a: FileFacts, b: FileFacts, path: Seq<char>) -> bool {
    is_file_in(a, path) == is_file_in(b, path) && canonical_in(a, path) == canonical_in(b, path)
}

proof fn lemma_binary_paths_contains(dirs: Seq<Seq<char>>, platform: Platform, i: int)
    requires
        0 <= i < dirs.len(),
    ensures
        binary_paths(dirs, platform).contains(std_join(dirs[i], spec_ffmpeg_file_name(platform))),
        binary_paths(dirs, platform).contains(std_join(dirs[i], spec_ffprobe_file_name(platform))),
    decreases dirs.len(),
{
    let all = binary_paths(dirs, platform);
    let n = all.len();
    let rest = binary_paths(dirs.drop_last(), platform);
    assert(all.len() == rest.len() + 2);
    if i == dirs.len() - 1 {
        assert(all[n - 2] == std_join(dirs[i], spec_ffmpeg_file_name(platform)));
        assert(all[n - 1] == std_join(dirs[i], spec_ffprobe_file_name(platform)));
    } else {
        lemma_binary_paths_contains(dirs.drop_last(), platform, i);
        let a = choose|k: int| 0 <= k < rest.len() && rest[k] == std_join(dirs[i], spec_ffmpeg_file_name(platform));
        let b = choose|k: int| 0 <= k < rest.len() && rest[k] == std_join(dirs[i], spec_ffprobe_file_name(platform));
        assert(all[a] == rest[a]);
        assert(all[b] == rest[b]);
    }
}

proof fn lemma_first_binaries_agree(dirs: Seq<Seq<char>>, platform: Platform, a: FileFacts, b: FileFacts)
    requires
        forall|i: int| 0 <= i < dirs.len() ==> facts_agree(a, b, std_join(#[trigger] dirs[i], spec_ffmpeg_file_name(platform)))
            && facts_agree(a, b, std_join(dirs[i], spec_ffprobe_file_name(platform))),
    ensures
        spec_first_binaries(dirs, platform, a) == spec_first_binaries(dirs, platform, b),
    decreases dirs.len(),
{
    if dirs.len() > 0 {
        assert(facts_agree(a, b, std_join(dirs[0], spec_ffmpeg_file_name(platform))));
        let rest = dirs.drop_first();
        assert forall|i: int| 0 <= i < rest.len() implies facts_agree(a, b, std_join(#[trigger] rest[i], spec_ffmpeg_file_name(platform)))
            && facts_agree(a, b, std_join(rest[i], spec_ffprobe_file_name(platform))) by {
            assert(rest[i] == dirs[i + 1]);
        }
        lemma_first_binaries_agree(rest, platform, a, b);
    }
}

proof fn lemma_find_in_path_agree(name: Seq<char>, dirs: Seq<Seq<char>>, a: FileFacts, b: FileFacts)
    requires
        forall|i: int| 0 <= i < dirs.len() ==> facts_agree(a, b, std_join(#[trigger] dirs[i], name)),
    ensures
        spec_find_in_path(name, dirs, a) == spec_find_in_path(name, dirs, b),
    decreases dirs.len(),
{
    if dirs.len() > 0 {
        assert(facts_agree(a, b, std_join(dirs[0], name)));
        let rest = dirs.drop_first();
        assert forall|i: int| 0 <= i < rest.len() implies facts_agree(a, b, std_join(#[trigger] rest[i], name)) by {
            assert(rest[i] == dirs[i + 1]);
        }
        lemma_find_in_path_agree(name, rest, a, b);
    }
}

/// The search reads nothing of the file system but the paths that
/// `paths_to_check` lists: two sets of facts that agree on those paths give
/// the same result.
pub proof fn law_locate_reads_only_listed_paths(
    custom_directory: Option<Seq<char>>,
    env: LocatorEnvironment,
    a: FileFacts,
    b: FileFacts,
)
    requires
        forall|p: Seq<char>| spec_paths_to_check(custom_directory, env).contains(p) ==> #[trigger] facts_agree(a, b, p),
    ensures
        spec_locate(custom_directory, env, a) == spec_locate(custom_directory, env, b),
{
    let platform = spec_platform_of(env.os@);
    if let Some(target) = spec_target_directory(env.os@, env.arch@) {
        let ffmpeg = spec_ffmpeg_file_name(platform);
        let ffprobe = spec_ffprobe_file_name(platform);
        match custom_directory {
            Some(d) => {
                let dirs = seq![d, std_join(d, target)];
                assert forall|i: int| 0 <= i < dirs.len() implies facts_agree(a, b, std_join(#[trigger] dirs[i], ffmpeg))
                    && facts_agree(a, b, std_join(dirs[i], ffprobe)) by {
                    lemma_binary_paths_contains(dirs, platform, i);
                }
                lemma_first_binaries_agree(dirs, platform, a, b);
            },
            None => {
                let cands = spec_candidate_directories(target, env);
                let system = strings_view(env.system_path@);
                let dirs = cands + system;
                assert forall|i: int| 0 <= i < cands.len() implies facts_agree(a, b, std_join(#[trigger] cands[i], ffmpeg))
                    && facts_agree(a, b, std_join(cands[i], ffprobe)) by {
                    assert(dirs[i] == cands[i]);
                    lemma_binary_paths_contains(dirs, platform, i);
                }
                lemma_first_binaries_agree(cands, platform, a, b);
                assert forall|i: int| 0 <= i < system.len() implies facts_agree(a, b, std_join(#[trigger] system[i], ffmpeg))
                    && facts_agree(a, b, std_join(system[i], ffprobe)) by {
                    assert(dirs[cands.len() + i] == system[i]);
                    lemma_binary_paths_contains(dirs, platform, cands.len() + i);
                }
                lemma_find_in_path_agree(ffmpeg, system, a, b);
                lemma_find_in_path_agree(ffprobe, system, a, b);
            },
        }
    }
}

/// De-duplication leaves no path equal to one kept before it, and every path
/// of the input is kept or equals (as a path) one that is kept; the kept paths
/// are taken from the input in order.
pub proof fn law_dedup_leaves_no_duplicates(s: Seq<Seq<char>>)
    ensures
        forall|i: int, j: int| 0 <= i < j < spec_dedup(s).len()
            ==> !std_path_eq(#[trigger] spec_dedup(s)[j], #[trigger] spec_dedup(s)[i]),
        forall|i: int| 0 <= i < s.len() ==> exists|k: int|
            0 <= k < spec_dedup(s).len() && (spec_dedup(s)[k] == #[trigger] s[i] || std_path_eq(s[i], spec_dedup(s)[k])),
        spec_dedup(s).len() <= s.len(),
        forall|k: int| 0 <= k < spec_dedup(s).len() ==> s.contains(#[trigger] spec_dedup(s)[k]),
    decreases s.len(),
{
    if s.len() > 0 {
        let rest = s.drop_last();
        law_dedup_leaves_no_duplicates(rest);
        let kept = spec_dedup(rest);
        let d = spec_dedup(s);
        let last = s.last();
        assert forall|i: int| 0 <= i < s.len() implies exists|k: int|
            0 <= k < d.len() && (d[k] == #[trigger] s[i] || std_path_eq(s[i], d[k])) by {
            if i < rest.len() {
                assert(s[i] == rest[i]);
                let k = choose|k: int| 0 <= k < kept.len() && (kept[k] == rest[i] || std_path_eq(rest[i], kept[k]));
                assert(d[k] == kept[k]);
            } else if exists|k: int| 0 <= k < kept.len() && std_path_eq(last, #[trigger] kept[k]) {
                let k = choose|k: int| 0 <= k < kept.len() && std_path_eq(last, #[trigger] kept[k]);
                assert(d[k] == kept[k]);
            } else {
                assert(d[kept.len() as int] == last);
            }
        }
        assert forall|k: int| 0 <= k < d.len() implies s.contains(#[trigger] d[k]) by {
            if k < kept.len() {
                assert(d[k] == kept[k]);
                assert(rest.contains(kept[k]));
                let j = choose|j: int| 0 <= j < rest.len() && rest[j] == kept[k];
                assert(s[j] == rest[j]);
            } else {
                assert(s[s.len() - 1] == last);
            }
        }
        assert forall|i: int, j: int| 0 <= i < j < d.len() implies !std_path_eq(#[trigger] d[j], #[trigger] d[i]) by {
            if j < kept.len() {
                assert(d[i] == kept[i] && d[j] == kept[j]);
            } else {
                assert(d[i] == kept[i]);
            }
        }
    }
}

} // verus!
