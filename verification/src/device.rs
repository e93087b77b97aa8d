//! The render device VA-API encodes on, and the FFmpeg options that name it.
//! The program that runs FFmpeg reads the environment variable and lists the
//! device folder; the choice is made here.

use crate::acceleration::VideoEncoder;
use crate::model::Platform;
use crate::order::{chars_less, key_lt};
use crate::paths::{exists_in, file_name, opt_view, std_file_name, FileFacts};
use crate::text::{chars_of, push_str, strings_view};
use vstd::prelude::*;

verus! {

/// What the device choice reads: the platform, the device named by
/// `BURNSUBS_VAAPI_DEVICE`, and the entries of `/dev/dri` (none where the
/// folder could not be read).
#[derive(Debug, Clone)]
pub struct DeviceEnvironment {
    pub platform: Platform,
    pub configured_device: Option<String>,
    pub render_directory_entries: Option<Vec<String>>,
}

/// Why no VA-API device could be chosen.
#[derive(Debug, Clone)]
pub enum DeviceError {
    ConfiguredMissing { path: String },
    DirectoryUnavailable,
    NoRenderDevice,
    UnsupportedPlatform,
}

/// The message shown for a device error.
pub open spec fn spec_device_message(e: DeviceError) -> Seq<char> {
    match e {
        DeviceError::ConfiguredMissing { path } => "Configured VA-API device does not exist: "@ + path@,
        DeviceError::DirectoryUnavailable => "VA-API device directory /dev/dri is unavailable"@,
        DeviceError::NoRenderDevice => "No VA-API render device was found in /dev/dri"@,
        DeviceError::UnsupportedPlatform => "VA-API encoding is only supported on Linux by BurnSubs"@,
    }
}

impl DeviceError {
    /// The message shown for the error.
    pub fn message(&self) -> (text: String)
        ensures
            text@ == spec_device_message(*self),
    {
        match self {
            DeviceError::ConfiguredMissing { path } => {
                let mut text = "Configured VA-API device does not exist: ".to_owned();
                push_str(&mut text, path.as_str());
                text
            },
            DeviceError::DirectoryUnavailable => "VA-API device directory /dev/dri is unavailable".to_owned(),
            DeviceError::NoRenderDevice => "No VA-API render device was found in /dev/dri".to_owned(),
            DeviceError::UnsupportedPlatform => "VA-API encoding is only supported on Linux by BurnSubs".to_owned(),
        }
    }
}

/// A path whose file name starts with `renderD`.
pub open spec fn is_render_node(path: Seq<char>) -> bool {
    match std_file_name(path) {
        Some(name) => name.len() >= 7 && name.take(7) == "renderD"@,
        None => false,
    }
}

/// The render node that comes first in path order, the earliest of equal ones.
/// The entries lie in one folder, where path order is the order of the text.
pub open spec fn first_render_node(entries: Seq<Seq<char>>) -> Option<Seq<char>>
    decreases entries.len(),
{
    if entries.len() == 0 {
        None
    } else {
        let rest = first_render_node(entries.drop_first());
        if !is_render_node(entries[0]) {
            rest
        } else {
            match rest {
                Some(r) => if key_lt(r, entries[0]) {
                    Some(r)
                } else {
                    Some(entries[0])
                },
                None => Some(entries[0]),
            }
        }
    }
}

/// The device chosen: the configured one where it exists (an error where it
/// does not); otherwise, on Linux only, the first render node of `/dev/dri`.
pub open spec fn spec_find_vaapi_device(env: DeviceEnvironment, facts: FileFacts) -> Result<Seq<char>, DeviceError> {
    match env.configured_device {
        Some(p) => if exists_in(facts, p@) {
            Ok(p@)
        } else {
            Err(DeviceError::ConfiguredMissing { path: p })
        },
        None => if env.platform != Platform::Linux {
            Err(DeviceError::UnsupportedPlatform)
        } else {
            match env.render_directory_entries {
                None => Err(DeviceError::DirectoryUnavailable),
                Some(entries) => match first_render_node(strings_view(entries@)) {
                    Some(d) => Ok(d),
                    None => Err(DeviceError::NoRenderDevice),
                },
            }
        },
    }
}

fn starts_with_render(path: &str) -> (r: bool)
    ensures
        r == is_render_node(path@),
{
    match file_name(path) {
        None => false,
        Some(name) => {
            let chars = chars_of(name.as_str());
            if chars.len() < 7 {
                return false;
            }
            let prefix = chars_of("renderD");
            proof {
                reveal_strlit("renderD");
            }
            assert(prefix@.len() == 7);
            let mut i: usize = 0;
            while i < 7
                invariant
                    i <= 7,
                    chars.len() >= 7,
                    prefix@ == "renderD"@,
                    prefix@.len() == 7,
                    chars@ == name@,
                    std_file_name(path@) == Some(name@),
                    chars@.take(i as int) == prefix@.take(i as int),
                decreases 7 - i,
            {
                if chars[i] != prefix[i] {
                    assert(chars@.take(7)[i as int] != "renderD"@[i as int]);
                    return false;
                }
                assert(chars@.take(i + 1) =~= chars@.take(i as int).push(chars@[i as int]));
                assert(prefix@.take(i + 1) =~= prefix@.take(i as int).push(prefix@[i as int]));
                i = i + 1;
            }
            assert(prefix@.take(7) =~= prefix@);
            true
        },
    }
}

fn first_render_in(entries: &Vec<String>, from: usize) -> (r: Option<String>)
    requires
        from <= entries.len(),
    ensures
        opt_view(r) == first_render_node(strings_view(entries@).skip(from as int)),
    decreases entries.len() - from,
{
    let ghost all = strings_view(entries@);
    if from == entries.len() {
        assert(all.skip(from as int) =~= Seq::<Seq<char>>::empty());
        return None;
    }
    assert(all.skip(from as int).drop_first() =~= all.skip(from + 1));
    assert(all.skip(from as int)[0] == entries@[from as int]@);
    let rest = first_render_in(entries, from + 1);
    let here = entries[from].as_str();
    if !starts_with_render(here) {
        return rest;
    }
    match rest {
        Some(r) => {
            if chars_less(&chars_of(r.as_str()), &chars_of(here)) {
                Some(r)
            } else {
                Some(entries[from].clone())
            }
        },
        None => Some(entries[from].clone()),
    }
}

/// Chooses the VA-API device from what was read of the environment and `/dev/dri`.
pub fn find_vaapi_device(env: &DeviceEnvironment, facts: &FileFacts) -> (r: Result<String, DeviceError>)
    ensures
        match r {
            Ok(d) => spec_find_vaapi_device(*env, *facts) == Ok::<Seq<char>, DeviceError>(d@),
            Err(e) => spec_find_vaapi_device(*env, *facts) == Err::<Seq<char>, DeviceError>(e),
        },
{
    match &env.configured_device {
        Some(p) => {
            if facts.path_exists(p.as_str()) {
                Ok(p.clone())
            } else {
                Err(DeviceError::ConfiguredMissing { path: p.clone() })
            }
        },
        None => {
            if env.platform != Platform::Linux {
                return Err(DeviceError::UnsupportedPlatform);
            }
            match &env.render_directory_entries {
                None => Err(DeviceError::DirectoryUnavailable),
                Some(entries) => {
                    assert(strings_view(entries@).skip(0) =~= strings_view(entries@));
                    match first_render_in(entries, 0) {
                        Some(d) => Ok(d),
                        None => Err(DeviceError::NoRenderDevice),
                    }
                },
            }
        },
    }
}

/// The FFmpeg options that name the device an encoder needs: `-vaapi_device`
/// and the chosen device for VA-API, none for the others.
pub fn configure_device(encoder: VideoEncoder, env: &DeviceEnvironment, facts: &FileFacts) -> (r: Result<Vec<String>, DeviceError>)
    ensures
        encoder != VideoEncoder::Vaapi ==> (r matches Ok(args) && args@.len() == 0),
        encoder == VideoEncoder::Vaapi ==> match (r, spec_find_vaapi_device(*env, *facts)) {
            (Ok(args), Ok(d)) => strings_view(args@) == seq!["-vaapi_device"@, d],
            (Err(e), Err(f)) => e == f,
            _ => false,
        },
{
    if encoder != VideoEncoder::Vaapi {
        return Ok(Vec::new());
    }
    match find_vaapi_device(env, facts) {
        Ok(device) => {
            let args = vec!["-vaapi_device".to_owned(), device];
            assert(strings_view(args@) =~= seq!["-vaapi_device"@, args@[1]@]);
            Ok(args)
        },
        Err(e) => Err(e),
    }
}

} // verus!
