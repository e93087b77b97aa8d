use burnsubs::acceleration::VideoEncoder;
use burnsubs::device::{configure_device, find_vaapi_device, DeviceEnvironment, DeviceError};
use burnsubs::model::Platform;
use burnsubs::paths::FileFacts;

fn no_facts() -> FileFacts {
    FileFacts { regular_files: Vec::new(), directories: Vec::new(), other_entries: Vec::new(), canonical: Vec::new() }
}

#[test]
fn picks_first_render_node() {
    let env = DeviceEnvironment {
        platform: Platform::Linux,
        configured_device: None,
        render_directory_entries: Some(vec![
            "/dev/dri/card0".to_owned(),
            "/dev/dri/renderD129".to_owned(),
            "/dev/dri/renderD128".to_owned(),
        ]),
    };
    assert_eq!(find_vaapi_device(&env, &no_facts()).unwrap(), "/dev/dri/renderD128");
    assert_eq!(
        configure_device(VideoEncoder::Vaapi, &env, &no_facts()).unwrap(),
        vec!["-vaapi_device", "/dev/dri/renderD128"]
    );
    assert!(configure_device(VideoEncoder::NvidiaNvenc, &env, &no_facts()).unwrap().is_empty());
}

#[test]
fn configured_device_must_exist() {
    let env = DeviceEnvironment {
        platform: Platform::Windows,
        configured_device: Some("/dev/dri/renderD130".to_owned()),
        render_directory_entries: None,
    };
    assert_eq!(
        find_vaapi_device(&env, &no_facts()).unwrap_err().message(),
        "Configured VA-API device does not exist: /dev/dri/renderD130"
    );
    let mut facts = no_facts();
    facts.other_entries.push("/dev/dri/renderD130".to_owned());
    assert_eq!(find_vaapi_device(&env, &facts).unwrap(), "/dev/dri/renderD130");
}

#[test]
fn device_errors() {
    let mut env = DeviceEnvironment { platform: Platform::MacOs, configured_device: None, render_directory_entries: None };
    assert!(matches!(find_vaapi_device(&env, &no_facts()), Err(DeviceError::UnsupportedPlatform)));
    env.platform = Platform::Linux;
    assert_eq!(
        find_vaapi_device(&env, &no_facts()).unwrap_err().message(),
        "VA-API device directory /dev/dri is unavailable"
    );
    env.render_directory_entries = Some(vec!["/dev/dri/card0".to_owned()]);
    assert_eq!(
        find_vaapi_device(&env, &no_facts()).unwrap_err().message(),
        "No VA-API render device was found in /dev/dri"
    );
}
