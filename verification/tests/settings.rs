use burnsubs::model::{AccelerationPreference, AppMode, OutputFormat, QualityPreset};
use burnsubs::settings::{settings_file_path, AppSettings, SettingsError};

#[test]
fn default_settings() {
    let settings = AppSettings::default();
    assert_eq!(settings.selected_mode, AppMode::Single);
    assert_eq!(settings.prefix, "");
    assert_eq!(settings.postfix, "_hardsub");
    assert_eq!(settings.output_format, OutputFormat::Mp4);
    assert_eq!(settings.quality, QualityPreset::Balanced);
    assert_eq!(settings.acceleration, AccelerationPreference::Auto);
    assert!(!settings.overwrite_existing);
    assert!(settings.custom_ffmpeg_directory.is_none());
}

#[test]
fn settings_file_lies_in_the_config_folder() {
    assert_eq!(
        settings_file_path(&Some("/home/u/.config/BurnSubs".to_owned())).unwrap(),
        "/home/u/.config/BurnSubs/settings.json"
    );
    assert_eq!(
        settings_file_path(&None).unwrap_err().message(),
        "Could not determine the application settings directory"
    );
}

#[test]
fn missing_file_loads_defaults() {
    let settings = AppSettings::load(None).unwrap();
    assert_eq!(settings.postfix, "_hardsub");

    let mut stored = AppSettings::default();
    stored.prefix = "custom_".to_owned();
    assert_eq!(AppSettings::load(Some(Ok(stored))).unwrap().prefix, "custom_");

    let error = AppSettings::load(Some(Err(SettingsError::InvalidJson { path: "/s.json".to_owned() }))).unwrap_err();
    assert_eq!(error.message(), "Settings file contains invalid JSON: /s.json");
}

#[test]
fn failed_load_uses_defaults() {
    let loaded = AppSettings::load_or_default(Err(SettingsError::Unreadable { path: "/s.json".to_owned() }));
    assert_eq!(loaded.quality, QualityPreset::Balanced);
    let mut stored = AppSettings::default();
    stored.quality = QualityPreset::High;
    assert_eq!(AppSettings::load_or_default(Ok(stored)).quality, QualityPreset::High);
}

#[test]
fn save_writes_a_temporary_file_first() {
    let plan = AppSettings::default().save("/cfg/settings.json").unwrap();
    assert_eq!(plan.directory, "/cfg");
    assert_eq!(plan.temporary_path, "/cfg/settings.json.tmp");
    assert_eq!(plan.settings_path, "/cfg/settings.json");
    assert_eq!(
        AppSettings::default().save("/").unwrap_err().message(),
        "Settings path does not have a parent directory"
    );
}
