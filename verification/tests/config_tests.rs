use nanite_clip::config::{
    default_capture_backend, legacy_audio_source_kind_from_value, AppUpdateConfig,
    AudioSourceKind, CaptureBackend, GsrBackendConfig, ManualClipConfig, StorageTieringConfig,
    UpdateChannel,
};
use nanite_clip::platform::Platform;

#[test]
fn legacy_audio_source_rows_migrate_to_typed_kinds() {
    assert_eq!(
        legacy_audio_source_kind_from_value("app:PlanetSide2", Platform::Linux),
        AudioSourceKind::Application {
            name: "PlanetSide2".into()
        }
    );
    assert_eq!(
        legacy_audio_source_kind_from_value("app-inverse:Spotify", Platform::Linux),
        AudioSourceKind::ApplicationInverse {
            names: vec!["Spotify".into()]
        }
    );
    assert_eq!(
        legacy_audio_source_kind_from_value("device:alsa_output.pci.monitor|default_input", Platform::Linux),
        AudioSourceKind::Merged {
            entries: vec![
                AudioSourceKind::Device {
                    name: "alsa_output.pci.monitor".into()
                },
                AudioSourceKind::DefaultInput,
            ]
        }
    );
}

#[test]
fn unknown_capture_backend_falls_back_to_platform_default() {
    assert_eq!(CaptureBackend::from_config_value("mystery", Platform::Windows), CaptureBackend::Obs);
    assert_eq!(CaptureBackend::from_config_value("mystery", Platform::Linux), CaptureBackend::Gsr);
    assert_eq!(default_capture_backend(Platform::Windows), CaptureBackend::Obs);
}

#[test]
fn update_config_normalize_trims_and_dedupes_version_history() {
    let mut updates = AppUpdateConfig::default();
    updates.install_id = Some(" install-a ".into());
    updates.current_version = Some(" 1.4.0 ".into());
    updates.installed_version_history = vec![
        " 1.4.0 ".into(),
        "1.3.0".into(),
        " 1.2.0 ".into(),
        "1.3.0".into(),
        "".into(),
        "1.1.0".into(),
        "1.0.0".into(),
        "0.9.0".into(),
        "0.8.0".into(),
        "0.7.0".into(),
        "0.6.0".into(),
        "0.5.0".into(),
        "0.4.0".into(),
    ];

    updates.normalize(1_700_000_000);

    assert_eq!(updates.install_id.as_deref(), Some("install-a"));
    assert_eq!(updates.current_version.as_deref(), Some("1.4.0"));
    assert_eq!(
        updates.installed_version_history,
        vec![
            "1.3.0", "1.2.0", "1.1.0", "1.0.0", "0.9.0", "0.8.0", "0.7.0", "0.6.0", "0.5.0",
            "0.4.0",
        ]
    );
}

#[test]
fn update_config_generates_install_id_once() {
    let mut updates = AppUpdateConfig::default();

    assert!(updates.ensure_install_id("seed-a"));
    let install_id = updates.install_id.clone();
    assert!(install_id.is_some());
    assert!(!updates.ensure_install_id("seed-b"));
    assert_eq!(updates.install_id, install_id);
}

#[test]
fn install_id_is_the_hex_digest_of_the_seed() {
    let mut updates = AppUpdateConfig::default();
    assert!(updates.ensure_install_id("abc"));
    assert_eq!(
        updates.install_id.as_deref(),
        Some("ba7816bf8f01cfea414140de5dae2223b00361a396177a9cb410ff61f20015ad")
    );
    let mut blank = AppUpdateConfig::default();
    blank.install_id = Some("   ".into());
    assert!(blank.ensure_install_id("abc"));
}

#[test]
fn expired_reminders_are_forgotten() {
    let mut updates = AppUpdateConfig::default();
    updates.remind_later_version = Some(" 2.0.0 ".into());
    updates.remind_later_until_utc = Some(100);
    updates.normalize(50);
    assert_eq!(updates.remind_later_version.as_deref(), Some("2.0.0"));
    assert_eq!(updates.remind_later_until_utc, Some(100));
    updates.normalize(100);
    assert_eq!(updates.remind_later_version, None);
    assert_eq!(updates.remind_later_until_utc, None);
    assert_eq!(updates.channel, UpdateChannel::Stable);
}

#[test]
fn manual_clip_settings_are_clamped() {
    let mut manual = ManualClipConfig {
        enabled: true,
        hotkey: "   ".into(),
        duration_secs: 1,
    };
    manual.normalize();
    assert_eq!(manual.hotkey, "Ctrl+Shift+F8");
    assert_eq!(manual.duration_secs, 5);
    manual.duration_secs = 1000;
    manual.normalize();
    assert_eq!(manual.duration_secs, 300);
}

#[test]
fn gsr_settings_reset_screen_capture() {
    let mut gsr = GsrBackendConfig {
        capture_source: "screen".into(),
        framerate: 60,
        codec: " ".into(),
        container: " mp4 ".into(),
        quality: "".into(),
    };
    gsr.normalize();
    assert_eq!(gsr.capture_source, "planetside2");
    assert_eq!(gsr.codec, "h264");
    assert_eq!(gsr.container, "mp4");
    assert_eq!(gsr.quality, "40000");
}

#[test]
fn storage_tiering_keeps_given_directory() {
    let mut tiering = StorageTieringConfig {
        enabled: true,
        tier_directory: "/archive".into(),
        min_age_days: 0,
        max_score: 20_000,
    };
    tiering.normalize();
    assert_eq!(tiering.tier_directory, "/archive");
    assert_eq!(tiering.min_age_days, 1);
    assert_eq!(tiering.max_score, 10_000);

    let mut empty = StorageTieringConfig {
        enabled: false,
        tier_directory: String::new(),
        min_age_days: 7,
        max_score: 50,
    };
    empty.normalize_with_default("/clips/archive".into());
    assert_eq!(empty.tier_directory, "/clips/archive");
}

#[test]
fn audio_sources_normalise_and_render() {
    let mut kind = AudioSourceKind::ApplicationInverse {
        names: vec![" Spotify ".into(), "spotify".into(), "".into(), "Discord".into()],
    };
    kind.normalize();
    assert_eq!(
        kind,
        AudioSourceKind::ApplicationInverse {
            names: vec!["Spotify".into(), "Discord".into()]
        }
    );
    assert_eq!(kind.config_display_value(), "app-inverse:Spotify");
}

#[test]
fn default_directories_end_in_the_application_folder() {
    let save = nanite_clip::config::default_save_directory();
    assert!(save.ends_with("nanite-clip"));
    let archive = nanite_clip::config::default_storage_tiering_directory();
    assert!(archive.ends_with("nanite-clip/archive"));
    let tiering = StorageTieringConfig::default();
    assert_eq!(tiering.min_age_days, 7);
    assert_eq!(tiering.max_score, 50);
}
