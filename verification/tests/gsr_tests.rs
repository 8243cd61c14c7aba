use nanite_clip::capture::{
    AudioSourceError, CaptureError, CaptureTarget, DiscoveredAudioKind, DiscoveredAudioSource,
};
use nanite_clip::config::{AudioSourceKind, GsrBackendConfig};
use nanite_clip::gsr::{
    gsr_replay_args,
    finalize_pipewire_application_sources, join_unix_path, merge_gsr_and_native_application_audio,
    nearest_ceiling_preset, parse_audio_discovery_output, resolve_saved_path_with_home,
    translate_kind_to_gsr,
};

#[test]
fn translates_typed_audio_sources_to_gsr_args() {
    assert_eq!(
        translate_kind_to_gsr(&AudioSourceKind::DefaultOutput, "gsr").unwrap(),
        "default_output"
    );
    assert_eq!(
        translate_kind_to_gsr(
            &AudioSourceKind::Device {
                name: "alsa_output.monitor".into(),
            },
            "gsr",
        )
        .unwrap(),
        "device:alsa_output.monitor"
    );
    assert_eq!(
        translate_kind_to_gsr(
            &AudioSourceKind::Application {
                name: "PlanetSide2".into(),
            },
            "gsr",
        )
        .unwrap(),
        "app:PlanetSide2"
    );
}

#[test]
fn rejects_multi_name_application_inverse_for_gsr() {
    let error = translate_kind_to_gsr(
        &AudioSourceKind::ApplicationInverse {
            names: vec!["A".into(), "B".into()],
        },
        "gsr",
    )
    .unwrap_err();

    assert!(matches!(error, AudioSourceError::Unsupported { .. }));
}

#[test]
fn rejects_wrong_backend_raw_audio_source() {
    let error = translate_kind_to_gsr(
        &AudioSourceKind::Raw {
            backend_id: "wasapi".into(),
            value: "session:123".into(),
        },
        "gsr",
    )
    .unwrap_err();

    assert!(matches!(error, AudioSourceError::WrongBackend { .. }));
}

#[test]
fn parses_application_audio_plain_line_output() {
    let discovered = parse_audio_discovery_output(
        true,
        "exit status: 0",
        "Discord\nFirefox\n",
        "",
        DiscoveredAudioKind::Application,
    )
    .unwrap();

    assert_eq!(discovered.len(), 2);
    assert_eq!(
        discovered[0].kind_hint,
        AudioSourceKind::Application {
            name: "Discord".into()
        }
    );
    assert_eq!(discovered[0].display_label, "Discord");
    assert_eq!(
        discovered[1].kind_hint,
        AudioSourceKind::Application {
            name: "Firefox".into()
        }
    );
}

#[test]
fn ignores_malformed_device_audio_output_lines() {
    let discovered = parse_audio_discovery_output(
        true,
        "exit status: 0",
        "default_output|Default output\nbad-line\n",
        "",
        DiscoveredAudioKind::Device,
    )
    .unwrap();

    assert_eq!(discovered.len(), 1);
    assert_eq!(discovered[0].display_label, "Default output");
}

#[test]
fn merge_prefers_native_pipewire_labels_for_matching_gsr_apps() {
    let merged = merge_gsr_and_native_application_audio(
        vec![DiscoveredAudioSource {
            kind_hint: AudioSourceKind::Application {
                name: "audio-src".into(),
            },
            display_label: "audio-src".into(),
            kind: DiscoveredAudioKind::Application,
            available: true,
        }],
        vec![DiscoveredAudioSource {
            kind_hint: AudioSourceKind::Application {
                name: "audio-src".into(),
            },
            display_label: "Spotify".into(),
            kind: DiscoveredAudioKind::Application,
            available: true,
        }],
    );

    assert_eq!(merged.len(), 1);
    assert_eq!(merged[0].display_label, "Spotify");
    assert_eq!(
        merged[0].kind_hint,
        AudioSourceKind::Application {
            name: "audio-src".into()
        }
    );
}

#[test]
fn finalize_pipewire_application_sources_disambiguates_duplicate_labels() {
    let discovered = finalize_pipewire_application_sources(vec![
        ("audio-src".into(), "Spotify".into()),
        ("audio-src-2".into(), "Spotify".into()),
    ]);

    assert_eq!(discovered.len(), 2);
    assert_eq!(discovered[0].display_label, "Spotify (audio-src)");
    assert_eq!(discovered[1].display_label, "Spotify (audio-src-2)");
}

#[test]
fn failed_discovery_reports_the_recorder_error() {
    let result = parse_audio_discovery_output(
        false,
        "exit status: 1",
        "",
        "boom",
        DiscoveredAudioKind::Device,
    );
    assert!(matches!(result, Err(AudioSourceError::DiscoveryFailed(_))));
}

#[test]
fn saved_paths_resolve_home_and_relative_names() {
    assert_eq!(join_unix_path("/clips", "a.mkv"), "/clips/a.mkv");
    assert_eq!(join_unix_path("/clips/", "a.mkv"), "/clips/a.mkv");
    assert_eq!(join_unix_path("/clips", "/abs/a.mkv"), "/abs/a.mkv");
    assert_eq!(
        resolve_saved_path_with_home("~/Videos/a.mkv", "/clips", Some("/home/me")),
        "/home/me/Videos/a.mkv"
    );
}

#[test]
fn ceiling_presets_round_up_to_supported_lengths() {
    assert_eq!(nearest_ceiling_preset(45), (Some(3), 60));
    assert_eq!(nearest_ceiling_preset(10), (Some(1), 10));
    assert_eq!(nearest_ceiling_preset(1801), (None, 1800));
}

#[test]
fn replay_command_lists_settings_portal_and_audio() {
    let gsr = GsrBackendConfig {
        capture_source: "planetside2".into(),
        framerate: 60,
        codec: "h264".into(),
        container: "mkv".into(),
        quality: "40000".into(),
    };
    let args = gsr_replay_args(
        &CaptureTarget::X11Window(42),
        &gsr,
        300,
        "/clips",
        true,
        Some("/tmp/token"),
        &vec![
            AudioSourceKind::DefaultOutput,
            AudioSourceKind::Application {
                name: "PlanetSide2".into(),
            },
        ],
    )
    .unwrap();
    assert_eq!(
        args,
        vec![
            "-w", "42", "-f", "60", "-c", "mkv", "-bm", "cbr", "-q", "40000", "-k", "h264", "-r",
            "300", "-o", "/clips", "-restore-portal-session", "yes",
            "-portal-session-token-filepath", "/tmp/token", "-a", "default_output", "-a",
            "app:PlanetSide2",
        ]
    );

    let refused = gsr_replay_args(
        &CaptureTarget::WaylandPortal,
        &gsr,
        300,
        "/clips",
        false,
        None,
        &vec![AudioSourceKind::ApplicationInverse {
            names: vec!["A".into(), "B".into()],
        }],
    );
    assert!(matches!(
        refused,
        Err(CaptureError::AudioSource(AudioSourceError::Unsupported { .. }))
    ));
    assert!(matches!(
        gsr_replay_args(&CaptureTarget::BackendOwned, &gsr, 300, "/clips", false, None, &vec![]),
        Err(CaptureError::Unsupported { .. })
    ));
}
