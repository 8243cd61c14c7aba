use nanite_clip::capture::CaptureError;
use nanite_clip::config::{
    legacy_audio_source_kind_from_value, AppUpdateConfig, AudioSourceKind, BackendConfigs, CaptureBackend,
    CopypartyUploadConfig, DiscordWebhookConfig, LaunchAtLoginConfig, ManualClipConfig, StorageTieringConfig,
    UploadsConfig, YouTubeUploadConfig,
};
use nanite_clip::gsr::{pipewire_application_nodes, PipewireObject};
use nanite_clip::obs::{
    managed_setup_step, normalized_profile_path, ManagedSetupAction, ManagedSetupEvent, ManagedSetupPhase,
    ReplayBufferStatus,
};
use nanite_clip::platform::Platform;
use nanite_clip::config::CharacterConfig;
use nanite_clip::settings::{
    normalize_config, AutoSwitchCondition, AutoSwitchRuleSettings, Config, RuleDefinitionSettings,
    RuleProfileSettings, ScheduleWeekday, SCHEMA_VERSION,
};

#[test]
fn a_new_install_id_is_a_lower_hex_digest() {
    let mut updates = AppUpdateConfig::default();
    assert!(updates.ensure_install_id("seed-a"));
    let id = updates.install_id.clone().unwrap();
    assert_eq!(id.len(), 64);
    assert!(id.chars().all(|c| c.is_ascii_digit() || ('a'..='f').contains(&c)));
    assert_ne!(id, "seed-a");
}

#[test]
fn legacy_text_forms_read_back_as_the_same_source() {
    let sources = vec![
        AudioSourceKind::DefaultOutput,
        AudioSourceKind::DefaultInput,
        AudioSourceKind::Device { name: "alsa_output.pci.monitor".into() },
        AudioSourceKind::Application { name: "PlanetSide2".into() },
        AudioSourceKind::ApplicationInverse { names: vec!["Spotify".into()] },
    ];
    for platform in [Platform::Linux, Platform::Windows] {
        for source in &sources {
            let text = source.config_display_value();
            assert_eq!(&legacy_audio_source_kind_from_value(&text, platform), source, "{text}");
        }
    }
}

#[test]
fn a_matching_profile_is_reused_untouched() {
    let (phase, action) = managed_setup_step(ManagedSetupPhase::Checking, ManagedSetupEvent::Checked { matches: true });
    assert_eq!(phase, ManagedSetupPhase::Done);
    assert!(matches!(action, ManagedSetupAction::Reuse));
}

#[test]
fn a_running_buffer_is_stopped_written_and_started() {
    let (p, a) = managed_setup_step(ManagedSetupPhase::Checking, ManagedSetupEvent::Checked { matches: false });
    assert_eq!(p, ManagedSetupPhase::ReadingStatus);
    assert!(matches!(a, ManagedSetupAction::ReadStatus));
    let (p, a) = managed_setup_step(p, ManagedSetupEvent::Status(ReplayBufferStatus::Active(true)));
    assert_eq!(p, ManagedSetupPhase::Stopping);
    assert!(matches!(a, ManagedSetupAction::StopBuffer));
    let (p, a) = managed_setup_step(p, ManagedSetupEvent::Stopped(Ok(())));
    assert_eq!(p, ManagedSetupPhase::Writing);
    assert!(matches!(a, ManagedSetupAction::ApplyWrites));
    let (p, a) = managed_setup_step(p, ManagedSetupEvent::Written(Ok(())));
    assert_eq!(p, ManagedSetupPhase::Starting);
    assert!(matches!(a, ManagedSetupAction::StartBuffer));
    let (p, a) = managed_setup_step(p, ManagedSetupEvent::Started(Ok(())));
    assert_eq!(p, ManagedSetupPhase::Done);
    assert!(matches!(a, ManagedSetupAction::Succeed));
}

#[test]
fn an_idle_buffer_goes_straight_to_the_writes() {
    let (p, a) = managed_setup_step(
        ManagedSetupPhase::ReadingStatus,
        ManagedSetupEvent::Status(ReplayBufferStatus::NotConfigured),
    );
    assert_eq!(p, ManagedSetupPhase::Writing);
    assert!(matches!(a, ManagedSetupAction::ApplyWrites));
}

#[test]
fn a_failed_start_restores_the_settings() {
    let (p, a) = managed_setup_step(
        ManagedSetupPhase::Starting,
        ManagedSetupEvent::Started(Err(CaptureError::SpawnFailed("timed out".into()))),
    );
    assert_eq!(p, ManagedSetupPhase::Done);
    assert!(matches!(a, ManagedSetupAction::RestoreThenFail(CaptureError::SpawnFailed(m)) if m == "timed out"));
    let (p, a) = managed_setup_step(
        ManagedSetupPhase::ReadingStatus,
        ManagedSetupEvent::Status(ReplayBufferStatus::Failed("gone".into())),
    );
    assert_eq!(p, ManagedSetupPhase::Done);
    assert!(matches!(
        a,
        ManagedSetupAction::RestoreThenFail(CaptureError::SpawnFailed(m)) if m == "OBS GetReplayBufferStatus failed: gone"
    ));
}

#[test]
fn events_of_another_phase_are_ignored() {
    let (p, a) = managed_setup_step(ManagedSetupPhase::Writing, ManagedSetupEvent::Started(Ok(())));
    assert_eq!(p, ManagedSetupPhase::Writing);
    assert!(matches!(a, ManagedSetupAction::Ignore));
}

fn pipewire_object(class: &str, name: Option<&str>, labels: Vec<Option<&str>>) -> PipewireObject {
    PipewireObject {
        is_node: true,
        media_class: Some(class.to_string()),
        node_name: name.map(|n| n.to_string()),
        label_candidates: labels.into_iter().map(|l| l.map(|s| s.to_string())).collect(),
    }
}

#[test]
fn pipewire_applications_are_listed_once_in_name_order() {
    let mut not_a_node = pipewire_object("Stream/Output/Audio", Some("hidden"), vec![]);
    not_a_node.is_node = false;
    let objects = vec![
        pipewire_object("Stream/Output/Audio", Some(" zeta "), vec![None, Some(" Zeta Player ")]),
        pipewire_object("Stream/Input/Audio", Some("mic"), vec![Some("Mic")]),
        pipewire_object("Stream/Output/Audio", Some("alpha"), vec![Some("  "), None]),
        pipewire_object("Stream/Output/Audio", Some("zeta"), vec![Some("Second Zeta")]),
        pipewire_object("Stream/Output/Audio", Some("   "), vec![Some("Blank")]),
        pipewire_object("Stream/Output/Audio", None, vec![Some("Nameless")]),
        not_a_node,
    ];
    let nodes = pipewire_application_nodes(&objects);
    assert_eq!(
        nodes,
        vec![
            ("alpha".to_string(), "alpha".to_string()),
            ("zeta".to_string(), "Zeta Player".to_string()),
        ]
    );
}

#[test]
fn profile_paths_without_separators_are_taken_whole() {
    assert_eq!(normalized_profile_path("  Clips  ", Platform::Windows), "clips");
    assert_eq!(normalized_profile_path("Clips", Platform::Linux), "Clips");
    assert_eq!(normalized_profile_path("   ", Platform::Linux), "");
    assert_eq!(normalized_profile_path("/home/me/clips/", Platform::Linux), "\\home\\me\\clips");
}

fn sample_config() -> Config {
    Config {
        schema_version: 3,
        service_id: "s:example".into(),
        characters: vec![],
        rule_definitions: vec![
            RuleDefinitionSettings { id: "kills".into(), window_secs: 0 },
            RuleDefinitionSettings { id: "revives".into(), window_secs: 12 },
        ],
        rule_profiles: vec![
            RuleProfileSettings { id: "main".into(), enabled_rule_ids: vec!["revives".into(), "gone".into()] },
            RuleProfileSettings { id: "alt".into(), enabled_rule_ids: vec!["kills".into()] },
        ],
        auto_switch_rules: vec![],
        active_profile_id: "deleted".into(),
        launch_at_login: LaunchAtLoginConfig::default(),
        auto_start_monitoring: true,
        start_minimized: false,
        minimize_to_tray: true,
        clip_naming_template: "   ".into(),
        manual_clip: ManualClipConfig::default(),
        storage_tiering: StorageTieringConfig::default(),
        uploads: UploadsConfig { copyparty: CopypartyUploadConfig::default(), youtube: YouTubeUploadConfig::default() },
        discord_webhook: DiscordWebhookConfig::default(),
        capture_backend: CaptureBackend::Gsr,
        updates: AppUpdateConfig::default(),
        backends: BackendConfigs::default(),
        premix_track_title: "  ".into(),
        post_process_bitrate_kbps: 9999,
        migration_notice: None,
    }
}

#[test]
fn the_whole_settings_file_is_normalised() {
    let mut config = sample_config();
    normalize_config(&mut config, 0);
    assert_eq!(config.schema_version, SCHEMA_VERSION);
    assert_eq!(config.schema_version, 9);
    assert_eq!(config.clip_naming_template, "{timestamp}_{source}_{character}_{rule}_{score}");
    assert_eq!(config.rule_definitions[0].window_secs, 1);
    assert_eq!(config.rule_definitions[1].window_secs, 12);
    assert_eq!(config.rule_profiles[0].enabled_rule_ids, vec!["revives".to_string()]);
    assert_eq!(config.rule_profiles[1].enabled_rule_ids, vec!["kills".to_string()]);
    assert_eq!(config.active_profile_id, "main");
    assert_eq!(config.premix_track_title, "Mixed");
    assert_eq!(config.post_process_bitrate_kbps, 512);
    assert_eq!(config.service_id, "s:example");
    assert!(config.auto_start_monitoring);
}

#[test]
fn an_existing_active_profile_and_template_are_kept() {
    let mut config = sample_config();
    config.active_profile_id = "alt".into();
    config.clip_naming_template = "{rule}".into();
    config.rule_profiles.clear();
    config.rule_profiles.push(RuleProfileSettings { id: "alt".into(), enabled_rule_ids: vec![] });
    normalize_config(&mut config, 0);
    assert_eq!(config.active_profile_id, "alt");
    assert_eq!(config.clip_naming_template, "{rule}");
    config.rule_profiles.clear();
    normalize_config(&mut config, 0);
    assert_eq!(config.active_profile_id, "");
}

#[test]
fn config_normalize_sets_wave_one_defaults() {
    let mut config = Config::default_for(Platform::Linux);
    config.schema_version = 0;
    config.clip_naming_template.clear();
    config.manual_clip.hotkey.clear();
    config.manual_clip.duration_secs = 0;
    let audio_sources = vec![(AudioSourceKind::DefaultOutput, String::new())];

    normalize_config(&mut config, 0);
    let audio_sources: Vec<(AudioSourceKind, String)> = audio_sources
        .iter()
        .filter_map(|(kind, label)| nanite_clip::config::normalized_audio_source(kind, label))
        .collect();

    assert_eq!(config.schema_version, 9);
    assert_eq!(config.clip_naming_template, "{timestamp}_{source}_{character}_{rule}_{score}");
    assert_eq!(config.manual_clip.hotkey, "Ctrl+Shift+F8");
    assert_eq!(config.manual_clip.duration_secs, 5);
    assert_eq!(audio_sources.len(), 1);
    assert_eq!(audio_sources[0].0, AudioSourceKind::DefaultOutput);
    assert_eq!(audio_sources[0].1, "Default output");
    assert!(!config.launch_at_login.enabled);
    assert_eq!(config.launch_at_login.provider, nanite_clip::config::LaunchAtLoginProvider::Auto);
    assert!(config.updates.remind_later_until_utc.is_none());
    assert!(config.updates.current_version.is_none());
    assert!(config.updates.installed_version_history.is_empty());
}

fn switch_rule(id: &str, target: &str, condition: AutoSwitchCondition) -> AutoSwitchRuleSettings {
    AutoSwitchRuleSettings {
        id: id.into(),
        name: if id == "event_1" { "Legacy event".into() } else { format!("Rule {id}") },
        enabled: true,
        target_profile_id: target.into(),
        condition,
    }
}

#[test]
fn config_normalize_converts_legacy_event_auto_switch_rules_to_active_character() {
    let mut config = Config::default_for(Platform::Linux);
    config.characters = vec![CharacterConfig {
        name: "Example".into(),
        character_id: Some(42),
        world_id: None,
        faction_id: None,
    }];
    config.rule_profiles = vec![RuleProfileSettings { id: "profile_default".into(), enabled_rule_ids: Vec::new() }];
    config.auto_switch_rules = vec![switch_rule(
        "event_1",
        "profile_default",
        AutoSwitchCondition::OnEvent { event: "facility_capture".into() },
    )];

    normalize_config(&mut config, 0);

    assert!(matches!(
        &config.auto_switch_rules[0].condition,
        AutoSwitchCondition::ActiveCharacter { character_ids, character_id: None } if character_ids == &vec![42]
    ));
    assert_eq!(
        config.migration_notice.as_deref(),
        Some("Converted legacy event rule `Legacy event` into an active-character rule that needs a character selection.")
    );
}

#[test]
fn legacy_time_ranges_become_daily_schedules() {
    let mut config = Config::default_for(Platform::Linux);
    config.rule_profiles = vec![RuleProfileSettings { id: "main".into(), enabled_rule_ids: Vec::new() }];
    config.auto_switch_rules = vec![switch_rule(
        "evening",
        "main",
        AutoSwitchCondition::LocalTimeRange { start_hour: 18, end_hour: 23 },
    )];
    normalize_config(&mut config, 0);
    match &config.auto_switch_rules[0].condition {
        AutoSwitchCondition::LocalSchedule { weekdays, start_hour, start_minute, end_hour, end_minute } => {
            assert_eq!(weekdays.len(), 7);
            assert_eq!(weekdays[0], ScheduleWeekday::Monday);
            assert_eq!(weekdays[6], ScheduleWeekday::Sunday);
            assert_eq!((*start_hour, *start_minute, *end_hour, *end_minute), (18, 0, 23, 0));
        }
        other => panic!("unexpected condition {other:?}"),
    }
    assert_eq!(
        config.migration_notice.as_deref(),
        Some("Converted legacy local time rule `Rule evening` into a weekday schedule.")
    );
}

#[test]
fn auto_switch_rules_need_an_existing_profile() {
    let mut config = Config::default_for(Platform::Linux);
    config.rule_profiles = vec![RuleProfileSettings { id: "main".into(), enabled_rule_ids: Vec::new() }];
    config.migration_notice = Some("earlier notice".into());
    config.auto_switch_rules = vec![
        switch_rule("gone", "deleted", AutoSwitchCondition::OnEvent { event: "death".into() }),
        switch_rule(
            "mine",
            "main",
            AutoSwitchCondition::ActiveCharacter { character_ids: vec![7, 8], character_id: Some(9) },
        ),
        switch_rule(
            "again",
            "main",
            AutoSwitchCondition::ActiveCharacter { character_ids: vec![7], character_id: Some(7) },
        ),
    ];
    normalize_config(&mut config, 0);
    assert_eq!(config.auto_switch_rules.len(), 2);
    assert_eq!(config.auto_switch_rules[0].id, "mine");
    assert!(matches!(
        &config.auto_switch_rules[0].condition,
        AutoSwitchCondition::ActiveCharacter { character_ids, character_id: None } if character_ids == &vec![7, 8, 9]
    ));
    assert!(matches!(
        &config.auto_switch_rules[1].condition,
        AutoSwitchCondition::ActiveCharacter { character_ids, character_id: None } if character_ids == &vec![7]
    ));
    assert_eq!(config.migration_notice.as_deref(), Some("earlier notice"));
}
