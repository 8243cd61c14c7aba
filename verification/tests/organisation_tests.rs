use nanite_clip::capture::CaptureError;
use nanite_clip::collections::{
    collection_additions, move_within_collection, next_collection_sequence_index,
    normalized_collection_name, normalized_optional_text, normalized_tag_name,
};
use nanite_clip::config::{normalized_audio_source, AudioSourceKind};
use nanite_clip::jobs::stored_job_progress;
use nanite_clip::notifications::ClipLength;
use nanite_clip::platform::Platform;
use nanite_clip::obs::{
    accept_running_replay_buffer, replay_start_step, replay_wait_error, replay_wait_step,
    ObsSaveTracker, ObsWorkerReport, ReplayBufferStatus, ReplayStartAction, ReplayStartReply,
};

#[test]
fn tag_and_collection_names_are_trimmed() {
    assert_eq!(normalized_tag_name("  clutch ").unwrap(), "clutch");
    assert_eq!(normalized_tag_name("   ").unwrap_err(), "tag name cannot be empty");
    assert_eq!(normalized_collection_name(" Best of ").unwrap(), "Best of");
    assert_eq!(normalized_collection_name("").unwrap_err(), "collection name cannot be empty");
    assert_eq!(normalized_optional_text(Some("  notes ")), Some("notes".to_string()));
    assert_eq!(normalized_optional_text(Some("  ")), None);
    assert_eq!(normalized_optional_text(None), None);
}

#[test]
fn new_clips_go_after_the_last_one() {
    assert_eq!(next_collection_sequence_index(None), 0);
    assert_eq!(next_collection_sequence_index(Some(4)), 5);
}

#[test]
fn clips_move_one_place_within_a_collection() {
    let order = vec![10, 20, 30];
    assert_eq!(move_within_collection(&order, 20, -1), Some(vec![20, 10, 30]));
    assert_eq!(move_within_collection(&order, 20, 1), Some(vec![10, 30, 20]));
    assert_eq!(move_within_collection(&order, 10, -1), None);
    assert_eq!(move_within_collection(&order, 30, 5), None);
    assert_eq!(move_within_collection(&order, 20, 0), None);
    assert_eq!(move_within_collection(&order, 99, 1), None);
}

#[test]
fn moving_back_and_forth_restores_the_order() {
    let order = vec![1, 2, 3, 4];
    let moved = move_within_collection(&order, 3, -1).unwrap();
    assert_eq!(move_within_collection(&moved, 3, 1), Some(order));
}

#[test]
fn only_new_clips_are_added_to_a_collection() {
    assert_eq!(
        collection_additions(&vec![2], &vec![1, 2, 3], 7),
        vec![(1, 7), (3, 8)]
    );
    assert!(collection_additions(&vec![1], &vec![1], 0).is_empty());
    assert!(collection_additions(&vec![], &vec![], 0).is_empty());
}

#[test]
fn stored_progress_needs_every_column() {
    let p = stored_job_progress(Some(-3), Some(0), Some("Uploading".into())).unwrap();
    assert_eq!((p.current_step, p.total_steps, p.message.as_str()), (0, 1, "Uploading"));
    let p = stored_job_progress(Some(2), Some(5), Some("Step".into())).unwrap();
    assert_eq!((p.current_step, p.total_steps), (2, 5));
    assert!(stored_job_progress(Some(2), None, Some("Step".into())).is_none());
    assert!(stored_job_progress(None, Some(5), Some("Step".into())).is_none());
}

#[test]
fn audio_sources_are_normalised_or_dropped() {
    let (kind, label) = normalized_audio_source(
        &AudioSourceKind::Device { name: "  alsa_output ".into() },
        "  ",
    )
    .unwrap();
    assert!(matches!(kind, AudioSourceKind::Device { ref name } if name == "alsa_output"));
    assert_eq!(label, "alsa_output");
    let (_, label) = normalized_audio_source(&AudioSourceKind::DefaultOutput, " Game ").unwrap();
    assert_eq!(label, "Game");
    assert!(normalized_audio_source(&AudioSourceKind::Application { name: " ".into() }, "x").is_none());
}

#[test]
fn waiting_for_the_replay_buffer() {
    assert_eq!(replay_wait_step(&ReplayBufferStatus::Active(true), true, false), Some(Ok(())));
    assert_eq!(replay_wait_step(&ReplayBufferStatus::Active(false), true, false), None);
    assert_eq!(
        replay_wait_step(&ReplayBufferStatus::Active(false), true, true),
        Some(Err("timed out".to_string()))
    );
    assert_eq!(replay_wait_step(&ReplayBufferStatus::NotConfigured, false, false), Some(Ok(())));
    assert!(matches!(
        replay_wait_step(&ReplayBufferStatus::NotConfigured, true, false),
        Some(Err(m)) if m.starts_with("OBS replay buffer is still disabled")
    ));
    assert_eq!(
        replay_wait_step(&ReplayBufferStatus::Failed("boom".into()), true, false),
        Some(Err("OBS GetReplayBufferStatus failed: boom".to_string()))
    );
    assert!(matches!(
        replay_wait_error(false, "timed out"),
        CaptureError::SpawnFailed(m) if m == "OBS replay buffer did not stop within 5 seconds: timed out"
    ));
}

#[test]
fn starting_the_replay_buffer() {
    assert!(matches!(replay_start_step(&ReplayStartReply::Started), ReplayStartAction::WaitUntilActive));
    assert!(matches!(replay_start_step(&ReplayStartReply::OutputRunning), ReplayStartAction::CheckStatus));
    assert!(matches!(
        replay_start_step(&ReplayStartReply::Failed("nope".into())),
        ReplayStartAction::Fail(CaptureError::SpawnFailed(m)) if m == "OBS StartReplayBuffer failed: nope"
    ));
    assert!(accept_running_replay_buffer(Ok(true)).is_ok());
    assert!(accept_running_replay_buffer(Ok(false)).is_err());
    assert!(matches!(
        accept_running_replay_buffer(Err("lost".into())),
        Err(CaptureError::SpawnFailed(m)) if m.ends_with("GetReplayBufferStatus also failed: lost")
    ));
}

#[test]
fn obs_saves_one_clip_at_a_time() {
    let mut tracker = ObsSaveTracker::new();
    assert!(tracker.check_can_save().is_ok());
    tracker.save_sent(ClipLength::Seconds(30));
    assert!(matches!(tracker.check_can_save(), Err(CaptureError::SaveInFlight)));
    assert_eq!(tracker.on_worker_report(ObsWorkerReport::BackendEvent), None);
    assert!(tracker.save_in_flight);
    assert_eq!(tracker.on_worker_report(ObsWorkerReport::Saved), Some(ClipLength::Seconds(30)));
    assert!(tracker.check_can_save().is_ok());
    tracker.save_sent(ClipLength::FullBuffer);
    assert_eq!(
        tracker.on_worker_finished(),
        Some("OBS capture session stopped unexpectedly".to_string())
    );
    assert_eq!(tracker.on_worker_finished(), None);
    assert_eq!(tracker.on_worker_report(ObsWorkerReport::Saved), Some(ClipLength::FullBuffer));
}

#[test]
fn overlaps_are_counted_on_both_sides() {
    let counts = nanite_clip::db::clip_overlap_counts(&vec![1, 2, 9], &vec![(1, 2), (2, 3), (1, 4)]);
    assert_eq!(counts, vec![2, 2, 0]);
    let alerts = nanite_clip::db::clip_alert_counts(&vec![1, 2], &vec![2, 2, 5]);
    assert_eq!(alerts, vec![0, 2]);
}

#[test]
fn partial_overlaps_are_recorded_smaller_id_first() {
    assert_eq!(nanite_clip::db::clip_overlap(7, 1_000, 5_000, 3, 4_000, 9_000), Some((3, 7, 1_000)));
    assert_eq!(nanite_clip::db::clip_overlap(3, 4_000, 9_000, 7, 1_000, 5_000), Some((3, 7, 1_000)));
    assert_eq!(nanite_clip::db::clip_overlap(1, 1_000, 5_000, 2, 5_000, 9_000), None);
    assert_eq!(nanite_clip::db::clip_overlap(1, 1_000, 5_000, 1, 1_000, 5_000), None);
    assert_eq!(nanite_clip::db::clip_overlap(1, 0, 10_000, 2, 2_000, 3_000), Some((1, 2, 1_000)));
}

#[test]
fn normalising_an_audio_source_twice_changes_nothing() {
    let kind = AudioSourceKind::Merged {
        entries: vec![
            AudioSourceKind::ApplicationInverse { names: vec![" Discord ".into(), "discord".into(), " ".into()] },
            AudioSourceKind::Raw { backend_id: " GSR ".into(), value: " app:x ".into() },
            AudioSourceKind::Device { name: "  ".into() },
        ],
    };
    let (k1, l1) = normalized_audio_source(&kind, "").unwrap();
    assert_eq!(l1, "Everything except Discord + app:x");
    let (k2, l2) = normalized_audio_source(&k1, &l1).unwrap();
    assert_eq!(l2, l1);
    assert_eq!(format!("{k2:?}"), format!("{k1:?}"));
    assert_eq!(k1.config_display_value(), "app-inverse:Discord|app:x");
}

#[test]
fn settings_wide_normalisation() {
    assert_eq!(
        nanite_clip::config::normalized_clip_naming_template("   "),
        "{timestamp}_{source}_{character}_{rule}_{score}"
    );
    assert_eq!(nanite_clip::config::normalized_clip_naming_template(" {rule} "), " {rule} ");
    let profiles = vec!["a".to_string(), "b".to_string()];
    assert_eq!(nanite_clip::config::normalized_active_profile_id(&profiles, "b"), "b");
    assert_eq!(nanite_clip::config::normalized_active_profile_id(&profiles, "gone"), "a");
    assert_eq!(nanite_clip::config::normalized_active_profile_id(&vec![], "gone"), "");
    assert_eq!(
        nanite_clip::config::retained_rule_ids(
            &vec!["r1".into(), "old".into(), "r2".into()],
            &vec!["r2".into(), "r1".into()]
        ),
        vec!["r1".to_string(), "r2".to_string()]
    );
    assert_eq!(nanite_clip::config::normalized_window_secs(0), 1);
    assert_eq!(nanite_clip::config::normalized_window_secs(30), 30);
}

#[test]
fn search_filters_match_case_folded_patterns() {
    assert_eq!(nanite_clip::db::search_like_pattern("  Ölberg Rocket "), Some("%ölberg rocket%".to_string()));
    assert_eq!(nanite_clip::db::search_like_pattern("   "), None);
}

#[test]
fn post_processing_settings_are_normalised() {
    assert_eq!(nanite_clip::config::normalized_premix_track_title("  "), "Mixed");
    assert_eq!(nanite_clip::config::normalized_premix_track_title(" Game + Voice "), "Game + Voice");
    assert_eq!(nanite_clip::config::normalized_post_process_bitrate(8), 32);
    assert_eq!(nanite_clip::config::normalized_post_process_bitrate(192), 192);
    assert_eq!(nanite_clip::config::normalized_post_process_bitrate(9000), 512);
}

#[test]
fn stored_audio_sources_read_old_and_new_forms() {
    let (kind, label) = nanite_clip::config::stored_audio_source(None, Some("  device:alsa_input "), "", Platform::Linux);
    assert!(matches!(kind, AudioSourceKind::Device { ref name } if name == "alsa_input"));
    assert_eq!(label, "device:alsa_input");
    let (kind, label) = nanite_clip::config::stored_audio_source(Some(AudioSourceKind::DefaultInput), Some("x"), "Mic", Platform::Linux);
    assert!(matches!(kind, AudioSourceKind::DefaultInput));
    assert_eq!(label, "Mic");
    let (kind, label) = nanite_clip::config::stored_audio_source(None, None, "L", Platform::Windows);
    assert!(matches!(kind, AudioSourceKind::Raw { ref backend_id, ref value } if backend_id == "obs" && value.is_empty()));
    assert_eq!(label, "L");
}

#[test]
fn an_old_launch_at_login_flag_keeps_its_value() {
    let config = nanite_clip::config::LaunchAtLoginConfig::from_legacy_enabled(true);
    assert!(config.enabled);
    assert_eq!(config.provider, nanite_clip::config::LaunchAtLoginProvider::Auto);
}

#[test]
fn ffprobe_stream_listings_are_read() {
    let streams = nanite_clip::montage::parse_audio_stream_probe("1,aac,2\n\n  \n2,opus\n-3,flac,x\r\n").unwrap();
    let read: Vec<(i32, &str, u32)> = streams.iter().map(|s| (s.index, s.codec.as_str(), s.channels)).collect();
    assert_eq!(read, vec![(1, "aac", 2), (2, "opus", 0), (-3, "flac", 0)]);
    let error = nanite_clip::montage::parse_audio_stream_probe("1,aac,2\nx,aac,2").unwrap_err();
    assert!(error.starts_with("invalid audio stream index `x,aac,2`: "));
    assert_eq!(
        nanite_clip::montage::parse_audio_stream_probe("7").unwrap_err(),
        "missing audio codec in ffprobe output: 7"
    );
    assert!(nanite_clip::montage::parse_audio_stream_probe("").unwrap().is_empty());
}

#[test]
fn the_history_plan_leaves_the_applied_migrations_recorded() {
    let names = nanite_clip::db::migration_name_list();
    let recorded: Vec<String> = vec![names[0].into(), names[2].into(), names[9].into(), "m_unknown".into()];
    let (deletes, inserts) = nanite_clip::db::migration_history_plan(&recorded, 4);
    let mut after: Vec<String> = recorded
        .iter()
        .filter(|name| !deletes.contains(&name.as_str()))
        .cloned()
        .collect();
    after.extend(inserts.iter().map(|name| name.to_string()));
    for (k, name) in names.iter().enumerate() {
        assert_eq!(after.iter().any(|n| n == name), k < 4, "{name}");
    }
}

#[test]
fn a_running_replay_buffer_is_stopped_before_managed_settings_are_written() {
    assert_eq!(nanite_clip::obs::replay_was_active(&ReplayBufferStatus::Active(true)).ok(), Some(true));
    assert_eq!(nanite_clip::obs::replay_was_active(&ReplayBufferStatus::NotConfigured).ok(), Some(false));
    assert!(matches!(
        nanite_clip::obs::replay_was_active(&ReplayBufferStatus::Failed("gone".into())),
        Err(CaptureError::SpawnFailed(m)) if m == "OBS GetReplayBufferStatus failed: gone"
    ));
}

fn alert(key: &str, started_at: i64) -> nanite_clip::db::ClipAlertRecord {
    nanite_clip::db::ClipAlertRecord {
        alert_key: key.into(),
        label: format!("Alert {key}"),
        world_id: 17,
        zone_id: 2,
        metagame_event_id: 147,
        started_at,
        ended_at: None,
        state_name: "started".into(),
        winner_faction: None,
    }
}

fn overlap(clip_id: i64, duration: i64, trigger: i64) -> nanite_clip::db::ClipOverlapRecord {
    nanite_clip::db::ClipOverlapRecord {
        clip_id,
        trigger_event_at: trigger,
        clip_start_at: trigger - 10,
        clip_end_at: trigger + 10,
        profile_id: "profile_default".into(),
        rule_id: "rule".into(),
        path: None,
        overlap_duration_ms: duration,
    }
}

#[test]
fn clip_detail_lists_latest_alerts_and_longest_overlaps_first() {
    let alerts = nanite_clip::db::sort_clip_alerts(vec![alert("b", 100), alert("a", 200), alert("a", 100)]);
    let order: Vec<(String, i64)> = alerts.iter().map(|a| (a.alert_key.clone(), a.started_at)).collect();
    assert_eq!(order, vec![("a".to_string(), 200), ("a".to_string(), 100), ("b".to_string(), 100)]);

    let overlaps = nanite_clip::db::sort_clip_overlaps(vec![
        overlap(1, 5, 10),
        overlap(2, 7, 1),
        overlap(3, 5, 20),
        overlap(4, 5, 20),
    ]);
    let ids: Vec<i64> = overlaps.iter().map(|o| o.clip_id).collect();
    assert_eq!(ids, vec![2, 3, 4, 1]);
}

#[test]
fn overlap_rows_name_the_other_clip() {
    let rows = vec![(5, 9), (3, 5), (5, 5)];
    assert_eq!(nanite_clip::db::overlap_partners(&rows, 5), vec![9, 3, 5]);
}
