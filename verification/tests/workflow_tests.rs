use nanite_clip::autostart::{
    quote_desktop_exec_arg, quote_windows_arg, windows_registry_remove_script,
    windows_registry_set_script, AutostartCommand, AutostartEntry,
};
use nanite_clip::capture::{CaptureSourcePlan, CaptureTarget, DisplayServer, RecoveryHint};
use nanite_clip::census::{base_name, vehicle_name};
use nanite_clip::census_rows::{name_from_items, JsonValue};
use nanite_clip::clip_naming::{renamed_clip_stem, sample_context, supported_placeholders};
use nanite_clip::db::{
    append_csv_row, legacy_schema_state, migration_backup_file_name, migration_history_plan,
    migration_name_list, recover_background_job, PostProcessStatus, SchemaProbe,
};
use nanite_clip::event_log::EventLog;
use nanite_clip::gsr::{
    post_save_recovery_hint, preferred_pipewire_application_label, take_lines, GsrLineOutcome,
    GsrSaveState, SaveSignal,
};
use nanite_clip::jobs::{BackgroundJobKind, BackgroundJobState};
use nanite_clip::launcher::{direct_launch_failure, launch_command, terminal_arguments};
use nanite_clip::montage::{
    dominant_audio_codec, needs_normalization, normalization_audio_args,
    select_montage_audio_stream, AudioStreamSignature, MontageClip, MontageTrack,
};
use nanite_clip::notifications::{character_confirmed_text, profile_activated_text, ClipLength};

#[test]
fn recorder_saves_one_clip_at_a_time() {
    let mut state = GsrSaveState::new();
    assert_eq!(state.save_signal(true, ClipLength::Seconds(45)).unwrap(), SaveSignal::Realtime(3));
    assert_eq!(state.save_signal(true, ClipLength::FullBuffer).unwrap(), SaveSignal::FullBuffer);
    assert!(state.save_signal(false, ClipLength::FullBuffer).is_err());
    state.save_sent(ClipLength::Seconds(45));
    assert!(state.save_signal(true, ClipLength::Seconds(10)).is_err());
    assert!(matches!(state.poll_line("   "), GsrLineOutcome::Ignored));
    match state.poll_line(" /clips/replay.mkv ") {
        GsrLineOutcome::Saved { raw_path, duration } => {
            assert_eq!(raw_path, "/clips/replay.mkv");
            assert_eq!(duration, ClipLength::Seconds(45));
        }
        other => panic!("unexpected outcome {other:?}"),
    }
    assert!(matches!(state.poll_line("/clips/other.mkv"), GsrLineOutcome::Ignored));
    state.save_sent(ClipLength::FullBuffer);
    assert!(matches!(state.poll_line("gsr error: no space"), GsrLineOutcome::SaveFailed(_)));
    assert!(!state.save_in_flight);
}

#[test]
fn recorder_output_is_split_into_lines() {
    let mut buffer = String::from("one\r\ntwo\npart");
    assert_eq!(take_lines(&mut buffer), vec!["one", "two"]);
    assert_eq!(buffer, "part");
}

#[test]
fn small_portal_clips_ask_for_a_new_capture_target() {
    let plan = CaptureSourcePlan {
        target: CaptureTarget::WaylandPortal,
        display_server: Some(DisplayServer::Wayland),
        restore_portal_session: true,
    };
    assert_eq!(post_save_recovery_hint(&plan, Some((800, 600))), RecoveryHint::ReacquireCaptureTarget);
    assert_eq!(post_save_recovery_hint(&plan, Some((1920, 1080))), RecoveryHint::NoRecovery);
    assert_eq!(post_save_recovery_hint(&plan, None), RecoveryHint::NoRecovery);
}

#[test]
fn pipewire_labels_prefer_the_application_name() {
    assert_eq!(
        preferred_pipewire_application_label(&vec![None, Some("  ".into()), Some("Spotify".into())], "node"),
        "Spotify"
    );
    assert_eq!(preferred_pipewire_application_label(&vec![None], "node"), "node");
}

#[test]
fn interrupted_jobs_are_recovered() {
    let (state, detail) = recover_background_job(true, Some((PostProcessStatus::Completed, None)), None);
    assert_eq!(state, BackgroundJobState::Succeeded);
    assert_eq!(detail, "Audio post-processing completed.");
    let (state, detail) = recover_background_job(
        true,
        Some((PostProcessStatus::Failed, Some("ffmpeg failed".into()))),
        None,
    );
    assert_eq!(state, BackgroundJobState::Failed);
    assert_eq!(detail, "ffmpeg failed");
    let (state, _) = recover_background_job(false, None, Some("Uploading".into()));
    assert_eq!(state, BackgroundJobState::Failed);
    assert_eq!(BackgroundJobKind::Upload.concurrency_limit(), 2);
}

#[test]
fn csv_rows_quote_every_field() {
    let mut out = String::new();
    append_csv_row(&mut out, &vec!["a".into(), "say \"hi\"".into()]);
    assert_eq!(out, "\"a\",\"say \"\"hi\"\"\"\n");
}

#[test]
fn migrations_are_planned_from_the_schema() {
    let names = migration_name_list();
    assert_eq!(names.len(), 16);
    let empty = SchemaProbe {
        clips_table: false,
        clip_events_table: false,
        clips_initial_indexes: false,
        clip_events_indexes: false,
        clips_honu_session_id: false,
        clips_origin: false,
        clips_start_ts: false,
        clips_end_ts: false,
        clips_session_id: false,
        clips_window_indexes: false,
        raw_events_table: false,
        raw_events_indexes: false,
        lookup_cache_table: false,
        lookup_cache_indexes: false,
        overlaps_table: false,
        overlaps_indexes: false,
        alert_instances_table: false,
        alert_instances_indexes: false,
        alert_instances_zone_index: false,
        alert_links_table: false,
        alert_links_indexes: false,
        outfit_cache_table: false,
        outfit_cache_indexes: false,
        weapon_cache_table: false,
        weapon_cache_indexes: false,
        weapon_cache_category_index: false,
        weapon_cache_faction_column: false,
        uploads_table: false,
        uploads_indexes: false,
        uploads_clip_index: false,
        uploads_provider_index: false,
        montages_table: false,
        montage_clips_table: false,
        montage_clips_indexes: false,
        montage_clips_clip_index: false,
        jobs_table: false,
        jobs_indexes: false,
        jobs_state_index: false,
        audio_tracks_table: false,
        audio_tracks_indexes: false,
        audio_tracks_stream_index: false,
        clips_post_process_status: false,
        clips_post_process_error: false,
        clips_favorited: false,
        tags_table: false,
        tags_indexes: false,
        tags_clip_tag_index: false,
        collections_table: false,
        collections_indexes: false,
        collections_name_index: false,
        collection_clips_table: false,
        collection_clips_indexes: false,
        collection_clips_clip_index: false,
        collection_clips_sequence_index: false,
    };
    let state = legacy_schema_state(&empty);
    assert_eq!(state.applied_prefix, 0);
    assert_eq!(state.pending_migrations(), 16);

    let recorded = vec![names[0].to_string(), names[5].to_string()];
    let (deletes, inserts) = migration_history_plan(&recorded, 2);
    assert_eq!(deletes, vec![names[5]]);
    assert_eq!(inserts, vec![names[1]]);

    assert_eq!(
        migration_backup_file_name("clips", 3, 16, "20240101-000000", "sqlite3", Some(2)),
        "clips.pre-migration-v3-to-v16-20240101-000000-2.sqlite3"
    );
}

fn track(stream_index: i32, role: &str) -> MontageTrack {
    MontageTrack {
        stream_index,
        role: role.into(),
    }
}

fn stream(index: i32, codec: &str) -> AudioStreamSignature {
    AudioStreamSignature {
        index,
        codec: codec.into(),
        channels: 2,
    }
}

#[test]
fn montage_audio_is_normalised_when_clips_differ() {
    assert!(!needs_normalization(&vec![vec![stream(0, "aac")], vec![stream(0, "aac")]], &vec![None, None]));
    assert!(needs_normalization(&vec![vec![stream(0, "aac")], vec![stream(0, "opus")]], &vec![None, None]));
    assert!(needs_normalization(&vec![vec![stream(0, "aac")], vec![stream(0, "aac")]], &vec![Some(1), None]));

    let clip = MontageClip {
        clip_id: 1,
        path: "/a.mkv".into(),
        post_process_status: PostProcessStatus::Completed,
        audio_tracks: vec![track(0, "game"), track(2, "mixed")],
    };
    assert_eq!(
        select_montage_audio_stream(&clip, &vec![stream(0, "aac"), stream(2, "opus")]).unwrap(),
        (2, "opus".to_string())
    );
    assert_eq!(
        select_montage_audio_stream(&clip, &vec![stream(0, "aac")]).unwrap(),
        (0, "aac".to_string())
    );
    assert!(select_montage_audio_stream(&clip, &vec![stream(5, "aac")]).is_err());

    assert_eq!(
        dominant_audio_codec(&vec!["opus".into(), "aac".into(), "opus".into()]),
        Some("opus".to_string())
    );
    assert_eq!(dominant_audio_codec(&vec!["opus".into(), "aac".into()]), Some("aac".to_string()));
    assert_eq!(dominant_audio_codec(&vec![]), None);
    assert_eq!(normalization_audio_args(Some("aac"), "opus"), vec!["-c:a", "aac", "-b:a", "192k"]);
    assert_eq!(normalization_audio_args(Some("aac"), "aac"), vec!["-c:a", "copy"]);
}

#[test]
fn autostart_commands_quote_their_arguments() {
    assert_eq!(quote_desktop_exec_arg("plain"), "plain");
    assert_eq!(quote_desktop_exec_arg("with space"), "\"with space\"");
    assert_eq!(quote_windows_arg("C:\\Program Files\\app.exe"), "\"C:\\Program Files\\app.exe\"");
    let entry = AutostartEntry::for_executable("/usr/bin/nanite-clip".into());
    assert!(entry.desktop_file_contents().contains("Exec=/usr/bin/nanite-clip"));
    let command = AutostartCommand {
        executable: "C:\\Apps\\nanite.exe".into(),
        args: vec![],
    };
    assert_eq!(command.render_windows_command(), "\"C:\\Apps\\nanite.exe\"");
    assert!(windows_registry_set_script("HKCU:\\Run", "NaniteClip", "x").contains("NaniteClip"));
    assert!(windows_registry_remove_script("HKCU:\\Run", "NaniteClip").contains("NaniteClip"));
}

#[test]
fn terminal_launches() {
    assert_eq!(terminal_arguments("kitty", &vec![], "htop"), vec!["htop"]);
    assert_eq!(terminal_arguments("xterm", &vec!["-e"], "htop"), vec!["-e", "sh", "-lc", "htop"]);
    assert!(launch_command("  ").is_err());
    assert!(launch_command("htop").is_ok());
    assert_eq!(
        direct_launch_failure("htop", Some("xterm"), "not found"),
        "Failed to run `htop` directly after xterm is not installed: not found"
    );
}

#[test]
fn notification_texts_name_their_subject() {
    assert_eq!(character_confirmed_text("Example"), "Character confirmed\nNow monitoring Example");
    assert!(profile_activated_text("Highlights").contains("Highlights"));
}

#[test]
fn facility_and_vehicle_names() {
    assert_eq!(base_name(Some(1234)), Some("Facility #1234".to_string()));
    assert_eq!(base_name(None), None);
    assert!(vehicle_name(None).is_none());
}

#[test]
fn placeholders_and_renamed_stems() {
    assert_eq!(supported_placeholders()[0].token, "{timestamp}");
    let stem = renamed_clip_stem("{character}:{source}", &sample_context()).unwrap();
    assert_eq!(stem, "Example_manual");
}

#[test]
fn names_come_from_the_first_row() {
    let row = JsonValue::Object {
        keys: vec!["name".into()],
        values: vec![JsonValue::Object {
            keys: vec!["en".into()],
            values: vec![JsonValue::Text("Indar".into())],
        }],
    };
    assert_eq!(name_from_items(&vec![row], &["name.en"]), Some("Indar".to_string()));
    assert_eq!(name_from_items(&vec![], &["name.en"]), None);
}

#[test]
fn retention_can_change() {
    let mut log = EventLog::new(0);
    log.set_retention_secs(60);
    assert!(log.query_range(0, 10).is_empty());
}
