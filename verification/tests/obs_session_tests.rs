use nanite_clip::capture::{CaptureError, ObsConnectionStatus};
use nanite_clip::config::ObsManagementMode;
use nanite_clip::obs::{
    check_bring_your_own, check_simple_output_mode, connection_test_summary, desired_profile,
    obs_session_step, profile_writes, reconnect_step, restore_writes, DeadlineChange,
    ManagedProfileSnapshot, ObsParameterKeys, ObsSessionEvent, ObsSessionState, ReconnectAction,
    ReconnectEvent, ReplayBufferProbe, ReplayBufferStatus, SessionReport,
};

#[test]
fn saved_replays_are_reported_only_when_requested() {
    let mut state = ObsSessionState::new();
    let unsolicited = obs_session_step(
        &mut state,
        ObsSessionEvent::ReplayBufferSaved { path: "/clips/a.mkv".into() },
        ObsManagementMode::ManagedRecording,
    );
    assert!(unsolicited.report.is_none());

    let accepted = obs_session_step(&mut state, ObsSessionEvent::SaveAccepted, ObsManagementMode::ManagedRecording);
    assert_eq!(accepted.deadline, DeadlineChange::Arm);
    let saved = obs_session_step(
        &mut state,
        ObsSessionEvent::ReplayBufferSaved { path: "/clips/b.mkv".into() },
        ObsManagementMode::ManagedRecording,
    );
    match saved.report {
        Some(SessionReport::Saved { path }) => assert_eq!(path, "/clips/b.mkv"),
        other => panic!("unexpected report {other:?}"),
    }
    assert_eq!(saved.deadline, DeadlineChange::Clear);
    assert!(!state.save_in_flight);
}

#[test]
fn save_deadline_and_disconnects_fail_pending_saves() {
    let mut state = ObsSessionState::new();
    obs_session_step(&mut state, ObsSessionEvent::SaveAccepted, ObsManagementMode::ManagedRecording);
    let elapsed = obs_session_step(&mut state, ObsSessionEvent::SaveDeadlineElapsed, ObsManagementMode::ManagedRecording);
    match elapsed.report {
        Some(SessionReport::SaveFailed { message }) => {
            assert_eq!(message, "OBS did not report a saved replay within 60 seconds")
        }
        other => panic!("unexpected report {other:?}"),
    }

    obs_session_step(&mut state, ObsSessionEvent::SaveAccepted, ObsManagementMode::ManagedRecording);
    let lost = obs_session_step(&mut state, ObsSessionEvent::ConnectionLost, ObsManagementMode::ManagedRecording);
    assert!(lost.reconnect);
    assert!(matches!(lost.report, Some(SessionReport::SaveFailed { .. })));
    let stop = obs_session_step(&mut state, ObsSessionEvent::StopRequested, ObsManagementMode::ManagedRecording);
    assert!(stop.shutdown);
}

#[test]
fn disabled_replay_buffer_is_reported_once_in_managed_mode() {
    let mut state = ObsSessionState::new();
    let change = |active| ObsSessionEvent::ReplayBufferStateChanged {
        active,
        startup_grace_elapsed: true,
    };
    let first = obs_session_step(&mut state, change(false), ObsManagementMode::ManagedRecording);
    assert!(first.report.is_some());
    let second = obs_session_step(&mut state, change(false), ObsManagementMode::ManagedRecording);
    assert!(second.report.is_none());
    obs_session_step(&mut state, change(true), ObsManagementMode::ManagedRecording);
    let third = obs_session_step(&mut state, change(false), ObsManagementMode::ManagedRecording);
    assert!(third.report.is_some());

    let mut byo = ObsSessionState::new();
    assert!(obs_session_step(&mut byo, change(false), ObsManagementMode::BringYourOwn).report.is_none());
}

#[test]
fn reconnecting_backs_off_and_gives_up() {
    let (attempt, action) = reconnect_step(0, ReconnectEvent::Started);
    assert_eq!(attempt, 1);
    assert!(matches!(action, ReconnectAction::Wait { backoff_secs: 1, .. }));
    let (attempt, action) = reconnect_step(3, ReconnectEvent::SaveRequested);
    assert_eq!(attempt, 4);
    assert!(matches!(action, ReconnectAction::RejectSaveAndWait { backoff_secs: 10, .. }));
    let (_, action) = reconnect_step(10, ReconnectEvent::ConnectFailed { error: "refused".into() });
    match action {
        ReconnectAction::GiveUp {
            status: ObsConnectionStatus::Failed { reason },
        } => assert_eq!(reason, "OBS did not reconnect after 10 attempts: refused"),
        other => panic!("unexpected action {other:?}"),
    }
    let (attempt, action) = reconnect_step(2, ReconnectEvent::ConnectSucceeded);
    assert_eq!(attempt, 2);
    assert!(matches!(action, ReconnectAction::Resume { .. }));
}

#[test]
fn managed_profile_writes_follow_the_request() {
    assert!(check_simple_output_mode(Some("simple")).is_ok());
    assert!(matches!(check_simple_output_mode(Some("Advanced")), Err(CaptureError::SpawnFailed(_))));
    assert!(check_simple_output_mode(None).is_err());

    let desired = desired_profile("/clips", " MKV ", 120, 512).unwrap();
    assert_eq!(desired.rec_format, "mkv");
    assert_eq!(desired.rec_rb_time, "120");
    assert_eq!(desired.rec_rb_size, "512");
    assert!(desired_profile("/clips", "webm", 120, 512).is_err());

    let keys = ObsParameterKeys::for_version(30);
    let writes = profile_writes(&keys, &desired);
    let names: Vec<&str> = writes.iter().map(|w| w.name).collect();
    assert_eq!(names, vec!["FilePath", "RecFormat2", "RecRB", "RecRBTime", "RecRBSize"]);
    assert_eq!(writes[0].value.as_deref(), Some("/clips"));

    let snapshot = ManagedProfileSnapshot {
        file_path: Some("/old".into()),
        rec_format: None,
        rec_rb: Some("false".into()),
        rec_rb_time: Some("20".into()),
        rec_rb_size: Some("100".into()),
        was_active: false,
    };
    let restore = restore_writes(&keys, &snapshot);
    assert_eq!(restore[0].value.as_deref(), Some("/old"));
    assert_eq!(restore[1].value, None);
}

#[test]
fn bring_your_own_needs_a_running_buffer() {
    assert!(check_bring_your_own(ReplayBufferStatus::Active(true)).is_ok());
    assert!(check_bring_your_own(ReplayBufferStatus::Active(false)).is_err());
    match check_bring_your_own(ReplayBufferStatus::Failed("boom".into())) {
        Err(CaptureError::SpawnFailed(message)) => {
            assert_eq!(message, "OBS GetReplayBufferStatus failed: boom")
        }
        other => panic!("unexpected result {other:?}"),
    }
    assert_eq!(
        connection_test_summary("30.2.0", "ws://127.0.0.1:4455", ReplayBufferProbe::Running, ObsManagementMode::ManagedRecording),
        "Connected to OBS 30.2.0 at ws://127.0.0.1:4455. Replay buffer: running."
    );
}
