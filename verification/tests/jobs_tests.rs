use nanite_clip::jobs::{
    check_cancelled, completion_events, BackgroundJobBoard, BackgroundJobId, BackgroundJobKind,
    BackgroundJobProgress, BackgroundJobRecord, BackgroundJobState, BackgroundJobSuccess, JobEvent, JobNotification,
    JobOutcome, HISTORY_LIMIT,
};

fn finished_record(id: u64) -> BackgroundJobRecord {
    BackgroundJobRecord {
        id: BackgroundJobId(id),
        kind: BackgroundJobKind::Upload,
        label: format!("Upload clip #{id} to YouTube"),
        state: BackgroundJobState::Failed,
        related_clip_ids: vec![id as i64],
        progress: None,
        started_at: 1_700_000_000_000 - 60_000,
        updated_at: 1_700_000_000_000,
        finished_at: Some(1_700_000_000_000),
        detail: Some("Upload failed.".into()),
        cancellable: false,
    }
}

#[test]
fn remove_history_deletes_finished_record() {
    let mut board = BackgroundJobBoard::new();
    board.replace_recent_jobs(vec![finished_record(7)]);

    let removed = board.remove_history(BackgroundJobId(7)).unwrap();

    assert_eq!(removed.id, BackgroundJobId(7));
    assert!(board.record(BackgroundJobId(7)).is_none());
    assert!(board.recent_jobs().is_empty());
}

#[test]
fn completes_job_and_records_history() {
    let mut board = BackgroundJobBoard::new();
    let id = board.queue(BackgroundJobKind::StorageTiering, "Tier clips".into(), vec![10, 20], 100);
    assert!(board.is_active(id));

    let notifications = board.drain_notifications(
        vec![
            JobEvent::Started { id },
            JobEvent::Progress {
                id,
                progress: BackgroundJobProgress::new(1, 2, "Scanning".into()),
            },
            JobEvent::Finished {
                id,
                success: BackgroundJobSuccess::StorageTiering { moved_clip_ids: vec![1], message: "Moved 1 clip.".into() },
            },
        ],
        200,
    );

    assert_eq!(notifications.len(), 3);
    assert!(!board.is_active(id));
    let recent = board.recent_jobs();
    assert_eq!(recent.len(), 1);
    assert_eq!(recent[0].state, BackgroundJobState::Succeeded);
    assert_eq!(recent[0].detail.as_deref(), Some("Moved 1 clip."));
    assert_eq!(recent[0].finished_at, Some(200));
    match &notifications[2] {
        JobNotification::Finished { record, success, error } => {
            assert_eq!(record.id, id);
            assert!(matches!(
                success,
                Some(BackgroundJobSuccess::StorageTiering { moved_clip_ids, .. }) if moved_clip_ids == &vec![1]
            ));
            assert!(error.is_none());
        }
        other => panic!("unexpected notification {other:?}"),
    }
}

#[test]
fn cancellation_marks_job_cancelled() {
    let mut board = BackgroundJobBoard::new();
    let id = board.queue(BackgroundJobKind::Upload, "Upload clip".into(), vec![7], 10);
    assert!(board.cancel(id, 20));
    assert_eq!(
        board.record(id).unwrap().detail.as_deref(),
        Some("Cancellation requested.")
    );

    let success = BackgroundJobSuccess::Upload {
        clip_id: 7,
        provider_label: "YouTube".into(),
        clip_url: Some("https://example.invalid/watch?v=abc123".into()),
        message: "uploaded".into(),
    };
    let events = completion_events(id, true, JobOutcome::Succeeded { success }, true);
    let notifications = board.drain_notifications(events, 30);
    let mut saw_cancelled = false;
    for notification in notifications {
        if let JobNotification::Finished { record, .. } = notification {
            if record.id == id {
                saw_cancelled = true;
                assert_eq!(record.state, BackgroundJobState::Cancelled);
            }
        }
    }
    assert!(saw_cancelled);
}

#[test]
fn cancel_then_success_still_ends_cancelled() {
    let mut board = BackgroundJobBoard::new();
    let id = board.queue(BackgroundJobKind::Montage, "Create montage".into(), vec![1, 2], 0);
    assert!(board.cancel(id, 1));
    let success = BackgroundJobSuccess::Montage {
        output_path: "/clips/montage.mp4".into(),
        source_clip_ids: vec![1, 2],
        message: "done".into(),
    };
    let notification = board.apply(JobEvent::Finished { id, success }, 2).unwrap();
    match notification {
        JobNotification::Finished { record, success, error } => {
            assert_eq!(record.state, BackgroundJobState::Cancelled);
            assert_eq!(record.detail.as_deref(), Some("done"));
            assert!(matches!(success, Some(BackgroundJobSuccess::Montage { output_path, .. }) if output_path == "/clips/montage.mp4"));
            assert!(error.is_none());
        }
        other => panic!("unexpected notification {other:?}"),
    }
}

#[test]
fn queued_ids_are_fresh_and_increasing() {
    let mut board = BackgroundJobBoard::new();
    let a = board.queue(BackgroundJobKind::Upload, "a".into(), vec![], 0);
    let b = board.queue(BackgroundJobKind::Upload, "b".into(), vec![], 0);
    assert_eq!(a, BackgroundJobId(1));
    assert_eq!(b, BackgroundJobId(2));
    board.replace_recent_jobs(vec![finished_record(41)]);
    let c = board.queue(BackgroundJobKind::Upload, "c".into(), vec![], 0);
    assert_eq!(c, BackgroundJobId(42));
}

#[test]
fn events_for_unknown_jobs_are_ignored() {
    let mut board = BackgroundJobBoard::new();
    assert!(board.apply(JobEvent::Started { id: BackgroundJobId(99) }, 5).is_none());
    assert!(!board.cancel(BackgroundJobId(99), 5));
    assert!(board.active_jobs().is_empty());
}

#[test]
fn history_keeps_at_most_its_limit() {
    let mut board = BackgroundJobBoard::new();
    for n in 0..30 {
        let id = board.queue(BackgroundJobKind::Upload, format!("job {n}"), vec![], n);
        board.apply(JobEvent::Failed { id, error: "no".into() }, n);
    }
    let recent = board.recent_jobs();
    assert_eq!(recent.len(), HISTORY_LIMIT);
    assert_eq!(recent[0].id, BackgroundJobId(30));
}

#[test]
fn check_cancelled_reports_cancellation() {
    assert!(check_cancelled(false).is_ok());
    assert_eq!(check_cancelled(true).unwrap_err(), "Job cancelled.");
}

#[test]
fn job_names_round_trip_through_storage_text() {
    for kind in [
        BackgroundJobKind::StorageTiering,
        BackgroundJobKind::Upload,
        BackgroundJobKind::Montage,
        BackgroundJobKind::DiscordWebhook,
        BackgroundJobKind::PostProcess,
    ] {
        assert_eq!(BackgroundJobKind::from_db(kind.as_str()), kind);
    }
    for state in [
        BackgroundJobState::Queued,
        BackgroundJobState::Running,
        BackgroundJobState::Succeeded,
        BackgroundJobState::Failed,
        BackgroundJobState::Cancelled,
    ] {
        assert_eq!(BackgroundJobState::from_db(state.as_str()), state);
    }
}

#[test]
fn a_failed_job_reports_its_error_and_no_success() {
    let mut board = BackgroundJobBoard::new();
    let id = board.queue(BackgroundJobKind::DiscordWebhook, "Post clip".into(), vec![3], 0);
    let events = completion_events(id, true, JobOutcome::Failed { error: "webhook refused".into() }, false);
    let notifications = board.drain_notifications(events, 5);
    assert_eq!(notifications.len(), 1);
    match &notifications[0] {
        JobNotification::Finished { record, success, error } => {
            assert_eq!(record.state, BackgroundJobState::Failed);
            assert_eq!(record.finished_at, Some(5));
            assert!(success.is_none());
            assert_eq!(error.as_deref(), Some("webhook refused"));
        }
        other => panic!("unexpected notification {other:?}"),
    }
    assert!(!board.is_active(id));
}
