use nanite_clip::command_runner::{check_result, describe, stderr_summary, CommandError};
use nanite_clip::db::{
    interrupted_background_job_detail, validate_output_destination, ClipOrigin, DestinationFacts,
    UploadProvider,
};
use nanite_clip::discord::{thumbnail_ffmpeg_args, webhook_step, WebhookStep};
use nanite_clip::honu::{active_session_id, sessions_url, Session};
use nanite_clip::launcher::{desktop_openers, open_path};
use nanite_clip::montage::{
    concat_list_line, escape_concat_path, montage_output_name, validate_concat_inputs,
    MontageInputFacts,
};
use nanite_clip::platform::Platform;

#[test]
fn describe_quotes_arguments_with_spaces() {
    assert_eq!(
        describe("echo", &vec!["hello world".to_string(), "plain".to_string()]),
        "echo \"hello world\" plain"
    );
}

#[test]
fn failed_commands_report_their_stderr() {
    match check_result("sh -c x", false, "exit status: 7", "boom\n") {
        Err(error) => assert!(error.message().contains(": boom")),
        Ok(()) => panic!("failure accepted"),
    }
    assert!(check_result("true", true, "exit status: 0", "").is_ok());
    assert_eq!(stderr_summary("  boom \n"), ": boom");
    assert_eq!(stderr_summary("   "), "");
    let spawn = CommandError::Spawn {
        command: "x".into(),
        source: "not found".into(),
    };
    assert_eq!(spawn.message(), "failed to start `x`: not found");
}

#[test]
fn rejects_single_clip_montage() {
    let error = validate_concat_inputs(&vec![MontageInputFacts {
        path: "/tmp/example.mkv".into(),
        exists: true,
        extension: "mkv".into(),
        probe: Ok("h264".into()),
    }])
    .unwrap_err();
    assert!(error.contains("at least two clips"));
}

#[test]
fn montage_inputs_must_match() {
    let clip = |path: &str, ext: &str, probe: &str| MontageInputFacts {
        path: path.into(),
        exists: true,
        extension: ext.into(),
        probe: Ok(probe.into()),
    };
    assert!(validate_concat_inputs(&vec![clip("/a.mkv", "mkv", "p"), clip("/b.MKV", "MKV", "p")]).is_ok());
    let error = validate_concat_inputs(&vec![clip("/a.mkv", "mkv", "p"), clip("/b.mp4", "mp4", "p")]).unwrap_err();
    assert_eq!(error, "Clip /b.mp4 uses .mp4 but the montage started with .mkv.");
    let error = validate_concat_inputs(&vec![clip("/a.mkv", "mkv", "p"), clip("/b.mkv", "mkv", "q")]).unwrap_err();
    assert_eq!(error, "Clip /b.mkv is not stream-copy compatible with the other montage inputs.");
}

#[test]
fn concat_lists_escape_quotes() {
    assert_eq!(escape_concat_path("/tmp/it's.mkv"), "/tmp/it'\\''s.mkv");
    assert_eq!(concat_list_line("/tmp/a.mkv"), "file '/tmp/a.mkv'\n");
    assert_eq!(montage_output_name("montage", "mkv", None), "montage.mkv");
    assert_eq!(montage_output_name("montage", "mkv", Some(2)), "montage-2.mkv");
}

#[test]
fn discord_webhook_steps() {
    assert!(matches!(webhook_step(0, 204, "204 No Content", ""), WebhookStep::Delivered));
    assert!(matches!(webhook_step(0, 429, "429", ""), WebhookStep::RetryAfterRateLimit));
    match webhook_step(3, 429, "429 Too Many Requests", "slow down") {
        WebhookStep::Failed(message) => assert_eq!(
            message,
            "Discord webhook failed with 429 Too Many Requests: slow down"
        ),
        other => panic!("unexpected step {other:?}"),
    }
    let args = thumbnail_ffmpeg_args("/in.mkv", "/out.jpg");
    assert_eq!(args, vec!["-y", "-ss", "00:00:01", "-i", "/in.mkv", "-frames:v", "1", "/out.jpg"]);
}

#[test]
fn honu_sessions() {
    assert_eq!(sessions_url(42), "https://wt.honu.pw/api/character/42/sessions");
    let session = |id: i64, end: Option<&str>| Session {
        id,
        character_id: "42".into(),
        start: "2026-04-05T22:00:00Z".into(),
        end: end.map(|e| e.to_string()),
    };
    assert_eq!(
        active_session_id(&vec![session(1, Some("2026-04-05T23:09:49Z")), session(2, None)]),
        Some(2)
    );
    assert_eq!(active_session_id(&vec![session(1, Some("x"))]), None);
}

#[test]
fn desktop_openers_per_platform() {
    let linux = desktop_openers(Platform::Linux).unwrap();
    assert_eq!(linux[0].program, "xdg-open");
    assert_eq!(linux[1].program, "gio");
    assert!(desktop_openers(Platform::Other).is_none());
    assert!(open_path("/missing", false, Platform::Linux).is_err());
}

#[test]
fn stored_names_round_trip() {
    for origin in [ClipOrigin::Rule, ClipOrigin::Manual, ClipOrigin::Imported] {
        assert_eq!(ClipOrigin::from_db(origin.as_str()), origin);
    }
    assert_eq!(UploadProvider::from_db(UploadProvider::YouTube.as_str()), UploadProvider::YouTube);
}

#[test]
fn interrupted_jobs_keep_their_detail() {
    assert_eq!(
        interrupted_background_job_detail(Some("Uploading".into())),
        "Uploading Interrupted because nanite-clip closed before the background job finished."
    );
    assert_eq!(
        interrupted_background_job_detail(None),
        "Interrupted because nanite-clip closed before the background job finished."
    );
}

#[test]
fn rejects_invalid_export_destination() {
    let facts = DestinationFacts {
        parent: Some("/definitely/missing/nanite-clip".into()),
        parent_exists: false,
        parent_is_dir: false,
        destination_is_dir: false,
    };
    assert!(validate_output_destination("/definitely/missing/nanite-clip/export.json", &facts).is_err());
}
