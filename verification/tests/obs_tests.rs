use nanite_clip::obs::{
    backoff_for_attempt, ensure_supported_obs_version, managed_profile_matches_request,
    map_container, parse_websocket_url, replay_buffer_size_mb, ManagedProfileSnapshot,
    ObsParameterKeys, ObsVersion,
};
use nanite_clip::platform::Platform;

fn sample_obs_version() -> ObsVersion {
    ObsVersion {
        studio_version_text: "30.2.0".into(),
        studio_major: 30,
        studio_is_prerelease: false,
        websocket_version_text: "5.5.0".into(),
        websocket_major: 5,
        rpc_version: 1,
    }
}

fn container_mapping_cases() {
    assert_eq!(map_container("mkv").unwrap(), "mkv");
    assert_eq!(map_container("MP4").unwrap(), "mp4");
    assert_eq!(map_container("fragmented_mp4").unwrap(), "fragmented_mp4");
    assert_eq!(map_container("hls").unwrap(), "hls");
    assert_eq!(map_container("mpegts").unwrap(), "mpegts");
    assert!(map_container("webm").is_err());
}

fn websocket_url_local_cases() {
    let ws = parse_websocket_url("ws://127.0.0.1:4455").unwrap();
    assert_eq!(ws.host, "127.0.0.1");
    assert_eq!(ws.port, 4455);
    assert!(!ws.tls);

    let localhost = parse_websocket_url("ws://localhost:4455").unwrap();
    assert_eq!(localhost.host, "localhost");

    let ipv6 = parse_websocket_url("wss://[::1]:8443").unwrap();
    assert_eq!(ipv6.host, "[::1]");
    assert!(ipv6.tls);
}

fn websocket_url_remote_cases() {
    assert!(parse_websocket_url("ws://obs.example.com:4455").is_err());
    assert!(parse_websocket_url("ws://10.0.0.5:4455").is_err());
    assert!(parse_websocket_url("wss://192.168.1.10:4455").is_err());
}

fn parameter_key_cases() {
    let old = ObsParameterKeys::for_version(29);
    let new = ObsParameterKeys::for_version(30);

    assert_eq!(old.simple_output_rec_format, "RecFormat");
    assert_eq!(new.simple_output_rec_format, "RecFormat2");
}

fn backoff_cases() {
    assert_eq!(backoff_for_attempt(1), 1);
    assert_eq!(backoff_for_attempt(2), 2);
    assert_eq!(backoff_for_attempt(3), 5);
    assert_eq!(backoff_for_attempt(4), 10);
    assert_eq!(backoff_for_attempt(5), 30);
    assert_eq!(backoff_for_attempt(12), 30);
}

fn stable_version_case() {
    assert!(ensure_supported_obs_version(&sample_obs_version()).is_ok());
}

fn prerelease_version_case() {
    let mut version = sample_obs_version();
    version.studio_version_text = "30.2.0-rc1".into();
    version.studio_is_prerelease = true;

    assert!(ensure_supported_obs_version(&version).is_err());
}

fn websocket_major_case() {
    let mut version = sample_obs_version();
    version.websocket_version_text = "6.0.0".into();
    version.websocket_major = 6;

    assert!(ensure_supported_obs_version(&version).is_err());
}

fn active_snapshot_case() {
    let snapshot = ManagedProfileSnapshot {
        file_path: Some("C:\\Clips\\".into()),
        rec_format: Some("MKV".into()),
        rec_rb: Some("1".into()),
        rec_rb_time: Some("030".into()),
        rec_rb_size: Some("0512".into()),
        was_active: true,
    };

    assert!(managed_profile_matches_request(
        &snapshot,
        "C:/Clips",
        "mkv",
        "true",
        "30",
        "512",
        Platform::Linux,
    ));
}

fn mismatched_snapshot_cases() {
    let inactive_snapshot = ManagedProfileSnapshot {
        file_path: Some("C:\\Clips".into()),
        rec_format: Some("mkv".into()),
        rec_rb: Some("true".into()),
        rec_rb_time: Some("30".into()),
        rec_rb_size: Some("512".into()),
        was_active: false,
    };
    assert!(!managed_profile_matches_request(
        &inactive_snapshot,
        "C:\\Clips",
        "mkv",
        "true",
        "30",
        "512",
        Platform::Linux,
    ));

    let mismatched_snapshot = ManagedProfileSnapshot {
        file_path: Some("C:\\Other".into()),
        rec_format: Some("mp4".into()),
        rec_rb: Some("false".into()),
        rec_rb_time: Some("15".into()),
        rec_rb_size: Some("256".into()),
        was_active: true,
    };
    assert!(!managed_profile_matches_request(
        &mismatched_snapshot,
        "C:\\Clips",
        "mkv",
        "true",
        "30",
        "512",
        Platform::Linux,
    ));
}

#[test]
fn obs_obs_container_mapping_accepts_supported_formats() {
    container_mapping_cases();
}

#[test]
fn compat_obs_container_mapping_accepts_supported_formats() {
    container_mapping_cases();
}

#[test]
fn obs_obs_websocket_url_parses_localhost_ws_and_wss() {
    websocket_url_local_cases();
}

#[test]
fn compat_obs_websocket_url_parses_localhost_ws_and_wss() {
    websocket_url_local_cases();
}

#[test]
fn obs_obs_websocket_url_rejects_remote_hosts() {
    websocket_url_remote_cases();
}

#[test]
fn compat_obs_websocket_url_rejects_remote_hosts() {
    websocket_url_remote_cases();
}

#[test]
fn obs_obs_parameter_keys_switch_rec_format_name_for_newer_obs() {
    parameter_key_cases();
}

#[test]
fn compat_obs_parameter_keys_switch_rec_format_name_for_newer_obs() {
    parameter_key_cases();
}

#[test]
fn obs_reconnect_backoff_matches_documented_schedule() {
    backoff_cases();
}

#[test]
fn compat_reconnect_backoff_matches_documented_schedule() {
    backoff_cases();
}

#[test]
fn obs_obs_version_guard_accepts_supported_stable_versions() {
    stable_version_case();
}

#[test]
fn compat_obs_version_guard_accepts_supported_stable_versions() {
    stable_version_case();
}

#[test]
fn obs_obs_version_guard_rejects_prerelease_studio_builds() {
    prerelease_version_case();
}

#[test]
fn compat_obs_version_guard_rejects_prerelease_studio_builds() {
    prerelease_version_case();
}

#[test]
fn obs_obs_version_guard_rejects_wrong_websocket_major() {
    websocket_major_case();
}

#[test]
fn compat_obs_version_guard_rejects_wrong_websocket_major() {
    websocket_major_case();
}

#[test]
fn obs_managed_profile_match_requires_active_snapshot_with_expected_values() {
    active_snapshot_case();
}

#[test]
fn compat_managed_profile_match_requires_active_snapshot_with_expected_values() {
    active_snapshot_case();
}

#[test]
fn obs_managed_profile_match_rejects_mismatched_or_inactive_snapshots() {
    mismatched_snapshot_cases();
}

#[test]
fn compat_managed_profile_match_rejects_mismatched_or_inactive_snapshots() {
    mismatched_snapshot_cases();
}

#[test]
fn version_refusal_messages_name_the_version() {
    let mut version = sample_obs_version();
    version.studio_version_text = "27.1.0".into();
    version.studio_major = 27;
    let message = match ensure_supported_obs_version(&version) {
        Err(error) => error.message(),
        Ok(()) => panic!("old OBS accepted"),
    };
    assert!(message.contains("OBS Studio 27.1.0 is too old"));
}

#[test]
fn replay_buffer_size_is_clamped() {
    assert_eq!(replay_buffer_size_mb(None, None, 1), 256);
    assert_eq!(replay_buffer_size_mb(Some(u64::MAX), Some(u64::MAX), u32::MAX), 8192);
}

#[test]
fn websocket_url_parse_failure_is_reported() {
    assert!(parse_websocket_url("not a url").is_err());
    assert!(parse_websocket_url("http://127.0.0.1:4455").is_err());
}
