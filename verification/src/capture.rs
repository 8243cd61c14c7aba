//! What every capture backend shares: discovered audio sources, the
//! capabilities a backend has, the events a running backend reports, and the
//! errors capture and audio routing end in.
use vstd::prelude::*;
use crate::config::{AudioSourceKind, KindView};
use crate::notifications::ClipLength;
use crate::text::owned;

verus! {

/// Whether a discovered audio source is a device or an application.
#[derive(Debug, Clone, Copy, PartialEq, Eq, Structural)]
pub enum DiscoveredAudioKind {
    Device,
    Application,
}

/// An audio source offered to the user.
#[derive(Debug)]
pub struct DiscoveredAudioSource {
    pub kind_hint: AudioSourceKind,
    pub display_label: String,
    pub kind: DiscoveredAudioKind,
    pub available: bool,
}

pub struct DiscoveredView {
    pub kind_hint: KindView,
    pub display_label: Seq<char>,
    pub kind: DiscoveredAudioKind,
    pub available: bool,
}

impl View for DiscoveredAudioSource {
    type V = DiscoveredView;

    open spec fn view(&self) -> DiscoveredView {
        DiscoveredView {
            kind_hint: self.kind_hint@,
            display_label: self.display_label@,
            kind: self.kind,
            available: self.available,
        }
    }
}

impl DiscoveredAudioSource {
    pub fn copy(&self) -> (r: Self)
        ensures
            r@ == self@,
    {
        DiscoveredAudioSource {
            kind_hint: self.kind_hint.copy(),
            display_label: owned(self.display_label.as_str()),
            kind: self.kind,
            available: self.available,
        }
    }
}

/// What a capture backend can do.
#[derive(Debug, Clone, Copy, PartialEq, Eq, Structural)]
pub struct CaptureCapabilities {
    pub per_app_audio: bool,
    pub application_inverse: bool,
    pub merged_tracks: bool,
    pub portal_session_restore: bool,
    pub replay_buffer: bool,
    pub hdr: bool,
    pub cursor_capture: bool,
}

impl Default for CaptureCapabilities {
    fn default() -> (r: Self)
        ensures
            !r.per_app_audio && !r.application_inverse && !r.merged_tracks
                && !r.portal_session_restore && !r.replay_buffer && !r.hdr && !r.cursor_capture,
    {
        CaptureCapabilities {
            per_app_audio: false,
            application_inverse: false,
            merged_tracks: false,
            portal_session_restore: false,
            replay_buffer: false,
            hdr: false,
            cursor_capture: false,
        }
    }
}

/// What the app should do after a save to keep later clips right.
#[derive(Debug, Clone, Copy, PartialEq, Eq, Structural)]
pub enum RecoveryHint {
    NoRecovery,
    ReacquireCaptureTarget,
}

/// The state of the connection to OBS.
#[derive(Debug)]
pub enum ObsConnectionStatus {
    Connected,
    Reconnecting { attempt: u32, next_retry_in_secs: u64 },
    Failed { reason: String },
}

/// Something a running backend reports besides saved clips.
#[derive(Debug)]
pub enum BackendRuntimeEvent {
    ObsConnection(ObsConnectionStatus),
}

/// Why an audio source could not be discovered or used.
#[derive(Debug)]
pub enum AudioSourceError {
    RecorderNotFound,
    DiscoveryFailed(String),
    TaskFailed(String),
    PerAppUnavailable { reason: String, partial: Vec<DiscoveredAudioSource> },
    Unsupported { capability: String },
    WrongBackend { expected: String, actual: String },
}

impl AudioSourceError {
    pub open spec fn message_of(&self) -> Seq<char> {
        match self {
            AudioSourceError::RecorderNotFound => "gpu-screen-recorder is not installed or not available in PATH"@,
            AudioSourceError::DiscoveryFailed(s) => "audio source discovery failed: "@ + s@,
            AudioSourceError::TaskFailed(s) => "audio source discovery task failed: "@ + s@,
            AudioSourceError::PerAppUnavailable { reason, .. } => "per-application audio discovery is unavailable: "@ + reason@,
            AudioSourceError::Unsupported { capability } => "audio source is not supported by this backend: "@ + capability@,
            AudioSourceError::WrongBackend { expected, actual } => "raw audio source targets backend `"@ + actual@
                + "` but active backend is `"@ + expected@ + "`"@,
        }
    }

    /// The message that describes the error.
    pub fn message(&self) -> (r: String)
        ensures
            r@ == self.message_of(),
    {
        match self {
            AudioSourceError::RecorderNotFound => owned("gpu-screen-recorder is not installed or not available in PATH"),
            AudioSourceError::DiscoveryFailed(s) => {
                let mut r = owned("audio source discovery failed: ");
                r.push_str(s.as_str());
                r
            },
            AudioSourceError::TaskFailed(s) => {
                let mut r = owned("audio source discovery task failed: ");
                r.push_str(s.as_str());
                r
            },
            AudioSourceError::PerAppUnavailable { reason, .. } => {
                let mut r = owned("per-application audio discovery is unavailable: ");
                r.push_str(reason.as_str());
                r
            },
            AudioSourceError::Unsupported { capability } => {
                let mut r = owned("audio source is not supported by this backend: ");
                r.push_str(capability.as_str());
                r
            },
            AudioSourceError::WrongBackend { expected, actual } => {
                let mut r = owned("raw audio source targets backend `");
                r.push_str(actual.as_str());
                r.push_str("` but active backend is `");
                r.push_str(expected.as_str());
                r.push_str("`");
                r
            },
        }
    }
}

/// Why a capture backend could not start, save or stop.
#[derive(Debug)]
pub enum CaptureError {
    AlreadyRunning,
    NotRunning,
    SaveInFlight,
    SpawnFailed(String),
    SignalFailed(String),
    AudioSource(AudioSourceError),
    Unsupported { capability: String },
    Io(String),
}

impl CaptureError {
    pub open spec fn message_of(&self) -> Seq<char> {
        match self {
            CaptureError::AlreadyRunning => "recorder is already running"@,
            CaptureError::NotRunning => "recorder is not running"@,
            CaptureError::SaveInFlight => "a replay save is already in flight"@,
            CaptureError::SpawnFailed(s) => "failed to spawn capture backend: "@ + s@,
            CaptureError::SignalFailed(s) => "failed to send signal: "@ + s@,
            CaptureError::AudioSource(e) => "failed to configure audio source: "@ + e.message_of(),
            CaptureError::Unsupported { capability } => "capture backend does not support: "@ + capability@,
            CaptureError::Io(s) => "I/O error: "@ + s@,
        }
    }

    /// The message that describes the error.
    pub fn message(&self) -> (r: String)
        ensures
            r@ == self.message_of(),
    {
        match self {
            CaptureError::AlreadyRunning => owned("recorder is already running"),
            CaptureError::NotRunning => owned("recorder is not running"),
            CaptureError::SaveInFlight => owned("a replay save is already in flight"),
            CaptureError::SpawnFailed(s) => {
                let mut r = owned("failed to spawn capture backend: ");
                r.push_str(s.as_str());
                r
            },
            CaptureError::SignalFailed(s) => {
                let mut r = owned("failed to send signal: ");
                r.push_str(s.as_str());
                r
            },
            CaptureError::AudioSource(e) => {
                let mut r = owned("failed to configure audio source: ");
                let m = e.message();
                r.push_str(m.as_str());
                r
            },
            CaptureError::Unsupported { capability } => {
                let mut r = owned("capture backend does not support: ");
                r.push_str(capability.as_str());
                r
            },
            CaptureError::Io(s) => {
                let mut r = owned("I/O error: ");
                r.push_str(s.as_str());
                r
            },
        }
    }
}

/// What a test session of a backend has seen.
#[derive(Debug)]
pub struct MockSessionState {
    pub is_running: bool,
    pub save_in_flight: bool,
    pub save_calls: Vec<ClipLength>,
}

impl Default for MockSessionState {
    fn default() -> (r: Self)
        ensures
            !r.is_running,
            !r.save_in_flight,
            r.save_calls@.len() == 0,
    {
        MockSessionState { is_running: false, save_in_flight: false, save_calls: Vec::new() }
    }
}

impl DiscoveredAudioSource {
    /// Whether two discovered sources are the same, field for field.
    pub fn same_source(&self, other: &DiscoveredAudioSource) -> (r: bool)
        ensures
            r == (self@ == other@),
    {
        let a = crate::text::chars_of(self.display_label.as_str());
        let b = crate::text::chars_of(other.display_label.as_str());
        self.kind_hint.same_kind(&other.kind_hint) && crate::text::chars_eq(&a, &b) && self.kind == other.kind
            && self.available == other.available
    }
}

/// The display server a capture runs under.
#[derive(Debug, Clone, Copy, PartialEq, Eq, Structural)]
pub enum DisplayServer {
    X11,
    Wayland,
}

/// What a capture records.
#[derive(Debug)]
pub enum CaptureTarget {
    X11Window(u64),
    WaylandPortal,
    Monitor(String),
    BackendOwned,
}

/// How a capture is set up: its target, the display server it runs under,
/// and whether a portal session may be restored.
#[derive(Debug)]
pub struct CaptureSourcePlan {
    pub target: CaptureTarget,
    pub display_server: Option<DisplayServer>,
    pub restore_portal_session: bool,
}

} // verus!
