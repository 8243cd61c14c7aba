//! The OBS Studio backend's decisions: which OBS versions it works with,
//! where it may connect, the containers OBS records, the profile settings
//! it manages and when they already match, the replay buffer's size, and
//! how a session reacts to OBS events and lost connections.
use vstd::prelude::*;
use crate::capture::{AudioSourceError, CaptureCapabilities, CaptureError, ObsConnectionStatus};
use crate::config::{AudioSourceKind, ObsBackendConfig, ObsManagementMode, opt_view};
use crate::ip::{ip_loopback, is_ip_loopback};
use crate::notifications::ClipLength;
use crate::platform::Platform;
use crate::text::{has_char, str_eq, contains_seq, chars_eq, chars_eq_ignore_case, chars_eq_str, chars_of, decimal, eq_ignore_case, is_prefix, is_suffix, lower, lower_chars, owned, parse_u64, parse_u64_str, push_decimal, string_of, strip_char, strip_end_char, sub_chars, trim, trim_chars, trim_str};

verus! {

pub const OBS_MIN_STUDIO_VERSION_MAJOR: u64 = 28;
pub const OBS_SUPPORTED_WEBSOCKET_VERSION_MAJOR: u64 = 5;
pub const OBS_SUPPORTED_RPC_VERSION: u32 = 1;
pub const OBS_MIN_REPLAY_BUFFER_SIZE_MB: u64 = 256;
pub const OBS_MAX_REPLAY_BUFFER_SIZE_MB: u64 = 8192;
pub const OBS_REPLAY_BUFFER_SIZE_HEADROOM_PCT: u64 = 125;
pub const OBS_FALLBACK_VIDEO_BITRATE_KBPS: u64 = 6_000;
pub const OBS_FALLBACK_AUDIO_BITRATE_KBPS: u64 = 160;
pub const OBS_MAX_RECONNECT_ATTEMPTS: u32 = 10;

/// The OBS Studio capture backend.
#[derive(Debug)]
pub struct ObsBackend {
    pub config: ObsBackendConfig,
}

impl ObsBackend {
    pub fn new(config: ObsBackendConfig) -> (r: Self)
        ensures
            r.config == config,
    {
        ObsBackend { config }
    }

    pub fn id(&self) -> (r: &'static str)
        ensures
            r@ == "obs"@,
    {
        "obs"
    }

    pub fn display_name(&self) -> (r: &'static str)
        ensures
            r@ == "OBS Studio (obs-websocket)"@,
    {
        "OBS Studio (obs-websocket)"
    }

    /// OBS always keeps a replay buffer; only full management captures the
    /// cursor as well.
    pub fn capabilities(&self) -> (r: CaptureCapabilities)
        ensures
            r.replay_buffer,
            r.cursor_capture == (self.config.management_mode == ObsManagementMode::FullManagement),
            !r.per_app_audio && !r.application_inverse && !r.merged_tracks && !r.portal_session_restore && !r.hdr,
    {
        let full = match self.config.management_mode {
            ObsManagementMode::FullManagement => true,
            _ => false,
        };
        CaptureCapabilities {
            per_app_audio: false,
            application_inverse: false,
            merged_tracks: false,
            portal_session_restore: false,
            replay_buffer: true,
            hdr: false,
            cursor_capture: full,
        }
    }

    /// OBS routes audio itself, so no audio source is accepted.
    pub fn validate_audio_source(&self, kind: &AudioSourceKind) -> (r: Result<(), AudioSourceError>)
        ensures
            match r {
                Err(AudioSourceError::Unsupported { capability }) => capability@ == (
                if self.config.management_mode == ObsManagementMode::FullManagement {
                    "Full OBS audio management is not yet implemented"@
                } else {
                    "OBS owns audio routing"@
                }),
                _ => false,
            },
    {
        match self.config.management_mode {
            ObsManagementMode::FullManagement => Err(AudioSourceError::Unsupported {
                capability: owned("Full OBS audio management is not yet implemented"),
            }),
            _ => Err(AudioSourceError::Unsupported { capability: owned("OBS owns audio routing") }),
        }
    }
}

/// The versions an OBS instance reports. The `*_text` fields are the
/// versions as OBS writes them, for messages.
#[derive(Debug)]
pub struct ObsVersion {
    pub studio_version_text: String,
    pub studio_major: u64,
    pub studio_is_prerelease: bool,
    pub websocket_version_text: String,
    pub websocket_major: u64,
    pub rpc_version: u32,
}

/// Why an OBS version is refused, if it is.
pub open spec fn version_refusal(v: ObsVersion) -> Option<Seq<char>> {
    if v.studio_major < OBS_MIN_STUDIO_VERSION_MAJOR {
        Some("OBS Studio "@ + v.studio_version_text@ + " is too old. NaniteClip requires OBS Studio 28.0 or newer."@)
    } else if v.studio_is_prerelease {
        Some("OBS Studio "@ + v.studio_version_text@ + " is a pre-release build. NaniteClip only supports stable OBS releases."@)
    } else if v.websocket_major != OBS_SUPPORTED_WEBSOCKET_VERSION_MAJOR {
        Some("obs-websocket "@ + v.websocket_version_text@ + " is unsupported. NaniteClip requires obs-websocket major version "@
            + decimal(OBS_SUPPORTED_WEBSOCKET_VERSION_MAJOR as nat) + "."@)
    } else if v.rpc_version != OBS_SUPPORTED_RPC_VERSION {
        Some("obs-websocket RPC version "@ + decimal(v.rpc_version as nat) + " is unsupported. NaniteClip requires RPC version "@
            + decimal(OBS_SUPPORTED_RPC_VERSION as nat) + "."@)
    } else {
        None
    }
}

/// Accepts stable OBS Studio 28 or newer with obs-websocket 5 and RPC 1.
pub fn ensure_supported_obs_version(version: &ObsVersion) -> (r: Result<(), CaptureError>)
    ensures
        match (r, version_refusal(*version)) {
            (Ok(()), None) => true,
            (Err(CaptureError::SpawnFailed(m)), Some(x)) => m@ == x,
            _ => false,
        },
{
    if version.studio_major < OBS_MIN_STUDIO_VERSION_MAJOR {
        let mut m = owned("OBS Studio ");
        m.push_str(version.studio_version_text.as_str());
        m.push_str(" is too old. NaniteClip requires OBS Studio 28.0 or newer.");
        return Err(CaptureError::SpawnFailed(m));
    }
    if version.studio_is_prerelease {
        let mut m = owned("OBS Studio ");
        m.push_str(version.studio_version_text.as_str());
        m.push_str(" is a pre-release build. NaniteClip only supports stable OBS releases.");
        return Err(CaptureError::SpawnFailed(m));
    }
    if version.websocket_major != OBS_SUPPORTED_WEBSOCKET_VERSION_MAJOR {
        let mut m = owned("obs-websocket ");
        m.push_str(version.websocket_version_text.as_str());
        m.push_str(" is unsupported. NaniteClip requires obs-websocket major version ");
        push_decimal(&mut m, OBS_SUPPORTED_WEBSOCKET_VERSION_MAJOR);
        m.push_str(".");
        return Err(CaptureError::SpawnFailed(m));
    }
    if version.rpc_version != OBS_SUPPORTED_RPC_VERSION {
        let mut m = owned("obs-websocket RPC version ");
        push_decimal(&mut m, version.rpc_version as u64);
        m.push_str(" is unsupported. NaniteClip requires RPC version ");
        push_decimal(&mut m, OBS_SUPPORTED_RPC_VERSION as u64);
        m.push_str(".");
        return Err(CaptureError::SpawnFailed(m));
    }
    Ok(())
}

/// The names of the Simple Output profile parameters, which differ between
/// OBS versions.
#[derive(Debug, Clone, Copy)]
pub struct ObsParameterKeys {
    pub simple_output_rec_format: &'static str,
    pub simple_output_rec_rb: &'static str,
    pub simple_output_rec_rb_time: &'static str,
    pub simple_output_rec_rb_size: &'static str,
}

impl ObsParameterKeys {
    /// OBS 30 renamed the recording format parameter to `RecFormat2`.
    pub fn for_version(studio_major: u64) -> (r: Self)
        ensures
            r.simple_output_rec_format@ == (if studio_major >= 30 {
                "RecFormat2"@
            } else {
                "RecFormat"@
            }),
            r.simple_output_rec_rb@ == "RecRB"@,
            r.simple_output_rec_rb_time@ == "RecRBTime"@,
            r.simple_output_rec_rb_size@ == "RecRBSize"@,
    {
        let format_key = if studio_major >= 30 {
            "RecFormat2"
        } else {
            "RecFormat"
        };
        ObsParameterKeys {
            simple_output_rec_format: format_key,
            simple_output_rec_rb: "RecRB",
            simple_output_rec_rb_time: "RecRBTime",
            simple_output_rec_rb_size: "RecRBSize",
        }
    }
}

/// The container formats OBS records to.
pub open spec fn obs_container(c: Seq<char>) -> bool {
    c == "mkv"@ || c == "mp4"@ || c == "mov"@ || c == "flv"@ || c == "ts"@ || c == "m3u8"@
        || c == "hls"@ || c == "fragmented_mp4"@ || c == "fragmented_mov"@ || c == "mpegts"@
}

pub open spec fn unsupported_container_message(c: Seq<char>) -> Seq<char> {
    "Container `"@ + c
        + "` is not supported by OBS. Use mkv, mp4, mov, flv, ts, m3u8, hls, fragmented_mp4, fragmented_mov, or mpegts."@
}

/// The OBS name of a container setting: trimmed and lower-cased, refused
/// when OBS does not record to it.
pub fn map_container(container: &str) -> (r: Result<String, CaptureError>)
    ensures
        obs_container(lower(trim(container@))) ==> (r matches Ok(s) && s@ == lower(trim(container@))),
        !obs_container(lower(trim(container@))) ==> (r matches Err(CaptureError::Unsupported { capability })
            && capability@ == unsupported_container_message(lower(trim(container@)))),
{
    let v = chars_of(container);
    let t = trim_chars(&v);
    let n = lower_chars(&t);
    if chars_eq_str(&n, "mkv") || chars_eq_str(&n, "mp4") || chars_eq_str(&n, "mov") || chars_eq_str(&n, "flv")
        || chars_eq_str(&n, "ts") || chars_eq_str(&n, "m3u8") || chars_eq_str(&n, "hls") || chars_eq_str(
        &n,
        "fragmented_mp4",
    ) || chars_eq_str(&n, "fragmented_mov") || chars_eq_str(&n, "mpegts") {
        Ok(string_of(&n))
    } else {
        let mut m = owned("Container `");
        let s = string_of(&n);
        m.push_str(s.as_str());
        m.push_str("` is not supported by OBS. Use mkv, mp4, mov, flv, ts, m3u8, hls, fragmented_mp4, fragmented_mov, or mpegts.");
        Err(CaptureError::Unsupported { capability: m })
    }
}

/// The parts of a parsed URL that the connection needs: the scheme, the
/// host as written in the URL, the port (the scheme's default when none is
/// written) and the path.
#[derive(Debug)]
pub struct UrlParts {
    pub scheme: String,
    pub host: Option<String>,
    pub port: Option<u16>,
    pub path: String,
}

pub struct UrlPartsView {
    pub scheme: Seq<char>,
    pub host: Option<Seq<char>>,
    pub port: Option<u16>,
    pub path: Seq<char>,
}

impl View for UrlParts {
    type V = UrlPartsView;

    open spec fn view(&self) -> UrlPartsView {
        UrlPartsView { scheme: self.scheme@, host: opt_view(self.host), port: self.port, path: self.path@ }
    }
}

/// What `url::Url::parse` makes of a text: its parts, or the message of
/// the parse error.
pub uninterp spec fn url_parse(s: Seq<char>) -> Result<UrlPartsView, Seq<char>>;

/// `url::Url::parse`, with `scheme`, `host_str`, `port_or_known_default`
/// and `path` read from the result, or the error's message. The contract
/// only ties the result to the text through `url_parse`.
#[verifier::external_body]
fn parse_url(s: &str) -> (r: Result<UrlParts, String>)
    ensures
        match r {
            Ok(p) => url_parse(s@) == Ok::<UrlPartsView, Seq<char>>(p@),
            Err(e) => url_parse(s@) == Err::<UrlPartsView, Seq<char>>(e@),
        },
{
    match url::Url::parse(s) {
        Ok(u) => Ok(UrlParts {
            scheme: u.scheme().to_string(),
            host: u.host_str().map(|h| h.to_string()),
            port: u.port_or_known_default(),
            path: u.path().to_string(),
        }),
        Err(e) => Err(e.to_string()),
    }
}

/// Where to connect to OBS.
#[derive(Debug)]
pub struct ObsConnectionTarget {
    pub host: String,
    pub port: u16,
    pub tls: bool,
}

/// `localhost` in any case, or an IP literal (IPv6 in brackets) of a
/// loopback address.
pub open spec fn loopback_host(host: Seq<char>) -> bool {
    eq_ignore_case(host, "localhost"@) || ip_loopback(unbracketed(host))
}

/// `host` without the brackets around an IPv6 literal.
pub open spec fn unbracketed(host: Seq<char>) -> Seq<char> {
    if host.len() >= 2 && host[0] == '[' && host.last() == ']' {
        host.subrange(1, host.len() - 1)
    } else {
        host
    }
}

/// Whether a host names this machine.
pub fn is_loopback_host(host: &str) -> (r: bool)
    ensures
        r == loopback_host(host@),
{
    let v = chars_of(host);
    let lh = chars_of("localhost");
    if chars_eq_ignore_case(&v, &lh) {
        return true;
    }
    let n = v.len();
    let inner = if n >= 2 && v[0] == '[' && v[n - 1] == ']' {
        sub_chars(&v, 1, n - 1)
    } else {
        sub_chars(&v, 0, n)
    };
    assert(v@.subrange(0, n as int) =~= v@);
    is_ip_loopback(&inner)
}

pub open spec fn url_invalid_message(url: Seq<char>, e: Seq<char>) -> Seq<char> {
    "OBS websocket URL `"@ + url + "` is invalid: "@ + e
}

pub open spec fn url_message(url: Seq<char>, what: Seq<char>) -> Seq<char> {
    "OBS websocket URL `"@ + url + what
}

pub open spec fn remote_host_message(url: Seq<char>, host: Seq<char>) -> Seq<char> {
    "OBS websocket URL `"@ + url + "` must point to a local OBS instance (host: "@ + host
        + "). Remote OBS is not supported \u{2014} the ReplayBufferSaved event returns a path on the OBS machine, and NaniteClip cannot read files that live on another host."@
}

/// Where a websocket URL, already parsed, lets the backend connect: `ws`
/// or `wss` (with TLS) to a loopback host, with a port and no path; or the
/// message that says why not.
pub open spec fn websocket_target(url: Seq<char>, parsed: Result<UrlPartsView, Seq<char>>) -> Result<(Seq<char>, u16, bool), Seq<char>> {
    match parsed {
        Err(e) => Err(url_invalid_message(url, e)),
        Ok(p) => if p.scheme != "ws"@ && p.scheme != "wss"@ {
            Err("OBS websocket URL scheme `"@ + p.scheme + "` is unsupported. Use ws:// or wss://."@)
        } else {
            match p.host {
                None => Err(url_message(url, "` is missing a host"@)),
                Some(host) => match p.port {
                    None => Err(url_message(url, "` is missing a port"@)),
                    Some(port) => if p.path != "/"@ && p.path.len() != 0 {
                        Err(url_message(url, "` must not include a path"@))
                    } else if !loopback_host(host) {
                        Err(remote_host_message(url, host))
                    } else {
                        Ok((host, port, p.scheme == "wss"@))
                    },
                },
            }
        },
    }
}

/// The connection target for `url` (already trimmed) from what the URL
/// parser made of it.
pub fn websocket_target_from_parts(url: &str, parsed: Result<UrlParts, String>) -> (r: Result<ObsConnectionTarget, CaptureError>)
    ensures
        match (r, websocket_target(url@, match parsed {
            Ok(p) => Ok(p@),
            Err(e) => Err(e@),
        })) {
            (Ok(t), Ok((h, port, tls))) => t.host@ == h && t.port == port && t.tls == tls,
            (Err(CaptureError::SpawnFailed(m)), Err(x)) => m@ == x,
            _ => false,
        },
{
    let p = match parsed {
        Err(e) => {
            let mut m = owned("OBS websocket URL `");
            m.push_str(url);
            m.push_str("` is invalid: ");
            m.push_str(e.as_str());
            return Err(CaptureError::SpawnFailed(m));
        },
        Ok(p) => p,
    };
    let sv = chars_of(p.scheme.as_str());
    let is_ws = chars_eq_str(&sv, "ws");
    let is_wss = chars_eq_str(&sv, "wss");
    if !is_ws && !is_wss {
        let mut m = owned("OBS websocket URL scheme `");
        m.push_str(p.scheme.as_str());
        m.push_str("` is unsupported. Use ws:// or wss://.");
        return Err(CaptureError::SpawnFailed(m));
    }
    let host = match p.host {
        None => {
            let mut m = owned("OBS websocket URL `");
            m.push_str(url);
            m.push_str("` is missing a host");
            return Err(CaptureError::SpawnFailed(m));
        },
        Some(h) => h,
    };
    let port = match p.port {
        None => {
            let mut m = owned("OBS websocket URL `");
            m.push_str(url);
            m.push_str("` is missing a port");
            return Err(CaptureError::SpawnFailed(m));
        },
        Some(port) => port,
    };
    let pv = chars_of(p.path.as_str());
    if !chars_eq_str(&pv, "/") && pv.len() != 0 {
        let mut m = owned("OBS websocket URL `");
        m.push_str(url);
        m.push_str("` must not include a path");
        return Err(CaptureError::SpawnFailed(m));
    }
    if !is_loopback_host(host.as_str()) {
        let mut m = owned("OBS websocket URL `");
        m.push_str(url);
        m.push_str("` must point to a local OBS instance (host: ");
        m.push_str(host.as_str());
        m.push_str("). Remote OBS is not supported \u{2014} the ReplayBufferSaved event returns a path on the OBS machine, and NaniteClip cannot read files that live on another host.");
        return Err(CaptureError::SpawnFailed(m));
    }
    Ok(ObsConnectionTarget { host, port, tls: is_wss })
}

/// The backend only ever connects to this machine: every target a URL
/// yields is a loopback host, and TLS is used exactly for `wss`.
pub proof fn lemma_websocket_targets_are_local(url: Seq<char>, parsed: Result<UrlPartsView, Seq<char>>)
    ensures
        websocket_target(url, parsed) matches Ok((h, _, tls)) ==> (loopback_host(h) && (parsed matches Ok(p) && (tls
            <==> p.scheme == "wss"@))),
{
}

/// Where the websocket URL setting lets the backend connect. The URL is
/// trimmed and given to the URL parser; whatever the parser makes of it,
/// the result is `websocket_target_from_parts` of that.
pub fn parse_websocket_url(url: &str) -> (r: Result<ObsConnectionTarget, CaptureError>)
    ensures
        match (r, websocket_target(trim(url@), url_parse(trim(url@)))) {
            (Ok(t), Ok((h, port, tls))) => t.host@ == h && t.port == port && t.tls == tls,
            (Err(CaptureError::SpawnFailed(m)), Err(x)) => m@ == x,
            _ => false,
        },
{
    let trimmed = trim_str(url);
    let parsed = parse_url(trimmed.as_str());
    websocket_target_from_parts(trimmed.as_str(), parsed)
}

/// Seconds to wait before reconnection attempt `attempt`: 1, 2, 5, 10, then
/// 30 for every later one.
pub open spec fn backoff_secs(attempt: u32) -> u64 {
    if attempt == 1 {
        1
    } else if attempt == 2 {
        2
    } else if attempt == 3 {
        5
    } else if attempt == 4 {
        10
    } else {
        30
    }
}

pub fn backoff_for_attempt(attempt: u32) -> (r: u64)
    ensures
        r == backoff_secs(attempt),
{
    match attempt {
        1 => 1,
        2 => 2,
        3 => 5,
        4 => 10,
        _ => 30,
    }
}

/// A profile setting as a yes/no value, as OBS writes them.
pub open spec fn obs_bool(value: Seq<char>) -> Option<bool> {
    let v = lower(trim(value));
    if v == "true"@ || v == "1"@ || v == "yes"@ || v == "on"@ {
        Some(true)
    } else if v == "false"@ || v == "0"@ || v == "no"@ || v == "off"@ {
        Some(false)
    } else {
        None
    }
}

pub fn parse_obs_bool(value: &str) -> (r: Option<bool>)
    ensures
        r == obs_bool(value@),
{
    let v = chars_of(value);
    let t = trim_chars(&v);
    let l = lower_chars(&t);
    if chars_eq_str(&l, "true") || chars_eq_str(&l, "1") || chars_eq_str(&l, "yes") || chars_eq_str(&l, "on") {
        Some(true)
    } else if chars_eq_str(&l, "false") || chars_eq_str(&l, "0") || chars_eq_str(&l, "no") || chars_eq_str(&l, "off") {
        Some(false)
    } else {
        None
    }
}

/// A profile setting as a number.
pub fn parse_obs_u64(value: &str) -> (r: Option<u64>)
    ensures
        r == parse_u64(trim(value@)),
{
    let t = trim_str(value);
    parse_u64_str(t.as_str())
}

/// A profile setting compared without regard to case or surrounding
/// whitespace.
pub fn normalized_profile_text(value: &str) -> (r: String)
    ensures
        r@ == lower(trim(value@)),
{
    let v = chars_of(value);
    let t = trim_chars(&v);
    let l = lower_chars(&t);
    string_of(&l)
}

/// A character that path-syntax cleanup may drop from the end of a path:
/// a separator (on any platform) or the dot of a `.` component.
pub open spec fn path_tail_char(c: char) -> bool {
    c == '/' || c == '\\' || c == '.'
}

/// Whether `rem` is what path-syntax cleanup can leave of `s`: `s` itself
/// less a tail of separators and `.` components, and all of `s` when `s`
/// holds no separator.
pub open spec fn path_slice(s: Seq<char>, rem: Seq<char>) -> bool {
    &&& is_prefix(rem, s)
    &&& forall|i: int| rem.len() <= i < s.len() ==> path_tail_char(#[trigger] s[i])
    &&& (!has_char(s, '/') && !has_char(s, '\\') ==> rem == s)
}

/// `Path::components().as_path()` on a fresh `Components`: the portion of
/// the path remaining for iteration, which its documentation describes as
/// the path with a trailing separator and trailing `.` components
/// normalised away. The contract claims that slice's shape on every
/// platform: a start of the path that leaves off only separators and dots,
/// and the whole path when it holds no separator. Which tail is dropped
/// depends on the platform's path syntax (`\` separates only on Windows)
/// and is left unsaid.
#[verifier::external_body]
fn path_remaining(s: &str) -> (r: String)
    ensures
        path_slice(s@, r@),
{
    std::path::Path::new(s).components().as_path().to_string_lossy().to_string()
}

/// `s` with `/` written as `\`.
pub open spec fn backslashed(s: Seq<char>) -> Seq<char> {
    s.map_values(|c: char| if c == '/' { '\\' } else { c })
}

/// A directory as it is compared with OBS's: `\` for separators, no
/// trailing separator, and on Windows no case.
pub open spec fn profile_path_form(remaining: Seq<char>, platform: Platform) -> Seq<char> {
    let p = strip_end_char(backslashed(remaining), '\\');
    if platform == Platform::Windows {
        lower(p)
    } else {
        p
    }
}

/// The comparable form of a directory whose path-syntax cleanup gave
/// `remaining`.
pub fn profile_path_from_remaining(remaining: &str, platform: Platform) -> (r: String)
    ensures
        r@ == profile_path_form(remaining@, platform),
{
    let v = chars_of(remaining);
    let mut w: Vec<char> = Vec::new();
    let mut i: usize = 0;
    while i < v.len()
        invariant
            i <= v.len(),
            w@ == backslashed(v@.take(i as int)),
        decreases v.len() - i,
    {
        let c = if v[i] == '/' {
            '\\'
        } else {
            v[i]
        };
        w.push(c);
        i = i + 1;
        assert(w@ =~= backslashed(v@.take(i as int)));
    }
    assert(v@.take(v.len() as int) =~= v@);
    let mut j: usize = w.len();
    assert(w@.subrange(0, j as int) =~= w@);
    while j > 0 && w[j - 1] == '\\'
        invariant
            j <= w.len(),
            strip_end_char(w@, '\\') == strip_end_char(w@.subrange(0, j as int), '\\'),
        decreases j,
    {
        proof {
            let x = w@.subrange(0, j as int);
            assert(x.last() == w@[j - 1]);
            assert(x.drop_last() =~= w@.subrange(0, j - 1));
        }
        j = j - 1;
    }
    proof {
        if j > 0 {
            assert(w@.subrange(0, j as int).last() == w@[j - 1]);
        }
    }
    let p = sub_chars(&w, 0, j);
    if platform == Platform::Windows {
        let l = lower_chars(&p);
        string_of(&l)
    } else {
        string_of(&p)
    }
}

/// The comparable form of a directory setting whose path-syntax cleanup
/// gave `remaining`; a blank setting has the empty form.
pub open spec fn path_form_with(value: Seq<char>, remaining: Seq<char>, platform: Platform) -> Seq<char> {
    if trim(value).len() == 0 {
        Seq::<char>::empty()
    } else {
        profile_path_form(remaining, platform)
    }
}

/// The comparable form of a directory setting; a blank one stays empty.
/// The trimmed setting goes through path-syntax cleanup; a setting with no
/// separator is taken whole.
pub fn normalized_profile_path(value: &str, platform: Platform) -> (r: String)
    ensures
        trim(value@).len() == 0 ==> r@ == Seq::<char>::empty(),
        exists|rem: Seq<char>| path_slice(trim(value@), rem) && r@ == #[trigger] path_form_with(value@, rem, platform),
        !has_char(trim(value@), '/') && !has_char(trim(value@), '\\') ==> r@ == path_form_with(value@, trim(value@), platform),
{
    let t = trim_str(value);
    if t.as_str().is_empty() {
        proof {
            let e = Seq::<char>::empty();
            assert(trim(value@) =~= e);
            assert(trim(value@).take(0) =~= e);
            assert(!has_char(e, '/') && !has_char(e, '\\'));
            assert(path_slice(trim(value@), e));
            assert(path_form_with(value@, e, platform) == Seq::<char>::empty());
        }
        return String::new();
    }
    let rem = path_remaining(t.as_str());
    let r = profile_path_from_remaining(rem.as_str(), platform);
    assert(r@ == path_form_with(value@, rem@, platform));
    r
}

/// The replay buffer settings of the OBS profile before the backend changed
/// them, and whether the buffer was running.
#[derive(Debug)]
pub struct ManagedProfileSnapshot {
    pub file_path: Option<String>,
    pub rec_format: Option<String>,
    pub rec_rb: Option<String>,
    pub rec_rb_time: Option<String>,
    pub rec_rb_size: Option<String>,
    pub was_active: bool,
}

/// Whether two optional settings hold the same number, neither missing.
pub open spec fn same_number(current: Option<String>, desired: Seq<char>) -> bool {
    match current {
        Some(c) => parse_u64(trim(c@)) is Some && parse_u64(trim(c@)) == parse_u64(trim(desired)),
        None => false,
    }
}

/// Everything but the directory that an active snapshot must match.
pub open spec fn settings_match(snapshot: ManagedProfileSnapshot, rec_format: Seq<char>, rec_rb: Seq<char>, rec_rb_time: Seq<char>, rec_rb_size: Seq<char>) -> bool {
    &&& snapshot.was_active
    &&& match snapshot.rec_format {
        Some(f) => lower(trim(f@)) == lower(trim(rec_format)),
        None => false,
    }
    &&& match snapshot.rec_rb {
        Some(b) => obs_bool(b@) is Some && obs_bool(b@) == obs_bool(rec_rb),
        None => false,
    }
    &&& same_number(snapshot.rec_rb_time, rec_rb_time)
    &&& same_number(snapshot.rec_rb_size, rec_rb_size)
}

fn same_number_exec(current: &Option<String>, desired: &str) -> (r: bool)
    ensures
        r == same_number(*current, desired@),
{
    match current {
        Some(c) => {
            let a = parse_obs_u64(c.as_str());
            let b = parse_obs_u64(desired);
            match (a, b) {
                (Some(x), Some(y)) => x == y,
                _ => false,
            }
        },
        None => false,
    }
}

/// Whether an active snapshot already has the requested settings, the
/// directories compared in the forms given.
pub fn profile_matches_with_paths(
    snapshot: &ManagedProfileSnapshot,
    current_path_form: Option<&str>,
    desired_path_form: &str,
    desired_rec_format: &str,
    desired_rec_rb: &str,
    desired_rec_rb_time: &str,
    desired_rec_rb_size: &str,
) -> (r: bool)
    ensures
        r == (settings_match(*snapshot, desired_rec_format@, desired_rec_rb@, desired_rec_rb_time@, desired_rec_rb_size@)
            && (current_path_form matches Some(p) && p@ == desired_path_form@)),
{
    if !snapshot.was_active {
        return false;
    }
    let path_ok = match current_path_form {
        Some(p) => {
            let a = chars_of(p);
            let b = chars_of(desired_path_form);
            chars_eq(&a, &b)
        },
        None => false,
    };
    let fmt_ok = match &snapshot.rec_format {
        Some(f) => {
            let a = normalized_profile_text(f.as_str());
            let b = normalized_profile_text(desired_rec_format);
            let av = chars_of(a.as_str());
            let bv = chars_of(b.as_str());
            chars_eq(&av, &bv)
        },
        None => false,
    };
    let rb_ok = match &snapshot.rec_rb {
        Some(b) => match (parse_obs_bool(b.as_str()), parse_obs_bool(desired_rec_rb)) {
            (Some(x), Some(y)) => x == y,
            _ => false,
        },
        None => false,
    };
    let time_ok = same_number_exec(&snapshot.rec_rb_time, desired_rec_rb_time);
    let size_ok = same_number_exec(&snapshot.rec_rb_size, desired_rec_rb_size);
    path_ok && fmt_ok && rb_ok && time_ok && size_ok
}

/// Whether the OBS profile is already running the replay buffer with the
/// requested directory, format, buffer switch, length and size, so the
/// backend can use it as it is. The directories are compared in their
/// `normalized_profile_path` forms, each made from the slice of the path
/// that the platform's path syntax keeps; the same directory text is the
/// same directory.
pub fn managed_profile_matches_request(
    snapshot: &ManagedProfileSnapshot,
    desired_file_path: &str,
    desired_rec_format: &str,
    desired_rec_rb: &str,
    desired_rec_rb_time: &str,
    desired_rec_rb_size: &str,
    platform: Platform,
) -> (r: bool)
    ensures
        match snapshot.file_path {
            None => !r,
            Some(p) => {
                &&& trim(p@) == trim(desired_file_path@) ==> r == settings_match(
                    *snapshot,
                    desired_rec_format@,
                    desired_rec_rb@,
                    desired_rec_rb_time@,
                    desired_rec_rb_size@,
                )
                &&& exists|current_rem: Seq<char>, desired_rem: Seq<char>|
                    #![trigger path_form_with(p@, current_rem, platform), path_form_with(desired_file_path@, desired_rem, platform)]
                    path_slice(trim(p@), current_rem) && path_slice(trim(desired_file_path@), desired_rem) && r == (
                    settings_match(*snapshot, desired_rec_format@, desired_rec_rb@, desired_rec_rb_time@, desired_rec_rb_size@)
                        && path_form_with(p@, current_rem, platform) == path_form_with(desired_file_path@, desired_rem, platform))
            },
        },
{
    let desired = normalized_profile_path(desired_file_path, platform);
    let same_text = match &snapshot.file_path {
        Some(p) => {
            let a = trim_str(p.as_str());
            let b = trim_str(desired_file_path);
            str_eq(a.as_str(), b.as_str())
        },
        None => false,
    };
    let current = if same_text {
        match &snapshot.file_path {
            Some(_) => Some(owned(desired.as_str())),
            None => None,
        }
    } else {
        match &snapshot.file_path {
            Some(p) => Some(normalized_profile_path(p.as_str(), platform)),
            None => None,
        }
    };
    let current_ref: Option<&str> = match &current {
        Some(c) => Some(c.as_str()),
        None => None,
    };
    let r = profile_matches_with_paths(
        snapshot,
        current_ref,
        desired.as_str(),
        desired_rec_format,
        desired_rec_rb,
        desired_rec_rb_time,
        desired_rec_rb_size,
    );
    proof {
        let desired_rem = choose|rem: Seq<char>|
            path_slice(trim(desired_file_path@), rem) && desired@ == #[trigger] path_form_with(desired_file_path@, rem, platform);
        if snapshot.file_path is Some {
            let p = snapshot.file_path->0;
            let c = current->0;
            if same_text {
                assert(trim(p@) == trim(desired_file_path@));
                assert(path_form_with(p@, desired_rem, platform) == path_form_with(desired_file_path@, desired_rem, platform));
                assert(path_slice(trim(p@), desired_rem) && path_slice(trim(desired_file_path@), desired_rem) && r == (
                    settings_match(*snapshot, desired_rec_format@, desired_rec_rb@, desired_rec_rb_time@, desired_rec_rb_size@)
                    && path_form_with(p@, desired_rem, platform) == path_form_with(desired_file_path@, desired_rem, platform)));
            } else {
                let current_rem = choose|rem: Seq<char>| path_slice(trim(p@), rem) && c@ == #[trigger] path_form_with(p@, rem, platform);
                assert(path_slice(trim(p@), current_rem) && path_slice(trim(desired_file_path@), desired_rem) && r == (
                    settings_match(*snapshot, desired_rec_format@, desired_rec_rb@, desired_rec_rb_time@, desired_rec_rb_size@)
                    && path_form_with(p@, current_rem, platform) == path_form_with(desired_file_path@, desired_rem, platform)));
            }
        }
    }
    r
}

pub open spec fn sat(x: int) -> u64 {
    if x > u64::MAX {
        u64::MAX
    } else {
        x as u64
    }
}

fn sat_mul(a: u64, b: u64) -> (r: u64)
    ensures
        r == sat(a * b),
{
    match a.checked_mul(b) {
        Some(x) => x,
        None => u64::MAX,
    }
}

/// The replay buffer size in MiB for `secs` seconds at the profile's video
/// and audio bitrates (6000 and 160 kbps when unknown), with a quarter more
/// for headroom, held between 256 and 8192 MiB. Every step saturates.
pub open spec fn replay_buffer_mb(video_kbps: Option<u64>, audio_kbps: Option<u64>, secs: u32) -> u64 {
    let v = match video_kbps {
        Some(x) => x,
        None => OBS_FALLBACK_VIDEO_BITRATE_KBPS,
    };
    let a = match audio_kbps {
        Some(x) => x,
        None => OBS_FALLBACK_AUDIO_BITRATE_KBPS,
    };
    let total = sat(v + a);
    let raw = sat(sat(total * 125) * secs);
    let padded = sat(raw * OBS_REPLAY_BUFFER_SIZE_HEADROOM_PCT) / 100;
    let mb = padded / 1_048_576u64;
    if mb < OBS_MIN_REPLAY_BUFFER_SIZE_MB {
        OBS_MIN_REPLAY_BUFFER_SIZE_MB
    } else if mb > OBS_MAX_REPLAY_BUFFER_SIZE_MB {
        OBS_MAX_REPLAY_BUFFER_SIZE_MB
    } else {
        mb
    }
}

pub fn replay_buffer_size_mb(video_kbps: Option<u64>, audio_kbps: Option<u64>, replay_buffer_secs: u32) -> (r: u64)
    ensures
        r == replay_buffer_mb(video_kbps, audio_kbps, replay_buffer_secs),
        OBS_MIN_REPLAY_BUFFER_SIZE_MB <= r <= OBS_MAX_REPLAY_BUFFER_SIZE_MB,
{
    let v = match video_kbps {
        Some(x) => x,
        None => OBS_FALLBACK_VIDEO_BITRATE_KBPS,
    };
    let a = match audio_kbps {
        Some(x) => x,
        None => OBS_FALLBACK_AUDIO_BITRATE_KBPS,
    };
    let total = v.saturating_add(a);
    let raw = sat_mul(sat_mul(total, 125), replay_buffer_secs as u64);
    let padded = sat_mul(raw, OBS_REPLAY_BUFFER_SIZE_HEADROOM_PCT) / 100;
    let mb = padded / (1024 * 1024);
    if mb < OBS_MIN_REPLAY_BUFFER_SIZE_MB {
        OBS_MIN_REPLAY_BUFFER_SIZE_MB
    } else if mb > OBS_MAX_REPLAY_BUFFER_SIZE_MB {
        OBS_MAX_REPLAY_BUFFER_SIZE_MB
    } else {
        mb
    }
}

pub open spec fn reconnecting_save_message() -> Seq<char> {
    "OBS is reconnecting. The replay buffer cannot be saved until the connection comes back."@
}

/// What happened while the backend was reconnecting to OBS.
#[derive(Debug)]
pub enum ReconnectEvent {
    /// The connection was lost; reconnecting begins.
    Started,
    /// The wait was over and connecting succeeded.
    ConnectSucceeded,
    /// The wait was over and connecting failed.
    ConnectFailed { error: String },
    /// The session was told to stop, or its command channel closed.
    StopRequested,
    /// A save was asked for during the wait.
    SaveRequested,
}

/// What the reconnect loop does next.
#[derive(Debug)]
pub enum ReconnectAction {
    /// Report the status, wait `backoff_secs`, then try to connect.
    Wait { status: ObsConnectionStatus, backoff_secs: u64 },
    /// Report the save refused, report the status, wait, then try again.
    RejectSaveAndWait { message: String, status: ObsConnectionStatus, backoff_secs: u64 },
    /// Report the connection back and resume the session.
    Resume { status: ObsConnectionStatus },
    /// Report that reconnecting failed for good and end the session.
    GiveUp { status: ObsConnectionStatus },
    /// End the session.
    Stop,
}

pub open spec fn give_up_reason(attempt: u32, error: Seq<char>) -> Seq<char> {
    "OBS did not reconnect after "@ + decimal(attempt as nat) + " attempts: "@ + error
}

/// Waiting before the next attempt, the attempt counted.
pub open spec fn waits_next(r: (u32, ReconnectAction), attempt: u32) -> bool {
    &&& r.0 == attempt + 1
    &&& r.1 matches ReconnectAction::Wait { status: ObsConnectionStatus::Reconnecting { attempt: a, next_retry_in_secs: s }, backoff_secs: b }
    &&& a == attempt + 1
    &&& s == backoff_secs((attempt + 1) as u32)
    &&& b == s
}

/// One step of reconnecting: from the attempts made so far and what
/// happened, the attempts made after it and what to do.
pub fn reconnect_step(attempt: u32, event: ReconnectEvent) -> (r: (u32, ReconnectAction))
    requires
        attempt < u32::MAX,
    ensures
        match event {
            ReconnectEvent::Started => waits_next(r, attempt),
            ReconnectEvent::ConnectFailed { error } => if attempt >= OBS_MAX_RECONNECT_ATTEMPTS {
                &&& r.0 == attempt
                &&& r.1 matches ReconnectAction::GiveUp { status: ObsConnectionStatus::Failed { reason } }
                &&& reason@ == give_up_reason(attempt, error@)
            } else {
                waits_next(r, attempt)
            },
            ReconnectEvent::SaveRequested => {
                &&& r.0 == attempt + 1
                &&& r.1 matches ReconnectAction::RejectSaveAndWait { message, status: ObsConnectionStatus::Reconnecting { attempt: a, next_retry_in_secs: s }, backoff_secs: b }
                &&& message@ == reconnecting_save_message()
                &&& a == attempt + 1
                &&& s == backoff_secs((attempt + 1) as u32)
                &&& b == s
            },
            ReconnectEvent::ConnectSucceeded => r.0 == attempt && r.1 matches ReconnectAction::Resume { status: ObsConnectionStatus::Connected },
            ReconnectEvent::StopRequested => r.0 == attempt && r.1 matches ReconnectAction::Stop,
        },
{
    match event {
        ReconnectEvent::ConnectSucceeded => (attempt, ReconnectAction::Resume { status: ObsConnectionStatus::Connected }),
        ReconnectEvent::StopRequested => (attempt, ReconnectAction::Stop),
        ReconnectEvent::ConnectFailed { error } => {
            if attempt >= OBS_MAX_RECONNECT_ATTEMPTS {
                let mut reason = owned("OBS did not reconnect after ");
                push_decimal(&mut reason, attempt as u64);
                reason.push_str(" attempts: ");
                reason.push_str(error.as_str());
                (attempt, ReconnectAction::GiveUp { status: ObsConnectionStatus::Failed { reason } })
            } else {
                let next = attempt + 1;
                let secs = backoff_for_attempt(next);
                (next, ReconnectAction::Wait {
                    status: ObsConnectionStatus::Reconnecting { attempt: next, next_retry_in_secs: secs },
                    backoff_secs: secs,
                })
            }
        },
        ReconnectEvent::Started => {
            let next = attempt + 1;
            let secs = backoff_for_attempt(next);
            (next, ReconnectAction::Wait {
                status: ObsConnectionStatus::Reconnecting { attempt: next, next_retry_in_secs: secs },
                backoff_secs: secs,
            })
        },
        ReconnectEvent::SaveRequested => {
            let next = attempt + 1;
            let secs = backoff_for_attempt(next);
            (next, ReconnectAction::RejectSaveAndWait {
                message: owned("OBS is reconnecting. The replay buffer cannot be saved until the connection comes back."),
                status: ObsConnectionStatus::Reconnecting { attempt: next, next_retry_in_secs: secs },
                backoff_secs: secs,
            })
        },
    }
}

/// Where an OBS session is with saves and replay-buffer warnings.
#[derive(Debug, Clone, Copy, PartialEq, Eq, Structural)]
pub struct ObsSessionState {
    pub save_in_flight: bool,
    pub deadline_armed: bool,
    pub replay_disabled_notified: bool,
}

impl ObsSessionState {
    pub fn new() -> (r: Self)
        ensures
            !r.save_in_flight && !r.deadline_armed && !r.replay_disabled_notified,
    {
        ObsSessionState { save_in_flight: false, deadline_armed: false, replay_disabled_notified: false }
    }
}

/// What an OBS session saw.
#[derive(Debug)]
pub enum ObsSessionEvent {
    /// The time allowed for OBS to report a requested save ran out.
    SaveDeadlineElapsed,
    /// OBS accepted a request to save the replay buffer.
    SaveAccepted,
    /// OBS refused a request to save the replay buffer.
    SaveRequestFailed { error: String },
    /// A request to save the replay buffer got no answer in time.
    SaveRequestTimedOut,
    /// The session was told to stop, or its command channel closed.
    StopRequested,
    /// OBS saved the replay buffer to `path`.
    ReplayBufferSaved { path: String },
    /// The replay buffer started or stopped; `startup_grace_elapsed` says
    /// whether the session has been up long enough to take that as news.
    ReplayBufferStateChanged { active: bool, startup_grace_elapsed: bool },
    /// Any other OBS event.
    OtherObsEvent,
    /// The connection to OBS was lost.
    ConnectionLost,
    /// The connection to OBS came back.
    Reconnected,
}

/// What a session reports to the app.
#[derive(Debug)]
pub enum SessionReport {
    Saved { path: String },
    SaveFailed { message: String },
}

pub enum ReportView {
    Saved(Seq<char>),
    SaveFailed(Seq<char>),
}

pub open spec fn report_view(r: Option<SessionReport>) -> Option<ReportView> {
    match r {
        Some(SessionReport::Saved { path }) => Some(ReportView::Saved(path@)),
        Some(SessionReport::SaveFailed { message }) => Some(ReportView::SaveFailed(message@)),
        None => None,
    }
}

/// What happens to the save deadline.
#[derive(Debug, Clone, Copy, PartialEq, Eq, Structural)]
pub enum DeadlineChange {
    Keep,
    Arm,
    Clear,
}

/// What a session does after an event.
#[derive(Debug)]
pub struct ObsSessionAction {
    pub report: Option<SessionReport>,
    pub deadline: DeadlineChange,
    pub reconnect: bool,
    pub shutdown: bool,
}

pub open spec fn save_timeout_message() -> Seq<char> {
    "OBS did not report a saved replay within 60 seconds"@
}

pub open spec fn save_request_timeout_message() -> Seq<char> {
    "OBS SaveReplayBuffer request timed out after 30 seconds"@
}

pub open spec fn replay_disabled_message() -> Seq<char> {
    "OBS replay buffer was disabled externally. Re-enable it in OBS before the next clip can save."@
}

pub open spec fn disconnected_message() -> Seq<char> {
    "OBS disconnected before the replay buffer reported the saved clip."@
}

/// How a session answers an event: the state after it, the report, the
/// deadline change, and whether to reconnect or shut down. A saved replay
/// is reported only for a save the session asked for; a replay buffer that
/// stops is reported once, in managed recording, after the startup grace.
pub open spec fn session_step(st: ObsSessionState, event: ObsSessionEvent, mode: ObsManagementMode)
    -> (ObsSessionState, Option<ReportView>, DeadlineChange, bool, bool)
{
    match event {
        ObsSessionEvent::SaveDeadlineElapsed => if st.save_in_flight {
            (ObsSessionState { save_in_flight: false, deadline_armed: false, ..st }, Some(ReportView::SaveFailed(save_timeout_message())), DeadlineChange::Clear, false, false)
        } else {
            (ObsSessionState { deadline_armed: false, ..st }, None, DeadlineChange::Clear, false, false)
        },
        ObsSessionEvent::SaveAccepted => (ObsSessionState { save_in_flight: true, deadline_armed: true, ..st }, None, DeadlineChange::Arm, false, false),
        ObsSessionEvent::SaveRequestFailed { error } => (st, Some(ReportView::SaveFailed("OBS SaveReplayBuffer failed: "@ + error@)), DeadlineChange::Keep, false, false),
        ObsSessionEvent::SaveRequestTimedOut => (st, Some(ReportView::SaveFailed(save_request_timeout_message())), DeadlineChange::Keep, false, false),
        ObsSessionEvent::StopRequested => (st, None, DeadlineChange::Keep, false, true),
        ObsSessionEvent::ReplayBufferSaved { path } => if st.save_in_flight {
            (ObsSessionState { save_in_flight: false, deadline_armed: false, ..st }, Some(ReportView::Saved(path@)), DeadlineChange::Clear, false, false)
        } else {
            (st, None, DeadlineChange::Keep, false, false)
        },
        ObsSessionEvent::ReplayBufferStateChanged { active, startup_grace_elapsed } => if active {
            (ObsSessionState { replay_disabled_notified: false, ..st }, None, DeadlineChange::Keep, false, false)
        } else if mode == ObsManagementMode::ManagedRecording && !st.replay_disabled_notified && startup_grace_elapsed {
            (ObsSessionState { replay_disabled_notified: true, ..st }, Some(ReportView::SaveFailed(replay_disabled_message())), DeadlineChange::Keep, false, false)
        } else {
            (st, None, DeadlineChange::Keep, false, false)
        },
        ObsSessionEvent::OtherObsEvent => (st, None, DeadlineChange::Keep, false, false),
        ObsSessionEvent::ConnectionLost => if st.save_in_flight {
            (ObsSessionState { save_in_flight: false, deadline_armed: false, ..st }, Some(ReportView::SaveFailed(disconnected_message())), DeadlineChange::Clear, true, false)
        } else {
            (st, None, DeadlineChange::Keep, true, false)
        },
        ObsSessionEvent::Reconnected => (ObsSessionState { replay_disabled_notified: false, ..st }, None, DeadlineChange::Keep, false, false),
    }
}

/// Answers one event of an OBS session.
pub fn obs_session_step(state: &mut ObsSessionState, event: ObsSessionEvent, mode: ObsManagementMode) -> (r: ObsSessionAction)
    ensures
        ({
            let x = session_step(*old(state), event, mode);
            &&& *final(state) == x.0
            &&& report_view(r.report) == x.1
            &&& r.deadline == x.2
            &&& r.reconnect == x.3
            &&& r.shutdown == x.4
        }),
{
    match event {
        ObsSessionEvent::SaveDeadlineElapsed => {
            state.deadline_armed = false;
            if state.save_in_flight {
                state.save_in_flight = false;
                ObsSessionAction {
                    report: Some(SessionReport::SaveFailed { message: owned("OBS did not report a saved replay within 60 seconds") }),
                    deadline: DeadlineChange::Clear,
                    reconnect: false,
                    shutdown: false,
                }
            } else {
                ObsSessionAction { report: None, deadline: DeadlineChange::Clear, reconnect: false, shutdown: false }
            }
        },
        ObsSessionEvent::SaveAccepted => {
            state.save_in_flight = true;
            state.deadline_armed = true;
            ObsSessionAction { report: None, deadline: DeadlineChange::Arm, reconnect: false, shutdown: false }
        },
        ObsSessionEvent::SaveRequestFailed { error } => {
            let mut m = owned("OBS SaveReplayBuffer failed: ");
            m.push_str(error.as_str());
            ObsSessionAction { report: Some(SessionReport::SaveFailed { message: m }), deadline: DeadlineChange::Keep, reconnect: false, shutdown: false }
        },
        ObsSessionEvent::SaveRequestTimedOut => ObsSessionAction {
            report: Some(SessionReport::SaveFailed { message: owned("OBS SaveReplayBuffer request timed out after 30 seconds") }),
            deadline: DeadlineChange::Keep,
            reconnect: false,
            shutdown: false,
        },
        ObsSessionEvent::StopRequested => ObsSessionAction { report: None, deadline: DeadlineChange::Keep, reconnect: false, shutdown: true },
        ObsSessionEvent::ReplayBufferSaved { path } => {
            if state.save_in_flight {
                state.save_in_flight = false;
                state.deadline_armed = false;
                ObsSessionAction { report: Some(SessionReport::Saved { path }), deadline: DeadlineChange::Clear, reconnect: false, shutdown: false }
            } else {
                ObsSessionAction { report: None, deadline: DeadlineChange::Keep, reconnect: false, shutdown: false }
            }
        },
        ObsSessionEvent::ReplayBufferStateChanged { active, startup_grace_elapsed } => {
            if active {
                state.replay_disabled_notified = false;
                ObsSessionAction { report: None, deadline: DeadlineChange::Keep, reconnect: false, shutdown: false }
            } else if mode == ObsManagementMode::ManagedRecording && !state.replay_disabled_notified && startup_grace_elapsed {
                state.replay_disabled_notified = true;
                ObsSessionAction {
                    report: Some(SessionReport::SaveFailed { message: owned("OBS replay buffer was disabled externally. Re-enable it in OBS before the next clip can save.") }),
                    deadline: DeadlineChange::Keep,
                    reconnect: false,
                    shutdown: false,
                }
            } else {
                ObsSessionAction { report: None, deadline: DeadlineChange::Keep, reconnect: false, shutdown: false }
            }
        },
        ObsSessionEvent::OtherObsEvent => ObsSessionAction { report: None, deadline: DeadlineChange::Keep, reconnect: false, shutdown: false },
        ObsSessionEvent::ConnectionLost => {
            if state.save_in_flight {
                state.save_in_flight = false;
                state.deadline_armed = false;
                ObsSessionAction {
                    report: Some(SessionReport::SaveFailed { message: owned("OBS disconnected before the replay buffer reported the saved clip.") }),
                    deadline: DeadlineChange::Clear,
                    reconnect: true,
                    shutdown: false,
                }
            } else {
                ObsSessionAction { report: None, deadline: DeadlineChange::Keep, reconnect: true, shutdown: false }
            }
        },
        ObsSessionEvent::Reconnected => {
            state.replay_disabled_notified = false;
            ObsSessionAction { report: None, deadline: DeadlineChange::Keep, reconnect: false, shutdown: false }
        },
    }
}

/// A saved replay is reported only for a save that the session asked for
/// and that is still waiting for OBS.
pub proof fn lemma_saved_only_when_requested(st: ObsSessionState, event: ObsSessionEvent, mode: ObsManagementMode)
    ensures
        session_step(st, event, mode).1 matches Some(ReportView::Saved(_)) ==> st.save_in_flight
            && !session_step(st, event, mode).0.save_in_flight,
{
}

/// Once reported, a stopped replay buffer is not reported again until it
/// runs again or the connection comes back.
pub proof fn lemma_replay_disabled_reported_once(st: ObsSessionState, mode: ObsManagementMode, grace: bool)
    requires
        st.replay_disabled_notified,
    ensures
        session_step(st, ObsSessionEvent::ReplayBufferStateChanged { active: false, startup_grace_elapsed: grace }, mode).1 is None,
{
}

/// What the connection test reports about the replay buffer.
#[derive(Debug)]
pub enum ReplayBufferProbe {
    Running,
    Stopped,
    NotConfigured,
}

pub open spec fn replay_status_text(probe: ReplayBufferProbe, mode: ObsManagementMode) -> Seq<char> {
    match probe {
        ReplayBufferProbe::Running => "running"@,
        ReplayBufferProbe::Stopped => if mode == ObsManagementMode::BringYourOwn {
            "configured but not running (start it in OBS before monitoring)"@
        } else {
            "configured but not running (NaniteClip will try to start it when monitoring begins)"@
        },
        ReplayBufferProbe::NotConfigured => if mode == ObsManagementMode::BringYourOwn {
            "not enabled in OBS (turn it on in Settings \u{2192} Output \u{2192} Replay Buffer, or switch to Managed Recording)"@
        } else {
            "not enabled yet (NaniteClip will try to configure it when monitoring begins)"@
        },
    }
}

/// The summary a successful connection test shows.
pub fn connection_test_summary(studio_version_text: &str, websocket_url: &str, probe: ReplayBufferProbe, mode: ObsManagementMode) -> (r: String)
    ensures
        r@ == "Connected to OBS "@ + studio_version_text@ + " at "@ + websocket_url@ + ". Replay buffer: "@
            + replay_status_text(probe, mode) + "."@,
{
    let status = match probe {
        ReplayBufferProbe::Running => "running",
        ReplayBufferProbe::Stopped => match mode {
            ObsManagementMode::BringYourOwn => "configured but not running (start it in OBS before monitoring)",
            _ => "configured but not running (NaniteClip will try to start it when monitoring begins)",
        },
        ReplayBufferProbe::NotConfigured => match mode {
            ObsManagementMode::BringYourOwn => "not enabled in OBS (turn it on in Settings \u{2192} Output \u{2192} Replay Buffer, or switch to Managed Recording)",
            _ => "not enabled yet (NaniteClip will try to configure it when monitoring begins)",
        },
    };
    let mut r = owned("Connected to OBS ");
    r.push_str(studio_version_text);
    r.push_str(" at ");
    r.push_str(websocket_url);
    r.push_str(". Replay buffer: ");
    r.push_str(status);
    r.push_str(".");
    r
}

pub open spec fn simple_output_required_message() -> Seq<char> {
    "OBS managed recording requires Simple Output mode. Switch OBS to Simple output mode or use Bring Your Own mode."@
}

/// Managed recording needs the profile's output mode to be `Simple`, in
/// any case.
pub fn check_simple_output_mode(output_mode: Option<&str>) -> (r: Result<(), CaptureError>)
    ensures
        (output_mode matches Some(m) && eq_ignore_case(m@, "Simple"@)) ==> r is Ok,
        !(output_mode matches Some(m) && eq_ignore_case(m@, "Simple"@)) ==> (r matches Err(CaptureError::SpawnFailed(msg))
            && msg@ == simple_output_required_message()),
{
    let ok = match output_mode {
        Some(m) => {
            let a = chars_of(m);
            let b = chars_of("Simple");
            chars_eq_ignore_case(&a, &b)
        },
        None => false,
    };
    if ok {
        Ok(())
    } else {
        Err(CaptureError::SpawnFailed(owned("OBS managed recording requires Simple Output mode. Switch OBS to Simple output mode or use Bring Your Own mode.")))
    }
}

/// The Simple Output settings managed recording asks OBS for.
#[derive(Debug)]
pub struct DesiredProfile {
    pub file_path: String,
    pub rec_format: String,
    pub rec_rb: String,
    pub rec_rb_time: String,
    pub rec_rb_size: String,
}

/// The settings for recording to `save_directory` in `container`, keeping
/// `replay_buffer_secs` seconds in a buffer of `size_mb` MiB; refused when
/// OBS does not record to the container.
pub fn desired_profile(save_directory: &str, container: &str, replay_buffer_secs: u32, size_mb: u64) -> (r: Result<DesiredProfile, CaptureError>)
    ensures
        obs_container(lower(trim(container@))) ==> (r matches Ok(d) && {
            &&& d.file_path@ == save_directory@
            &&& d.rec_format@ == lower(trim(container@))
            &&& d.rec_rb@ == "true"@
            &&& d.rec_rb_time@ == decimal(replay_buffer_secs as nat)
            &&& d.rec_rb_size@ == decimal(size_mb as nat)
        }),
        !obs_container(lower(trim(container@))) ==> (r matches Err(CaptureError::Unsupported { capability })
            && capability@ == unsupported_container_message(lower(trim(container@)))),
{
    let rec_format = match map_container(container) {
        Ok(f) => f,
        Err(e) => {
            return Err(e);
        },
    };
    Ok(DesiredProfile {
        file_path: owned(save_directory),
        rec_format,
        rec_rb: owned("true"),
        rec_rb_time: decimal_string_u64(replay_buffer_secs as u64),
        rec_rb_size: decimal_string_u64(size_mb),
    })
}

fn decimal_string_u64(n: u64) -> (r: String)
    ensures
        r@ == decimal(n as nat),
{
    let mut r = String::new();
    push_decimal(&mut r, n);
    assert(r@ =~= decimal(n as nat));
    r
}

/// One Simple Output parameter to set; `None` clears it.
#[derive(Debug)]
pub struct ProfileWrite {
    pub name: &'static str,
    pub value: Option<String>,
}

/// The category of every parameter managed recording touches.
pub const OBS_SIMPLE_OUTPUT_CATEGORY: &'static str = "SimpleOutput";

/// The writes that configure the replay buffer, in the order they are made:
/// directory, format, buffer switch, length, size.
pub fn profile_writes(keys: &ObsParameterKeys, desired: &DesiredProfile) -> (r: Vec<ProfileWrite>)
    ensures
        r@.len() == 5,
        r@[0].name@ == "FilePath"@,
        (r@[0].value matches Some(v) && v@ == desired.file_path@),
        r@[1].name == keys.simple_output_rec_format,
        (r@[1].value matches Some(v) && v@ == desired.rec_format@),
        r@[2].name == keys.simple_output_rec_rb,
        (r@[2].value matches Some(v) && v@ == desired.rec_rb@),
        r@[3].name == keys.simple_output_rec_rb_time,
        (r@[3].value matches Some(v) && v@ == desired.rec_rb_time@),
        r@[4].name == keys.simple_output_rec_rb_size,
        (r@[4].value matches Some(v) && v@ == desired.rec_rb_size@),
{
    let mut r: Vec<ProfileWrite> = Vec::new();
    r.push(ProfileWrite { name: "FilePath", value: Some(owned(desired.file_path.as_str())) });
    r.push(ProfileWrite { name: keys.simple_output_rec_format, value: Some(owned(desired.rec_format.as_str())) });
    r.push(ProfileWrite { name: keys.simple_output_rec_rb, value: Some(owned(desired.rec_rb.as_str())) });
    r.push(ProfileWrite { name: keys.simple_output_rec_rb_time, value: Some(owned(desired.rec_rb_time.as_str())) });
    r.push(ProfileWrite { name: keys.simple_output_rec_rb_size, value: Some(owned(desired.rec_rb_size.as_str())) });
    r
}

fn copy_opt(o: &Option<String>) -> (r: Option<String>)
    ensures
        opt_view(r) == opt_view(*o),
{
    match o {
        Some(s) => Some(owned(s.as_str())),
        None => None,
    }
}

/// The writes that put back what a snapshot recorded, in the same order.
pub fn restore_writes(keys: &ObsParameterKeys, snapshot: &ManagedProfileSnapshot) -> (r: Vec<ProfileWrite>)
    ensures
        r@.len() == 5,
        r@[0].name@ == "FilePath"@ && opt_view(r@[0].value) == opt_view(snapshot.file_path),
        r@[1].name == keys.simple_output_rec_format && opt_view(r@[1].value) == opt_view(snapshot.rec_format),
        r@[2].name == keys.simple_output_rec_rb && opt_view(r@[2].value) == opt_view(snapshot.rec_rb),
        r@[3].name == keys.simple_output_rec_rb_time && opt_view(r@[3].value) == opt_view(snapshot.rec_rb_time),
        r@[4].name == keys.simple_output_rec_rb_size && opt_view(r@[4].value) == opt_view(snapshot.rec_rb_size),
{
    let mut r: Vec<ProfileWrite> = Vec::new();
    r.push(ProfileWrite { name: "FilePath", value: copy_opt(&snapshot.file_path) });
    r.push(ProfileWrite { name: keys.simple_output_rec_format, value: copy_opt(&snapshot.rec_format) });
    r.push(ProfileWrite { name: keys.simple_output_rec_rb, value: copy_opt(&snapshot.rec_rb) });
    r.push(ProfileWrite { name: keys.simple_output_rec_rb_time, value: copy_opt(&snapshot.rec_rb_time) });
    r.push(ProfileWrite { name: keys.simple_output_rec_rb_size, value: copy_opt(&snapshot.rec_rb_size) });
    r
}

/// What OBS answered when asked whether the replay buffer runs.
#[derive(Debug)]
pub enum ReplayBufferStatus {
    Active(bool),
    NotConfigured,
    Failed(String),
}

/// Bring-your-own mode needs a replay buffer that already runs.
pub fn check_bring_your_own(status: ReplayBufferStatus) -> (r: Result<(), CaptureError>)
    ensures
        match status {
            ReplayBufferStatus::Active(true) => r is Ok,
            ReplayBufferStatus::Active(false) => r matches Err(CaptureError::SpawnFailed(m)) && m@
                == "OBS replay buffer is not running. Start it in OBS before monitoring, or switch to Managed Recording mode to let NaniteClip start it for you."@,
            ReplayBufferStatus::NotConfigured => r matches Err(CaptureError::SpawnFailed(m)) && m@
                == "OBS replay buffer is not enabled. Turn it on in OBS Settings \u{2192} Output \u{2192} Replay Buffer, or switch to Managed Recording mode to let NaniteClip configure it for you."@,
            ReplayBufferStatus::Failed(e) => r matches Err(CaptureError::SpawnFailed(m)) && m@ == "OBS GetReplayBufferStatus failed: "@ + e@,
        },
{
    match status {
        ReplayBufferStatus::Active(true) => Ok(()),
        ReplayBufferStatus::Active(false) => Err(CaptureError::SpawnFailed(owned(
            "OBS replay buffer is not running. Start it in OBS before monitoring, or switch to Managed Recording mode to let NaniteClip start it for you.",
        ))),
        ReplayBufferStatus::NotConfigured => Err(CaptureError::SpawnFailed(owned(
            "OBS replay buffer is not enabled. Turn it on in OBS Settings \u{2192} Output \u{2192} Replay Buffer, or switch to Managed Recording mode to let NaniteClip configure it for you.",
        ))),
        ReplayBufferStatus::Failed(e) => {
            let mut m = owned("OBS GetReplayBufferStatus failed: ");
            m.push_str(e.as_str());
            Err(CaptureError::SpawnFailed(m))
        },
    }
}

/// Whether the replay buffer ran before managed settings are written (it
/// is stopped first when it did): a buffer that is not configured does not
/// run.
pub fn replay_was_active(status: &ReplayBufferStatus) -> (r: Result<bool, CaptureError>)
    ensures
        match status {
            ReplayBufferStatus::Active(a) => r == Ok::<bool, CaptureError>(*a),
            ReplayBufferStatus::NotConfigured => r == Ok::<bool, CaptureError>(false),
            ReplayBufferStatus::Failed(e) => r matches Err(CaptureError::SpawnFailed(m)) && m@ == "OBS GetReplayBufferStatus failed: "@ + e@,
        },
{
    match status {
        ReplayBufferStatus::Active(a) => Ok(*a),
        ReplayBufferStatus::NotConfigured => Ok(false),
        ReplayBufferStatus::Failed(e) => {
            let mut m = owned("OBS GetReplayBufferStatus failed: ");
            m.push_str(e.as_str());
            Err(CaptureError::SpawnFailed(m))
        },
    }
}

/// Where setting up managed recording stands.
#[derive(Debug, Clone, Copy, PartialEq, Eq, Structural)]
pub enum ManagedSetupPhase {
    /// Waiting to learn whether the profile already has the settings.
    Checking,
    /// Waiting for the replay buffer's state before the writes.
    ReadingStatus,
    /// Waiting for the running buffer to stop.
    Stopping,
    /// Waiting for the settings to be written.
    Writing,
    /// Waiting for the buffer to start and report itself active.
    Starting,
    /// Setup is over.
    Done,
}

/// What happened during setup.
#[derive(Debug)]
pub enum ManagedSetupEvent {
    /// Whether the profile's snapshot already has the requested settings
    /// (`managed_profile_matches_request`).
    Checked { matches: bool },
    /// What OBS answered when asked whether the buffer runs.
    Status(ReplayBufferStatus),
    /// The running buffer stopped, or why it did not.
    Stopped(Result<(), CaptureError>),
    /// The settings (`profile_writes`) were written, or why not.
    Written(Result<(), CaptureError>),
    /// The buffer started and is active, or why not.
    Started(Result<(), CaptureError>),
}

/// What the caller does next.
#[derive(Debug)]
pub enum ManagedSetupAction {
    /// Use the running buffer as it is: nothing is stopped, written or
    /// started.
    Reuse,
    /// Ask whether the buffer runs.
    ReadStatus,
    /// Stop the buffer and wait until it is inactive.
    StopBuffer,
    /// Write the requested settings (`profile_writes`).
    ApplyWrites,
    /// Start the buffer and wait until it is active.
    StartBuffer,
    /// Setup succeeded.
    Succeed,
    /// Put the snapshot's settings back (`restore_writes`), whatever that
    /// gives, then fail with the error.
    RestoreThenFail(CaptureError),
    /// The event does not belong to this phase; nothing changes.
    Ignore,
}

/// One step of setting up managed recording: a profile that already has
/// the requested settings is reused with no stop, write or start;
/// otherwise a running buffer is stopped, the settings written and the
/// buffer started, and a failure of any of these puts the previous settings
/// back before setup fails.
pub fn managed_setup_step(phase: ManagedSetupPhase, event: ManagedSetupEvent) -> (r: (ManagedSetupPhase, ManagedSetupAction))
    ensures
        match (phase, event) {
            (ManagedSetupPhase::Checking, ManagedSetupEvent::Checked { matches }) => if matches {
                r.0 == ManagedSetupPhase::Done && r.1 is Reuse
            } else {
                r.0 == ManagedSetupPhase::ReadingStatus && r.1 is ReadStatus
            },
            (ManagedSetupPhase::ReadingStatus, ManagedSetupEvent::Status(s)) => match s {
                ReplayBufferStatus::Active(true) => r.0 == ManagedSetupPhase::Stopping && r.1 is StopBuffer,
                ReplayBufferStatus::Active(false) | ReplayBufferStatus::NotConfigured => r.0 == ManagedSetupPhase::Writing
                    && r.1 is ApplyWrites,
                ReplayBufferStatus::Failed(e) => r.0 == ManagedSetupPhase::Done && (r.1 matches ManagedSetupAction::RestoreThenFail(
                    CaptureError::SpawnFailed(m),
                ) && m@ == "OBS GetReplayBufferStatus failed: "@ + e@),
            },
            (ManagedSetupPhase::Stopping, ManagedSetupEvent::Stopped(o)) => match o {
                Ok(()) => r.0 == ManagedSetupPhase::Writing && r.1 is ApplyWrites,
                Err(e) => r.0 == ManagedSetupPhase::Done && r.1 == ManagedSetupAction::RestoreThenFail(e),
            },
            (ManagedSetupPhase::Writing, ManagedSetupEvent::Written(o)) => match o {
                Ok(()) => r.0 == ManagedSetupPhase::Starting && r.1 is StartBuffer,
                Err(e) => r.0 == ManagedSetupPhase::Done && r.1 == ManagedSetupAction::RestoreThenFail(e),
            },
            (ManagedSetupPhase::Starting, ManagedSetupEvent::Started(o)) => match o {
                Ok(()) => r.0 == ManagedSetupPhase::Done && r.1 is Succeed,
                Err(e) => r.0 == ManagedSetupPhase::Done && r.1 == ManagedSetupAction::RestoreThenFail(e),
            },
            _ => r.0 == phase && r.1 is Ignore,
        },
{
    match (phase, event) {
        (ManagedSetupPhase::Checking, ManagedSetupEvent::Checked { matches }) => {
            if matches {
                (ManagedSetupPhase::Done, ManagedSetupAction::Reuse)
            } else {
                (ManagedSetupPhase::ReadingStatus, ManagedSetupAction::ReadStatus)
            }
        },
        (ManagedSetupPhase::ReadingStatus, ManagedSetupEvent::Status(s)) => match replay_was_active(&s) {
            Ok(true) => (ManagedSetupPhase::Stopping, ManagedSetupAction::StopBuffer),
            Ok(false) => (ManagedSetupPhase::Writing, ManagedSetupAction::ApplyWrites),
            Err(e) => (ManagedSetupPhase::Done, ManagedSetupAction::RestoreThenFail(e)),
        },
        (ManagedSetupPhase::Stopping, ManagedSetupEvent::Stopped(o)) => match o {
            Ok(()) => (ManagedSetupPhase::Writing, ManagedSetupAction::ApplyWrites),
            Err(e) => (ManagedSetupPhase::Done, ManagedSetupAction::RestoreThenFail(e)),
        },
        (ManagedSetupPhase::Writing, ManagedSetupEvent::Written(o)) => match o {
            Ok(()) => (ManagedSetupPhase::Starting, ManagedSetupAction::StartBuffer),
            Err(e) => (ManagedSetupPhase::Done, ManagedSetupAction::RestoreThenFail(e)),
        },
        (ManagedSetupPhase::Starting, ManagedSetupEvent::Started(o)) => match o {
            Ok(()) => (ManagedSetupPhase::Done, ManagedSetupAction::Succeed),
            Err(e) => (ManagedSetupPhase::Done, ManagedSetupAction::RestoreThenFail(e)),
        },
        (p, _) => (p, ManagedSetupAction::Ignore),
    }
}

/// What the user is told when OBS keeps its replay buffer disabled.
pub open spec fn replay_buffer_guidance() -> Seq<char> {
    "OBS replay buffer is still disabled after NaniteClip tried to configure it. Open OBS Settings -> Output -> Replay Buffer, enable it for the active profile once, apply the change, then restart monitoring."@
}

/// One poll while waiting for the replay buffer to become active
/// (`expected_active`) or inactive: done, failed with the reason, or none
/// to poll again; `deadline_passed` says whether the time allowed is up.
pub fn replay_wait_step(status: &ReplayBufferStatus, expected_active: bool, deadline_passed: bool) -> (r: Option<Result<(), String>>)
    ensures
        match status {
            ReplayBufferStatus::Active(a) => if *a == expected_active {
                r matches Some(Ok(()))
            } else if deadline_passed {
                r matches Some(Err(m)) && m@ == "timed out"@
            } else {
                r is None
            },
            ReplayBufferStatus::NotConfigured => if expected_active {
                r matches Some(Err(m)) && m@ == replay_buffer_guidance()
            } else {
                r matches Some(Ok(()))
            },
            ReplayBufferStatus::Failed(e) => r matches Some(Err(m)) && m@ == "OBS GetReplayBufferStatus failed: "@ + e@,
        },
{
    match status {
        ReplayBufferStatus::Active(a) => {
            if *a == expected_active {
                Some(Ok(()))
            } else if deadline_passed {
                Some(Err(owned("timed out")))
            } else {
                None
            }
        },
        ReplayBufferStatus::NotConfigured => {
            if expected_active {
                Some(Err(owned(
                    "OBS replay buffer is still disabled after NaniteClip tried to configure it. Open OBS Settings -> Output -> Replay Buffer, enable it for the active profile once, apply the change, then restart monitoring.",
                )))
            } else {
                Some(Ok(()))
            }
        },
        ReplayBufferStatus::Failed(e) => {
            let mut m = owned("OBS GetReplayBufferStatus failed: ");
            m.push_str(e.as_str());
            Some(Err(m))
        },
    }
}

/// The error when the replay buffer did not reach the state waited for.
pub fn replay_wait_error(expected_active: bool, reason: &str) -> (r: CaptureError)
    ensures
        r matches CaptureError::SpawnFailed(m) && m@ == (if expected_active {
            "OBS replay buffer did not become active after start: "@
        } else {
            "OBS replay buffer did not stop within 5 seconds: "@
        }) + reason@,
{
    let mut m = if expected_active {
        owned("OBS replay buffer did not become active after start: ")
    } else {
        owned("OBS replay buffer did not stop within 5 seconds: ")
    };
    m.push_str(reason);
    CaptureError::SpawnFailed(m)
}

/// What OBS answered a request to start the replay buffer.
#[derive(Debug)]
pub enum ReplayStartReply {
    Started,
    /// No replay buffer is configured for the profile.
    NotConfigured,
    /// OBS says the buffer already runs.
    OutputRunning,
    Failed(String),
}

/// What follows a request to start the replay buffer.
#[derive(Debug)]
pub enum ReplayStartAction {
    /// Wait until the buffer reports itself active.
    WaitUntilActive,
    /// Ask whether the buffer really runs.
    CheckStatus,
    Fail(CaptureError),
}

/// The step after OBS answered a start request.
pub fn replay_start_step(reply: &ReplayStartReply) -> (r: ReplayStartAction)
    ensures
        match reply {
            ReplayStartReply::Started => r is WaitUntilActive,
            ReplayStartReply::OutputRunning => r is CheckStatus,
            ReplayStartReply::NotConfigured => r matches ReplayStartAction::Fail(CaptureError::SpawnFailed(m)) && m@ == replay_buffer_guidance(),
            ReplayStartReply::Failed(e) => r matches ReplayStartAction::Fail(CaptureError::SpawnFailed(m)) && m@ == "OBS StartReplayBuffer failed: "@ + e@,
        },
{
    match reply {
        ReplayStartReply::Started => ReplayStartAction::WaitUntilActive,
        ReplayStartReply::OutputRunning => ReplayStartAction::CheckStatus,
        ReplayStartReply::NotConfigured => ReplayStartAction::Fail(CaptureError::SpawnFailed(owned(
            "OBS replay buffer is still disabled after NaniteClip tried to configure it. Open OBS Settings -> Output -> Replay Buffer, enable it for the active profile once, apply the change, then restart monitoring.",
        ))),
        ReplayStartReply::Failed(e) => {
            let mut m = owned("OBS StartReplayBuffer failed: ");
            m.push_str(e.as_str());
            ReplayStartAction::Fail(CaptureError::SpawnFailed(m))
        },
    }
}

/// When OBS said the buffer already runs: accepted only when its status,
/// asked after, says it is active.
pub fn accept_running_replay_buffer(status: Result<bool, String>) -> (r: Result<(), CaptureError>)
    ensures
        match status {
            Ok(true) => r is Ok,
            Ok(false) => r matches Err(CaptureError::SpawnFailed(m)) && m@
                == "OBS reported OutputRunning for StartReplayBuffer but the buffer is not actually active. Restart OBS and try again."@,
            Err(e) => r matches Err(CaptureError::SpawnFailed(m)) && m@
                == "OBS StartReplayBuffer returned OutputRunning but GetReplayBufferStatus also failed: "@ + e@,
        },
{
    match status {
        Ok(true) => Ok(()),
        Ok(false) => Err(CaptureError::SpawnFailed(owned(
            "OBS reported OutputRunning for StartReplayBuffer but the buffer is not actually active. Restart OBS and try again.",
        ))),
        Err(e) => {
            let mut m = owned("OBS StartReplayBuffer returned OutputRunning but GetReplayBufferStatus also failed: ");
            m.push_str(e.as_str());
            Err(CaptureError::SpawnFailed(m))
        },
    }
}

/// The app's side of an OBS session: whether a save is on its way and the
/// length it was asked for. OBS saves one clip at a time.
#[derive(Debug, Clone, Copy, PartialEq, Eq, Structural)]
pub struct ObsSaveTracker {
    pub save_in_flight: bool,
    pub pending_save_length: Option<ClipLength>,
}

/// What the session's worker reported.
#[derive(Debug, Clone, Copy, PartialEq, Eq, Structural)]
pub enum ObsWorkerReport {
    Saved,
    SaveFailed,
    /// News about the connection or the replay buffer, not about a save.
    BackendEvent,
}

impl ObsSaveTracker {
    pub fn new() -> (r: Self)
        ensures
            !r.save_in_flight && r.pending_save_length is None,
    {
        ObsSaveTracker { save_in_flight: false, pending_save_length: None }
    }

    /// A save may be asked for only when none is on its way.
    pub fn check_can_save(&self) -> (r: Result<(), CaptureError>)
        ensures
            self.save_in_flight <==> r matches Err(CaptureError::SaveInFlight),
            !self.save_in_flight <==> r is Ok,
    {
        if self.save_in_flight {
            Err(CaptureError::SaveInFlight)
        } else {
            Ok(())
        }
    }

    /// A save of `length` was handed to the worker.
    pub fn save_sent(&mut self, length: ClipLength)
        ensures
            final(self).save_in_flight,
            final(self).pending_save_length == Some(length),
    {
        self.save_in_flight = true;
        self.pending_save_length = Some(length);
    }

    /// Takes in a report of the worker: a saved clip gets the length that
    /// was asked for (the full buffer when none was), and a saved or failed
    /// save ends the one on its way.
    pub fn on_worker_report(&mut self, report: ObsWorkerReport) -> (r: Option<ClipLength>)
        ensures
            match report {
                ObsWorkerReport::Saved => {
                    &&& r == Some(match old(self).pending_save_length {
                        Some(l) => l,
                        None => ClipLength::FullBuffer,
                    })
                    &&& !final(self).save_in_flight
                    &&& final(self).pending_save_length is None
                },
                ObsWorkerReport::SaveFailed => r is None && !final(self).save_in_flight && final(self).pending_save_length is None,
                ObsWorkerReport::BackendEvent => r is None && *final(self) == *old(self),
            },
    {
        match report {
            ObsWorkerReport::Saved => {
                let d = match self.pending_save_length {
                    Some(l) => l,
                    None => ClipLength::FullBuffer,
                };
                self.pending_save_length = None;
                self.save_in_flight = false;
                Some(d)
            },
            ObsWorkerReport::SaveFailed => {
                self.pending_save_length = None;
                self.save_in_flight = false;
                None
            },
            ObsWorkerReport::BackendEvent => None,
        }
    }

    /// The worker has ended: a save on its way has failed.
    pub fn on_worker_finished(&mut self) -> (r: Option<String>)
        ensures
            old(self).save_in_flight ==> (r matches Some(m) && m@ == "OBS capture session stopped unexpectedly"@),
            !old(self).save_in_flight ==> r is None && *final(self) == *old(self),
            !final(self).save_in_flight,
            old(self).save_in_flight ==> final(self).pending_save_length is None,
    {
        if self.save_in_flight {
            self.save_in_flight = false;
            self.pending_save_length = None;
            Some(owned("OBS capture session stopped unexpectedly"))
        } else {
            None
        }
    }
}

/// The replay buffer holds the seconds asked for at the profile's total
/// bitrate: kilobits per second are 1000 / 8 bytes per second, a quarter
/// more is added for headroom, and the size in MiB (1024 * 1024 bytes) is
/// held between 256 and 8192. This is exact whenever no step saturates.
/// Unknown bitrates count as 6000 kbps of video and 160 of audio.
pub proof fn lemma_replay_buffer_size_from_bitrate(video_kbps: u64, audio_kbps: u64, secs: u32)
    requires
        (video_kbps + audio_kbps) * 125 <= u64::MAX,
        (video_kbps + audio_kbps) * 125 * secs * 125 <= u64::MAX,
    ensures
        ({
            let bytes_per_sec = (video_kbps + audio_kbps) * 1000 / 8;
            let mib: int = bytes_per_sec * secs * 125 / 100 / (1024 * 1024int);
            replay_buffer_mb(Some(video_kbps), Some(audio_kbps), secs) == if mib < 256 {
                256
            } else if mib > 8192 {
                8192
            } else {
                mib
            }
        }),
        replay_buffer_mb(None, None, secs) == replay_buffer_mb(Some(6000), Some(160), secs),
{
    let t: int = video_kbps + audio_kbps;
    let s: int = secs as int;
    assert(t <= u64::MAX);
    assert(sat(t) == t);
    let t1: int = t * 125;
    assert(sat(t1) == t1);
    assert(t * 1000 / 8 == t1) by (nonlinear_arith)
        requires
            t1 == t * 125,
    ;
    let r: int = t1 * s;
    assert(0 <= r <= r * 125 <= u64::MAX) by (nonlinear_arith)
        requires
            t >= 0,
            s >= 0,
            t1 == t * 125,
            r == t1 * s,
            t * 125 * s * 125 <= u64::MAX,
    ;
    assert(sat(r) == r);
    assert(sat(r * 125) == r * 125);
}

} // verus!
