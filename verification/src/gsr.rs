//! The gpu-screen-recorder backend's decisions: the `-a` arguments audio
//! sources become, how discovered audio sources are read from the
//! recorder's output and merged with PipeWire's names, how the recorder's
//! output lines become saved clips, and which save signal a clip length
//! needs.
use vstd::prelude::*;
use crate::capture::{CaptureSourcePlan, CaptureTarget, DisplayServer, AudioSourceError, CaptureCapabilities, CaptureError, DiscoveredAudioKind, DiscoveredAudioSource, DiscoveredView, RecoveryHint};
use crate::dirs::{home_dir, user_dirs};
use crate::config::{GsrBackendConfig, AudioSourceKind, KindView, kind_view, kinds_view, strings_view};
use crate::notifications::ClipLength;
use crate::text::{lemma_text_lt_irrefl, lemma_text_lt_total, lemma_text_lt_trans, str_eq, text_less, text_lt, lemma_split_on_nonempty, chars_eq, chars_of, decimal, has_char, is_prefix, is_suffix, lemma_first_index_of, lemma_first_index_of_none, first_index_of, owned, push_decimal, split_on, string_of, strip_prefix, sub_chars, trim, trim_chars, trim_str};

verus! {

/// The gpu-screen-recorder backend.
#[derive(Debug)]
pub struct GsrBackend {}

impl GsrBackend {
    pub fn new() -> (r: Self) {
        GsrBackend {}
    }

    pub fn id(&self) -> (r: &'static str)
        ensures
            r@ == "gsr"@,
    {
        "gsr"
    }

    pub fn display_name(&self) -> (r: &'static str)
        ensures
            r@ == "gpu-screen-recorder"@,
    {
        "gpu-screen-recorder"
    }

    /// gpu-screen-recorder can do everything the app asks of a backend.
    pub fn capabilities(&self) -> (r: CaptureCapabilities)
        ensures
            r.per_app_audio && r.application_inverse && r.merged_tracks && r.portal_session_restore
                && r.replay_buffer && r.hdr && r.cursor_capture,
    {
        CaptureCapabilities {
            per_app_audio: true,
            application_inverse: true,
            merged_tracks: true,
            portal_session_restore: true,
            replay_buffer: true,
            hdr: true,
            cursor_capture: true,
        }
    }

    /// An audio source is usable when it translates to a recorder argument.
    pub fn validate_audio_source(&self, kind: &AudioSourceKind) -> (r: Result<(), AudioSourceError>)
        ensures
            match (r, gsr_arg(kind@, "gsr"@)) {
                (Ok(()), Ok(_)) => true,
                (Err(e), Err(x)) => gsr_error_matches(e, x),
                _ => false,
            },
    {
        match translate_kind_to_gsr(kind, "gsr") {
            Ok(_) => Ok(()),
            Err(e) => Err(e),
        }
    }
}

/// Why an audio source has no recorder argument.
pub enum GsrArgError {
    Unsupported(Seq<char>),
    WrongBackend(Seq<char>, Seq<char>),
}

pub open spec fn gsr_error_matches(e: AudioSourceError, x: GsrArgError) -> bool {
    match (e, x) {
        (AudioSourceError::Unsupported { capability }, GsrArgError::Unsupported(c)) => capability@ == c,
        (AudioSourceError::WrongBackend { expected, actual }, GsrArgError::WrongBackend(ex, ac)) => expected@ == ex && actual@ == ac,
        _ => false,
    }
}

pub open spec fn is_application(k: KindView) -> bool {
    k is Application
}

pub open spec fn is_inverse(k: KindView) -> bool {
    k is ApplicationInverse
}

/// The recorder's `-a` argument for an audio source, for the backend
/// `backend`: an application inverse names exactly one application, a
/// merged source does not mix applications with inverses and joins its
/// entries with `|`, and a raw source must belong to this backend.
pub open spec fn gsr_arg(k: KindView, backend: Seq<char>) -> Result<Seq<char>, GsrArgError>
    decreases k,
{
    match k {
        KindView::DefaultOutput => Ok("default_output"@),
        KindView::DefaultInput => Ok("default_input"@),
        KindView::Device(n) => Ok("device:"@ + trim(n)),
        KindView::Application(n) => Ok("app:"@ + trim(n)),
        KindView::ApplicationInverse(ns) => if ns.len() != 1 {
            Err(GsrArgError::Unsupported("multi-name application inverse"@))
        } else {
            Ok("app-inverse:"@ + trim(ns[0]))
        },
        KindView::Merged(es) => if (exists|i: int| 0 <= i < es.len() && is_application(#[trigger] es[i]))
            && (exists|i: int| 0 <= i < es.len() && is_inverse(#[trigger] es[i])) {
            Err(GsrArgError::Unsupported("merged tracks cannot combine app and app-inverse sources"@))
        } else {
            gsr_all(es, backend)
        },
        KindView::Raw(b, v) => if b != backend {
            Err(GsrArgError::WrongBackend(backend, b))
        } else {
            Ok(trim(v))
        },
    }
}

/// The arguments of `es` joined by `|`; the first that fails is the error.
pub open spec fn gsr_all(es: Seq<KindView>, backend: Seq<char>) -> Result<Seq<char>, GsrArgError>
    decreases es,
{
    if es.len() == 0 {
        Ok(seq![])
    } else {
        match gsr_all(es.drop_last(), backend) {
            Err(e) => Err(e),
            Ok(prefix) => match gsr_arg(es.last(), backend) {
                Err(e) => Err(e),
                Ok(x) => Ok(if es.len() == 1 {
                    x
                } else {
                    prefix + "|"@ + x
                }),
            },
        }
    }
}

proof fn lemma_kinds_view_index(s: Seq<AudioSourceKind>, i: int)
    requires
        0 <= i < s.len(),
    ensures
        kinds_view(s).len() == s.len(),
        kinds_view(s)[i] == kind_view(s[i]),
    decreases s.len(),
{
    if i > 0 {
        lemma_kinds_view_index(s.drop_first(), i - 1);
    } else {
        lemma_kinds_view_len(s);
    }
}

proof fn lemma_kinds_view_len(s: Seq<AudioSourceKind>)
    ensures
        kinds_view(s).len() == s.len(),
    decreases s.len(),
{
    if s.len() > 0 {
        lemma_kinds_view_len(s.drop_first());
    }
}

proof fn lemma_kinds_view_take(s: Seq<AudioSourceKind>, i: int)
    requires
        0 <= i <= s.len(),
    ensures
        kinds_view(s.take(i)) == kinds_view(s).take(i),
    decreases i,
{
    lemma_kinds_view_len(s);
    lemma_kinds_view_len(s.take(i));
    assert forall|k: int| 0 <= k < i implies kinds_view(s.take(i))[k] == kinds_view(s)[k] by {
        lemma_kinds_view_index(s.take(i), k);
        lemma_kinds_view_index(s, k);
    }
    assert(kinds_view(s.take(i)) =~= kinds_view(s).take(i));
}

fn has_kind(entries: &Vec<AudioSourceKind>, app: bool) -> (r: bool)
    ensures
        r == (exists|i: int| 0 <= i < kinds_view(entries@).len() && (if app {
            is_application(#[trigger] kinds_view(entries@)[i])
        } else {
            is_inverse(kinds_view(entries@)[i])
        })),
{
    proof {
        lemma_kinds_view_len(entries@);
    }
    let mut i: usize = 0;
    while i < entries.len()
        invariant
            i <= entries.len(),
            kinds_view(entries@).len() == entries@.len(),
            forall|k: int| 0 <= k < i ==> !(if app {
                is_application(#[trigger] kinds_view(entries@)[k])
            } else {
                is_inverse(kinds_view(entries@)[k])
            }),
        decreases entries.len() - i,
    {
        proof {
            lemma_kinds_view_index(entries@, i as int);
        }
        let hit = match &entries[i] {
            AudioSourceKind::Application { .. } => app,
            AudioSourceKind::ApplicationInverse { .. } => !app,
            _ => false,
        };
        if hit {
            return true;
        }
        i = i + 1;
    }
    false
}

/// The recorder argument for `kind` on the backend `backend_id`.
pub fn translate_kind_to_gsr(kind: &AudioSourceKind, backend_id: &str) -> (r: Result<String, AudioSourceError>)
    ensures
        match (r, gsr_arg(kind@, backend_id@)) {
            (Ok(x), Ok(y)) => x@ == y,
            (Err(e), Err(x)) => gsr_error_matches(e, x),
            _ => false,
        },
    decreases kind,
{
    match kind {
        AudioSourceKind::DefaultOutput => Ok(owned("default_output")),
        AudioSourceKind::DefaultInput => Ok(owned("default_input")),
        AudioSourceKind::Device { name } => {
            let mut r = owned("device:");
            let t = trim_str(name.as_str());
            r.push_str(t.as_str());
            Ok(r)
        },
        AudioSourceKind::Application { name } => {
            let mut r = owned("app:");
            let t = trim_str(name.as_str());
            r.push_str(t.as_str());
            Ok(r)
        },
        AudioSourceKind::ApplicationInverse { names } => {
            if names.len() != 1 {
                return Err(AudioSourceError::Unsupported { capability: owned("multi-name application inverse") });
            }
            let mut r = owned("app-inverse:");
            let t = trim_str(names[0].as_str());
            r.push_str(t.as_str());
            assert(strings_view(names@)[0] == names@[0]@);
            Ok(r)
        },
        AudioSourceKind::Merged { entries } => {
            let has_app = has_kind(entries, true);
            let has_inverse = has_kind(entries, false);
            if has_app && has_inverse {
                return Err(AudioSourceError::Unsupported {
                    capability: owned("merged tracks cannot combine app and app-inverse sources"),
                });
            }
            proof {
                lemma_kinds_view_len(entries@);
            }
            let mut out = String::new();
            let mut i: usize = 0;
            assert(kinds_view(entries@).take(0) =~= seq![]);
            assert(kind@ == KindView::Merged(kinds_view(entries@)));
            while i < entries.len()
                invariant
                    i <= entries.len(),
                    *kind == (AudioSourceKind::Merged { entries: *entries }),
                    gsr_arg(kind@, backend_id@) == gsr_all(kinds_view(entries@), backend_id@),
                    kinds_view(entries@).len() == entries@.len(),
                    gsr_all(kinds_view(entries@).take(i as int), backend_id@) == Ok::<Seq<char>, GsrArgError>(out@),
                decreases entries.len() - i,
            {
                proof {
                    assert(decreases_to!(*kind => kind->entries));
                    assert(kind->entries == *entries);
                    assert(decreases_to!(*entries => entries@));
                    assert(decreases_to!(entries@ => entries@[i as int]));
                    lemma_kinds_view_index(entries@, i as int);
                }
                let ghost pre = kinds_view(entries@).take(i as int);
                let ghost cur = kinds_view(entries@).take(i + 1);
                assert(cur.drop_last() =~= pre);
                assert(cur.last() == kind_view(entries@[i as int]));
                match translate_kind_to_gsr(&entries[i], backend_id) {
                    Err(e) => {
                        proof {
                            lemma_gsr_all_prefix_err(kinds_view(entries@), (i + 1) as int, backend_id@);
                        }
                        return Err(e);
                    },
                    Ok(x) => {
                        if i > 0 {
                            out.push_str("|");
                        }
                        out.push_str(x.as_str());
                        proof {
                            if i == 0 {
                                assert(pre.len() == 0);
                                assert(out@ =~= x@);
                            }
                        }
                    },
                }
                i = i + 1;
            }
            assert(kinds_view(entries@).take(entries.len() as int) =~= kinds_view(entries@));
            Ok(out)
        },
        AudioSourceKind::Raw { backend_id: raw_backend, value } => {
            let a = chars_of(raw_backend.as_str());
            let b = chars_of(backend_id);
            if !chars_eq(&a, &b) {
                return Err(AudioSourceError::WrongBackend { expected: owned(backend_id), actual: owned(raw_backend.as_str()) });
            }
            Ok(trim_str(value.as_str()))
        },
    }
}

/// When a prefix of the entries fails, all of them fail with its error.
proof fn lemma_gsr_all_prefix_err(es: Seq<KindView>, n: int, backend: Seq<char>)
    requires
        0 <= n <= es.len(),
        gsr_all(es.take(n), backend) is Err,
    ensures
        gsr_all(es, backend) == gsr_all(es.take(n), backend),
    decreases es.len() - n,
{
    if n < es.len() {
        let t = es.take(n + 1);
        assert(t.drop_last() =~= es.take(n));
        lemma_gsr_all_prefix_err(es, n + 1, backend);
    } else {
        assert(es.take(n) =~= es);
    }
}

/// `combined` with each of `apps` added that is not already in it.
pub open spec fn merged_sources(combined: Seq<DiscoveredView>, apps: Seq<DiscoveredView>) -> Seq<DiscoveredView>
    decreases apps.len(),
{
    if apps.len() == 0 {
        combined
    } else if combined.contains(apps[0]) {
        merged_sources(combined, apps.drop_first())
    } else {
        merged_sources(combined.push(apps[0]), apps.drop_first())
    }
}

pub open spec fn sources_view(v: Seq<DiscoveredAudioSource>) -> Seq<DiscoveredView> {
    v.map_values(|d: DiscoveredAudioSource| d@)
}

/// The devices, then the applications that are not already listed.
pub fn merge_discovered_audio(devices: Vec<DiscoveredAudioSource>, apps: Vec<DiscoveredAudioSource>) -> (r: Vec<DiscoveredAudioSource>)
    ensures
        sources_view(r@) == merged_sources(sources_view(devices@), sources_view(apps@)),
{
    let mut combined = devices;
    let ghost start = sources_view(combined@);
    let mut i: usize = 0;
    assert(sources_view(apps@).skip(0) =~= sources_view(apps@));
    while i < apps.len()
        invariant
            i <= apps.len(),
            merged_sources(start, sources_view(apps@)) == merged_sources(sources_view(combined@), sources_view(apps@).skip(i as int)),
        decreases apps.len() - i,
    {
        let ghost rest = sources_view(apps@).skip(i as int);
        assert(rest[0] == apps@[i as int]@);
        assert(rest.drop_first() =~= sources_view(apps@).skip(i + 1));
        let mut found = false;
        let mut j: usize = 0;
        while j < combined.len()
            invariant
                j <= combined.len(),
                i < apps.len(),
                found <==> exists|k: int| 0 <= k < j && combined@[k]@ == apps@[i as int]@,
            decreases combined.len() - j,
        {
            if combined[j].same_source(&apps[i]) {
                found = true;
            }
            j = j + 1;
        }
        proof {
            let cv = sources_view(combined@);
            if found {
                let k = choose|k: int| 0 <= k < combined@.len() && combined@[k]@ == apps@[i as int]@;
                assert(cv[k] == rest[0]);
            } else {
                assert forall|k: int| 0 <= k < cv.len() implies cv[k] != rest[0] by {
                    assert(cv[k] == combined@[k]@);
                }
            }
        }
        if !found {
            let ghost before = sources_view(combined@);
            let c = apps[i].copy();
            combined.push(c);
            assert(sources_view(combined@) =~= before.push(rest[0]));
        }
        i = i + 1;
    }
    assert(sources_view(apps@).skip(apps.len() as int) =~= seq![]);
    combined
}

/// The label PipeWire gives the application with the source key `key`: the
/// last native entry with that key.
pub open spec fn native_label(native: Seq<DiscoveredView>, key: Seq<char>) -> Option<Seq<char>>
    decreases native.len(),
{
    if native.len() == 0 {
        None
    } else if crate::config::display_view(native.last().kind_hint) == key {
        Some(native.last().display_label)
    } else {
        native_label(native.drop_last(), key)
    }
}

/// The recorder's applications, each labelled as PipeWire labels the same
/// source when it does.
pub open spec fn relabelled(gsr_apps: Seq<DiscoveredView>, native: Seq<DiscoveredView>) -> Seq<DiscoveredView> {
    gsr_apps.map_values(|a: DiscoveredView| match native_label(native, crate::config::display_view(a.kind_hint)) {
        Some(l) => DiscoveredView { display_label: l, ..a },
        None => a,
    })
}

/// The recorder's application list with PipeWire's labels where PipeWire
/// knows the application.
pub fn merge_gsr_and_native_application_audio(gsr_apps: Vec<DiscoveredAudioSource>, native_apps: Vec<DiscoveredAudioSource>) -> (r: Vec<DiscoveredAudioSource>)
    ensures
        sources_view(r@) == relabelled(sources_view(gsr_apps@), sources_view(native_apps@)),
{
    let ghost nv = sources_view(native_apps@);
    let mut keys: Vec<String> = Vec::new();
    let mut n: usize = 0;
    while n < native_apps.len()
        invariant
            n <= native_apps.len(),
            keys@.len() == n,
            forall|k: int| 0 <= k < n ==> (#[trigger] keys@[k])@ == crate::config::display_view(native_apps@[k].kind_hint@),
        decreases native_apps.len() - n,
    {
        keys.push(native_apps[n].kind_hint.config_display_value());
        n = n + 1;
    }
    let mut out: Vec<DiscoveredAudioSource> = Vec::new();
    let mut i: usize = 0;
    while i < gsr_apps.len()
        invariant
            i <= gsr_apps.len(),
            keys@.len() == native_apps@.len(),
            nv == sources_view(native_apps@),
            forall|k: int| 0 <= k < native_apps@.len() ==> (#[trigger] keys@[k])@ == crate::config::display_view(native_apps@[k].kind_hint@),
            sources_view(out@) == relabelled(sources_view(gsr_apps@.take(i as int)), nv),
        decreases gsr_apps.len() - i,
    {
        let key = gsr_apps[i].kind_hint.config_display_value();
        let kv = chars_of(key.as_str());
        let mut j: usize = native_apps.len();
        let mut found: Option<usize> = None;
        assert(nv.take(native_apps.len() as int) =~= nv);
        while j > 0
            invariant
                j <= native_apps.len(),
                i < gsr_apps.len(),
                kv@ == key@,
                keys@.len() == native_apps@.len(),
                nv == sources_view(native_apps@),
                forall|k: int| 0 <= k < native_apps@.len() ==> (#[trigger] keys@[k])@ == crate::config::display_view(native_apps@[k].kind_hint@),
                found is None ==> native_label(nv, key@) == native_label(nv.take(j as int), key@),
                found matches Some(f) ==> f < native_apps@.len() && native_label(nv, key@) == Some(native_apps@[f as int].display_label@),
            decreases j,
        {
            if found.is_none() {
                let ghost t = nv.take(j as int);
                assert(t.drop_last() =~= nv.take(j - 1));
                assert(t.last() == nv[j - 1]);
                assert(nv[j - 1] == native_apps@[j - 1]@);
                let kj = chars_of(keys[j - 1].as_str());
                if chars_eq(&kj, &kv) {
                    assert(crate::config::display_view(t.last().kind_hint) == key@);
                    found = Some(j - 1);
                } else {
                    assert(crate::config::display_view(t.last().kind_hint) != key@);
                }
            }
            j = j - 1;
        }
        proof {
            if found is None {
                assert(nv.take(0) =~= Seq::<DiscoveredView>::empty());
            }
        }
        let src = &gsr_apps[i];
        let item = match found {
            Some(f) => DiscoveredAudioSource {
                kind_hint: src.kind_hint.copy(),
                display_label: owned(native_apps[f].display_label.as_str()),
                kind: src.kind,
                available: src.available,
            },
            None => src.copy(),
        };
        let ghost before = sources_view(out@);
        out.push(item);
        proof {
            let g = sources_view(gsr_apps@.take(i + 1));
            let a = gsr_apps@[i as int]@;
            assert(key@ == crate::config::display_view(a.kind_hint));
            assert(sources_view(gsr_apps@.take(i + 1)) =~= sources_view(gsr_apps@.take(i as int)).push(a));
            assert(relabelled(g, nv) =~= relabelled(sources_view(gsr_apps@.take(i as int)), nv).push(relabelled(seq![a], nv)[0]));
            assert(out@.last()@ == relabelled(seq![a], nv)[0]);
            assert(sources_view(out@) =~= before.push(out@.last()@));
        }
        i = i + 1;
    }
    assert(gsr_apps@.take(gsr_apps.len() as int) =~= gsr_apps@);
    out
}

/// How many of `labels` are `label`.
pub open spec fn label_count(labels: Seq<Seq<char>>, label: Seq<char>) -> nat
    decreases labels.len(),
{
    if labels.len() == 0 {
        0
    } else {
        label_count(labels.drop_last(), label) + (if labels.last() == label {
            1nat
        } else {
            0nat
        })
    }
}

/// An application that PipeWire reports: `node` and the label chosen for
/// it; a label that several applications share gets the node in brackets.
pub open spec fn pipewire_source(node: Seq<char>, label: Seq<char>, labels: Seq<Seq<char>>) -> DiscoveredView {
    DiscoveredView {
        kind_hint: KindView::Application(node),
        display_label: if label_count(labels, label) > 1 {
            label + " ("@ + node + ")"@
        } else {
            label
        },
        kind: DiscoveredAudioKind::Application,
        available: true,
    }
}

/// A PipeWire registry object as discovery sees it: whether it is a node,
/// its media class and node name, and the properties its label may come
/// from, in order of preference.
#[derive(Debug)]
pub struct PipewireObject {
    pub is_node: bool,
    pub media_class: Option<String>,
    pub node_name: Option<String>,
    pub label_candidates: Vec<Option<String>>,
}

/// Whether an object is an application playing audio with a node name.
pub open spec fn plays_audio(o: PipewireObject) -> bool {
    &&& o.is_node
    &&& crate::config::opt_view(o.media_class) == Some("Stream/Output/Audio"@)
    &&& o.node_name is Some
    &&& trim(o.node_name->0@).len() > 0
}

/// The node name an application is listed under.
pub open spec fn node_key(o: PipewireObject) -> Seq<char> {
    trim(o.node_name->0@)
}

/// The label an application is shown with.
#[verifier::opaque]
pub open spec fn node_label(o: PipewireObject) -> Seq<char> {
    preferred_label(o.label_candidates@.map_values(|c: Option<String>| crate::config::opt_view(c)), node_key(o))
}

/// Whether object `i` of `objs` is the first application playing audio
/// under its node name.
#[verifier::opaque]
pub open spec fn first_with_key(objs: Seq<PipewireObject>, i: int) -> bool {
    &&& 0 <= i < objs.len()
    &&& plays_audio(objs[i])
    &&& forall|j: int| 0 <= j < i ==> !(plays_audio(#[trigger] objs[j]) && node_key(objs[j]) == node_key(objs[i]))
}

/// Whether entry `e` names the node of an application among the first `n`
/// objects, with the label of its first object.
#[verifier::opaque]
pub open spec fn entry_from(objs: Seq<PipewireObject>, n: int, e: (Seq<char>, Seq<char>)) -> bool {
    exists|i: int|
        #![trigger first_with_key(objs, i)]
        0 <= i < n && first_with_key(objs, i) && node_key(objs[i]) == e.0 && e.1 == node_label(objs[i])
}

/// Whether some entry of `r` has the node name `key`.
#[verifier::opaque]
pub open spec fn key_listed(r: Seq<(Seq<char>, Seq<char>)>, key: Seq<char>) -> bool {
    exists|k: int| 0 <= k < r.len() && (#[trigger] r[k]).0 == key
}

/// The applications among the first `n` objects, keyed by node name, in
/// ascending order of node names, each with the label of its first object.
pub open spec fn application_nodes_of(objs: Seq<PipewireObject>, n: int, r: Seq<(Seq<char>, Seq<char>)>) -> bool {
    &&& keys_ascend(r)
    &&& forall|k: int| 0 <= k < r.len() ==> entry_from(objs, n, #[trigger] r[k])
    &&& forall|i: int| 0 <= i < n && plays_audio(#[trigger] objs[i]) ==> key_listed(r, node_key(objs[i]))
}

pub open spec fn pairs_view(v: Seq<(String, String)>) -> Seq<(Seq<char>, Seq<char>)> {
    v.map_values(|p: (String, String)| (p.0@, p.1@))
}

/// Whether the keys of `r` ascend strictly.
pub open spec fn keys_ascend(r: Seq<(Seq<char>, Seq<char>)>) -> bool {
    forall|a: int, b: int| 0 <= a < b < r.len() ==> text_lt(#[trigger] r[a].0, #[trigger] r[b].0)
}

proof fn lemma_not_listed(before: Seq<(Seq<char>, Seq<char>)>, key: Seq<char>, k: int)
    requires
        keys_ascend(before),
        0 <= k <= before.len(),
        forall|a: int| 0 <= a < k ==> text_lt(#[trigger] before[a].0, key),
        k < before.len() ==> !text_lt(before[k].0, key) && before[k].0 != key,
    ensures
        forall|a: int| 0 <= a < before.len() ==> (#[trigger] before[a]).0 != key,
        k < before.len() ==> text_lt(key, before[k].0),
{
    if k < before.len() {
        lemma_text_lt_total(key, before[k].0);
    }
    assert forall|a: int| 0 <= a < before.len() implies (#[trigger] before[a]).0 != key by {
        lemma_text_lt_irrefl(key);
        if a > k {
            assert(text_lt(before[k].0, before[a].0));
            lemma_text_lt_trans(key, before[k].0, before[a].0);
        }
    }
}

proof fn lemma_insert_ascends(before: Seq<(Seq<char>, Seq<char>)>, k: int, entry: (Seq<char>, Seq<char>))
    requires
        keys_ascend(before),
        0 <= k <= before.len(),
        forall|a: int| 0 <= a < k ==> text_lt(#[trigger] before[a].0, entry.0),
        k < before.len() ==> text_lt(entry.0, before[k].0),
    ensures
        keys_ascend(before.insert(k, entry)),
{
    let after = before.insert(k, entry);
    assert forall|a: int, b: int| 0 <= a < b < after.len() implies text_lt(#[trigger] after[a].0, #[trigger] after[b].0) by {
        if b < k {
            assert(after[a] == before[a] && after[b] == before[b]);
        } else if b == k {
            assert(after[a] == before[a]);
        } else {
            assert(after[b] == before[b - 1]);
            let kb = if b - 1 > k {
                assert(text_lt(before[k].0, before[b - 1].0));
                lemma_text_lt_trans(entry.0, before[k].0, before[b - 1].0);
                0int
            } else {
                0int
            };
            if a < k {
                assert(after[a] == before[a]);
                lemma_text_lt_trans(before[a].0, entry.0, before[b - 1].0);
            } else if a > k {
                assert(after[a] == before[a - 1]);
            }
        }
    }
}

proof fn lemma_insert_step(objs: Seq<PipewireObject>, i: int, before: Seq<(Seq<char>, Seq<char>)>, k: int)
    requires
        application_nodes_of(objs, i, before),
        0 <= i < objs.len(),
        plays_audio(objs[i]),
        0 <= k <= before.len(),
        forall|a: int| 0 <= a < before.len() ==> (#[trigger] before[a]).0 != node_key(objs[i]),
        keys_ascend(before.insert(k, (node_key(objs[i]), node_label(objs[i])))),
    ensures
        application_nodes_of(objs, i + 1, before.insert(k, (node_key(objs[i]), node_label(objs[i])))),
{
    reveal(entry_from);
    reveal(key_listed);
    let entry = (node_key(objs[i]), node_label(objs[i]));
    let after = before.insert(k, entry);
    assert(first_with_key(objs, i)) by {
        reveal(first_with_key);
        assert forall|j: int| 0 <= j < i implies !(plays_audio(#[trigger] objs[j]) && node_key(objs[j]) == node_key(objs[i])) by {
            if plays_audio(objs[j]) && node_key(objs[j]) == node_key(objs[i]) {
                assert(key_listed(before, node_key(objs[j])));
                let kk = choose|kk: int| 0 <= kk < before.len() && (#[trigger] before[kk]).0 == node_key(objs[j]);
            }
        }
    }
    assert forall|kk: int| 0 <= kk < after.len() implies entry_from(objs, i + 1, #[trigger] after[kk]) by {
        if kk == k {
            assert(after[kk] == entry);
            assert(0 <= i < i + 1 && first_with_key(objs, i) && node_key(objs[i]) == entry.0 && entry.1 == node_label(objs[i]));
        } else {
            let b = if kk < k { kk } else { kk - 1 };
            assert(after[kk] == before[b]);
            assert(entry_from(objs, i, before[b]));
            let w = choose|w: int| #![trigger first_with_key(objs, w)] 0 <= w < i && first_with_key(objs, w) && node_key(objs[w])
                == before[b].0 && before[b].1 == node_label(objs[w]);
            assert(0 <= w < i + 1 && first_with_key(objs, w));
        }
    }
    assert forall|ii: int| 0 <= ii < i + 1 && plays_audio(#[trigger] objs[ii]) implies key_listed(after, node_key(objs[ii])) by {
        if ii < i {
            assert(key_listed(before, node_key(objs[ii])));
            let kk = choose|kk: int| 0 <= kk < before.len() && (#[trigger] before[kk]).0 == node_key(objs[ii]);
            if kk < k {
                assert(after[kk] == before[kk]);
            } else {
                assert(after[kk + 1] == before[kk]);
            }
        } else {
            assert(after[k] == entry);
        }
    }
}

proof fn lemma_skip_step(objs: Seq<PipewireObject>, i: int, before: Seq<(Seq<char>, Seq<char>)>)
    requires
        application_nodes_of(objs, i, before),
        0 <= i < objs.len(),
        plays_audio(objs[i]) ==> key_listed(before, node_key(objs[i])),
    ensures
        application_nodes_of(objs, i + 1, before),
{
    assert forall|kk: int| 0 <= kk < before.len() implies entry_from(objs, i + 1, #[trigger] before[kk]) by {
        reveal(entry_from);
        assert(entry_from(objs, i, before[kk]));
        let w = choose|w: int| #![trigger first_with_key(objs, w)] 0 <= w < i && first_with_key(objs, w) && node_key(objs[w])
            == before[kk].0 && before[kk].1 == node_label(objs[w]);
        assert(0 <= w < i + 1 && first_with_key(objs, w));
    }
}

/// The applications PipeWire lists: the nodes whose media class is
/// `Stream/Output/Audio` and whose trimmed node name is not blank, one
/// entry per node name in ascending order, labelled as its first node is.
pub fn pipewire_application_nodes(objects: &Vec<PipewireObject>) -> (r: Vec<(String, String)>)
    ensures
        application_nodes_of(objects@, objects@.len() as int, pairs_view(r@)),
{
    let mut out: Vec<(String, String)> = Vec::new();
    let mut i: usize = 0;
    proof {
        }
    while i < objects.len()
        invariant
            i <= objects.len(),
            application_nodes_of(objects@, i as int, pairs_view(out@)),
        decreases objects.len() - i,
    {
        let o = &objects[i];
        let ghost before = pairs_view(out@);
        let class_ok = match &o.media_class {
            Some(c) => str_eq(c.as_str(), "Stream/Output/Audio"),
            None => false,
        };
        let name = match &o.node_name {
            Some(n) => trim_str(n.as_str()),
            None => String::new(),
        };
        let plays = o.is_node && class_ok && o.node_name.is_some() && !name.as_str().is_empty();
        proof {
            if plays {
                assert(plays_audio(objects@[i as int]));
                assert(node_key(objects@[i as int]) == name@);
            } else {
                if plays_audio(objects@[i as int]) {
                    assert(node_key(objects@[i as int]) == name@);
                }
            }
        }
        if plays {
            let key = chars_of(name.as_str());
            let mut k: usize = 0;
            while k < out.len() && text_less(&chars_of(out[k].0.as_str()), &key)
                invariant
                    k <= out.len(),
                    pairs_view(out@) == before,
                    key@ == name@,
                    forall|a: int| 0 <= a < k ==> text_lt(#[trigger] before[a].0, key@),
                decreases out.len() - k,
            {
                assert(before[k as int].0 == out@[k as int].0@);
                k = k + 1;
            }
            proof {
                if k < out.len() {
                    assert(before[k as int].0 == out@[k as int].0@);
                }
            }
            let present = k < out.len() && str_eq(out[k].0.as_str(), name.as_str());
            if !present {
                let label = preferred_pipewire_application_label(&o.label_candidates, name.as_str());
                proof {
                    reveal(node_label);
                                    assert(label@ == node_label(objects@[i as int]));
                    lemma_not_listed(before, key@, k as int);
                    lemma_insert_ascends(before, k as int, (name@, label@));
                    lemma_insert_step(objects@, i as int, before, k as int);
                }
                out.insert(k, (name, label));
                proof {
                    assert(pairs_view(out@) =~= before.insert(k as int, (node_key(objects@[i as int]), node_label(objects@[i as int]))));
                }
            } else {
                proof {
                    reveal(key_listed);
                    assert(before[k as int].0 == node_key(objects@[i as int]));
                    lemma_skip_step(objects@, i as int, before);
                }
            }
        } else {
            proof {
                lemma_skip_step(objects@, i as int, before);
            }
        }
        i = i + 1;
    }
    out
}

/// The PipeWire applications, one per node in the order given.
///
/// The nodes come as PipeWire discovery keeps them: each node name once, in
/// ascending order.
pub fn finalize_pipewire_application_sources(app_nodes: Vec<(String, String)>) -> (r: Vec<DiscoveredAudioSource>)
    requires
        forall|a: int, b: int| 0 <= a < b < app_nodes@.len() ==> text_lt(#[trigger] app_nodes@[a].0@, #[trigger] app_nodes@[b].0@),
    ensures
        r@.len() == app_nodes@.len(),
        forall|i: int| 0 <= i < r@.len() ==> (#[trigger] r@[i])@ == pipewire_source(app_nodes@[i].0@,
            app_nodes@[i].1@, app_nodes@.map_values(|p: (String, String)| p.1@)),
{
    let ghost labels = app_nodes@.map_values(|p: (String, String)| p.1@);
    let mut out: Vec<DiscoveredAudioSource> = Vec::new();
    let mut i: usize = 0;
    while i < app_nodes.len()
        invariant
            i <= app_nodes.len(),
            labels == app_nodes@.map_values(|p: (String, String)| p.1@),
            out@.len() == i,
            forall|k: int| 0 <= k < i ==> (#[trigger] out@[k])@ == pipewire_source(app_nodes@[k].0@, app_nodes@[k].1@, labels),
        decreases app_nodes.len() - i,
    {
        let label = chars_of(app_nodes[i].1.as_str());
        let mut count: usize = 0;
        let mut j: usize = 0;
        while j < app_nodes.len()
            invariant
                j <= app_nodes.len(),
                i < app_nodes.len(),
                label@ == app_nodes@[i as int].1@,
                labels == app_nodes@.map_values(|p: (String, String)| p.1@),
                count == label_count(labels.take(j as int), label@),
                count <= j,
            decreases app_nodes.len() - j,
        {
            let other = chars_of(app_nodes[j].1.as_str());
            proof {
                let t = labels.take(j + 1);
                assert(t.drop_last() =~= labels.take(j as int));
                assert(t.last() == app_nodes@[j as int].1@);
            }
            if chars_eq(&other, &label) {
                count = count + 1;
            }
            j = j + 1;
        }
        assert(labels.take(app_nodes.len() as int) =~= labels);
        let node = owned(app_nodes[i].0.as_str());
        let display_label = if count > 1 {
            let mut l = owned(app_nodes[i].1.as_str());
            l.push_str(" (");
            l.push_str(app_nodes[i].0.as_str());
            l.push_str(")");
            l
        } else {
            owned(app_nodes[i].1.as_str())
        };
        out.push(DiscoveredAudioSource {
            kind_hint: AudioSourceKind::Application { name: node },
            display_label,
            kind: DiscoveredAudioKind::Application,
            available: true,
        });
        i = i + 1;
    }
    out
}

/// The first candidate label that is not blank, trimmed; the node name when
/// none is.
pub open spec fn preferred_label(candidates: Seq<Option<Seq<char>>>, node: Seq<char>) -> Seq<char>
    decreases candidates.len(),
{
    if candidates.len() == 0 {
        node
    } else {
        match candidates[0] {
            Some(c) => if trim(c).len() > 0 {
                trim(c)
            } else {
                preferred_label(candidates.drop_first(), node)
            },
            None => preferred_label(candidates.drop_first(), node),
        }
    }
}

/// The label for a PipeWire node from its properties, given in order of
/// preference (application name, node description, media name, node nick,
/// client name, process binary).
pub fn preferred_pipewire_application_label(candidates: &Vec<Option<String>>, node_name: &str) -> (r: String)
    ensures
        r@ == preferred_label(candidates@.map_values(|o: Option<String>| crate::config::opt_view(o)), node_name@),
{
    let ghost cs = candidates@.map_values(|o: Option<String>| crate::config::opt_view(o));
    let mut i: usize = 0;
    assert(cs.skip(0) =~= cs);
    while i < candidates.len()
        invariant
            i <= candidates.len(),
            cs == candidates@.map_values(|o: Option<String>| crate::config::opt_view(o)),
            preferred_label(cs, node_name@) == preferred_label(cs.skip(i as int), node_name@),
        decreases candidates.len() - i,
    {
        let ghost rest = cs.skip(i as int);
        assert(rest[0] == crate::config::opt_view(candidates@[i as int]));
        assert(rest.drop_first() =~= cs.skip(i + 1));
        if let Some(c) = &candidates[i] {
            let t = trim_str(c.as_str());
            if !t.as_str().is_empty() {
                return t;
            }
        }
        i = i + 1;
    }
    assert(cs.skip(candidates.len() as int) =~= seq![]);
    owned(node_name)
}

/// `piece` without one `\r` at its end.
pub open spec fn strip_cr(piece: Seq<char>) -> Seq<char> {
    if piece.len() > 0 && piece.last() == '\r' {
        piece.drop_last()
    } else {
        piece
    }
}

/// The lines of the pieces between `\n`s: each ended piece without its
/// `\r`, and the last piece when it is not empty.
pub open spec fn lines_from(pieces: Seq<Seq<char>>) -> Seq<Seq<char>>
    decreases pieces.len(),
{
    if pieces.len() <= 1 {
        if pieces.len() == 1 && pieces[0].len() > 0 {
            seq![pieces[0]]
        } else {
            seq![]
        }
    } else {
        seq![strip_cr(pieces[0])] + lines_from(pieces.drop_first())
    }
}

/// The lines of `s`, as `str::lines` gives them.
pub open spec fn std_lines(s: Seq<char>) -> Seq<Seq<char>> {
    lines_from(split_on(s, '\n'))
}

/// The lines of `s`.
pub fn lines_of(s: &str) -> (r: Vec<String>)
    ensures
        strings_view(r@) == std_lines(s@),
{
    let v = chars_of(s);
    let mut out: Vec<String> = Vec::new();
    let mut start: usize = 0;
    let mut j: usize = 0;
    assert(v@.skip(0) =~= v@);
    assert(strings_view(out@) =~= seq![]);
    while j < v.len()
        invariant
            start <= j <= v.len(),
            v@ == s@,
            forall|k: int| start <= k < j ==> v@[k] != '\n',
            std_lines(s@) == strings_view(out@) + lines_from(split_on(v@.skip(start as int), '\n')),
        decreases v.len() - j,
    {
        if v[j] == '\n' {
            let ghost rest = v@.skip(start as int);
            proof {
                assert(rest[j - start] == '\n');
                assert forall|k: int| 0 <= k < j - start implies rest[k] != '\n' by {
                    assert(rest[k] == v@[start + k]);
                }
                lemma_first_index_of(rest, '\n', j - start);
                assert(rest.take(j - start) =~= v@.subrange(start as int, j as int));
                assert(rest.skip(j - start + 1) =~= v@.skip(j + 1));
                lemma_split_on_nonempty(v@.skip(j + 1), '\n');
                let ps = split_on(rest, '\n');
                assert(ps == seq![rest.take(j - start)] + split_on(v@.skip(j + 1), '\n'));
                assert(ps[0] == rest.take(j - start));
                assert(ps.drop_first() =~= split_on(v@.skip(j + 1), '\n'));
            }
            let end = if j > start && v[j - 1] == '\r' {
                j - 1
            } else {
                j
            };
            let piece = sub_chars(&v, start, end);
            proof {
                let raw = v@.subrange(start as int, j as int);
                if j > start && v@[j - 1] == '\r' {
                    assert(raw.drop_last() =~= piece@);
                } else {
                    assert(raw =~= piece@);
                }
            }
            let ghost before = strings_view(out@);
            out.push(string_of(&piece));
            assert(strings_view(out@) =~= before.push(piece@));
            start = j + 1;
        }
        j = j + 1;
    }
    let ghost rest = v@.skip(start as int);
    proof {
        assert forall|k: int| 0 <= k < rest.len() implies rest[k] != '\n' by {
            assert(rest[k] == v@[start + k]);
        }
        lemma_first_index_of_none(rest, '\n');
    }
    if start < v.len() {
        let last = sub_chars(&v, start, v.len());
        assert(last@ =~= rest);
        let ghost before = strings_view(out@);
        out.push(string_of(&last));
        assert(strings_view(out@) =~= before + seq![rest]);
    } else {
        assert(rest.len() == 0);
        assert(strings_view(out@) + Seq::<Seq<char>>::empty() =~= strings_view(out@));
    }
    out
}

/// The source a line of the recorder's listing names, if it names one.
/// Device lines are `source|description`; application lines are names.
pub open spec fn discovered_line(line: Seq<char>, kind: DiscoveredAudioKind) -> Option<DiscoveredView> {
    let parts: Option<(Seq<char>, Seq<char>)> = match kind {
        DiscoveredAudioKind::Device => match first_index_of(line, '|') {
            Some(i) => Some((trim(line.take(i)), trim(line.skip(i + 1)))),
            None => None,
        },
        DiscoveredAudioKind::Application => Some((trim(line), trim(line))),
    };
    match parts {
        None => None,
        Some((src, desc)) => {
            let source = trim(src);
            if source.len() == 0 {
                None
            } else {
                Some(DiscoveredView {
                    kind_hint: match kind {
                        DiscoveredAudioKind::Device => KindView::Raw("gsr"@, source),
                        DiscoveredAudioKind::Application => KindView::Application(source),
                    },
                    display_label: if desc.len() == 0 {
                        source
                    } else {
                        desc
                    },
                    kind,
                    available: true,
                })
            }
        },
    }
}

/// The sources that the lines name, in order.
pub open spec fn discovered_lines(lines: Seq<Seq<char>>, kind: DiscoveredAudioKind) -> Seq<DiscoveredView>
    decreases lines.len(),
{
    if lines.len() == 0 {
        seq![]
    } else {
        discovered_lines(lines.drop_last(), kind) + match discovered_line(lines.last(), kind) {
            Some(d) => seq![d],
            None => seq![],
        }
    }
}

/// Why a listing failed: the recorder's error output, or its exit status
/// when it printed none.
pub open spec fn failure_detail(status_text: Seq<char>, stderr: Seq<char>) -> Seq<char> {
    if trim(stderr).len() == 0 {
        "exit status "@ + status_text
    } else {
        trim(stderr)
    }
}

fn failure_detail_exec(status_text: &str, stderr: &str) -> (r: String)
    ensures
        r@ == failure_detail(status_text@, stderr@),
{
    let t = trim_str(stderr);
    if t.as_str().is_empty() {
        let mut r = owned("exit status ");
        r.push_str(status_text);
        r
    } else {
        t
    }
}

fn discovered_line_exec(line: &str, kind: DiscoveredAudioKind) -> (r: Option<DiscoveredAudioSource>)
    ensures
        match (r, discovered_line(line@, kind)) {
            (Some(a), Some(b)) => a@ == b,
            (None, None) => true,
            _ => false,
        },
{
    let v = chars_of(line);
    let (src, desc) = match kind {
        DiscoveredAudioKind::Device => {
            match crate::text::find_char(&v, '|') {
                Some(i) => {
                    proof {
                        lemma_first_index_of(v@, '|', i as int);
                    }
                    let a = sub_chars(&v, 0, i);
                    let b = sub_chars(&v, i + 1, v.len());
                    assert(a@ =~= v@.take(i as int));
                    assert(b@ =~= v@.skip(i + 1));
                    (trim_chars(&a), trim_chars(&b))
                },
                None => {
                    proof {
                        lemma_first_index_of_none(v@, '|');
                    }
                    return None;
                },
            }
        },
        DiscoveredAudioKind::Application => (trim_chars(&v), trim_chars(&v)),
    };
    let source = trim_chars(&src);
    if source.len() == 0 {
        return None;
    }
    let kind_hint = match kind {
        DiscoveredAudioKind::Device => AudioSourceKind::Raw { backend_id: owned("gsr"), value: string_of(&source) },
        DiscoveredAudioKind::Application => AudioSourceKind::Application { name: string_of(&source) },
    };
    let display_label = if desc.len() == 0 {
        string_of(&source)
    } else {
        string_of(&desc)
    };
    Some(DiscoveredAudioSource { kind_hint, display_label, kind, available: true })
}

/// The sources a recorder listing names, from its exit status (`success`,
/// and `status_text` as the status is written), standard output and
/// standard error.
pub fn parse_audio_discovery_output(success: bool, status_text: &str, stdout: &str, stderr: &str, kind: DiscoveredAudioKind) -> (r: Result<Vec<DiscoveredAudioSource>, AudioSourceError>)
    ensures
        !success ==> (r matches Err(AudioSourceError::DiscoveryFailed(d)) && d@ == failure_detail(status_text@, stderr@)),
        success ==> (r matches Ok(v) && sources_view(v@) == discovered_lines(std_lines(stdout@), kind)),
{
    if !success {
        return Err(AudioSourceError::DiscoveryFailed(failure_detail_exec(status_text, stderr)));
    }
    let lines = lines_of(stdout);
    let ghost ls = strings_view(lines@);
    let mut out: Vec<DiscoveredAudioSource> = Vec::new();
    let mut i: usize = 0;
    assert(sources_view(out@) =~= discovered_lines(ls.take(0), kind));
    while i < lines.len()
        invariant
            i <= lines.len(),
            ls == strings_view(lines@),
            sources_view(out@) == discovered_lines(ls.take(i as int), kind),
        decreases lines.len() - i,
    {
        let ghost t = ls.take(i + 1);
        assert(t.drop_last() =~= ls.take(i as int));
        assert(t.last() == lines@[i as int]@);
        let ghost before = sources_view(out@);
        match discovered_line_exec(lines[i].as_str(), kind) {
            Some(d) => {
                out.push(d);
                assert(sources_view(out@) =~= before + seq![out@.last()@]);
            },
            None => {
                assert(before + Seq::<DiscoveredView>::empty() =~= before);
            },
        }
        i = i + 1;
    }
    assert(ls.take(lines.len() as int) =~= ls);
    Ok(out)
}

/// The application listing of the recorder: as `parse_audio_discovery_output`,
/// but a failed listing means per-application audio is unavailable.
pub fn parse_application_audio_output(success: bool, status_text: &str, stdout: &str, stderr: &str) -> (r: Result<Vec<DiscoveredAudioSource>, AudioSourceError>)
    ensures
        !success ==> (r matches Err(AudioSourceError::PerAppUnavailable { reason, partial }) && reason@ == failure_detail(status_text@, stderr@)
            && partial@.len() == 0),
        success ==> (r matches Ok(v) && sources_view(v@) == discovered_lines(std_lines(stdout@), DiscoveredAudioKind::Application)),
{
    if !success {
        return Err(AudioSourceError::PerAppUnavailable { reason: failure_detail_exec(status_text, stderr), partial: Vec::new() });
    }
    parse_audio_discovery_output(true, status_text, stdout, stderr, DiscoveredAudioKind::Application)
}

/// The recorder's `-w` argument for a capture target.
pub fn gsr_capture_target_arg(target: &CaptureTarget) -> (r: Result<String, CaptureError>)
    ensures
        match target {
            CaptureTarget::X11Window(w) => r matches Ok(s) && s@ == decimal(*w as nat),
            CaptureTarget::WaylandPortal => r matches Ok(s) && s@ == "portal"@,
            CaptureTarget::Monitor(name) => r matches Ok(s) && s@ == name@,
            CaptureTarget::BackendOwned => r matches Err(CaptureError::Unsupported { capability }) && capability@ == "backend-owned capture target"@,
        },
{
    match target {
        CaptureTarget::X11Window(w) => {
            let mut s = String::new();
            push_decimal(&mut s, *w);
            assert(s@ =~= decimal(*w as nat));
            Ok(s)
        },
        CaptureTarget::WaylandPortal => Ok(owned("portal")),
        CaptureTarget::Monitor(name) => Ok(owned(name.as_str())),
        CaptureTarget::BackendOwned => Err(CaptureError::Unsupported { capability: owned("backend-owned capture target") }),
    }
}

/// The recorder's `-w` argument for a capture target, if it has one.
pub open spec fn target_arg(target: CaptureTarget) -> Option<Seq<char>> {
    match target {
        CaptureTarget::X11Window(w) => Some(decimal(w as nat)),
        CaptureTarget::WaylandPortal => Some("portal"@),
        CaptureTarget::Monitor(name) => Some(name@),
        CaptureTarget::BackendOwned => None,
    }
}

/// The arguments that start a replay buffer, before the portal and audio
/// arguments: target, frame rate, container, constant bitrate at the
/// quality, codec, buffer length and output directory.
pub open spec fn replay_base_args(target: Seq<char>, gsr: GsrBackendConfig, replay_buffer_secs: u32, save_directory: Seq<char>) -> Seq<Seq<char>> {
    seq!["-w"@, target, "-f"@, decimal(gsr.framerate as nat), "-c"@, gsr.container@, "-bm"@, "cbr"@, "-q"@, gsr.quality@,
        "-k"@, gsr.codec@, "-r"@, decimal(replay_buffer_secs as nat), "-o"@, save_directory]
}

/// The arguments that restore a portal session, with its token file when
/// there is one.
pub open spec fn portal_args(restore: bool, token_path: Option<Seq<char>>) -> Seq<Seq<char>> {
    if restore {
        seq!["-restore-portal-session"@, "yes"@] + match token_path {
            Some(t) => seq!["-portal-session-token-filepath"@, t],
            None => seq![],
        }
    } else {
        seq![]
    }
}

/// `-a` and the recorder argument of each audio source, in order; the first
/// source without one is the error.
pub open spec fn audio_args(kinds: Seq<KindView>) -> Result<Seq<Seq<char>>, GsrArgError>
    decreases kinds.len(),
{
    if kinds.len() == 0 {
        Ok(seq![])
    } else {
        match audio_args(kinds.drop_last()) {
            Err(e) => Err(e),
            Ok(prefix) => match gsr_arg(kinds.last(), "gsr"@) {
                Err(e) => Err(e),
                Ok(a) => Ok(prefix + seq!["-a"@, a]),
            },
        }
    }
}

/// The command line of a gpu-screen-recorder replay buffer for `target`
/// with the backend settings, buffer length, output directory, portal
/// session and audio sources given.
pub fn gsr_replay_args(
    target: &CaptureTarget,
    gsr: &GsrBackendConfig,
    replay_buffer_secs: u32,
    save_directory: &str,
    restore_portal_session: bool,
    portal_token_path: Option<&str>,
    audio_sources: &Vec<AudioSourceKind>,
) -> (r: Result<Vec<String>, CaptureError>)
    ensures
        match (target_arg(*target), audio_args(kinds_view(audio_sources@))) {
            (None, _) => r matches Err(CaptureError::Unsupported { capability }) && capability@ == "backend-owned capture target"@,
            (Some(_), Err(x)) => r matches Err(CaptureError::AudioSource(e)) && gsr_error_matches(e, x),
            (Some(t), Ok(audio)) => r matches Ok(v) && strings_view(v@) == replay_base_args(t, *gsr, replay_buffer_secs, save_directory@)
                + portal_args(restore_portal_session, match portal_token_path {
                Some(p) => Some(p@),
                None => None,
            }) + audio,
        },
{
    let target_text = match gsr_capture_target_arg(target) {
        Ok(t) => t,
        Err(e) => return Err(e),
    };
    let mut args: Vec<String> = Vec::new();
    args.push(owned("-w"));
    args.push(target_text);
    args.push(owned("-f"));
    args.push(crate::text::decimal_string(gsr.framerate as u64));
    args.push(owned("-c"));
    args.push(owned(gsr.container.as_str()));
    args.push(owned("-bm"));
    args.push(owned("cbr"));
    args.push(owned("-q"));
    args.push(owned(gsr.quality.as_str()));
    args.push(owned("-k"));
    args.push(owned(gsr.codec.as_str()));
    args.push(owned("-r"));
    args.push(crate::text::decimal_string(replay_buffer_secs as u64));
    args.push(owned("-o"));
    args.push(owned(save_directory));
    let ghost base = strings_view(args@);
    assert(base =~= replay_base_args(target_arg(*target)->0, *gsr, replay_buffer_secs, save_directory@));
    if restore_portal_session {
        args.push(owned("-restore-portal-session"));
        args.push(owned("yes"));
        match portal_token_path {
            Some(p) => {
                args.push(owned("-portal-session-token-filepath"));
                args.push(owned(p));
            },
            None => {},
        }
    }
    let ghost with_portal = strings_view(args@);
    assert(with_portal =~= base + portal_args(restore_portal_session, match portal_token_path {
        Some(p) => Some(p@),
        None => None,
    }));
    let ghost kinds = kinds_view(audio_sources@);
    proof {
        lemma_kinds_view_len(audio_sources@);
        assert(audio_sources@.take(0) =~= seq![]);
    }
    let mut i: usize = 0;
    while i < audio_sources.len()
        invariant
            i <= audio_sources@.len(),
            kinds == kinds_view(audio_sources@),
            kinds.len() == audio_sources@.len(),
            audio_args(kinds.take(i as int)) matches Ok(a) && strings_view(args@) == with_portal + a,
            target_arg(*target) is Some,
            with_portal == replay_base_args(target_arg(*target)->0, *gsr, replay_buffer_secs, save_directory@)
                + portal_args(restore_portal_session, match portal_token_path {
                Some(p) => Some(p@),
                None => None,
            }),
        decreases audio_sources.len() - i,
    {
        proof {
            lemma_kinds_view_index(audio_sources@, i as int);
            assert(kinds.take(i + 1).drop_last() =~= kinds.take(i as int));
            assert(kinds.take(i + 1).last() == kinds[i as int]);
        }
        let ghost before = strings_view(args@);
        match translate_kind_to_gsr(&audio_sources[i], "gsr") {
            Ok(a) => {
                args.push(owned("-a"));
                args.push(a);
                assert(strings_view(args@) =~= before + seq!["-a"@, args@[args@.len() - 1]@]);
            },
            Err(e) => {
                proof {
                    assert(audio_sources@[i as int]@ == kinds[i as int]);
                    let x = gsr_arg(kinds[i as int], "gsr"@)->Err_0;
                    assert(gsr_arg(kinds[i as int], "gsr"@) == Err::<Seq<char>, GsrArgError>(x));
                    assert(audio_args(kinds.take(i + 1)) == Err::<Seq<Seq<char>>, GsrArgError>(x));
                    lemma_audio_args_error_stays(kinds, i as int + 1);
                    assert(gsr_error_matches(e, x));
                }
                return Err(CaptureError::AudioSource(e));
            },
        }
        i = i + 1;
    }
    assert(kinds.take(i as int) =~= kinds);
    Ok(args)
}

/// Once the audio arguments of a prefix fail, those of the whole sequence
/// fail with the same error.
proof fn lemma_audio_args_error_stays(kinds: Seq<KindView>, n: int)
    requires
        0 <= n <= kinds.len(),
        audio_args(kinds.take(n)) is Err,
    ensures
        audio_args(kinds) == audio_args(kinds.take(n)),
    decreases kinds.len() - n,
{
    if n < kinds.len() {
        assert(kinds.take(n + 1).drop_last() =~= kinds.take(n));
        lemma_audio_args_error_stays(kinds, n + 1);
    } else {
        assert(kinds.take(n) =~= kinds);
    }
}

/// Whether saved clips should be checked for the size of a portal capture:
/// a portal target under Wayland.
pub fn should_probe_saved_clip_resolution(plan: &CaptureSourcePlan) -> (r: bool)
    ensures
        r == (plan.target is WaylandPortal && plan.display_server == Some(DisplayServer::Wayland)),
{
    let portal = match plan.target {
        CaptureTarget::WaylandPortal => true,
        _ => false,
    };
    portal && match plan.display_server {
        Some(DisplayServer::Wayland) => true,
        _ => false,
    }
}

/// A clip smaller than 1280x720 from a portal capture means the portal
/// captured the launcher window: the capture target must be chosen again.
pub fn post_save_recovery_hint(plan: &CaptureSourcePlan, video_resolution: Option<(u32, u32)>) -> (r: RecoveryHint)
    ensures
        r == (match video_resolution {
            Some((w, h)) => if plan.target is WaylandPortal && plan.display_server == Some(DisplayServer::Wayland) && (w < 1280 || h < 720) {
                RecoveryHint::ReacquireCaptureTarget
            } else {
                RecoveryHint::NoRecovery
            },
            None => RecoveryHint::NoRecovery,
        }),
{
    match video_resolution {
        None => RecoveryHint::NoRecovery,
        Some((w, h)) => {
            if should_probe_saved_clip_resolution(plan) && (w < 1280 || h < 720) {
                RecoveryHint::ReacquireCaptureTarget
            } else {
                RecoveryHint::NoRecovery
            }
        },
    }
}

/// The save presets of the recorder: real-time signal offset and seconds.
pub open spec fn presets() -> Seq<(i32, u32)> {
    seq![(1i32, 10u32), (2i32, 30u32), (3i32, 60u32), (4i32, 300u32), (5i32, 600u32), (6i32, 1800u32)]
}

/// The shortest preset that keeps at least `wanted` seconds: its real-time
/// signal offset and its length; `None` and 1800 when none is long enough,
/// which means the full buffer is saved.
pub open spec fn ceiling_preset(wanted: u32) -> (Option<i32>, u32) {
    if wanted <= 10 {
        (Some(1), 10)
    } else if wanted <= 30 {
        (Some(2), 30)
    } else if wanted <= 60 {
        (Some(3), 60)
    } else if wanted <= 300 {
        (Some(4), 300)
    } else if wanted <= 600 {
        (Some(5), 600)
    } else if wanted <= 1800 {
        (Some(6), 1800)
    } else {
        (None, 1800)
    }
}

pub fn nearest_ceiling_preset(wanted_secs: u32) -> (r: (Option<i32>, u32))
    ensures
        r == ceiling_preset(wanted_secs),
        r.0 is Some ==> r.1 >= wanted_secs,
{
    if wanted_secs <= 10 {
        (Some(1), 10)
    } else if wanted_secs <= 30 {
        (Some(2), 30)
    } else if wanted_secs <= 60 {
        (Some(3), 60)
    } else if wanted_secs <= 300 {
        (Some(4), 300)
    } else if wanted_secs <= 600 {
        (Some(5), 600)
    } else if wanted_secs <= 1800 {
        (Some(6), 1800)
    } else {
        (None, 1800)
    }
}

/// A preset is the shortest one long enough.
pub proof fn lemma_ceiling_preset_is_shortest(wanted: u32, i: int)
    requires
        0 <= i < presets().len(),
        presets()[i].1 >= wanted,
    ensures
        ceiling_preset(wanted).1 <= presets()[i].1,
        ceiling_preset(wanted).0 is Some,
{
}

/// The signal that saves a clip: `SIGUSR1` for the full buffer, else a
/// real-time signal at an offset from `SIGRTMIN`.
#[derive(Debug, Clone, Copy, PartialEq, Eq, Structural)]
pub enum SaveSignal {
    FullBuffer,
    Realtime(i32),
}

/// Where a recorder session is with saves.
#[derive(Debug)]
pub struct GsrSaveState {
    pub save_in_flight: bool,
    pub pending_save_length: Option<ClipLength>,
}

/// What a line of the recorder's output means.
#[derive(Debug)]
pub enum GsrLineOutcome {
    /// Nothing for the app: a blank line, or output while no save waits.
    Ignored,
    /// The recorder reported an error; the waiting save, if any, is over.
    SaveFailed(String),
    /// The save that waited wrote the clip at `raw_path`.
    Saved { raw_path: String, duration: ClipLength },
}

impl GsrSaveState {
    pub fn new() -> (r: Self)
        ensures
            !r.save_in_flight && r.pending_save_length is None,
    {
        GsrSaveState { save_in_flight: false, pending_save_length: None }
    }

    /// The signal for a save of `length`, refused while a save waits or the
    /// recorder is not running.
    pub fn save_signal(&self, running: bool, length: ClipLength) -> (r: Result<SaveSignal, CaptureError>)
        ensures
            self.save_in_flight ==> r matches Err(CaptureError::SaveInFlight),
            !self.save_in_flight && !running ==> r matches Err(CaptureError::NotRunning),
            !self.save_in_flight && running ==> (r matches Ok(s) && s == (match length {
                ClipLength::FullBuffer => SaveSignal::FullBuffer,
                ClipLength::Seconds(w) => match ceiling_preset(w).0 {
                    Some(o) => SaveSignal::Realtime(o),
                    None => SaveSignal::FullBuffer,
                },
            })),
    {
        if self.save_in_flight {
            return Err(CaptureError::SaveInFlight);
        }
        if !running {
            return Err(CaptureError::NotRunning);
        }
        match length {
            ClipLength::FullBuffer => Ok(SaveSignal::FullBuffer),
            ClipLength::Seconds(w) => match nearest_ceiling_preset(w).0 {
                Some(o) => Ok(SaveSignal::Realtime(o)),
                None => Ok(SaveSignal::FullBuffer),
            },
        }
    }

    /// Records that the save signal for `length` was sent.
    pub fn save_sent(&mut self, length: ClipLength)
        ensures
            final(self).save_in_flight,
            final(self).pending_save_length == Some(length),
    {
        self.save_in_flight = true;
        self.pending_save_length = Some(length);
    }

    /// Reads one line of the recorder's output: an error line ends the
    /// waiting save; while a save waits, any other line is the path of the
    /// saved clip.
    pub fn poll_line(&mut self, line: &str) -> (r: GsrLineOutcome)
        ensures
            trim(line@).len() == 0 ==> r is Ignored && *final(self) == *old(self),
            trim(line@).len() != 0 && is_prefix("gsr error:"@, trim(line@)) ==> (r matches GsrLineOutcome::SaveFailed(m) && m@ == trim(line@)
                && !final(self).save_in_flight && final(self).pending_save_length is None),
            trim(line@).len() != 0 && !is_prefix("gsr error:"@, trim(line@)) && !old(self).save_in_flight ==> r is Ignored && *final(self) == *old(self),
            trim(line@).len() != 0 && !is_prefix("gsr error:"@, trim(line@)) && old(self).save_in_flight ==> (r matches GsrLineOutcome::Saved { raw_path, duration }
                && raw_path@ == trim(line@) && duration == (match old(self).pending_save_length {
                    Some(l) => l,
                    None => ClipLength::FullBuffer,
                }) && !final(self).save_in_flight && final(self).pending_save_length is None),
    {
        let t = trim_str(line);
        if t.as_str().is_empty() {
            return GsrLineOutcome::Ignored;
        }
        let tv = chars_of(t.as_str());
        let pv = chars_of("gsr error:");
        if crate::text::chars_starts_with(&tv, &pv) {
            self.save_in_flight = false;
            self.pending_save_length = None;
            return GsrLineOutcome::SaveFailed(t);
        }
        if !self.save_in_flight {
            return GsrLineOutcome::Ignored;
        }
        self.save_in_flight = false;
        let duration = match self.pending_save_length {
            Some(l) => l,
            None => ClipLength::FullBuffer,
        };
        self.pending_save_length = None;
        GsrLineOutcome::Saved { raw_path: t, duration }
    }

    /// The recorder stopped: nothing waits any more.
    pub fn stopped(&mut self)
        ensures
            !final(self).save_in_flight,
            final(self).pending_save_length is None,
    {
        self.save_in_flight = false;
        self.pending_save_length = None;
    }
}

/// The complete lines at the front of a buffer (each without the `\r`s it
/// ends with) and what is left after the last `\n`.
pub open spec fn buffered_lines(b: Seq<char>) -> (Seq<Seq<char>>, Seq<char>) {
    let ps = split_on(b, '\n');
    (ps.drop_last().map_values(|p: Seq<char>| crate::text::strip_end_char(p, '\r')), ps.last())
}

/// Takes the complete lines out of `buffer`, leaving the unfinished one.
pub fn take_lines(buffer: &mut String) -> (r: Vec<String>)
    ensures
        strings_view(r@) == buffered_lines(old(buffer)@).0,
        final(buffer)@ == buffered_lines(old(buffer)@).1,
{
    let v = chars_of(buffer.as_str());
    let ghost b = v@;
    let mut out: Vec<String> = Vec::new();
    let mut start: usize = 0;
    let mut j: usize = 0;
    assert(v@.skip(0) =~= v@);
    proof {
        lemma_split_on_nonempty(v@, '\n');
    }
    while j < v.len()
        invariant
            start <= j <= v.len(),
            b == v@,
            forall|k: int| start <= k < j ==> v@[k] != '\n',
            split_on(b, '\n').len() >= 1,
            ({
                let ps = split_on(v@.skip(start as int), '\n');
                &&& ps.len() >= 1
                &&& buffered_lines(b).0 == strings_view(out@) + ps.drop_last().map_values(|p: Seq<char>| crate::text::strip_end_char(p, '\r'))
                &&& buffered_lines(b).1 == ps.last()
            }),
        decreases v.len() - j,
    {
        if v[j] == '\n' {
            let ghost rest = v@.skip(start as int);
            proof {
                assert(rest[j - start] == '\n');
                assert forall|k: int| 0 <= k < j - start implies rest[k] != '\n' by {
                    assert(rest[k] == v@[start + k]);
                }
                lemma_first_index_of(rest, '\n', j - start);
                assert(rest.take(j - start) =~= v@.subrange(start as int, j as int));
                assert(rest.skip(j - start + 1) =~= v@.skip(j + 1));
                lemma_split_on_nonempty(v@.skip(j + 1), '\n');
                let ps = split_on(rest, '\n');
                let tail = split_on(v@.skip(j + 1), '\n');
                assert(ps == seq![rest.take(j - start)] + tail);
                assert(ps.drop_last() =~= seq![rest.take(j - start)] + tail.drop_last());
                assert(ps.last() == tail.last());
            }
            let raw = sub_chars(&v, start, j);
            let piece = crate::text::strip_end_char_chars(&raw, '\r');
            let ghost before = strings_view(out@);
            out.push(string_of(&piece));
            proof {
                let ps = split_on(rest, '\n');
                let tail = split_on(v@.skip(j + 1), '\n');
                assert(strings_view(out@) =~= before.push(piece@));
                assert((seq![raw@] + tail.drop_last()).map_values(|p: Seq<char>| crate::text::strip_end_char(p, '\r'))
                    =~= seq![piece@] + tail.drop_last().map_values(|p: Seq<char>| crate::text::strip_end_char(p, '\r')));
                assert(before + (seq![piece@] + tail.drop_last().map_values(|p: Seq<char>| crate::text::strip_end_char(p, '\r')))
                    =~= strings_view(out@) + tail.drop_last().map_values(|p: Seq<char>| crate::text::strip_end_char(p, '\r')));
            }
            start = j + 1;
        }
        j = j + 1;
    }
    let ghost rest = v@.skip(start as int);
    proof {
        assert forall|k: int| 0 <= k < rest.len() implies rest[k] != '\n' by {
            assert(rest[k] == v@[start + k]);
        }
        lemma_first_index_of_none(rest, '\n');
        let ps = split_on(rest, '\n');
        assert(ps == seq![rest]);
        assert(ps.drop_last() =~= Seq::<Seq<char>>::empty());
        assert(strings_view(out@) + Seq::<Seq<char>>::empty() =~= strings_view(out@));
    }
    let left = sub_chars(&v, start, v.len());
    assert(left@ =~= rest);
    *buffer = string_of(&left);
    out
}

/// Where a clip that the recorder reports at `raw_path` is: under the home
/// directory for `~/`, as given when absolute, else inside the save
/// directory.
pub open spec fn saved_path(raw: Seq<char>, save_directory: Seq<char>, home: Option<Seq<char>>) -> Seq<char> {
    let t = trim(raw);
    if is_prefix("~/"@, t) && home is Some {
        join_path(home->0, t.skip(2))
    } else if t.len() > 0 && t[0] == '/' {
        t
    } else {
        join_path(save_directory, t)
    }
}

/// `base` joined with `p` as a Unix path: `p` itself when absolute.
pub open spec fn join_path(base: Seq<char>, p: Seq<char>) -> Seq<char> {
    if p.len() > 0 && p[0] == '/' {
        p
    } else if base.len() == 0 || base.last() == '/' {
        base + p
    } else {
        base + "/"@ + p
    }
}

pub fn join_unix_path(base: &str, p: &str) -> (r: String)
    ensures
        r@ == join_path(base@, p@),
{
    let pv = chars_of(p);
    let bv = chars_of(base);
    if pv.len() > 0 && pv[0] == '/' {
        return owned(p);
    }
    let mut r = owned(base);
    if !(bv.len() == 0 || bv[bv.len() - 1] == '/') {
        r.push_str("/");
    }
    r.push_str(p);
    r
}

/// Where a saved clip is, the home directory being `home`.
pub fn resolve_saved_path_with_home(raw_path: &str, save_directory: &str, home: Option<&str>) -> (r: String)
    ensures
        r@ == saved_path(raw_path@, save_directory@, match home {
            Some(h) => Some(h@),
            None => None,
        }),
{
    let t = trim_str(raw_path);
    let tv = chars_of(t.as_str());
    proof {
        reveal_strlit("~/");
    }
    let tilde = crate::text::strip_prefix(&tv, "~/");
    match (tilde, home) {
        (Some(rest), Some(h)) => {
            let rs = string_of(&rest);
            join_unix_path(h, rs.as_str())
        },
        _ => {
            if tv.len() > 0 && tv[0] == '/' {
                t
            } else {
                join_unix_path(save_directory, t.as_str())
            }
        },
    }
}

/// Where a saved clip is; whatever the home directory turns out to be, the
/// result is `resolve_saved_path_with_home` with it.
pub fn resolve_saved_path(raw_path: &str, save_directory: &str) -> (r: String)
    ensures
        exists|home: Option<Seq<char>>| r@ == #[trigger] saved_path(raw_path@, save_directory@, home),
{
    let home = match user_dirs() {
        Some(d) => Some(home_dir(&d)),
        None => None,
    };
    match home {
        Some(h) => resolve_saved_path_with_home(raw_path, save_directory, Some(h.as_str())),
        None => resolve_saved_path_with_home(raw_path, save_directory, None),
    }
}

/// The preset chosen for a clip is an entry of the preset table, its signal
/// offset and its length taken together: the shortest entry that keeps at
/// least the seconds asked for. When no entry is long enough, none is
/// chosen and the full buffer (1800 seconds) is saved.
pub proof fn lemma_ceiling_preset_is_a_table_entry(wanted: u32)
    ensures
        ceiling_preset(wanted).0 matches Some(o) ==> exists|i: int|
            0 <= i < presets().len() && #[trigger] presets()[i] == (o, ceiling_preset(wanted).1) && presets()[i].1
                >= wanted && forall|j: int| 0 <= j < presets().len() && presets()[j].1 >= wanted ==> presets()[i].1
                <= #[trigger] presets()[j].1,
        ceiling_preset(wanted).0 is None ==> ceiling_preset(wanted).1 == 1800 && forall|j: int|
            0 <= j < presets().len() ==> #[trigger] presets()[j].1 < wanted,
{
    let p = presets();
    assert(p[0] == (1i32, 10u32));
    assert(p[1] == (2i32, 30u32));
    assert(p[2] == (3i32, 60u32));
    assert(p[3] == (4i32, 300u32));
    assert(p[4] == (5i32, 600u32));
    assert(p[5] == (6i32, 1800u32));
    assert(p.len() == 6);
    if wanted <= 10 {
        assert(p[0] == (ceiling_preset(wanted).0->0, ceiling_preset(wanted).1));
    } else if wanted <= 30 {
        assert(p[1] == (ceiling_preset(wanted).0->0, ceiling_preset(wanted).1));
    } else if wanted <= 60 {
        assert(p[2] == (ceiling_preset(wanted).0->0, ceiling_preset(wanted).1));
    } else if wanted <= 300 {
        assert(p[3] == (ceiling_preset(wanted).0->0, ceiling_preset(wanted).1));
    } else if wanted <= 600 {
        assert(p[4] == (ceiling_preset(wanted).0->0, ceiling_preset(wanted).1));
    } else if wanted <= 1800 {
        assert(p[5] == (ceiling_preset(wanted).0->0, ceiling_preset(wanted).1));
    }
}

} // verus!
