//! Montages of several clips joined by ffmpeg's concat demuxer: which clips
//! can be joined, when their audio must first be brought to one mixed
//! track, which stream and codec that takes, and the files involved.
use vstd::prelude::*;
use crate::config::{opt_view, strings_view};
use crate::db::PostProcessStatus;
use crate::census_rows::{parse_int, parse_u32, parse_u32_str};
use crate::gsr::{lines_of, std_lines};
use crate::text::{is_prefix, lemma_split_on_nonempty, split_on, split_text, trim, lemma_text_lt_irrefl, lemma_text_lt_total, lemma_text_lt_trans, text_less, text_lt, chars_eq, chars_eq_str, chars_of, decimal, lower, lower_chars, owned, push_decimal, replace_char, str_eq, string_of};

verus! {

/// An audio track recorded for a clip: its stream and its role.
#[derive(Debug)]
pub struct MontageTrack {
    pub stream_index: i32,
    pub role: String,
}

/// A clip to put in a montage.
#[derive(Debug)]
pub struct MontageClip {
    pub clip_id: i64,
    pub path: String,
    pub post_process_status: PostProcessStatus,
    pub audio_tracks: Vec<MontageTrack>,
}

/// A finished montage.
#[derive(Debug)]
pub struct MontageResult {
    pub output_path: String,
    pub source_clip_ids: Vec<i64>,
    pub normalized_clip_count: usize,
}

/// What the file system and ffprobe say about a montage input.
#[derive(Debug)]
pub struct MontageInputFacts {
    pub path: String,
    pub exists: bool,
    /// The file's extension, empty when it has none.
    pub extension: String,
    /// ffprobe's description of the media, or why ffprobe refused it.
    pub probe: Result<String, String>,
}

pub open spec fn probe_view(p: Result<String, String>) -> Result<Seq<char>, Seq<char>> {
    match p {
        Ok(s) => Ok(s@),
        Err(e) => Err(e@),
    }
}

/// Why inputs cannot be joined: fewer than two; a missing file; a refused
/// probe; another extension (up to ASCII case) or other media than the
/// first clip's. The first problem in clip order is the one reported.
pub open spec fn concat_problem(inputs: Seq<(Seq<char>, bool, Seq<char>, Result<Seq<char>, Seq<char>>)>) -> Option<Seq<char>> {
    if inputs.len() < 2 {
        Some("Choose at least two clips for a montage."@)
    } else if !inputs[0].1 {
        Some("Clip does not exist: "@ + inputs[0].0)
    } else {
        match inputs[0].3 {
            Err(e) => Some(e),
            Ok(first_probe) => later_problem(inputs, 1, lower(inputs[0].2), first_probe),
        }
    }
}

pub open spec fn later_problem(inputs: Seq<(Seq<char>, bool, Seq<char>, Result<Seq<char>, Seq<char>>)>, i: int, first_ext: Seq<char>, first_probe: Seq<char>) -> Option<Seq<char>>
    decreases inputs.len() - i,
{
    if i >= inputs.len() || i < 1 {
        None
    } else {
        let (path, exists, ext, probe) = inputs[i];
        if !exists {
            Some("Clip does not exist: "@ + path)
        } else if lower(ext) != first_ext {
            Some("Clip "@ + path + " uses ."@ + lower(ext) + " but the montage started with ."@ + first_ext + "."@)
        } else {
            match probe {
                Err(e) => Some(e),
                Ok(p) => if p != first_probe {
                    Some("Clip "@ + path + " is not stream-copy compatible with the other montage inputs."@)
                } else {
                    later_problem(inputs, i + 1, first_ext, first_probe)
                },
            }
        }
    }
}

pub open spec fn facts_view(f: MontageInputFacts) -> (Seq<char>, bool, Seq<char>, Result<Seq<char>, Seq<char>>) {
    (f.path@, f.exists, f.extension@, probe_view(f.probe))
}

/// Whether the clips can be joined by stream copy.
pub fn validate_concat_inputs(inputs: &Vec<MontageInputFacts>) -> (r: Result<(), String>)
    ensures
        match (r, concat_problem(inputs@.map_values(|f: MontageInputFacts| facts_view(f)))) {
            (Ok(()), None) => true,
            (Err(m), Some(x)) => m@ == x,
            _ => false,
        },
{
    let ghost fv = inputs@.map_values(|f: MontageInputFacts| facts_view(f));
    if inputs.len() < 2 {
        return Err(owned("Choose at least two clips for a montage."));
    }
    assert(fv[0] == facts_view(inputs@[0]));
    if !inputs[0].exists {
        let mut m = owned("Clip does not exist: ");
        m.push_str(inputs[0].path.as_str());
        return Err(m);
    }
    let ev = chars_of(inputs[0].extension.as_str());
    let first_ext = lower_chars(&ev);
    let first_probe = match &inputs[0].probe {
        Err(e) => {
            return Err(owned(e.as_str()));
        },
        Ok(p) => chars_of(p.as_str()),
    };
    let mut i: usize = 1;
    while i < inputs.len()
        invariant
            1 <= i <= inputs.len(),
            fv == inputs@.map_values(|f: MontageInputFacts| facts_view(f)),
            concat_problem(fv) == later_problem(fv, i as int, first_ext@, first_probe@),
        decreases inputs.len() - i,
    {
        assert(fv[i as int] == facts_view(inputs@[i as int]));
        let f = &inputs[i];
        if !f.exists {
            let mut m = owned("Clip does not exist: ");
            m.push_str(f.path.as_str());
            return Err(m);
        }
        let xv = chars_of(f.extension.as_str());
        let ext = lower_chars(&xv);
        if !chars_eq(&ext, &first_ext) {
            let mut m = owned("Clip ");
            m.push_str(f.path.as_str());
            m.push_str(" uses .");
            let es = string_of(&ext);
            m.push_str(es.as_str());
            m.push_str(" but the montage started with .");
            let fs = string_of(&first_ext);
            m.push_str(fs.as_str());
            m.push_str(".");
            return Err(m);
        }
        match &f.probe {
            Err(e) => {
                return Err(owned(e.as_str()));
            },
            Ok(p) => {
                let pv = chars_of(p.as_str());
                if !chars_eq(&pv, &first_probe) {
                    let mut m = owned("Clip ");
                    m.push_str(f.path.as_str());
                    m.push_str(" is not stream-copy compatible with the other montage inputs.");
                    return Err(m);
                }
            },
        }
        i = i + 1;
    }
    Ok(())
}

/// An audio stream of a clip as ffprobe lists it.
#[derive(Debug)]
pub struct AudioStreamSignature {
    pub index: i32,
    pub codec: String,
    pub channels: u32,
}

pub open spec fn signature_view(s: AudioStreamSignature) -> (i32, Seq<char>, u32) {
    (s.index, s.codec@, s.channels)
}

pub open spec fn signatures_view(v: Seq<AudioStreamSignature>) -> Seq<(i32, Seq<char>, u32)> {
    v.map_values(|s: AudioStreamSignature| signature_view(s))
}

/// What `str::parse::<i32>` gives.
pub open spec fn parse_i32(s: Seq<char>) -> Option<i32> {
    match parse_int(s) {
        Some(n) => if i32::MIN <= n <= i32::MAX {
            Some(n as i32)
        } else {
            None
        },
        None => None,
    }
}

/// Reads `s` with `str::parse::<i32>`. Its documentation gives the accepted
/// form (an optional sign, then digits, within range), which the contract
/// states; the error's text, which the `Err` carries, is left unsaid.
#[verifier::external_body]
fn parse_i32_text(s: &str) -> (r: Result<i32, String>)
    ensures
        match r {
            Ok(n) => parse_i32(s@) == Some(n),
            Err(_) => parse_i32(s@) is None,
        },
{
    match s.parse::<i32>() {
        Ok(n) => Ok(n),
        Err(e) => Err(e.to_string()),
    }
}

/// Why a line of ffprobe's stream listing cannot be read.
pub enum ProbeFailure {
    BadIndex(Seq<char>),
    MissingCodec(Seq<char>),
}

/// A line of ffprobe's `index,codec,channels` listing: its stream (a
/// missing or unreadable channel count reads as zero), or why it cannot be
/// read.
pub open spec fn probe_line(line: Seq<char>) -> Result<(i32, Seq<char>, u32), ProbeFailure> {
    let parts = split_on(line, ',');
    match parse_i32(parts[0]) {
        None => Err(ProbeFailure::BadIndex(line)),
        Some(i) => if parts.len() < 2 {
            Err(ProbeFailure::MissingCodec(line))
        } else {
            Ok((i, parts[1], if parts.len() < 3 {
                0u32
            } else {
                match parse_u32(parts[2]) {
                    Some(c) => c,
                    None => 0u32,
                }
            }))
        },
    }
}

/// The streams of the non-blank lines of a listing, or the failure of the
/// first line that cannot be read.
pub open spec fn probe_streams(lines: Seq<Seq<char>>) -> Result<Seq<(i32, Seq<char>, u32)>, ProbeFailure>
    decreases lines.len(),
{
    if lines.len() == 0 {
        Ok(Seq::empty())
    } else if trim(lines[0]).len() == 0 {
        probe_streams(lines.drop_first())
    } else {
        match probe_line(lines[0]) {
            Err(f) => Err(f),
            Ok(s) => match probe_streams(lines.drop_first()) {
                Ok(rest) => Ok(seq![s] + rest),
                Err(f) => Err(f),
            },
        }
    }
}

/// What a stream listing gives once `done` streams are read ahead of it.
pub open spec fn after_read(done: Seq<(i32, Seq<char>, u32)>, rest: Result<Seq<(i32, Seq<char>, u32)>, ProbeFailure>) -> Result<Seq<(i32, Seq<char>, u32)>, ProbeFailure> {
    match rest {
        Ok(s) => Ok(done + s),
        Err(f) => Err(f),
    }
}

/// Reads the audio streams ffprobe lists one per line as
/// `index,codec,channels`; blank lines are skipped.
pub fn parse_audio_stream_probe(output: &str) -> (r: Result<Vec<AudioStreamSignature>, String>)
    ensures
        match (r, probe_streams(std_lines(output@))) {
            (Ok(v), Ok(s)) => signatures_view(v@) == s,
            (Err(m), Err(ProbeFailure::BadIndex(l))) => is_prefix("invalid audio stream index `"@ + l + "`: "@, m@),
            (Err(m), Err(ProbeFailure::MissingCodec(l))) => m@ == "missing audio codec in ffprobe output: "@ + l,
            _ => false,
        },
{
    let lines = lines_of(output);
    let ghost ls = std_lines(output@);
    let mut out: Vec<AudioStreamSignature> = Vec::new();
    let mut i: usize = 0;
    assert(ls.skip(0) =~= ls);
    assert(signatures_view(out@) =~= Seq::<(i32, Seq<char>, u32)>::empty());
    while i < lines.len()
        invariant
            i <= lines.len(),
            strings_view(lines@) == ls,
            ls == std_lines(output@),
            probe_streams(ls) == after_read(signatures_view(out@), probe_streams(ls.skip(i as int))),
        decreases lines.len() - i,
    {
        let line = lines[i].as_str();
        let ghost rest = ls.skip(i as int);
        proof {
            assert(rest[0] == line@);
            assert(rest.drop_first() =~= ls.skip(i + 1));
        }
        let blank = crate::text::is_blank(line);
        if !blank {
            let parts = split_text(line, ',');
            proof {
                lemma_split_on_nonempty(line@, ',');
                assert(parts@.map_values(|p: String| p@)[0] == parts@[0]@);
            }
            let index = match parse_i32_text(parts[0].as_str()) {
                Ok(n) => n,
                Err(e) => {
                    let mut m = owned("invalid audio stream index `");
                    m.push_str(line);
                    m.push_str("`: ");
                    let ghost head = m@;
                    m.push_str(e.as_str());
                    proof {
                        assert(m@.take(head.len() as int) =~= head);
                        assert(split_on(line@, ',')[0] == parts@[0]@);
                        assert(probe_line(line@) == Err::<(i32, Seq<char>, u32), ProbeFailure>(ProbeFailure::BadIndex(line@)));
                        assert(is_prefix("invalid audio stream index `"@ + line@ + "`: "@, m@));
                    }
                    return Err(m);
                },
            };
            if parts.len() < 2 {
                let mut m = owned("missing audio codec in ffprobe output: ");
                m.push_str(line);
                proof {
                    assert(split_on(line@, ',')[0] == parts@[0]@);
                    assert(probe_line(line@) == Err::<(i32, Seq<char>, u32), ProbeFailure>(ProbeFailure::MissingCodec(line@)));
                }
                return Err(m);
            }
            let codec = owned(parts[1].as_str());
            let channels: u32 = if parts.len() < 3 {
                0
            } else {
                match parse_u32_str(parts[2].as_str()) {
                    Some(c) => c,
                    None => 0,
                }
            };
            proof {
                assert(parts@.map_values(|p: String| p@)[1] == parts@[1]@);
                if parts.len() >= 3 {
                    assert(parts@.map_values(|p: String| p@)[2] == parts@[2]@);
                }
            }
            let ghost before = signatures_view(out@);
            out.push(AudioStreamSignature { index, codec, channels });
            proof {
                assert(signatures_view(out@) =~= before.push((index, codec@, channels)));
                let s = (index, codec@, channels);
                assert(probe_line(line@) == Ok::<(i32, Seq<char>, u32), ProbeFailure>(s));
                match probe_streams(ls.skip(i + 1)) {
                    Ok(tail) => {
                        assert(before + (seq![s] + tail) =~= before.push(s) + tail);
                    },
                    Err(_) => {},
                }
            }
        }
        i = i + 1;
    }
    proof {
        assert(ls.skip(lines.len() as int) =~= Seq::<Seq<char>>::empty());
        assert(signatures_view(out@) + Seq::<(i32, Seq<char>, u32)>::empty() =~= signatures_view(out@));
    }
    Ok(out)
}

/// The stream of a clip's first track with the role `mixed`.
pub open spec fn mixed_track(tracks: Seq<MontageTrack>) -> Option<i32>
    decreases tracks.len(),
{
    if tracks.len() == 0 {
        None
    } else if tracks[0].role@ == "mixed"@ {
        Some(tracks[0].stream_index)
    } else {
        mixed_track(tracks.drop_first())
    }
}

pub fn mixed_track_index(tracks: &Vec<MontageTrack>) -> (r: Option<i32>)
    ensures
        r == mixed_track(tracks@),
{
    let mut i: usize = 0;
    assert(tracks@.skip(0) =~= tracks@);
    while i < tracks.len()
        invariant
            i <= tracks.len(),
            mixed_track(tracks@) == mixed_track(tracks@.skip(i as int)),
        decreases tracks.len() - i,
    {
        proof {
            let s = tracks@.skip(i as int);
            assert(s[0] == tracks@[i as int]);
            assert(s.drop_first() =~= tracks@.skip(i + 1));
        }
        let rv = chars_of(tracks[i].role.as_str());
        if chars_eq_str(&rv, "mixed") {
            return Some(tracks[i].stream_index);
        }
        i = i + 1;
    }
    None
}

/// Whether the clips must be normalised before joining: two neighbouring
/// clips differ in their audio streams or in where their mixed track is.
pub open spec fn normalization_needed(signatures: Seq<Seq<(i32, Seq<char>, u32)>>, mixes: Seq<Option<i32>>) -> bool {
    (exists|i: int| 0 <= i && i + 1 < signatures.len() && #[trigger] signatures[i] != signatures[i + 1])
        || (exists|i: int| 0 <= i && i + 1 < mixes.len() && #[trigger] mixes[i] != mixes[i + 1])
}

fn same_signatures(a: &Vec<AudioStreamSignature>, b: &Vec<AudioStreamSignature>) -> (r: bool)
    ensures
        r == (signatures_view(a@) == signatures_view(b@)),
{
    if a.len() != b.len() {
        assert(signatures_view(a@).len() != signatures_view(b@).len());
        return false;
    }
    let mut i: usize = 0;
    while i < a.len()
        invariant
            i <= a.len() == b.len(),
            forall|k: int| 0 <= k < i ==> signature_view(a@[k]) == signature_view(b@[k]),
        decreases a.len() - i,
    {
        if a[i].index != b[i].index || a[i].channels != b[i].channels || !str_eq(a[i].codec.as_str(), b[i].codec.as_str()) {
            assert(signatures_view(a@)[i as int] != signatures_view(b@)[i as int]);
            return false;
        }
        i = i + 1;
    }
    assert(signatures_view(a@) =~= signatures_view(b@));
    true
}

pub fn needs_normalization(signatures: &Vec<Vec<AudioStreamSignature>>, mixes: &Vec<Option<i32>>) -> (r: bool)
    ensures
        r == normalization_needed(signatures@.map_values(|v: Vec<AudioStreamSignature>| signatures_view(v@)), mixes@),
{
    let ghost sv = signatures@.map_values(|v: Vec<AudioStreamSignature>| signatures_view(v@));
    let mut i: usize = 0;
    while signatures.len() > 0 && i < signatures.len() - 1
        invariant
            sv == signatures@.map_values(|v: Vec<AudioStreamSignature>| signatures_view(v@)),
            forall|k: int| 0 <= k < i && k + 1 < sv.len() ==> #[trigger] sv[k] == sv[k + 1],
        decreases signatures.len() - i,
    {
        if !same_signatures(&signatures[i], &signatures[i + 1]) {
            assert(sv[i as int] != sv[i + 1]);
            return true;
        }
        i = i + 1;
    }
    let mut j: usize = 0;
    while mixes.len() > 0 && j < mixes.len() - 1
        invariant
            forall|k: int| 0 <= k && k + 1 < sv.len() ==> #[trigger] sv[k] == sv[k + 1],
            forall|k: int| 0 <= k < j && k + 1 < mixes@.len() ==> #[trigger] mixes@[k] == mixes@[k + 1],
        decreases mixes.len() - j,
    {
        if mixes[j] != mixes[j + 1] {
            return true;
        }
        j = j + 1;
    }
    proof {
        assert forall|k: int| 0 <= k && k + 1 < sv.len() implies !(#[trigger] sv[k] != sv[k + 1]) by {}
        assert forall|k: int| 0 <= k && k + 1 < mixes@.len() implies !(#[trigger] mixes@[k] != mixes@[k + 1]) by {}
    }
    false
}

/// The stream a clip contributes when normalised: its mixed track when its
/// post-processing completed, else stream 0; stream 0 again when the
/// preferred one is missing.
pub open spec fn preferred_stream(clip: MontageClip) -> i32 {
    if clip.post_process_status == PostProcessStatus::Completed {
        match mixed_track(clip.audio_tracks@) {
            Some(i) => i,
            None => 0,
        }
    } else {
        0
    }
}

pub open spec fn find_stream(streams: Seq<(i32, Seq<char>, u32)>, index: i32) -> Option<(i32, Seq<char>, u32)>
    decreases streams.len(),
{
    if streams.len() == 0 {
        None
    } else if streams[0].0 == index {
        Some(streams[0])
    } else {
        find_stream(streams.drop_first(), index)
    }
}

fn find_stream_exec(streams: &Vec<AudioStreamSignature>, index: i32) -> (r: Option<usize>)
    ensures
        match (r, find_stream(signatures_view(streams@), index)) {
            (Some(k), Some(s)) => k < streams@.len() && signature_view(streams@[k as int]) == s,
            (None, None) => true,
            _ => false,
        },
{
    let ghost sv = signatures_view(streams@);
    let mut i: usize = 0;
    assert(sv.skip(0) =~= sv);
    while i < streams.len()
        invariant
            i <= streams.len(),
            sv == signatures_view(streams@),
            find_stream(sv, index) == find_stream(sv.skip(i as int), index),
        decreases streams.len() - i,
    {
        proof {
            let s = sv.skip(i as int);
            assert(s[0] == signature_view(streams@[i as int]));
            assert(s.drop_first() =~= sv.skip(i + 1));
        }
        if streams[i].index == index {
            return Some(i);
        }
        i = i + 1;
    }
    None
}

/// The stream and codec a clip contributes to a normalised montage.
pub fn select_montage_audio_stream(clip: &MontageClip, streams: &Vec<AudioStreamSignature>) -> (r: Result<(i32, String), String>)
    ensures
        match (find_stream(signatures_view(streams@), preferred_stream(*clip)), find_stream(signatures_view(streams@), 0)) {
            (Some(s), _) => r matches Ok((i, c)) && i == s.0 && c@ == s.1,
            (None, Some(s)) => r matches Ok((i, c)) && i == s.0 && c@ == s.1,
            (None, None) => r matches Err(m) && m@ == "clip "@ + clip.path@ + " does not contain an audio stream for montage."@,
        },
{
    let preferred = match clip.post_process_status {
        PostProcessStatus::Completed => match mixed_track_index(&clip.audio_tracks) {
            Some(i) => i,
            None => 0,
        },
        _ => 0,
    };
    let found = match find_stream_exec(streams, preferred) {
        Some(k) => Some(k),
        None => find_stream_exec(streams, 0),
    };
    match found {
        Some(k) => Ok((streams[k].index, owned(streams[k].codec.as_str()))),
        None => {
            let mut m = owned("clip ");
            m.push_str(clip.path.as_str());
            m.push_str(" does not contain an audio stream for montage.");
            Err(m)
        },
    }
}

/// How many of `codecs` are `c`.
pub open spec fn codec_count(codecs: Seq<Seq<char>>, c: Seq<char>) -> nat
    decreases codecs.len(),
{
    if codecs.len() == 0 {
        0
    } else {
        codec_count(codecs.drop_last(), c) + (if codecs.last() == c {
            1nat
        } else {
            0nat
        })
    }
}

/// The codec most clips use: `aac` when it is among the most used, else the
/// first of the most used in text order; none for no clips.
pub open spec fn is_dominant(codecs: Seq<Seq<char>>, d: Seq<char>) -> bool {
    let m = codec_count(codecs, d);
    &&& codecs.contains(d)
    &&& forall|c: Seq<char>| codecs.contains(c) ==> codec_count(codecs, c) <= m
    &&& (codecs.contains("aac"@) && codec_count(codecs, "aac"@) == m ==> d == "aac"@)
    &&& (!(codecs.contains("aac"@) && codec_count(codecs, "aac"@) == m) ==> forall|c: Seq<char>|
        codecs.contains(c) && codec_count(codecs, c) == m && c != d ==> text_lt(d, c))
}

fn count_codec(codecs: &Vec<String>, c: &Vec<char>) -> (r: usize)
    ensures
        r == codec_count(strings_view(codecs@), c@),
        r <= codecs@.len(),
{
    let ghost cv = strings_view(codecs@);
    let mut n: usize = 0;
    let mut i: usize = 0;
    while i < codecs.len()
        invariant
            i <= codecs.len(),
            cv == strings_view(codecs@),
            n == codec_count(cv.take(i as int), c@),
            n <= i,
        decreases codecs.len() - i,
    {
        let x = chars_of(codecs[i].as_str());
        proof {
            let t = cv.take(i + 1);
            assert(t.drop_last() =~= cv.take(i as int));
            assert(t.last() == codecs@[i as int]@);
        }
        if chars_eq(&x, c) {
            n = n + 1;
        }
        i = i + 1;
    }
    assert(cv.take(codecs.len() as int) =~= cv);
    n
}

proof fn lemma_count_contains(s: Seq<Seq<char>>, c: Seq<char>)
    ensures
        codec_count(s, c) > 0 <==> s.contains(c),
    decreases s.len(),
{
    if s.len() > 0 {
        lemma_count_contains(s.drop_last(), c);
        if s.drop_last().contains(c) {
            let k = choose|k: int| 0 <= k < s.drop_last().len() && s.drop_last()[k] == c;
            assert(s[k] == c);
        }
        if s.contains(c) && s.last() != c {
            let k = choose|k: int| 0 <= k < s.len() && s[k] == c;
            assert(k != s.len() - 1);
            assert(s.drop_last()[k] == c);
        }
        if s.last() == c {
            assert(s[s.len() - 1] == c);
        }
    }
}

/// The codec a normalised montage uses.
pub fn dominant_audio_codec(codecs: &Vec<String>) -> (r: Option<String>)
    ensures
        codecs@.len() == 0 <==> r is None,
        r matches Some(d) ==> is_dominant(strings_view(codecs@), d@),
{
    let ghost cv = strings_view(codecs@);
    if codecs.len() == 0 {
        return None;
    }
    let mut best = chars_of(codecs[0].as_str());
    let mut best_count = count_codec(codecs, &best);
    assert(cv[0] == best@);
    let mut i: usize = 1;
    while i < codecs.len()
        invariant
            1 <= i <= codecs.len(),
            cv == strings_view(codecs@),
            cv.len() == codecs@.len(),
            best_count == codec_count(cv, best@),
            exists|k: int| 0 <= k < i && cv[k] == best@,
            forall|k: int| 0 <= k < i ==> codec_count(cv, #[trigger] cv[k]) <= best_count,
            forall|k: int| 0 <= k < i && codec_count(cv, #[trigger] cv[k]) == best_count && cv[k] != best@ ==> text_lt(best@, cv[k]),
        decreases codecs.len() - i,
    {
        let c = chars_of(codecs[i].as_str());
        assert(cv[i as int] == c@);
        let n = count_codec(codecs, &c);
        if n > best_count || (n == best_count && text_less(&c, &best)) {
            proof {
                assert forall|k: int| 0 <= k < i + 1 && codec_count(cv, #[trigger] cv[k]) == n && cv[k] != c@ implies text_lt(c@, cv[k]) by {
                    if k < i {
                        if n == best_count {
                            if cv[k] != best@ {
                                lemma_text_lt_trans(c@, best@, cv[k]);
                            }
                        }
                    }
                }
            }
            best = c;
            best_count = n;
        } else {
            proof {
                if n == best_count && c@ != best@ {
                    lemma_text_lt_total(c@, best@);
                }
            }
        }
        i = i + 1;
    }
    let aac = chars_of("aac");
    let aac_count = count_codec(codecs, &aac);
    proof {
        lemma_count_contains(cv, aac@);
        lemma_count_contains(cv, best@);
        lemma_text_lt_irrefl(best@);
        assert forall|c: Seq<char>| cv.contains(c) implies codec_count(cv, c) <= best_count by {
            let k = choose|k: int| 0 <= k < cv.len() && cv[k] == c;
            assert(codec_count(cv, cv[k]) <= best_count);
        }
    }
    if aac_count > 0 && aac_count == best_count {
        proof {
            let k = choose|k: int| 0 <= k < cv.len() && cv[k] == aac@;
            assert(cv.contains(aac@));
        }
        return Some(owned("aac"));
    }
    let r = string_of(&best);
    proof {
        assert forall|c: Seq<char>| cv.contains(c) && codec_count(cv, c) == best_count && c != best@ implies text_lt(best@, c) by {
            let k = choose|k: int| 0 <= k < cv.len() && cv[k] == c;
            assert(codec_count(cv, cv[k]) == best_count);
        }
        let k = choose|k: int| 0 <= k < codecs@.len() && cv[k] == best@;
        assert(cv.contains(best@));
    }
    Some(r)
}

/// ffmpeg's audio arguments for a normalised clip: re-encoded to the
/// dominant codec when it differs from the clip's (at 192k for AAC and
/// Opus), else copied.
pub fn normalization_audio_args(dominant_codec: Option<&str>, clip_codec: &str) -> (r: Vec<String>)
    ensures
        match dominant_codec {
            Some(d) => if d@ != clip_codec@ {
                if d@ == "aac"@ || d@ == "libopus"@ || d@ == "opus"@ {
                    strings_view(r@) == seq!["-c:a"@, d@, "-b:a"@, "192k"@]
                } else {
                    strings_view(r@) == seq!["-c:a"@, d@]
                }
            } else {
                strings_view(r@) == seq!["-c:a"@, "copy"@]
            },
            None => strings_view(r@) == seq!["-c:a"@, "copy"@],
        },
{
    let mut r: Vec<String> = Vec::new();
    match dominant_codec {
        Some(d) => {
            if !str_eq(d, clip_codec) {
                r.push(owned("-c:a"));
                r.push(owned(d));
                let dv = chars_of(d);
                if chars_eq_str(&dv, "aac") || chars_eq_str(&dv, "libopus") || chars_eq_str(&dv, "opus") {
                    r.push(owned("-b:a"));
                    r.push(owned("192k"));
                    assert(strings_view(r@) =~= seq!["-c:a"@, d@, "-b:a"@, "192k"@]);
                } else {
                    assert(strings_view(r@) =~= seq!["-c:a"@, d@]);
                }
                return r;
            }
        },
        None => {},
    }
    r.push(owned("-c:a"));
    r.push(owned("copy"));
    assert(strings_view(r@) =~= seq!["-c:a"@, "copy"@]);
    r
}

/// A path written into an ffmpeg concat list: each `'` becomes `'\''`.
pub fn escape_concat_path(path: &str) -> (r: String)
    ensures
        r@ == replace_char(path@, '\'', "'\\''"@),
{
    let v = chars_of(path);
    let mut out = String::new();
    let mut i: usize = 0;
    while i < v.len()
        invariant
            i <= v.len(),
            out@ == replace_char(v@.take(i as int), '\'', "'\\''"@),
        decreases v.len() - i,
    {
        let ghost before = out@;
        if v[i] == '\'' {
            out.push_str("'\\''");
        } else {
            out.push(v[i]);
        }
        proof {
            let t = v@.take(i + 1);
            assert(t.drop_last() =~= v@.take(i as int));
            assert(t.last() == v@[i as int]);
            assert(out@ =~= replace_char(t, '\'', "'\\''"@));
        }
        i = i + 1;
    }
    assert(v@.take(v.len() as int) =~= v@);
    out
}

/// The line of a concat list for a clip.
pub fn concat_list_line(path: &str) -> (r: String)
    ensures
        r@ == "file '"@ + replace_char(path@, '\'', "'\\''"@) + "'\n"@,
{
    let mut r = owned("file '");
    let e = escape_concat_path(path);
    r.push_str(e.as_str());
    r.push_str("'\n");
    r
}

/// The file name of a montage output: `stem.extension`, or with `-N` before
/// the extension for the N-th candidate.
pub fn montage_output_name(stem: &str, extension: &str, index: Option<u64>) -> (r: String)
    ensures
        r@ == stem@ + (match index {
            Some(n) => "-"@ + decimal(n as nat),
            None => Seq::<char>::empty(),
        }) + "."@ + extension@,
{
    let mut r = owned(stem);
    match index {
        Some(n) => {
            r.push_str("-");
            push_decimal(&mut r, n);
        },
        None => {},
    }
    r.push_str(".");
    r.push_str(extension);
    r
}

/// Whether the inputs can be joined by stream copy: at least two, every
/// one exists, has the first one's extension up to ASCII case, and was
/// probed with the same media description as the first.
pub open spec fn joinable(inputs: Seq<(Seq<char>, bool, Seq<char>, Result<Seq<char>, Seq<char>>)>) -> bool {
    &&& inputs.len() >= 2
    &&& inputs[0].3 is Ok
    &&& forall|i: int|
        0 <= i < inputs.len() ==> {
            &&& (#[trigger] inputs[i]).1
            &&& lower(inputs[i].2) == lower(inputs[0].2)
            &&& inputs[i].3 == inputs[0].3
        }
}

proof fn lemma_later_problem(
    inputs: Seq<(Seq<char>, bool, Seq<char>, Result<Seq<char>, Seq<char>>)>,
    i: int,
    first_ext: Seq<char>,
    first_probe: Seq<char>,
)
    requires
        1 <= i <= inputs.len(),
    ensures
        later_problem(inputs, i, first_ext, first_probe) is None <==> forall|j: int|
            i <= j < inputs.len() ==> {
                &&& (#[trigger] inputs[j]).1
                &&& lower(inputs[j].2) == first_ext
                &&& inputs[j].3 == Ok::<Seq<char>, Seq<char>>(first_probe)
            },
    decreases inputs.len() - i,
{
    if i < inputs.len() {
        lemma_later_problem(inputs, i + 1, first_ext, first_probe);
    }
}

/// Inputs are accepted for a montage exactly when they can be joined by
/// stream copy: at least two clips, each existing, with the first clip's
/// extension (up to ASCII case) and the first clip's probe.
pub proof fn lemma_concat_inputs_accepted_when_joinable(inputs: Seq<(Seq<char>, bool, Seq<char>, Result<Seq<char>, Seq<char>>)>)
    ensures
        concat_problem(inputs) is None <==> joinable(inputs),
{
    if inputs.len() >= 2 && inputs[0].1 {
        if let Ok(p) = inputs[0].3 {
            lemma_later_problem(inputs, 1, lower(inputs[0].2), p);
            if joinable(inputs) {
                assert forall|j: int| 1 <= j < inputs.len() implies {
                    &&& (#[trigger] inputs[j]).1
                    &&& lower(inputs[j].2) == lower(inputs[0].2)
                    &&& inputs[j].3 == Ok::<Seq<char>, Seq<char>>(p)
                } by {
                    assert(inputs[j].1);
                }
            }
            if concat_problem(inputs) is None {
                assert forall|i: int| 0 <= i < inputs.len() implies {
                    &&& (#[trigger] inputs[i]).1
                    &&& lower(inputs[i].2) == lower(inputs[0].2)
                    &&& inputs[i].3 == inputs[0].3
                } by {
                    if i >= 1 {
                        assert(inputs[i].1);
                    }
                }
            }
        } else {
            assert(!joinable(inputs));
        }
    } else if inputs.len() >= 2 {
        assert(!(inputs[0].1));
        assert(!joinable(inputs));
    }
}

} // verus!
