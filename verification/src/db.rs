//! The clip database's own rules: the names its enumerations are stored
//! under, how an existing database's schema is matched against the known
//! migrations and the migration history repaired, how background jobs left
//! running are recovered, CSV rows, backup names and export destinations.
use vstd::prelude::*;
use crate::census::{to_lowercase, unicode_lowercase};
use crate::jobs::BackgroundJobState;
use crate::config::{opt_view, strings_view};
use crate::text::{chars_eq_str, chars_of, decimal, owned, push_decimal, replace_char, str_eq, text_less, text_lt, trim, trim_str};
use crate::census_rows::{lemma_insert_position, stable_sorted};

verus! {

/// What a cached name belongs to.
#[derive(Debug, Clone, Copy, PartialEq, Eq, Structural)]
pub enum LookupKind {
    Facility,
    Vehicle,
    Zone,
    Character,
    Outfit,
    Weapon,
}

impl LookupKind {
    pub fn as_str(self) -> (r: &'static str)
        ensures
            r@ == (match self {
                LookupKind::Facility => "facility"@,
                LookupKind::Vehicle => "vehicle"@,
                LookupKind::Zone => "zone"@,
                LookupKind::Character => "character"@,
                LookupKind::Outfit => "outfit"@,
                LookupKind::Weapon => "weapon"@,
            }),
    {
        match self {
            LookupKind::Facility => "facility",
            LookupKind::Vehicle => "vehicle",
            LookupKind::Zone => "zone",
            LookupKind::Character => "character",
            LookupKind::Outfit => "outfit",
            LookupKind::Weapon => "weapon",
        }
    }
}

/// How a clip came to be.
#[derive(Debug, Clone, Copy, PartialEq, Eq, Structural)]
pub enum ClipOrigin {
    Rule,
    Manual,
    Imported,
}

pub open spec fn origin_name(o: ClipOrigin) -> Seq<char> {
    match o {
        ClipOrigin::Rule => "rule"@,
        ClipOrigin::Manual => "manual"@,
        ClipOrigin::Imported => "imported"@,
    }
}

/// The origin a stored name stands for; anything unknown is a rule clip.
pub open spec fn origin_from_name(v: Seq<char>) -> ClipOrigin {
    if v == "manual"@ {
        ClipOrigin::Manual
    } else if v == "imported"@ {
        ClipOrigin::Imported
    } else {
        ClipOrigin::Rule
    }
}

impl ClipOrigin {
    pub fn as_str(self) -> (r: &'static str)
        ensures
            r@ == origin_name(self),
    {
        match self {
            ClipOrigin::Rule => "rule",
            ClipOrigin::Manual => "manual",
            ClipOrigin::Imported => "imported",
        }
    }

    pub fn from_db(value: &str) -> (r: Self)
        ensures
            r == origin_from_name(value@),
    {
        let v = chars_of(value);
        if chars_eq_str(&v, "manual") {
            ClipOrigin::Manual
        } else if chars_eq_str(&v, "imported") {
            ClipOrigin::Imported
        } else {
            ClipOrigin::Rule
        }
    }

    /// The name shown to the user.
    pub fn label(self) -> (r: &'static str)
        ensures
            r@ == (match self {
                ClipOrigin::Rule => "Rule"@,
                ClipOrigin::Manual => "Manual"@,
                ClipOrigin::Imported => "Imported"@,
            }),
    {
        match self {
            ClipOrigin::Rule => "Rule",
            ClipOrigin::Manual => "Manual",
            ClipOrigin::Imported => "Imported",
        }
    }
}

/// Where a clip was uploaded.
#[derive(Debug, Clone, Copy, PartialEq, Eq, Structural)]
pub enum UploadProvider {
    Copyparty,
    YouTube,
}

pub open spec fn provider_name(p: UploadProvider) -> Seq<char> {
    match p {
        UploadProvider::Copyparty => "copyparty"@,
        UploadProvider::YouTube => "youtube"@,
    }
}

impl UploadProvider {
    pub fn as_str(self) -> (r: &'static str)
        ensures
            r@ == provider_name(self),
    {
        match self {
            UploadProvider::Copyparty => "copyparty",
            UploadProvider::YouTube => "youtube",
        }
    }

    /// The provider a stored name stands for; the former `streamable` and
    /// anything unknown mean copyparty.
    pub fn from_db(value: &str) -> (r: Self)
        ensures
            r == (if value@ == "youtube"@ {
                UploadProvider::YouTube
            } else {
                UploadProvider::Copyparty
            }),
    {
        let v = chars_of(value);
        if chars_eq_str(&v, "youtube") {
            UploadProvider::YouTube
        } else {
            UploadProvider::Copyparty
        }
    }

    pub fn label(self) -> (r: &'static str)
        ensures
            r@ == (match self {
                UploadProvider::Copyparty => "Copyparty"@,
                UploadProvider::YouTube => "YouTube"@,
            }),
    {
        match self {
            UploadProvider::Copyparty => "Copyparty",
            UploadProvider::YouTube => "YouTube",
        }
    }
}

/// Where an upload is.
#[derive(Debug, Clone, Copy, PartialEq, Eq, Structural)]
pub enum ClipUploadState {
    Running,
    Succeeded,
    Failed,
    Cancelled,
}

pub open spec fn upload_state_name(s: ClipUploadState) -> Seq<char> {
    match s {
        ClipUploadState::Running => "running"@,
        ClipUploadState::Succeeded => "succeeded"@,
        ClipUploadState::Failed => "failed"@,
        ClipUploadState::Cancelled => "cancelled"@,
    }
}

pub open spec fn upload_state_from_name(v: Seq<char>) -> ClipUploadState {
    if v == "succeeded"@ {
        ClipUploadState::Succeeded
    } else if v == "failed"@ {
        ClipUploadState::Failed
    } else if v == "cancelled"@ {
        ClipUploadState::Cancelled
    } else {
        ClipUploadState::Running
    }
}

impl ClipUploadState {
    pub fn as_str(self) -> (r: &'static str)
        ensures
            r@ == upload_state_name(self),
    {
        match self {
            ClipUploadState::Running => "running",
            ClipUploadState::Succeeded => "succeeded",
            ClipUploadState::Failed => "failed",
            ClipUploadState::Cancelled => "cancelled",
        }
    }

    pub fn from_db(value: &str) -> (r: Self)
        ensures
            r == upload_state_from_name(value@),
    {
        let v = chars_of(value);
        if chars_eq_str(&v, "succeeded") {
            ClipUploadState::Succeeded
        } else if chars_eq_str(&v, "failed") {
            ClipUploadState::Failed
        } else if chars_eq_str(&v, "cancelled") {
            ClipUploadState::Cancelled
        } else {
            ClipUploadState::Running
        }
    }
}

/// Reading a state back gives the state stored.
pub proof fn lemma_upload_state_round_trip(s: ClipUploadState)
    ensures
        upload_state_from_name(upload_state_name(s)) == s,
{
    reveal_strlit("running");
    reveal_strlit("succeeded");
    reveal_strlit("failed");
    reveal_strlit("cancelled");
    assert("running"@.len() == 7);
    assert("failed"@.len() == 6);
    assert("succeeded"@[0] != "cancelled"@[0]);
}

/// Reading an origin back gives the origin stored.
pub proof fn lemma_origin_round_trip(o: ClipOrigin)
    ensures
        origin_from_name(origin_name(o)) == o,
{
    reveal_strlit("rule");
    reveal_strlit("manual");
    reveal_strlit("imported");
    assert("rule"@.len() == 4);
    assert("manual"@.len() == 6);
    assert("imported"@.len() == 8);
}

/// Where a clip's audio post-processing is.
#[derive(Debug, Clone, Copy, PartialEq, Eq, Structural)]
pub enum PostProcessStatus {
    NotRequired,
    Pending,
    Completed,
    Failed,
    Legacy,
}

impl PostProcessStatus {
    pub fn as_str(self) -> (r: &'static str)
        ensures
            r@ == (match self {
                PostProcessStatus::NotRequired => "NotRequired"@,
                PostProcessStatus::Pending => "Pending"@,
                PostProcessStatus::Completed => "Completed"@,
                PostProcessStatus::Failed => "Failed"@,
                PostProcessStatus::Legacy => "Legacy"@,
            }),
    {
        match self {
            PostProcessStatus::NotRequired => "NotRequired",
            PostProcessStatus::Pending => "Pending",
            PostProcessStatus::Completed => "Completed",
            PostProcessStatus::Failed => "Failed",
            PostProcessStatus::Legacy => "Legacy",
        }
    }
}

/// Which clips the overlap filter keeps.
#[derive(Debug, Clone, Copy, PartialEq, Eq, Structural)]
pub enum OverlapFilterState {
    All,
    Overlapping,
    UniqueOnly,
}

impl Default for OverlapFilterState {
    fn default() -> (r: Self)
        ensures
            r == OverlapFilterState::All,
    {
        OverlapFilterState::All
    }
}

/// The outfit a character was last seen in.
#[derive(Debug)]
pub struct CharacterOutfitCacheEntry {
    pub outfit_id: Option<u64>,
    pub outfit_tag: Option<String>,
}

/// The filters of the clip list.
#[derive(Debug)]
pub struct ClipFilters {
    pub search: String,
    pub event_after_ts: Option<i64>,
    pub event_before_ts: Option<i64>,
    pub target: String,
    pub weapon: String,
    pub alert: String,
    pub overlap_state: OverlapFilterState,
    pub profile: String,
    pub rule: String,
    pub character: String,
    pub server: String,
    pub continent: String,
    pub base: String,
}

impl Default for ClipFilters {
    fn default() -> (r: Self)
        ensures
            r.search@.len() == 0 && r.target@.len() == 0 && r.weapon@.len() == 0 && r.alert@.len() == 0,
            r.event_after_ts is None && r.event_before_ts is None,
            r.overlap_state == OverlapFilterState::All,
            r.profile@.len() == 0 && r.rule@.len() == 0 && r.character@.len() == 0 && r.server@.len() == 0
                && r.continent@.len() == 0 && r.base@.len() == 0,
    {
        ClipFilters {
            search: String::new(),
            event_after_ts: None,
            event_before_ts: None,
            target: String::new(),
            weapon: String::new(),
            alert: String::new(),
            overlap_state: OverlapFilterState::All,
            profile: String::new(),
            rule: String::new(),
            character: String::new(),
            server: String::new(),
            continent: String::new(),
            base: String::new(),
        }
    }
}

/// The values each clip-list filter can take.
#[derive(Debug)]
pub struct ClipFilterOptions {
    pub profiles: Vec<String>,
    pub rules: Vec<String>,
    pub characters: Vec<String>,
    pub servers: Vec<String>,
    pub continents: Vec<String>,
    pub bases: Vec<String>,
    pub targets: Vec<String>,
    pub weapons: Vec<String>,
    pub alerts: Vec<String>,
}

/// How much one kind of event added to a clip's score.
#[derive(Debug)]
pub struct ClipEventContribution {
    pub event_kind: String,
    pub occurrences: u32,
    pub points: u32,
}

/// An upload to record.
#[derive(Debug)]
pub struct ClipUploadDraft {
    pub clip_id: i64,
    pub provider: UploadProvider,
    pub state: ClipUploadState,
    pub external_id: Option<String>,
    pub clip_url: Option<String>,
    pub error_message: Option<String>,
}

/// A count under a label, for the statistics.
#[derive(Debug)]
pub struct CountByLabel {
    pub label: String,
    pub count: u32,
}

/// How many clips were made at a base.
#[derive(Debug)]
pub struct BaseCount {
    pub facility_id: Option<u32>,
    pub label: String,
    pub count: u32,
}

/// The clip statistics.
#[derive(Debug)]
pub struct ClipStatsSnapshot {
    pub total_clips: u32,
    pub total_duration_secs: u64,
    pub total_score_sum: u64,
    pub clips_per_day: Vec<CountByLabel>,
    pub clips_per_rule: Vec<CountByLabel>,
    pub score_distribution: Vec<CountByLabel>,
    pub top_bases: Vec<BaseCount>,
    pub top_weapons: Vec<CountByLabel>,
    pub top_targets: Vec<CountByLabel>,
    pub raw_event_kinds: Vec<CountByLabel>,
}

/// Where the clip database is and what the app should be told about how it
/// was opened.
#[derive(Debug)]
pub struct ClipStore {
    database_path: Option<String>,
    startup_notice: Option<String>,
}

impl ClipStore {
    pub closed spec fn path_view(self) -> Option<Seq<char>> {
        opt_view(self.database_path)
    }

    pub closed spec fn notice_view(self) -> Option<Seq<char>> {
        opt_view(self.startup_notice)
    }

    pub fn new(database_path: Option<String>, startup_notice: Option<String>) -> (r: Self)
        ensures
            r.path_view() == opt_view(database_path),
            r.notice_view() == opt_view(startup_notice),
    {
        ClipStore { database_path, startup_notice }
    }

    /// The database file, when the store lives in one.
    pub fn database_path(&self) -> (r: Option<&str>)
        ensures
            match (r, self.path_view()) {
                (Some(a), Some(b)) => a@ == b,
                (None, None) => true,
                _ => false,
            },
    {
        match &self.database_path {
            Some(p) => Some(p.as_str()),
            None => None,
        }
    }

    /// What the app should tell the user about how the store was opened.
    pub fn startup_notice(&self) -> (r: Option<&str>)
        ensures
            match (r, self.notice_view()) {
                (Some(a), Some(b)) => a@ == b,
                (None, None) => true,
                _ => false,
            },
    {
        match &self.startup_notice {
            Some(p) => Some(p.as_str()),
            None => None,
        }
    }
}

pub open spec fn interrupted_text() -> Seq<char> {
    "Interrupted because nanite-clip closed before the background job finished."@
}

/// The detail of a job the app closed on: its last detail, if any was
/// given, followed by why it stopped.
pub open spec fn interrupted_detail(existing: Option<Seq<char>>) -> Seq<char> {
    match existing {
        Some(d) => if trim(d).len() > 0 {
            d + " "@ + interrupted_text()
        } else {
            interrupted_text()
        },
        None => interrupted_text(),
    }
}

pub fn interrupted_background_job_detail(existing_detail: Option<String>) -> (r: String)
    ensures
        r@ == interrupted_detail(opt_view(existing_detail)),
{
    match existing_detail {
        Some(detail) => {
            let t = trim_str(detail.as_str());
            if t.as_str().is_empty() {
                owned("Interrupted because nanite-clip closed before the background job finished.")
            } else {
                let mut r = detail;
                r.push_str(" ");
                r.push_str("Interrupted because nanite-clip closed before the background job finished.");
                r
            }
        },
        None => owned("Interrupted because nanite-clip closed before the background job finished."),
    }
}

/// The state and detail a job left running gets when the app starts again:
/// a post-processing job whose clip finished, or needed none, succeeded;
/// one whose clip failed takes the clip's error; every other job failed as
/// interrupted.
pub open spec fn recovered_job(is_post_process: bool, clip: Option<(PostProcessStatus, Option<Seq<char>>)>, detail: Option<Seq<char>>) -> (BackgroundJobState, Seq<char>) {
    match (is_post_process, clip) {
        (true, Some((PostProcessStatus::Completed, _))) => (BackgroundJobState::Succeeded, "Audio post-processing completed."@),
        (true, Some((PostProcessStatus::NotRequired, _))) => (BackgroundJobState::Succeeded, "Audio post-processing was not required."@),
        (true, Some((PostProcessStatus::Failed, error))) => (BackgroundJobState::Failed, match error {
            Some(e) => e,
            None => interrupted_detail(detail),
        }),
        _ => (BackgroundJobState::Failed, interrupted_detail(detail)),
    }
}

/// The recovered state and detail of a job left running; `clip` is the
/// post-processing state and error of the first clip of a post-processing
/// job, when that clip still exists.
pub fn recover_background_job(is_post_process: bool, clip: Option<(PostProcessStatus, Option<String>)>, detail: Option<String>) -> (r: (BackgroundJobState, String))
    ensures
        r.0 == recovered_job(is_post_process, match clip {
            Some((s, e)) => Some((s, opt_view(e))),
            None => None,
        }, opt_view(detail)).0,
        r.1@ == recovered_job(is_post_process, match clip {
            Some((s, e)) => Some((s, opt_view(e))),
            None => None,
        }, opt_view(detail)).1,
{
    if is_post_process {
        match clip {
            Some((PostProcessStatus::Completed, _)) => {
                return (BackgroundJobState::Succeeded, owned("Audio post-processing completed."));
            },
            Some((PostProcessStatus::NotRequired, _)) => {
                return (BackgroundJobState::Succeeded, owned("Audio post-processing was not required."));
            },
            Some((PostProcessStatus::Failed, error)) => {
                let d = match error {
                    Some(e) => e,
                    None => interrupted_background_job_detail(detail),
                };
                return (BackgroundJobState::Failed, d);
            },
            _ => {},
        }
    }
    (BackgroundJobState::Failed, interrupted_background_job_detail(detail))
}

/// A CSV field: in double quotes, `"` doubled.
pub open spec fn csv_field(s: Seq<char>) -> Seq<char> {
    seq!['"'] + replace_char(s, '"', seq!['"', '"']) + seq!['"']
}

/// A CSV row of `columns`, fields separated by `,`, ended by a newline.
pub open spec fn csv_row(columns: Seq<Seq<char>>) -> Seq<char>
    decreases columns.len(),
{
    if columns.len() == 0 {
        seq!['\n']
    } else {
        csv_fields(columns) + seq!['\n']
    }
}

pub open spec fn csv_fields(columns: Seq<Seq<char>>) -> Seq<char>
    decreases columns.len(),
{
    if columns.len() == 0 {
        seq![]
    } else if columns.len() == 1 {
        csv_field(columns[0])
    } else {
        csv_fields(columns.drop_last()) + seq![','] + csv_field(columns.last())
    }
}

/// Appends a CSV row of `columns` to `output`.
pub fn append_csv_row(output: &mut String, columns: &Vec<String>)
    ensures
        final(output)@ == old(output)@ + csv_row(strings_view(columns@)),
{
    let ghost start = output@;
    let mut i: usize = 0;
    while i < columns.len()
        invariant
            i <= columns.len(),
            output@ == start + csv_fields(strings_view(columns@).take(i as int)),
        decreases columns.len() - i,
    {
        let ghost before = output@;
        if i > 0 {
            output.push(',');
        }
        output.push('"');
        let v = chars_of(columns[i].as_str());
        let mut j: usize = 0;
        let ghost mid = output@;
        while j < v.len()
            invariant
                j <= v.len(),
                output@ == mid + replace_char(v@.take(j as int), '"', seq!['"', '"']),
            decreases v.len() - j,
        {
            if v[j] == '"' {
                output.push('"');
                output.push('"');
            } else {
                output.push(v[j]);
            }
            proof {
                let t = v@.take(j + 1);
                assert(t.drop_last() =~= v@.take(j as int));
                assert(t.last() == v@[j as int]);
                assert(output@ =~= mid + replace_char(t, '"', seq!['"', '"']));
            }
            j = j + 1;
        }
        output.push('"');
        proof {
            assert(v@.take(v.len() as int) =~= v@);
            let cs = strings_view(columns@);
            let t = cs.take(i + 1);
            assert(t.drop_last() =~= cs.take(i as int));
            assert(t.last() == columns@[i as int]@);
            if i == 0 {
                assert(output@ =~= start + csv_field(columns@[0]@));
            } else {
                assert(output@ =~= start + (csv_fields(cs.take(i as int)) + seq![','] + csv_field(columns@[i as int]@)));
            }
        }
        i = i + 1;
    }
    output.push('\n');
    proof {
        let cs = strings_view(columns@);
        assert(cs.take(columns.len() as int) =~= cs);
        assert(output@ =~= start + csv_row(cs));
    }
}

/// The names of the schema migrations, in the order they apply.
pub open spec fn migration_names() -> Seq<Seq<char>> {
    seq![
        "m20240408_000001_create_initial_schema"@,
        "m20240408_000002_add_honu_session_id"@,
        "m20240408_000003_add_clip_origin"@,
        "m20240408_000004_add_clip_window_columns"@,
        "m20240408_000005_create_clip_raw_events_table"@,
        "m20240408_000006_create_lookup_cache_table"@,
        "m20240408_000007_create_clip_overlaps_table"@,
        "m20240408_000008_create_alert_tables"@,
        "m20240408_000009_create_character_outfit_cache_table"@,
        "m20240408_000010_create_weapon_reference_cache_table"@,
        "m20240408_000011_rebuild_weapon_reference_cache_table"@,
        "m20240408_000012_create_clip_uploads_table"@,
        "m20240408_000013_create_montages_table"@,
        "m20240408_000014_create_background_jobs_table"@,
        "m20240408_000015_create_clip_audio_tracks_and_post_process_state"@,
        "m20240408_000016_create_clip_organization_tables"@,
    ]
}

pub fn migration_name_list() -> (r: Vec<&'static str>)
    ensures
        r@.len() == 16,
        forall|i: int| 0 <= i < 16 ==> (#[trigger] r@[i])@ == migration_names()[i],
{
    let mut r: Vec<&'static str> = Vec::new();
    r.push("m20240408_000001_create_initial_schema");
    r.push("m20240408_000002_add_honu_session_id");
    r.push("m20240408_000003_add_clip_origin");
    r.push("m20240408_000004_add_clip_window_columns");
    r.push("m20240408_000005_create_clip_raw_events_table");
    r.push("m20240408_000006_create_lookup_cache_table");
    r.push("m20240408_000007_create_clip_overlaps_table");
    r.push("m20240408_000008_create_alert_tables");
    r.push("m20240408_000009_create_character_outfit_cache_table");
    r.push("m20240408_000010_create_weapon_reference_cache_table");
    r.push("m20240408_000011_rebuild_weapon_reference_cache_table");
    r.push("m20240408_000012_create_clip_uploads_table");
    r.push("m20240408_000013_create_montages_table");
    r.push("m20240408_000014_create_background_jobs_table");
    r.push("m20240408_000015_create_clip_audio_tracks_and_post_process_state");
    r.push("m20240408_000016_create_clip_organization_tables");
    r
}

/// What probing an existing database found: which tables, columns and
/// indexes are there. A probe of a column or index of a table that is
/// missing counts as not found whatever it says.
#[derive(Debug, Clone, Copy, PartialEq, Eq, Structural)]
pub struct SchemaProbe {
    pub clips_table: bool,
    pub clip_events_table: bool,
    pub clips_initial_indexes: bool,
    pub clip_events_indexes: bool,
    pub clips_honu_session_id: bool,
    pub clips_origin: bool,
    pub clips_start_ts: bool,
    pub clips_end_ts: bool,
    pub clips_session_id: bool,
    pub clips_window_indexes: bool,
    pub raw_events_table: bool,
    pub raw_events_indexes: bool,
    pub lookup_cache_table: bool,
    pub lookup_cache_indexes: bool,
    pub overlaps_table: bool,
    pub overlaps_indexes: bool,
    pub alert_instances_table: bool,
    pub alert_instances_indexes: bool,
    pub alert_instances_zone_index: bool,
    pub alert_links_table: bool,
    pub alert_links_indexes: bool,
    pub outfit_cache_table: bool,
    pub outfit_cache_indexes: bool,
    pub weapon_cache_table: bool,
    pub weapon_cache_indexes: bool,
    pub weapon_cache_category_index: bool,
    pub weapon_cache_faction_column: bool,
    pub uploads_table: bool,
    pub uploads_indexes: bool,
    pub uploads_clip_index: bool,
    pub uploads_provider_index: bool,
    pub montages_table: bool,
    pub montage_clips_table: bool,
    pub montage_clips_indexes: bool,
    pub montage_clips_clip_index: bool,
    pub jobs_table: bool,
    pub jobs_indexes: bool,
    pub jobs_state_index: bool,
    pub audio_tracks_table: bool,
    pub audio_tracks_indexes: bool,
    pub audio_tracks_stream_index: bool,
    pub clips_post_process_status: bool,
    pub clips_post_process_error: bool,
    pub clips_favorited: bool,
    pub tags_table: bool,
    pub tags_indexes: bool,
    pub tags_clip_tag_index: bool,
    pub collections_table: bool,
    pub collections_indexes: bool,
    pub collections_name_index: bool,
    pub collection_clips_table: bool,
    pub collection_clips_indexes: bool,
    pub collection_clips_clip_index: bool,
    pub collection_clips_sequence_index: bool,
}

/// Whether the database already has what migration `i` makes.
pub open spec fn present_at(p: SchemaProbe, i: int) -> bool {
    if i == 0 {
        p.clips_table && p.clip_events_table && p.clips_initial_indexes && p.clip_events_indexes
    } else if i == 1 {
        p.clips_table && p.clips_honu_session_id
    } else if i == 2 {
        p.clips_table && p.clips_origin
    } else if i == 3 {
        p.clips_table && p.clips_start_ts && p.clips_end_ts && p.clips_session_id && p.clips_window_indexes
    } else if i == 4 {
        p.raw_events_table && p.raw_events_indexes
    } else if i == 5 {
        p.lookup_cache_table && p.lookup_cache_indexes
    } else if i == 6 {
        p.overlaps_table && p.overlaps_indexes
    } else if i == 7 {
        p.alert_instances_table && p.alert_instances_indexes && p.alert_instances_zone_index && p.alert_links_table
            && p.alert_links_indexes
    } else if i == 8 {
        p.outfit_cache_table && p.outfit_cache_indexes
    } else if i == 9 {
        p.weapon_cache_table && p.weapon_cache_indexes && p.weapon_cache_category_index
    } else if i == 10 {
        p.weapon_cache_table && p.weapon_cache_indexes && p.weapon_cache_category_index && p.weapon_cache_faction_column
    } else if i == 11 {
        p.uploads_table && p.uploads_indexes && p.uploads_clip_index && p.uploads_provider_index
    } else if i == 12 {
        p.montages_table && p.montage_clips_table && p.montage_clips_indexes && p.montage_clips_clip_index
    } else if i == 13 {
        p.jobs_table && p.jobs_indexes && p.jobs_state_index
    } else if i == 14 {
        p.audio_tracks_table && p.audio_tracks_indexes && p.audio_tracks_stream_index && p.clips_post_process_status
            && p.clips_post_process_error
    } else {
        p.clips_table && p.clips_favorited && p.tags_table && p.tags_indexes && p.tags_clip_tag_index
            && p.collections_table && p.collections_indexes && p.collections_name_index && p.collection_clips_table
            && p.collection_clips_indexes && p.collection_clips_clip_index && p.collection_clips_sequence_index
    }
}

/// For each migration, in order, whether the database already has what it
/// makes.
pub open spec fn migrations_present(p: SchemaProbe) -> Seq<bool> {
    Seq::new(16, |i: int| present_at(p, i))
}

fn present_exec(p: &SchemaProbe, i: usize) -> (r: bool)
    requires
        i < 16,
    ensures
        r == present_at(*p, i as int),
{
    match i {
        0 => p.clips_table && p.clip_events_table && p.clips_initial_indexes && p.clip_events_indexes,
        1 => p.clips_table && p.clips_honu_session_id,
        2 => p.clips_table && p.clips_origin,
        3 => p.clips_table && p.clips_start_ts && p.clips_end_ts && p.clips_session_id && p.clips_window_indexes,
        4 => p.raw_events_table && p.raw_events_indexes,
        5 => p.lookup_cache_table && p.lookup_cache_indexes,
        6 => p.overlaps_table && p.overlaps_indexes,
        7 => p.alert_instances_table && p.alert_instances_indexes && p.alert_instances_zone_index && p.alert_links_table
            && p.alert_links_indexes,
        8 => p.outfit_cache_table && p.outfit_cache_indexes,
        9 => p.weapon_cache_table && p.weapon_cache_indexes && p.weapon_cache_category_index,
        10 => p.weapon_cache_table && p.weapon_cache_indexes && p.weapon_cache_category_index && p.weapon_cache_faction_column,
        11 => p.uploads_table && p.uploads_indexes && p.uploads_clip_index && p.uploads_provider_index,
        12 => p.montages_table && p.montage_clips_table && p.montage_clips_indexes && p.montage_clips_clip_index,
        13 => p.jobs_table && p.jobs_indexes && p.jobs_state_index,
        14 => p.audio_tracks_table && p.audio_tracks_indexes && p.audio_tracks_stream_index && p.clips_post_process_status
            && p.clips_post_process_error,
        _ => p.clips_table && p.clips_favorited && p.tags_table && p.tags_indexes && p.tags_clip_tag_index
            && p.collections_table && p.collections_indexes && p.collections_name_index && p.collection_clips_table
            && p.collection_clips_indexes && p.collection_clips_clip_index && p.collection_clips_sequence_index,
    }
}

/// How many of `flags` hold before the first that does not.
pub open spec fn leading_true(flags: Seq<bool>) -> nat
    decreases flags.len(),
{
    if flags.len() == 0 || !flags[0] {
        0
    } else {
        1 + leading_true(flags.drop_first())
    }
}

/// How far a database without migration history already is: the number of
/// migrations, from the first on, whose results are all present.
#[derive(Debug, Clone, Copy, PartialEq, Eq, Structural)]
pub struct LegacySchemaState {
    pub applied_prefix: usize,
}

impl LegacySchemaState {
    /// The migrations still to run.
    pub fn pending_migrations(self) -> (r: usize)
        ensures
            r == (if self.applied_prefix <= 16 { 16 - self.applied_prefix } else { 0 }),
    {
        if self.applied_prefix <= 16 {
            16 - self.applied_prefix
        } else {
            0
        }
    }
}

/// How far a database is, from what probing it found.
pub fn legacy_schema_state(p: &SchemaProbe) -> (r: LegacySchemaState)
    ensures
        r.applied_prefix == leading_true(migrations_present(*p)),
        r.applied_prefix <= 16,
        forall|i: int| 0 <= i < r.applied_prefix ==> migrations_present(*p)[i],
        r.applied_prefix < 16 ==> !migrations_present(*p)[r.applied_prefix as int],
{
    let ghost flags = migrations_present(*p);
    let mut n: usize = 0;
    assert(flags.skip(0) =~= flags);
    while n < 16 && present_exec(p, n)
        invariant
            n <= 16,
            flags == migrations_present(*p),
            flags.len() == 16,
            forall|i: int| 0 <= i < n ==> flags[i],
            leading_true(flags) == n + leading_true(flags.skip(n as int)),
        decreases 16 - n,
    {
        proof {
            let s = flags.skip(n as int);
            assert(s[0] == flags[n as int]);
            assert(s.drop_first() =~= flags.skip(n + 1));
        }
        n = n + 1;
    }
    proof {
        let s = flags.skip(n as int);
        if n < 16 {
            assert(s[0] == flags[n as int]);
        }
    }
    LegacySchemaState { applied_prefix: n }
}

/// The migrations whose records must go (recorded but not present, from
/// `prefix` on) and those whose records must be added (present but not
/// recorded, before `prefix`), each in migration order.
pub open spec fn history_plan(recorded: Seq<Seq<char>>, prefix: int) -> (Seq<Seq<char>>, Seq<Seq<char>>) {
    (
        migration_names().skip(prefix).filter(|n: Seq<char>| recorded.contains(n)),
        migration_names().take(prefix).filter(|n: Seq<char>| !recorded.contains(n)),
    )
}

/// The number a migration's name carries, read from its two digits.
spec fn name_number(name: Seq<char>) -> int {
    ((name[14] as u32) - 48) * 10 + ((name[15] as u32) - 48)
}

/// No migration name is given twice: each carries its own number.
proof fn lemma_migration_names_distinct()
    ensures
        forall|a: int, b: int| 0 <= a < b < 16 ==> migration_names()[a] != migration_names()[b],
{
    reveal_strlit("m20240408_000001_create_initial_schema");
    reveal_strlit("m20240408_000002_add_honu_session_id");
    reveal_strlit("m20240408_000003_add_clip_origin");
    reveal_strlit("m20240408_000004_add_clip_window_columns");
    reveal_strlit("m20240408_000005_create_clip_raw_events_table");
    reveal_strlit("m20240408_000006_create_lookup_cache_table");
    reveal_strlit("m20240408_000007_create_clip_overlaps_table");
    reveal_strlit("m20240408_000008_create_alert_tables");
    reveal_strlit("m20240408_000009_create_character_outfit_cache_table");
    reveal_strlit("m20240408_000010_create_weapon_reference_cache_table");
    reveal_strlit("m20240408_000011_rebuild_weapon_reference_cache_table");
    reveal_strlit("m20240408_000012_create_clip_uploads_table");
    reveal_strlit("m20240408_000013_create_montages_table");
    reveal_strlit("m20240408_000014_create_background_jobs_table");
    reveal_strlit("m20240408_000015_create_clip_audio_tracks_and_post_process_state");
    reveal_strlit("m20240408_000016_create_clip_organization_tables");
    let n = migration_names();
    assert forall|a: int| 0 <= a < 16 implies name_number(#[trigger] n[a]) == a + 1 by {
        assert(a == 0 || a == 1 || a == 2 || a == 3 || a == 4 || a == 5 || a == 6 || a == 7 || a == 8 || a == 9 || a == 10 || a == 11 || a == 12 || a == 13 || a == 14 || a == 15);
    }
    assert forall|a: int, b: int| 0 <= a < b < 16 implies n[a] != n[b] by {
        assert(name_number(n[a]) != name_number(n[b]));
    }
}

/// What a filtered sequence holds, the sequence held and the predicate
/// accepts.
proof fn lemma_filter_from(s: Seq<Seq<char>>, pred: spec_fn(Seq<char>) -> bool, x: Seq<char>)
    requires
        s.filter(pred).contains(x),
    ensures
        s.contains(x),
        pred(x),
    decreases s.len(),
{
    reveal(Seq::filter);
    if s.len() > 0 {
        let sub = s.drop_last().filter(pred);
        if sub.contains(x) {
            lemma_filter_from(s.drop_last(), pred, x);
            let j = choose|j: int| 0 <= j < s.drop_last().len() && s.drop_last()[j] == x;
            assert(s[j] == x);
        } else {
            let j = choose|j: int| 0 <= j < s.filter(pred).len() && s.filter(pred)[j] == x;
            if pred(s.last()) {
                assert(s.filter(pred) == sub.push(s.last()));
                if j < sub.len() {
                    assert(sub[j] == x);
                }
                assert(s[s.len() - 1] == x);
            } else {
                assert(sub[j] == x);
            }
        }
    }
}

/// Carrying out the history plan (removing its deletions from what is
/// recorded and recording its insertions) leaves recorded, of the known
/// migrations, exactly those before the applied prefix.
pub proof fn lemma_history_plan_repairs(recorded: Seq<Seq<char>>, prefix: int)
    requires
        0 <= prefix <= 16,
    ensures
        forall|k: int|
            0 <= k < 16 ==> ((recorded.contains(#[trigger] migration_names()[k]) && !history_plan(recorded, prefix).0.contains(
                migration_names()[k],
            )) || history_plan(recorded, prefix).1.contains(migration_names()[k])) == (k < prefix),
{
    lemma_migration_names_distinct();
    let n = migration_names();
    let in_recorded = |x: Seq<char>| recorded.contains(x);
    let not_recorded = |x: Seq<char>| !recorded.contains(x);
    let deletes = n.skip(prefix).filter(in_recorded);
    let inserts = n.take(prefix).filter(not_recorded);
    assert(history_plan(recorded, prefix).0 == deletes);
    assert(history_plan(recorded, prefix).1 == inserts);
    assert forall|k: int| 0 <= k < 16 implies ((recorded.contains(#[trigger] n[k]) && !deletes.contains(n[k])) || inserts.contains(n[k]))
        == (k < prefix) by {
        if deletes.contains(n[k]) {
            lemma_filter_from(n.skip(prefix), in_recorded, n[k]);
            let j = choose|j: int| 0 <= j < n.skip(prefix).len() && n.skip(prefix)[j] == n[k];
            assert(n[prefix + j] == n[k]);
        }
        if inserts.contains(n[k]) {
            lemma_filter_from(n.take(prefix), not_recorded, n[k]);
            let j = choose|j: int| 0 <= j < n.take(prefix).len() && n.take(prefix)[j] == n[k];
            assert(n[j] == n[k]);
        }
        if k < prefix {
            if !recorded.contains(n[k]) {
                assert(n.take(prefix)[k] == n[k]);
                assert(not_recorded(n.take(prefix)[k]));
                n.take(prefix).lemma_filter_contains(not_recorded, k);
            }
        } else {
            if recorded.contains(n[k]) {
                assert(n.skip(prefix)[k - prefix] == n[k]);
                assert(in_recorded(n.skip(prefix)[k - prefix]));
                n.skip(prefix).lemma_filter_contains(in_recorded, k - prefix);
            }
        }
    }
}

fn recorded_contains(recorded: &Vec<String>, name: &str) -> (r: bool)
    ensures
        r == strings_view(recorded@).contains(name@),
{
    let mut i: usize = 0;
    while i < recorded.len()
        invariant
            i <= recorded.len(),
            forall|k: int| 0 <= k < i ==> recorded@[k]@ != name@,
        decreases recorded.len() - i,
    {
        if str_eq(recorded[i].as_str(), name) {
            assert(strings_view(recorded@)[i as int] == name@);
            return true;
        }
        i = i + 1;
    }
    proof {
        if strings_view(recorded@).contains(name@) {
            let k = choose|k: int| 0 <= k < recorded@.len() && strings_view(recorded@)[k] == name@;
            assert(recorded@[k]@ == name@);
        }
    }
    false
}

/// Which migration records to delete and which to insert so that the
/// history says exactly the first `applied_prefix` migrations ran.
pub fn migration_history_plan(recorded: &Vec<String>, applied_prefix: usize) -> (r: (Vec<&'static str>, Vec<&'static str>))
    requires
        applied_prefix <= 16,
    ensures
        r.0@.map_values(|s: &'static str| s@) == history_plan(strings_view(recorded@), applied_prefix as int).0,
        r.1@.map_values(|s: &'static str| s@) == history_plan(strings_view(recorded@), applied_prefix as int).1,
{
    let names = migration_name_list();
    let ghost rv = strings_view(recorded@);
    assert(names@.map_values(|s: &'static str| s@) =~= migration_names());
    let mut deletes: Vec<&'static str> = Vec::new();
    let mut inserts: Vec<&'static str> = Vec::new();
    let mut i: usize = 0;
    while i < 16
        invariant
            i <= 16,
            applied_prefix <= 16,
            names@.len() == 16,
            names@.map_values(|s: &'static str| s@) == migration_names(),
            rv == strings_view(recorded@),
            deletes@.map_values(|s: &'static str| s@) == (if i <= applied_prefix {
                Seq::<Seq<char>>::empty()
            } else {
                migration_names().subrange(applied_prefix as int, i as int).filter(|n: Seq<char>| rv.contains(n))
            }),
            inserts@.map_values(|s: &'static str| s@) == migration_names().take(if i <= applied_prefix { i as int } else { applied_prefix as int }).filter(|n: Seq<char>| !rv.contains(n)),
        decreases 16 - i,
    {
        let name = names[i];
        let present = recorded_contains(recorded, name);
        assert(name@ == migration_names()[i as int]);
        proof {
            reveal(Seq::filter);
        }
        if i < applied_prefix {
            let ghost before = inserts@.map_values(|s: &'static str| s@);
            if !present {
                inserts.push(name);
            }
            proof {
                let t = migration_names().take(i + 1);
                assert(t.drop_last() =~= migration_names().take(i as int));
                assert(t.last() == name@);
                if !present {
                    assert(inserts@.map_values(|s: &'static str| s@) =~= before.push(name@));
                }
            }
        } else {
            let ghost before = deletes@.map_values(|s: &'static str| s@);
            if present {
                deletes.push(name);
            }
            proof {
                let t = migration_names().subrange(applied_prefix as int, i + 1);
                if i == applied_prefix {
                    assert(before =~= Seq::<Seq<char>>::empty());
                    assert(t.drop_last() =~= Seq::<Seq<char>>::empty());
                    assert(Seq::<Seq<char>>::empty().filter(|n: Seq<char>| rv.contains(n)) =~= Seq::<Seq<char>>::empty());
                } else {
                    assert(t.drop_last() =~= migration_names().subrange(applied_prefix as int, i as int));
                }
                assert(t.last() == name@);
                if present {
                    assert(deletes@.map_values(|s: &'static str| s@) =~= before.push(name@));
                }
            }
        }
        i = i + 1;
    }
    proof {
        assert(migration_names().subrange(applied_prefix as int, 16) =~= migration_names().skip(applied_prefix as int));
        if applied_prefix == 16 {
            assert(migration_names().skip(16) =~= Seq::<Seq<char>>::empty());
            assert(Seq::<Seq<char>>::empty().filter(|n: Seq<char>| rv.contains(n)) =~= Seq::<Seq<char>>::empty());
        }
    }
    (deletes, inserts)
}

/// The name of a backup taken before migrating from `current` to `target`
/// at `timestamp_text`; `suffix` tells apart backups that would share a name.
pub open spec fn backup_file_name(stem: Seq<char>, current: i64, target: i64, timestamp_text: Seq<char>, extension: Seq<char>, suffix: Option<u32>) -> Seq<char> {
    stem + ".pre-migration-v"@ + int_text(current as int) + "-to-v"@ + int_text(target as int) + "-"@ + timestamp_text
        + (match suffix {
        Some(n) => "-"@ + decimal(n as nat),
        None => Seq::<char>::empty(),
    }) + "."@ + extension
}

/// A whole number in decimal, with `-` when negative.
pub open spec fn int_text(v: int) -> Seq<char> {
    if v < 0 {
        "-"@ + decimal((-v) as nat)
    } else {
        decimal(v as nat)
    }
}

fn push_int(out: &mut String, v: i64)
    ensures
        final(out)@ == old(out)@ + int_text(v as int),
{
    if v < 0 {
        out.push_str("-");
        let m: u64 = if v == i64::MIN {
            9_223_372_036_854_775_808u64
        } else {
            (-v) as u64
        };
        push_decimal(out, m);
    } else {
        push_decimal(out, v as u64);
    }
}

pub fn migration_backup_file_name(stem: &str, current_version: i64, target_version: i64, timestamp_text: &str, extension: &str, suffix: Option<u32>) -> (r: String)
    ensures
        r@ == backup_file_name(stem@, current_version, target_version, timestamp_text@, extension@, suffix),
{
    let mut r = owned(stem);
    r.push_str(".pre-migration-v");
    push_int(&mut r, current_version);
    r.push_str("-to-v");
    push_int(&mut r, target_version);
    r.push_str("-");
    r.push_str(timestamp_text);
    let ghost mid = r@;
    match suffix {
        Some(n) => {
            r.push_str("-");
            push_decimal(&mut r, n as u64);
        },
        None => {},
    }
    r.push_str(".");
    r.push_str(extension);
    assert(r@ =~= backup_file_name(stem@, current_version, target_version, timestamp_text@, extension@, suffix));
    r
}

/// What the file system says about an export destination.
#[derive(Debug)]
pub struct DestinationFacts {
    /// The destination's parent directory, if it has one.
    pub parent: Option<String>,
    pub parent_exists: bool,
    pub parent_is_dir: bool,
    pub destination_is_dir: bool,
}

/// Why an export destination is refused: empty, without a parent, with a
/// parent that is missing or no directory, or itself a directory.
pub fn validate_output_destination(destination: &str, facts: &DestinationFacts) -> (r: Result<(), String>)
    ensures
        destination@.len() == 0 ==> (r matches Err(m) && m@ == "destination path cannot be empty"@),
        destination@.len() != 0 && facts.parent is None ==> (r matches Err(m) && m@ == "destination "@ + destination@ + " has no parent directory"@),
        destination@.len() != 0 && facts.parent is Some && !facts.parent_exists ==> (r matches Err(m) && m@ == "destination directory "@ + opt_view(facts.parent)->0 + " does not exist"@),
        destination@.len() != 0 && facts.parent is Some && facts.parent_exists && !facts.parent_is_dir ==> (r matches Err(m) && m@ == "destination parent "@ + opt_view(facts.parent)->0 + " is not a directory"@),
        destination@.len() != 0 && facts.parent is Some && facts.parent_exists && facts.parent_is_dir && facts.destination_is_dir ==> (r matches Err(m) && m@ == "destination "@ + destination@ + " is a directory"@),
        destination@.len() != 0 && facts.parent is Some && facts.parent_exists && facts.parent_is_dir && !facts.destination_is_dir ==> r is Ok,
{
    if destination.is_empty() {
        return Err(owned("destination path cannot be empty"));
    }
    let parent = match &facts.parent {
        None => {
            let mut m = owned("destination ");
            m.push_str(destination);
            m.push_str(" has no parent directory");
            return Err(m);
        },
        Some(p) => p,
    };
    if !facts.parent_exists {
        let mut m = owned("destination directory ");
        m.push_str(parent.as_str());
        m.push_str(" does not exist");
        return Err(m);
    }
    if !facts.parent_is_dir {
        let mut m = owned("destination parent ");
        m.push_str(parent.as_str());
        m.push_str(" is not a directory");
        return Err(m);
    }
    if facts.destination_is_dir {
        let mut m = owned("destination ");
        m.push_str(destination);
        m.push_str(" is a directory");
        return Err(m);
    }
    Ok(())
}

/// How many of the overlaps `pairs` (a clip and the clip it overlaps) name
/// `clip_id`, on either side.
pub open spec fn overlap_count(pairs: Seq<(i64, i64)>, clip_id: i64) -> nat
    decreases pairs.len(),
{
    if pairs.len() == 0 {
        0
    } else {
        overlap_count(pairs.drop_last(), clip_id) + (if pairs.last().0 == clip_id { 1nat } else { 0nat }) + (if pairs.last().1
            == clip_id {
            1nat
        } else {
            0nat
        })
    }
}

/// How many of `links` name `clip_id`.
pub open spec fn link_count(links: Seq<i64>, clip_id: i64) -> nat
    decreases links.len(),
{
    if links.len() == 0 {
        0
    } else {
        link_count(links.drop_last(), clip_id) + (if links.last() == clip_id { 1nat } else { 0nat })
    }
}

proof fn lemma_overlap_count_bound(pairs: Seq<(i64, i64)>, clip_id: i64)
    ensures
        overlap_count(pairs, clip_id) <= 2 * pairs.len(),
    decreases pairs.len(),
{
    if pairs.len() > 0 {
        lemma_overlap_count_bound(pairs.drop_last(), clip_id);
    }
}

proof fn lemma_link_count_bound(links: Seq<i64>, clip_id: i64)
    ensures
        link_count(links, clip_id) <= links.len(),
    decreases links.len(),
{
    if links.len() > 0 {
        lemma_link_count_bound(links.drop_last(), clip_id);
    }
}

fn count_overlaps(overlaps: &Vec<(i64, i64)>, clip_id: i64) -> (r: u32)
    requires
        2 * overlaps@.len() <= u32::MAX,
    ensures
        r == overlap_count(overlaps@, clip_id),
{
    let mut n: u32 = 0;
    let mut i: usize = 0;
    while i < overlaps.len()
        invariant
            i <= overlaps.len(),
            2 * overlaps@.len() <= u32::MAX,
            n == overlap_count(overlaps@.take(i as int), clip_id),
        decreases overlaps.len() - i,
    {
        proof {
            assert(overlaps@.take(i as int + 1).drop_last() =~= overlaps@.take(i as int));
            lemma_overlap_count_bound(overlaps@.take(i as int), clip_id);
        }
        let (a, b) = overlaps[i];
        if a == clip_id {
            n = n + 1;
        }
        if b == clip_id {
            n = n + 1;
        }
        i = i + 1;
    }
    assert(overlaps@.take(overlaps@.len() as int) =~= overlaps@);
    n
}

fn count_links(links: &Vec<i64>, clip_id: i64) -> (r: u32)
    requires
        links@.len() <= u32::MAX,
    ensures
        r == link_count(links@, clip_id),
{
    let mut n: u32 = 0;
    let mut i: usize = 0;
    while i < links.len()
        invariant
            i <= links.len(),
            links@.len() <= u32::MAX,
            n == link_count(links@.take(i as int), clip_id),
        decreases links.len() - i,
    {
        proof {
            assert(links@.take(i as int + 1).drop_last() =~= links@.take(i as int));
            lemma_link_count_bound(links@.take(i as int), clip_id);
        }
        if links[i] == clip_id {
            n = n + 1;
        }
        i = i + 1;
    }
    assert(links@.take(links@.len() as int) =~= links@);
    n
}

/// For each clip of `clip_ids`, how many overlaps it takes part in, from
/// the overlap records (a clip and the clip it overlaps) that name any of
/// them.
pub fn clip_overlap_counts(clip_ids: &Vec<i64>, overlaps: &Vec<(i64, i64)>) -> (r: Vec<u32>)
    requires
        2 * overlaps@.len() <= u32::MAX,
    ensures
        r@.len() == clip_ids@.len(),
        forall|k: int| 0 <= k < r@.len() ==> r@[k] == overlap_count(overlaps@, #[trigger] clip_ids@[k]),
{
    let mut r: Vec<u32> = Vec::new();
    let mut i: usize = 0;
    while i < clip_ids.len()
        invariant
            i <= clip_ids.len(),
            2 * overlaps@.len() <= u32::MAX,
            r@.len() == i,
            forall|k: int| 0 <= k < i ==> r@[k] == overlap_count(overlaps@, #[trigger] clip_ids@[k]),
        decreases clip_ids.len() - i,
    {
        let n = count_overlaps(overlaps, clip_ids[i]);
        r.push(n);
        i = i + 1;
    }
    r
}

/// For each clip of `clip_ids`, how many alerts it is linked to, from the
/// clips named by the alert links.
pub fn clip_alert_counts(clip_ids: &Vec<i64>, links: &Vec<i64>) -> (r: Vec<u32>)
    requires
        links@.len() <= u32::MAX,
    ensures
        r@.len() == clip_ids@.len(),
        forall|k: int| 0 <= k < r@.len() ==> r@[k] == link_count(links@, #[trigger] clip_ids@[k]),
{
    let mut r: Vec<u32> = Vec::new();
    let mut i: usize = 0;
    while i < clip_ids.len()
        invariant
            i <= clip_ids.len(),
            links@.len() <= u32::MAX,
            r@.len() == i,
            forall|k: int| 0 <= k < i ==> r@[k] == link_count(links@, #[trigger] clip_ids@[k]),
        decreases clip_ids.len() - i,
    {
        let n = count_links(links, clip_ids[i]);
        r.push(n);
        i = i + 1;
    }
    r
}

/// How long, in milliseconds, the spans `[start_a, end_a)` and
/// `[start_b, end_b)` share: negative or zero when they do not meet.
pub open spec fn shared_ms(start_a: int, end_a: int, start_b: int, end_b: int) -> int {
    (if end_a <= end_b { end_a } else { end_b }) - (if start_a >= start_b { start_a } else { start_b })
}

/// The overlap record of two clips, each given by its id and its start and
/// end in Unix milliseconds: the smaller id, the larger and the time they
/// share; none for one clip with itself or clips that share no time.
pub open spec fn overlap_record(id_a: i64, start_a: i64, end_a: i64, id_b: i64, start_b: i64, end_b: i64) -> Option<(i64, i64, int)> {
    let d = shared_ms(start_a as int, end_a as int, start_b as int, end_b as int);
    if id_a == id_b || d <= 0 {
        None
    } else if id_a < id_b {
        Some((id_a, id_b, d))
    } else {
        Some((id_b, id_a, d))
    }
}

/// The overlap to record between a new clip and another one.
pub fn clip_overlap(clip_id: i64, clip_start_ms: i64, clip_end_ms: i64, other_id: i64, other_start_ms: i64, other_end_ms: i64) -> (r: Option<(i64, i64, i64)>)
    requires
        i64::MIN <= shared_ms(clip_start_ms as int, clip_end_ms as int, other_start_ms as int, other_end_ms as int) <= i64::MAX,
    ensures
        match (r, overlap_record(clip_id, clip_start_ms, clip_end_ms, other_id, other_start_ms, other_end_ms)) {
            (Some((a, b, d)), Some((x, y, e))) => a == x && b == y && d == e,
            (None, None) => true,
            _ => false,
        },
{
    if clip_id == other_id || !(other_end_ms > clip_start_ms && other_start_ms < clip_end_ms) {
        return None;
    }
    let end = if clip_end_ms <= other_end_ms { clip_end_ms } else { other_end_ms };
    let start = if clip_start_ms >= other_start_ms { clip_start_ms } else { other_start_ms };
    let d = end - start;
    if d <= 0 {
        return None;
    }
    if clip_id < other_id {
        Some((clip_id, other_id, d))
    } else {
        Some((other_id, clip_id, d))
    }
}

/// Overlap does not depend on which of the two clips is the new one, its
/// time is positive and never longer than either clip, and clips that only
/// touch do not overlap.
pub proof fn lemma_overlap_symmetric(id_a: i64, start_a: i64, end_a: i64, id_b: i64, start_b: i64, end_b: i64)
    ensures
        overlap_record(id_a, start_a, end_a, id_b, start_b, end_b) == overlap_record(id_b, start_b, end_b, id_a, start_a, end_a),
        overlap_record(id_a, start_a, end_a, id_b, start_b, end_b) matches Some((_, _, d)) ==> 0 < d <= end_a - start_a && d
            <= end_b - start_b,
        end_a == start_b || end_b == start_a ==> overlap_record(id_a, start_a, end_a, id_b, start_b, end_b) is None,
{
}

/// The case-folded `LIKE` pattern a clip search matches a filter text
/// with: the text trimmed, between `%` signs, lower-cased; none when the
/// text is blank and the filter is not applied.
pub fn search_like_pattern(filter_text: &str) -> (r: Option<String>)
    ensures
        trim(filter_text@).len() == 0 ==> r is None,
        trim(filter_text@).len() != 0 ==> (r matches Some(p) && p@ == unicode_lowercase("%"@ + trim(filter_text@) + "%"@)),
{
    let t = trim_str(filter_text);
    if t.as_str().is_empty() {
        return None;
    }
    let mut p = owned("%");
    p.push_str(t.as_str());
    p.push_str("%");
    Some(to_lowercase(p.as_str()))
}

// ---------------------------------------------------------------------
// Clip detail: the linked alerts and the overlapping clips, in order
// ---------------------------------------------------------------------

/// An alert linked to a clip; times are milliseconds since the epoch.
#[derive(Debug)]
pub struct ClipAlertRecord {
    pub alert_key: String,
    pub label: String,
    pub world_id: u32,
    pub zone_id: u32,
    pub metagame_event_id: u8,
    pub started_at: i64,
    pub ended_at: Option<i64>,
    pub state_name: String,
    pub winner_faction: Option<String>,
}

pub struct AlertView {
    pub alert_key: Seq<char>,
    pub label: Seq<char>,
    pub world_id: u32,
    pub zone_id: u32,
    pub metagame_event_id: u8,
    pub started_at: i64,
    pub ended_at: Option<i64>,
    pub state_name: Seq<char>,
    pub winner_faction: Option<Seq<char>>,
}

impl View for ClipAlertRecord {
    type V = AlertView;

    open spec fn view(&self) -> AlertView {
        AlertView {
            alert_key: self.alert_key@,
            label: self.label@,
            world_id: self.world_id,
            zone_id: self.zone_id,
            metagame_event_id: self.metagame_event_id,
            started_at: self.started_at,
            ended_at: self.ended_at,
            state_name: self.state_name@,
            winner_faction: opt_view(self.winner_faction),
        }
    }
}

/// Another clip that overlaps the one shown, with how long they overlap;
/// times are milliseconds since the epoch.
#[derive(Debug)]
pub struct ClipOverlapRecord {
    pub clip_id: i64,
    pub trigger_event_at: i64,
    pub clip_start_at: i64,
    pub clip_end_at: i64,
    pub profile_id: String,
    pub rule_id: String,
    pub path: Option<String>,
    pub overlap_duration_ms: i64,
}

pub struct OverlapView {
    pub clip_id: i64,
    pub trigger_event_at: i64,
    pub clip_start_at: i64,
    pub clip_end_at: i64,
    pub profile_id: Seq<char>,
    pub rule_id: Seq<char>,
    pub path: Option<Seq<char>>,
    pub overlap_duration_ms: i64,
}

impl View for ClipOverlapRecord {
    type V = OverlapView;

    open spec fn view(&self) -> OverlapView {
        OverlapView {
            clip_id: self.clip_id,
            trigger_event_at: self.trigger_event_at,
            clip_start_at: self.clip_start_at,
            clip_end_at: self.clip_end_at,
            profile_id: self.profile_id@,
            rule_id: self.rule_id@,
            path: opt_view(self.path),
            overlap_duration_ms: self.overlap_duration_ms,
        }
    }
}

pub open spec fn alerts_view(s: Seq<ClipAlertRecord>) -> Seq<AlertView> {
    s.map_values(|a: ClipAlertRecord| a@)
}

pub open spec fn overlaps_view(s: Seq<ClipOverlapRecord>) -> Seq<OverlapView> {
    s.map_values(|o: ClipOverlapRecord| o@)
}

/// Whether alert `b` is listed after alert `a`: the latest start first, then
/// by key.
pub open spec fn alert_after(b: AlertView, a: AlertView) -> bool {
    a.started_at > b.started_at || (a.started_at == b.started_at && text_lt(a.alert_key, b.alert_key))
}

/// Whether overlap `b` is listed after overlap `a`: the longest overlap
/// first, then the latest trigger.
pub open spec fn overlap_after(b: OverlapView, a: OverlapView) -> bool {
    a.overlap_duration_ms > b.overlap_duration_ms || (a.overlap_duration_ms == b.overlap_duration_ms
        && a.trigger_event_at > b.trigger_event_at)
}

/// The clip an overlap row pairs with `clip_id`: the row's other id.
pub open spec fn partner_of(row: (i64, i64), clip_id: i64) -> i64 {
    if row.0 == clip_id {
        row.1
    } else {
        row.0
    }
}

/// The other clip of each overlap row `(clip_id, overlap_clip_id)` stored
/// for the clip `clip_id`, row by row.
pub fn overlap_partners(rows: &Vec<(i64, i64)>, clip_id: i64) -> (r: Vec<i64>)
    ensures
        r@.len() == rows@.len(),
        forall|i: int| 0 <= i < rows@.len() ==> r@[i] == partner_of(#[trigger] rows@[i], clip_id),
{
    let mut r: Vec<i64> = Vec::new();
    let mut i: usize = 0;
    while i < rows.len()
        invariant
            i <= rows@.len(),
            r@.len() == i,
            forall|k: int| 0 <= k < i ==> r@[k] == partner_of(#[trigger] rows@[k], clip_id),
        decreases rows@.len() - i,
    {
        let (a, b) = rows[i];
        r.push(if a == clip_id { b } else { a });
        i = i + 1;
    }
    r
}

fn alert_sorts_after(b: &ClipAlertRecord, a: &ClipAlertRecord) -> (r: bool)
    ensures
        r == alert_after(b@, a@),
{
    if a.started_at != b.started_at {
        a.started_at > b.started_at
    } else {
        let ka = chars_of(a.alert_key.as_str());
        let kb = chars_of(b.alert_key.as_str());
        text_less(&ka, &kb)
    }
}

fn overlap_sorts_after(b: &ClipOverlapRecord, a: &ClipOverlapRecord) -> (r: bool)
    ensures
        r == overlap_after(b@, a@),
{
    a.overlap_duration_ms > b.overlap_duration_ms || (a.overlap_duration_ms == b.overlap_duration_ms
        && a.trigger_event_at > b.trigger_event_at)
}

/// The alerts as the detail view lists them: the latest start first, then
/// by key, alerts that compare equal in the order given (a stable sort).
pub fn sort_clip_alerts(v: Vec<ClipAlertRecord>) -> (r: Vec<ClipAlertRecord>)
    ensures
        alerts_view(r@) == stable_sorted(alerts_view(v@), |b: AlertView, a: AlertView| alert_after(b, a)),
{
    let ghost after = |b: AlertView, a: AlertView| alert_after(b, a);
    let ghost all = alerts_view(v@);
    let mut input = v;
    let mut out: Vec<ClipAlertRecord> = Vec::new();
    let ghost mut k: int = 0;
    assert(all.take(0) =~= seq![]);
    assert(alerts_view(input@) =~= all.skip(0));
    while input.len() > 0
        invariant
            0 <= k <= all.len(),
            alerts_view(input@) == all.skip(k),
            alerts_view(out@) == stable_sorted(all.take(k), after),
            after == (|b: AlertView, a: AlertView| alert_after(b, a)),
        decreases input.len(),
    {
        let ghost pend = input@;
        assert(all.skip(k).len() == pend.len());
        let x = input.remove(0);
        proof {
            assert(all.skip(k)[0] == all[k]);
            assert forall|m: int| 0 <= m < input@.len() implies #[trigger] alerts_view(input@)[m] == all.skip(k + 1)[m] by {
                assert(input@[m] == pend[m + 1]);
                assert(all.skip(k)[m + 1] == all.skip(k + 1)[m]);
            }
            assert(alerts_view(input@) =~= all.skip(k + 1));
        }
        let mut j: usize = 0;
        let mut found = false;
        let ghost sorted = alerts_view(out@);
        while !found && j < out.len()
            invariant
                j <= out@.len(),
                sorted == alerts_view(out@),
                forall|m: int| 0 <= m < j ==> !alert_after(#[trigger] sorted[m], x@),
                found ==> j < out@.len() && alert_after(sorted[j as int], x@),
            decreases out@.len() - j + (if found { 0int } else { 1int }),
        {
            assert(sorted[j as int] == out@[j as int]@);
            if alert_sorts_after(&out[j], &x) {
                found = true;
            } else {
                j = j + 1;
            }
        }
        proof {
            lemma_insert_position(sorted, x@, after, j as int);
            assert(all.take(k + 1).drop_last() =~= all.take(k));
            assert(all.take(k + 1).last() == all[k]);
        }
        out.insert(j, x);
        proof {
            assert(alerts_view(out@) =~= sorted.insert(j as int, all[k]));
            k = k + 1;
        }
    }
    assert(all.take(k) =~= all);
    out
}

/// The overlapping clips as the detail view lists them: the longest overlap
/// first, then the latest trigger, equal ones in the order given (a stable
/// sort).
pub fn sort_clip_overlaps(v: Vec<ClipOverlapRecord>) -> (r: Vec<ClipOverlapRecord>)
    ensures
        overlaps_view(r@) == stable_sorted(overlaps_view(v@), |b: OverlapView, a: OverlapView| overlap_after(b, a)),
{
    let ghost after = |b: OverlapView, a: OverlapView| overlap_after(b, a);
    let ghost all = overlaps_view(v@);
    let mut input = v;
    let mut out: Vec<ClipOverlapRecord> = Vec::new();
    let ghost mut k: int = 0;
    assert(all.take(0) =~= seq![]);
    assert(overlaps_view(input@) =~= all.skip(0));
    while input.len() > 0
        invariant
            0 <= k <= all.len(),
            overlaps_view(input@) == all.skip(k),
            overlaps_view(out@) == stable_sorted(all.take(k), after),
            after == (|b: OverlapView, a: OverlapView| overlap_after(b, a)),
        decreases input.len(),
    {
        let ghost pend = input@;
        assert(all.skip(k).len() == pend.len());
        let x = input.remove(0);
        proof {
            assert(all.skip(k)[0] == all[k]);
            assert forall|m: int| 0 <= m < input@.len() implies #[trigger] overlaps_view(input@)[m] == all.skip(k + 1)[m] by {
                assert(input@[m] == pend[m + 1]);
                assert(all.skip(k)[m + 1] == all.skip(k + 1)[m]);
            }
            assert(overlaps_view(input@) =~= all.skip(k + 1));
        }
        let mut j: usize = 0;
        let mut found = false;
        let ghost sorted = overlaps_view(out@);
        while !found && j < out.len()
            invariant
                j <= out@.len(),
                sorted == overlaps_view(out@),
                forall|m: int| 0 <= m < j ==> !overlap_after(#[trigger] sorted[m], x@),
                found ==> j < out@.len() && overlap_after(sorted[j as int], x@),
            decreases out@.len() - j + (if found { 0int } else { 1int }),
        {
            assert(sorted[j as int] == out@[j as int]@);
            if overlap_sorts_after(&out[j], &x) {
                found = true;
            } else {
                j = j + 1;
            }
        }
        proof {
            lemma_insert_position(sorted, x@, after, j as int);
            assert(all.take(k + 1).drop_last() =~= all.take(k));
            assert(all.take(k + 1).last() == all[k]);
        }
        out.insert(j, x);
        proof {
            assert(overlaps_view(out@) =~= sorted.insert(j as int, all[k]));
            k = k + 1;
        }
    }
    assert(all.take(k) =~= all);
    out
}

} // verus!
