//! The whole settings file and its normalisation: every section through its
//! own normalisation, the schema version, the clip naming template, the
//! active profile, the rules each profile enables, and the auto-switch rules
//! with the conversion of their older forms.
use vstd::prelude::*;
use crate::config::{
    clamp, default_naming_template, is_default_save_dir, normalized_active_profile_id, normalized_clip_naming_template,
    normalized_post_process_bitrate, normalized_premix_track_title, normalized_window_secs, opt_view, retained_rule_ids,
    setting_or, strings_view, trimmed_opt, urlish_or, version_history, AppUpdateConfig, BackendConfigs, CaptureBackend,
    CharacterConfig, DiscordWebhookConfig, LaunchAtLoginConfig, ManualClipConfig, StorageTieringConfig, UploadsConfig,
    CopypartyUploadConfig, YouTubeUploadConfig, default_capture_backend, default_clip_naming_template,
    platform_default_backend,
};
use crate::platform::Platform;
use crate::config::strings_contain;
use crate::gsr::join_path;
use crate::text::{owned, trim};

verus! {

/// The schema version that normalised settings carry.
pub const SCHEMA_VERSION: u32 = 9;

/// A clip rule as far as normalisation touches it: its id and how many
/// seconds after a scored event a clip is extended.
#[derive(Debug)]
pub struct RuleDefinitionSettings {
    pub id: String,
    pub window_secs: u32,
}

/// A rule profile: its id and the rules it enables.
#[derive(Debug)]
pub struct RuleProfileSettings {
    pub id: String,
    pub enabled_rule_ids: Vec<String>,
}

/// A day of the week a schedule runs on.
#[derive(Debug, Clone, Copy, PartialEq, Eq, Structural)]
pub enum ScheduleWeekday {
    Monday,
    Tuesday,
    Wednesday,
    Thursday,
    Friday,
    Saturday,
    Sunday,
}

/// When an auto-switch rule applies. `LocalTimeRange`, `LocalCron` and
/// `OnEvent` are the forms older settings files hold; `OnEvent` keeps the
/// name of the event kind it waited for.
#[derive(Debug)]
pub enum AutoSwitchCondition {
    LocalSchedule { weekdays: Vec<ScheduleWeekday>, start_hour: u8, start_minute: u8, end_hour: u8, end_minute: u8 },
    ActiveCharacter { character_ids: Vec<u64>, character_id: Option<u64> },
    LocalTimeRange { start_hour: u8, end_hour: u8 },
    LocalCron { expression: String },
    OnEvent { event: String },
}

pub enum ConditionView {
    LocalSchedule { weekdays: Seq<ScheduleWeekday>, start_hour: u8, start_minute: u8, end_hour: u8, end_minute: u8 },
    ActiveCharacter { character_ids: Seq<u64>, character_id: Option<u64> },
    LocalTimeRange { start_hour: u8, end_hour: u8 },
    LocalCron { expression: Seq<char> },
    OnEvent { event: Seq<char> },
}

impl View for AutoSwitchCondition {
    type V = ConditionView;

    open spec fn view(&self) -> ConditionView {
        match self {
            AutoSwitchCondition::LocalSchedule { weekdays, start_hour, start_minute, end_hour, end_minute } => {
                ConditionView::LocalSchedule {
                    weekdays: weekdays@,
                    start_hour: *start_hour,
                    start_minute: *start_minute,
                    end_hour: *end_hour,
                    end_minute: *end_minute,
                }
            },
            AutoSwitchCondition::ActiveCharacter { character_ids, character_id } => ConditionView::ActiveCharacter {
                character_ids: character_ids@,
                character_id: *character_id,
            },
            AutoSwitchCondition::LocalTimeRange { start_hour, end_hour } => ConditionView::LocalTimeRange {
                start_hour: *start_hour,
                end_hour: *end_hour,
            },
            AutoSwitchCondition::LocalCron { expression } => ConditionView::LocalCron { expression: expression@ },
            AutoSwitchCondition::OnEvent { event } => ConditionView::OnEvent { event: event@ },
        }
    }
}

/// A rule that switches to the profile `target_profile_id` while its
/// condition holds.
#[derive(Debug)]
pub struct AutoSwitchRuleSettings {
    pub id: String,
    pub name: String,
    pub enabled: bool,
    pub target_profile_id: String,
    pub condition: AutoSwitchCondition,
}

pub struct SwitchRuleView {
    pub id: Seq<char>,
    pub name: Seq<char>,
    pub enabled: bool,
    pub target_profile_id: Seq<char>,
    pub condition: ConditionView,
}

impl View for AutoSwitchRuleSettings {
    type V = SwitchRuleView;

    open spec fn view(&self) -> SwitchRuleView {
        SwitchRuleView {
            id: self.id@,
            name: self.name@,
            enabled: self.enabled,
            target_profile_id: self.target_profile_id@,
            condition: self.condition@,
        }
    }
}

pub open spec fn switch_views(s: Seq<AutoSwitchRuleSettings>) -> Seq<SwitchRuleView> {
    s.map_values(|r: AutoSwitchRuleSettings| r@)
}

/// Every day of the week, Monday first.
pub open spec fn every_weekday() -> Seq<ScheduleWeekday> {
    seq![
        ScheduleWeekday::Monday,
        ScheduleWeekday::Tuesday,
        ScheduleWeekday::Wednesday,
        ScheduleWeekday::Thursday,
        ScheduleWeekday::Friday,
        ScheduleWeekday::Saturday,
        ScheduleWeekday::Sunday,
    ]
}

/// The characters an active-character rule waits for once the single id of
/// older files is merged in: the list, and the single id after it when the
/// list does not hold it yet.
pub open spec fn with_legacy_id(ids: Seq<u64>, id: Option<u64>) -> Seq<u64> {
    match id {
        Some(x) => if ids.contains(x) {
            ids
        } else {
            ids.push(x)
        },
        None => ids,
    }
}

/// The id of the first character whose id has been resolved.
pub open spec fn first_resolved_id(chars: Seq<CharacterConfig>) -> Option<u64>
    decreases chars.len(),
{
    if chars.len() == 0 {
        None
    } else {
        match chars[0].character_id {
            Some(x) => Some(x),
            None => first_resolved_id(chars.drop_first()),
        }
    }
}

/// A rule's condition in its current form: a local time range becomes a
/// schedule on every day, a legacy event rule a rule for the first resolved
/// character, and an active-character rule takes in its single legacy id.
/// Schedules and cron expressions are kept as they are.
pub open spec fn migrated_condition(c: ConditionView, first: Option<u64>) -> ConditionView {
    match c {
        ConditionView::ActiveCharacter { character_ids, character_id } => ConditionView::ActiveCharacter {
            character_ids: with_legacy_id(character_ids, character_id),
            character_id: None,
        },
        ConditionView::LocalTimeRange { start_hour, end_hour } => ConditionView::LocalSchedule {
            weekdays: every_weekday(),
            start_hour,
            start_minute: 0,
            end_hour,
            end_minute: 0,
        },
        ConditionView::OnEvent { .. } => ConditionView::ActiveCharacter {
            character_ids: match first {
                Some(x) => seq![x],
                None => Seq::<u64>::empty(),
            },
            character_id: None,
        },
        _ => c,
    }
}

pub open spec fn migrated_rule(r: SwitchRuleView, first: Option<u64>) -> SwitchRuleView {
    SwitchRuleView { condition: migrated_condition(r.condition, first), ..r }
}

pub open spec fn migrated_rules(rules: Seq<SwitchRuleView>, first: Option<u64>) -> Seq<SwitchRuleView> {
    rules.map_values(|r: SwitchRuleView| migrated_rule(r, first))
}

/// What the user is told about a rule that was converted.
pub open spec fn migration_note(r: SwitchRuleView) -> Option<Seq<char>> {
    match r.condition {
        ConditionView::LocalTimeRange { .. } => Some(
            "Converted legacy local time rule `"@ + r.name + "` into a weekday schedule."@,
        ),
        ConditionView::OnEvent { .. } => Some(
            "Converted legacy event rule `"@ + r.name
                + "` into an active-character rule that needs a character selection."@,
        ),
        _ => None,
    }
}

/// The notes of the converted rules, in order, joined by spaces; empty when
/// no rule was converted.
pub open spec fn migration_notes(rules: Seq<SwitchRuleView>) -> Seq<char>
    decreases rules.len(),
{
    if rules.len() == 0 {
        Seq::<char>::empty()
    } else {
        let prev = migration_notes(rules.drop_last());
        match migration_note(rules.last()) {
            None => prev,
            Some(n) => if prev.len() == 0 {
                n
            } else {
                prev + " "@ + n
            },
        }
    }
}

/// The auto-switch rules normalisation keeps: each in its current form, and
/// only those whose target profile exists.
pub open spec fn switch_rules_after(rules: Seq<SwitchRuleView>, profile_ids: Seq<Seq<char>>, first: Option<u64>) -> Seq<
    SwitchRuleView,
> {
    migrated_rules(rules, first).filter(|r: SwitchRuleView| profile_ids.contains(r.target_profile_id))
}

/// The settings file, with the sections this library models.
#[derive(Debug)]
pub struct Config {
    pub schema_version: u32,
    pub service_id: String,
    pub characters: Vec<CharacterConfig>,
    pub rule_definitions: Vec<RuleDefinitionSettings>,
    pub rule_profiles: Vec<RuleProfileSettings>,
    pub auto_switch_rules: Vec<AutoSwitchRuleSettings>,
    pub active_profile_id: String,
    pub launch_at_login: LaunchAtLoginConfig,
    pub auto_start_monitoring: bool,
    pub start_minimized: bool,
    pub minimize_to_tray: bool,
    pub clip_naming_template: String,
    pub manual_clip: ManualClipConfig,
    pub storage_tiering: StorageTieringConfig,
    pub uploads: UploadsConfig,
    pub discord_webhook: DiscordWebhookConfig,
    pub capture_backend: CaptureBackend,
    pub updates: AppUpdateConfig,
    pub backends: BackendConfigs,
    pub premix_track_title: String,
    pub post_process_bitrate_kbps: u32,
    pub migration_notice: Option<String>,
}

impl Config {
    /// The settings a new install starts from on `platform`: no characters,
    /// rules, profiles or auto-switch rules, every section at its default,
    /// and the platform's own capture backend.
    pub fn default_for(platform: Platform) -> (r: Self)
        ensures
            r.schema_version == SCHEMA_VERSION,
            r.service_id@ == "s:example"@,
            r.characters@.len() == 0,
            r.rule_definitions@.len() == 0,
            r.rule_profiles@.len() == 0,
            r.auto_switch_rules@.len() == 0,
            r.active_profile_id@ == Seq::<char>::empty(),
            !r.auto_start_monitoring,
            !r.start_minimized,
            !r.minimize_to_tray,
            r.clip_naming_template@ == default_naming_template(),
            r.capture_backend == platform_default_backend(platform),
            r.premix_track_title@ == "Mixed"@,
            r.post_process_bitrate_kbps == 192,
            r.migration_notice is None,
    {
        Config {
            schema_version: SCHEMA_VERSION,
            service_id: owned("s:example"),
            characters: Vec::new(),
            rule_definitions: Vec::new(),
            rule_profiles: Vec::new(),
            auto_switch_rules: Vec::new(),
            active_profile_id: String::new(),
            launch_at_login: LaunchAtLoginConfig::default(),
            auto_start_monitoring: false,
            start_minimized: false,
            minimize_to_tray: false,
            clip_naming_template: default_clip_naming_template(),
            manual_clip: ManualClipConfig::default(),
            storage_tiering: StorageTieringConfig::default(),
            uploads: UploadsConfig { copyparty: CopypartyUploadConfig::default(), youtube: YouTubeUploadConfig::default() },
            discord_webhook: DiscordWebhookConfig::default(),
            capture_backend: default_capture_backend(platform),
            updates: AppUpdateConfig::default(),
            backends: BackendConfigs::default(),
            premix_track_title: owned("Mixed"),
            post_process_bitrate_kbps: 192,
            migration_notice: None,
        }
    }
}

/// The manual clip section after its normalisation.
pub open spec fn manual_clip_normalized(o: ManualClipConfig, n: ManualClipConfig) -> bool {
    &&& n.enabled == o.enabled
    &&& n.hotkey@ == (if trim(o.hotkey@).len() == 0 {
        "Ctrl+Shift+F8"@
    } else {
        o.hotkey@
    })
    &&& n.duration_secs == clamp(o.duration_secs as int, 5, 300)
}

/// The storage tiering section after its normalisation.
pub open spec fn storage_tiering_normalized(o: StorageTieringConfig, n: StorageTieringConfig) -> bool {
    &&& n.enabled == o.enabled
    &&& o.tier_directory@.len() != 0 ==> n.tier_directory@ == o.tier_directory@
    &&& o.tier_directory@.len() == 0 ==> exists|d: Seq<char>| is_default_save_dir(d) && n.tier_directory@ == #[trigger] join_path(d, "archive"@)
    &&& n.min_age_days == clamp(o.min_age_days as int, 1, 3650)
    &&& n.max_score == clamp(o.max_score as int, 1, 10_000)
}

/// The uploads section after its normalisation.
pub open spec fn uploads_normalized(o: UploadsConfig, n: UploadsConfig) -> bool {
    &&& n.copyparty.enabled == o.copyparty.enabled
    &&& n.copyparty.upload_url@ == urlish_or(o.copyparty.upload_url@, Seq::<char>::empty())
    &&& n.copyparty.public_base_url@ == urlish_or(o.copyparty.public_base_url@, Seq::<char>::empty())
    &&& n.copyparty.username@ == trim(o.copyparty.username@)
    &&& n.youtube.enabled == o.youtube.enabled
    &&& n.youtube.client_id@ == trim(o.youtube.client_id@)
    &&& n.youtube.privacy_status == o.youtube.privacy_status
}

/// The Discord webhook section after its normalisation.
pub open spec fn discord_normalized(o: DiscordWebhookConfig, n: DiscordWebhookConfig) -> bool {
    &&& n.enabled == o.enabled
    &&& n.min_score == clamp(o.min_score as int, 1, 10_000)
    &&& n.include_thumbnail == o.include_thumbnail
}

/// The backend settings after their normalisation.
pub open spec fn backends_normalized(o: BackendConfigs, n: BackendConfigs) -> bool {
    &&& n.gsr.capture_source@ == (if trim(o.gsr.capture_source@).len() == 0 || o.gsr.capture_source@ == "screen"@ {
        "planetside2"@
    } else {
        o.gsr.capture_source@
    })
    &&& n.gsr.framerate == o.gsr.framerate
    &&& n.gsr.codec@ == setting_or(o.gsr.codec@, "h264"@)
    &&& n.gsr.container@ == setting_or(o.gsr.container@, "mkv"@)
    &&& n.gsr.quality@ == setting_or(o.gsr.quality@, "40000"@)
    &&& n.obs.websocket_url@ == urlish_or(o.obs.websocket_url@, "ws://127.0.0.1:4455"@)
    &&& n.obs.management_mode == o.obs.management_mode
    &&& opt_view(n.obs.websocket_password) == trimmed_opt(opt_view(o.obs.websocket_password))
}

/// The update settings after their normalisation at `now`.
pub open spec fn updates_normalized(o: AppUpdateConfig, n: AppUpdateConfig, now: i64) -> bool {
    &&& n.auto_check == o.auto_check
    &&& n.channel == o.channel
    &&& n.last_check_utc == o.last_check_utc
    &&& opt_view(n.skipped_version) == trimmed_opt(opt_view(o.skipped_version))
    &&& opt_view(n.install_id) == trimmed_opt(opt_view(o.install_id))
    &&& opt_view(n.current_version) == trimmed_opt(opt_view(o.current_version))
    &&& strings_view(n.installed_version_history@) == version_history(
        strings_view(o.installed_version_history@),
        trimmed_opt(opt_view(o.current_version)),
    )
    &&& match o.remind_later_until_utc {
        Some(until) if until <= now => {
            &&& n.remind_later_until_utc is None
            &&& n.remind_later_version is None
        },
        _ => {
            &&& n.remind_later_until_utc == o.remind_later_until_utc
            &&& opt_view(n.remind_later_version) == trimmed_opt(opt_view(o.remind_later_version))
        },
    }
}

/// The ids of the rules.
pub open spec fn rule_ids(defs: Seq<RuleDefinitionSettings>) -> Seq<Seq<char>> {
    defs.map_values(|d: RuleDefinitionSettings| d.id@)
}

/// The ids of the profiles.
pub open spec fn profile_ids(profiles: Seq<RuleProfileSettings>) -> Seq<Seq<char>> {
    profiles.map_values(|p: RuleProfileSettings| p.id@)
}

/// The active profile normalisation keeps: the active one while a profile
/// has its id, else the first profile, else none (empty).
pub open spec fn active_profile_after(ids: Seq<Seq<char>>, active: Seq<char>) -> Seq<char> {
    if ids.contains(active) {
        active
    } else if ids.len() > 0 {
        ids[0]
    } else {
        Seq::<char>::empty()
    }
}

/// After normalisation every auto-switch rule targets one of the profiles;
/// and when no rule held a legacy cron expression, every rule waits for a
/// local schedule or for active characters, with no single legacy id left.
pub proof fn lemma_switch_rules_current(rules: Seq<SwitchRuleView>, profile_ids: Seq<Seq<char>>, first: Option<u64>)
    ensures
        forall|k: int|
            0 <= k < switch_rules_after(rules, profile_ids, first).len() ==> profile_ids.contains(
                (#[trigger] switch_rules_after(rules, profile_ids, first)[k]).target_profile_id,
            ),
        (forall|i: int| 0 <= i < rules.len() ==> !((#[trigger] rules[i]).condition is LocalCron)) ==> forall|k: int|
            0 <= k < switch_rules_after(rules, profile_ids, first).len() ==> {
                let c = (#[trigger] switch_rules_after(rules, profile_ids, first)[k]).condition;
                c is LocalSchedule || c matches ConditionView::ActiveCharacter { character_id: None, .. }
            },
{
    let m = migrated_rules(rules, first);
    let pred = |r: SwitchRuleView| profile_ids.contains(r.target_profile_id);
    let out = switch_rules_after(rules, profile_ids, first);
    assert(out == m.filter(pred));
    assert forall|k: int| 0 <= k < out.len() implies profile_ids.contains((#[trigger] out[k]).target_profile_id) by {
        m.lemma_filter_pred(pred, k);
    }
    if forall|i: int| 0 <= i < rules.len() ==> !((#[trigger] rules[i]).condition is LocalCron) {
        assert forall|k: int| 0 <= k < out.len() implies {
            let c = (#[trigger] out[k]).condition;
            c is LocalSchedule || c matches ConditionView::ActiveCharacter { character_id: None, .. }
        } by {
            assert(out.contains(out[k]));
            m.lemma_filter_contains_rev(pred, out[k]);
            let j = choose|j: int| 0 <= j < m.len() && m[j] == out[k];
            assert(m[j] == migrated_rule(rules[j], first));
            assert(!(rules[j].condition is LocalCron));
        }
    }
}

/// The id of the first character whose id has been resolved.
fn first_character_id(chars: &Vec<CharacterConfig>) -> (r: Option<u64>)
    ensures
        r == first_resolved_id(chars@),
{
    let mut i: usize = 0;
    assert(chars@.skip(0) =~= chars@);
    while i < chars.len()
        invariant
            i <= chars@.len(),
            first_resolved_id(chars@) == first_resolved_id(chars@.skip(i as int)),
        decreases chars@.len() - i,
    {
        assert(chars@.skip(i as int)[0] == chars@[i as int]);
        assert(chars@.skip(i as int).drop_first() =~= chars@.skip(i + 1));
        if let Some(x) = chars[i].character_id {
            return Some(x);
        }
        i = i + 1;
    }
    assert(chars@.skip(i as int).len() == 0);
    None
}

/// Whether `v` holds `x`.
fn ids_contain(v: &Vec<u64>, x: u64) -> (r: bool)
    ensures
        r == v@.contains(x),
{
    let mut i: usize = 0;
    while i < v.len()
        invariant
            i <= v@.len(),
            forall|k: int| 0 <= k < i ==> v@[k] != x,
        decreases v@.len() - i,
    {
        if v[i] == x {
            assert(v@[i as int] == x);
            return true;
        }
        i = i + 1;
    }
    false
}

/// Every day of the week, Monday first.
fn every_weekday_list() -> (r: Vec<ScheduleWeekday>)
    ensures
        r@ == every_weekday(),
{
    let mut r: Vec<ScheduleWeekday> = Vec::new();
    r.push(ScheduleWeekday::Monday);
    r.push(ScheduleWeekday::Tuesday);
    r.push(ScheduleWeekday::Wednesday);
    r.push(ScheduleWeekday::Thursday);
    r.push(ScheduleWeekday::Friday);
    r.push(ScheduleWeekday::Saturday);
    r.push(ScheduleWeekday::Sunday);
    assert(r@ =~= every_weekday());
    r
}

/// A rule with its condition in its current form.
fn migrate_rule(r: AutoSwitchRuleSettings, first: Option<u64>) -> (out: AutoSwitchRuleSettings)
    ensures
        out@ == migrated_rule(r@, first),
{
    let ghost rv = r@;
    let condition = match r.condition {
        AutoSwitchCondition::ActiveCharacter { character_ids, character_id } => {
            let mut ids = character_ids;
            if let Some(x) = character_id {
                if !ids_contain(&ids, x) {
                    ids.push(x);
                }
            }
            AutoSwitchCondition::ActiveCharacter { character_ids: ids, character_id: None }
        },
        AutoSwitchCondition::LocalTimeRange { start_hour, end_hour } => AutoSwitchCondition::LocalSchedule {
            weekdays: every_weekday_list(),
            start_hour,
            start_minute: 0,
            end_hour,
            end_minute: 0,
        },
        AutoSwitchCondition::OnEvent { .. } => {
            let mut ids: Vec<u64> = Vec::new();
            if let Some(x) = first {
                ids.push(x);
                assert(ids@ =~= seq![x]);
            }
            AutoSwitchCondition::ActiveCharacter { character_ids: ids, character_id: None }
        },
        other => other,
    };
    let out = AutoSwitchRuleSettings {
        id: r.id,
        name: r.name,
        enabled: r.enabled,
        target_profile_id: r.target_profile_id,
        condition,
    };
    assert(out@ == migrated_rule(rv, first));
    out
}

/// The note for a rule that normalisation converts.
fn rule_note(r: &AutoSwitchRuleSettings) -> (n: Option<String>)
    ensures
        opt_view(n) == migration_note(r@),
{
    match &r.condition {
        AutoSwitchCondition::LocalTimeRange { .. } => {
            let mut t = owned("Converted legacy local time rule `");
            t.push_str(r.name.as_str());
            t.push_str("` into a weekday schedule.");
            Some(t)
        },
        AutoSwitchCondition::OnEvent { .. } => {
            let mut t = owned("Converted legacy event rule `");
            t.push_str(r.name.as_str());
            t.push_str("` into an active-character rule that needs a character selection.");
            Some(t)
        },
        _ => None,
    }
}

/// The auto-switch rules in their current form, only those whose target is
/// among `pids`, and the notes of the conversions.
fn normalized_switch_rules(rules: Vec<AutoSwitchRuleSettings>, pids: &Vec<String>, first: Option<u64>) -> (r: (
    Vec<AutoSwitchRuleSettings>,
    String,
))
    ensures
        switch_views(r.0@) == switch_rules_after(switch_views(rules@), strings_view(pids@), first),
        r.1@ == migration_notes(switch_views(rules@)),
{
    let mut pending = rules;
    let ghost old_rules = switch_views(rules@);
    let ghost pid_view = strings_view(pids@);
    let mut kept: Vec<AutoSwitchRuleSettings> = Vec::new();
    let mut notes = String::new();
    let ghost mut k: int = 0;
    assert(switch_views(pending@) =~= old_rules.skip(0));
    assert(old_rules.take(0) =~= Seq::<SwitchRuleView>::empty());
    proof {
        reveal(Seq::filter);
        assert(migrated_rules(old_rules.take(0), first) =~= Seq::<SwitchRuleView>::empty());
    }
    while pending.len() > 0
        invariant
            0 <= k <= old_rules.len(),
            switch_views(pending@) == old_rules.skip(k),
            strings_view(pids@) == pid_view,
            switch_views(kept@) == switch_rules_after(old_rules.take(k), pid_view, first),
            notes@ == migration_notes(old_rules.take(k)),
        decreases pending@.len(),
    {
        let ghost pend = pending@;
        assert(old_rules.skip(k).len() == pend.len());
        let r = pending.remove(0);
        proof {
            assert(old_rules.skip(k)[0] == old_rules[k]);
            assert(r@ == old_rules[k]);
            assert forall|j: int| 0 <= j < pending@.len() implies #[trigger] switch_views(pending@)[j] == old_rules.skip(k + 1)[j] by {
                assert(pending@[j] == pend[j + 1]);
                assert(old_rules.skip(k)[j + 1] == old_rules.skip(k + 1)[j]);
            }
            assert(switch_views(pending@) =~= old_rules.skip(k + 1));
        }
        let ghost t1 = old_rules.take(k + 1);
        assert(t1.drop_last() =~= old_rules.take(k));
        assert(t1.last() == old_rules[k]);
        let note = rule_note(&r);
        match note {
            Some(n) => {
                if notes.as_str().is_empty() {
                    notes = n;
                } else {
                    notes.push_str(" ");
                    notes.push_str(n.as_str());
                }
            },
            None => {},
        }
        assert(notes@ == migration_notes(t1));
        let target_ok = strings_contain(pids, r.target_profile_id.as_str());
        let m = migrate_rule(r, first);
        let ghost before = switch_views(kept@);
        if target_ok {
            kept.push(m);
            assert(switch_views(kept@) =~= before.push(m@));
        }
        proof {
            let mt = migrated_rules(t1, first);
            assert(mt.drop_last() =~= migrated_rules(old_rules.take(k), first));
            assert(mt.last() == migrated_rule(old_rules[k], first));
            reveal(Seq::filter);
            assert(switch_views(kept@) == switch_rules_after(t1, pid_view, first));
        }
        proof {
            k = k + 1;
        }
    }
    assert(old_rules.take(old_rules.len() as int) =~= old_rules);
    (kept, notes)
}

/// Normalises the whole settings at time `now`: the schema version is set,
/// a blank clip naming template reset, every section normalised, the rules'
/// windows made at least a second, each profile left with only the rules
/// that exist, the active profile kept only while a profile has its id, and
/// the auto-switch rules brought to their current form, only those whose
/// target profile exists kept; the conversions are noted unless a notice is
/// already waiting.
#[verifier::rlimit(40)]
pub fn normalize_config(config: &mut Config, now: i64)
    ensures
        final(config).schema_version == SCHEMA_VERSION,
        final(config).clip_naming_template@ == (if trim(old(config).clip_naming_template@).len() == 0 {
            default_naming_template()
        } else {
            old(config).clip_naming_template@
        }),
        manual_clip_normalized(old(config).manual_clip, final(config).manual_clip),
        storage_tiering_normalized(old(config).storage_tiering, final(config).storage_tiering),
        uploads_normalized(old(config).uploads, final(config).uploads),
        discord_normalized(old(config).discord_webhook, final(config).discord_webhook),
        final(config).launch_at_login == old(config).launch_at_login,
        final(config).capture_backend == old(config).capture_backend,
        updates_normalized(old(config).updates, final(config).updates, now),
        backends_normalized(old(config).backends, final(config).backends),
        final(config).premix_track_title@ == (if trim(old(config).premix_track_title@).len() == 0 {
            "Mixed"@
        } else {
            trim(old(config).premix_track_title@)
        }),
        final(config).post_process_bitrate_kbps == clamp(old(config).post_process_bitrate_kbps as int, 32, 512),
        final(config).rule_definitions@.len() == old(config).rule_definitions@.len(),
        forall|i: int|
            0 <= i < final(config).rule_definitions@.len() ==> (#[trigger] final(config).rule_definitions@[i]).id@
                == old(config).rule_definitions@[i].id@ && final(config).rule_definitions@[i].window_secs == (if old(
                config,
            ).rule_definitions@[i].window_secs == 0 {
                1
            } else {
                old(config).rule_definitions@[i].window_secs
            }),
        final(config).rule_profiles@.len() == old(config).rule_profiles@.len(),
        forall|i: int|
            0 <= i < final(config).rule_profiles@.len() ==> (#[trigger] final(config).rule_profiles@[i]).id@
                == old(config).rule_profiles@[i].id@ && strings_view(final(config).rule_profiles@[i].enabled_rule_ids@)
                == strings_view(old(config).rule_profiles@[i].enabled_rule_ids@).filter(
                |id: Seq<char>| rule_ids(old(config).rule_definitions@).contains(id),
            ),
        final(config).active_profile_id@ == active_profile_after(
            profile_ids(old(config).rule_profiles@),
            old(config).active_profile_id@,
        ),
        final(config).service_id == old(config).service_id,
        final(config).characters == old(config).characters,
        final(config).auto_start_monitoring == old(config).auto_start_monitoring,
        final(config).start_minimized == old(config).start_minimized,
        final(config).minimize_to_tray == old(config).minimize_to_tray,
        switch_views(final(config).auto_switch_rules@) == switch_rules_after(
            switch_views(old(config).auto_switch_rules@),
            profile_ids(old(config).rule_profiles@),
            first_resolved_id(old(config).characters@),
        ),
        (old(config).migration_notice is None && migration_notes(switch_views(old(config).auto_switch_rules@)).len() > 0)
            ==> opt_view(final(config).migration_notice) == Some(
            migration_notes(switch_views(old(config).auto_switch_rules@)),
        ),
        !(old(config).migration_notice is None && migration_notes(switch_views(old(config).auto_switch_rules@)).len() > 0)
            ==> final(config).migration_notice == old(config).migration_notice,
{
    config.schema_version = SCHEMA_VERSION;
    config.clip_naming_template = normalized_clip_naming_template(config.clip_naming_template.as_str());
    config.manual_clip.normalize();
    config.storage_tiering.normalize();
    config.uploads.normalize();
    config.discord_webhook.normalize();
    config.updates.normalize(now);
    config.backends.normalize();
    config.premix_track_title = normalized_premix_track_title(config.premix_track_title.as_str());
    config.post_process_bitrate_kbps = normalized_post_process_bitrate(config.post_process_bitrate_kbps);

    let ghost old_defs = config.rule_definitions@;
    let mut ids: Vec<String> = Vec::new();
    let mut defs: Vec<RuleDefinitionSettings> = Vec::new();
    let mut i: usize = 0;
    while i < config.rule_definitions.len()
        invariant
            i <= config.rule_definitions@.len(),
            config.rule_definitions@ == old_defs,
            strings_view(ids@) == rule_ids(old_defs).take(i as int),
            defs@.len() == i,
            forall|k: int|
                0 <= k < i ==> (#[trigger] defs@[k]).id@ == old_defs[k].id@ && defs@[k].window_secs == (if old_defs[k].window_secs
                    == 0 {
                    1
                } else {
                    old_defs[k].window_secs
                }),
        decreases config.rule_definitions@.len() - i,
    {
        let d = &config.rule_definitions[i];
        let ghost before = strings_view(ids@);
        ids.push(owned(d.id.as_str()));
        assert(strings_view(ids@) =~= before.push(old_defs[i as int].id@));
        assert(rule_ids(old_defs).take(i + 1) =~= rule_ids(old_defs).take(i as int).push(old_defs[i as int].id@));
        defs.push(RuleDefinitionSettings { id: owned(d.id.as_str()), window_secs: normalized_window_secs(d.window_secs) });
        i = i + 1;
        assert(strings_view(ids@) =~= rule_ids(old_defs).take(i as int));
    }
    assert(rule_ids(old_defs).take(old_defs.len() as int) =~= rule_ids(old_defs));

    let ghost old_profiles = config.rule_profiles@;
    let mut pids: Vec<String> = Vec::new();
    let mut profiles: Vec<RuleProfileSettings> = Vec::new();
    let mut j: usize = 0;
    while j < config.rule_profiles.len()
        invariant
            j <= config.rule_profiles@.len(),
            config.rule_profiles@ == old_profiles,
            strings_view(ids@) == rule_ids(old_defs),
            strings_view(pids@) == profile_ids(old_profiles).take(j as int),
            profiles@.len() == j,
            forall|k: int|
                0 <= k < j ==> (#[trigger] profiles@[k]).id@ == old_profiles[k].id@ && strings_view(profiles@[k].enabled_rule_ids@)
                    == strings_view(old_profiles[k].enabled_rule_ids@).filter(|id: Seq<char>| rule_ids(old_defs).contains(id)),
        decreases config.rule_profiles@.len() - j,
    {
        let p = &config.rule_profiles[j];
        let kept = retained_rule_ids(&p.enabled_rule_ids, &ids);
        let ghost before = strings_view(pids@);
        pids.push(owned(p.id.as_str()));
        assert(strings_view(pids@) =~= before.push(old_profiles[j as int].id@));
        assert(profile_ids(old_profiles).take(j + 1) =~= profile_ids(old_profiles).take(j as int).push(old_profiles[j as int].id@));
        profiles.push(RuleProfileSettings { id: owned(p.id.as_str()), enabled_rule_ids: kept });
        j = j + 1;
        assert(strings_view(pids@) =~= profile_ids(old_profiles).take(j as int));
    }
    assert(profile_ids(old_profiles).take(old_profiles.len() as int) =~= profile_ids(old_profiles));

    let first = first_character_id(&config.characters);
    let mut pending: Vec<AutoSwitchRuleSettings> = Vec::new();
    std::mem::swap(&mut pending, &mut config.auto_switch_rules);
    let (kept, notes) = normalized_switch_rules(pending, &pids, first);
    config.auto_switch_rules = kept;
    if config.migration_notice.is_none() && !notes.as_str().is_empty() {
        config.migration_notice = Some(notes);
    }
    let active = normalized_active_profile_id(&pids, config.active_profile_id.as_str());
    config.active_profile_id = active;
    config.rule_definitions = defs;
    config.rule_profiles = profiles;
}

} // verus!
