//! Background job bookkeeping: job kinds and states with their stored names,
//! and the board that tracks queued and running jobs, applies the events that
//! running jobs report, and keeps a bounded history of finished jobs.
use vstd::prelude::*;
use std::collections::VecDeque;
use crate::text::{is_blank, owned, str_eq, trim};

verus! {

broadcast use vstd::std_specs::vecdeque::group_vec_dequeue_axioms;

/// How many finished jobs the history keeps.
pub const HISTORY_LIMIT: usize = 24;

/// The message a cancelled job ends with.
pub open spec fn cancelled_message() -> Seq<char> {
    "Job cancelled."@
}

#[derive(Clone, Copy, PartialEq, Eq, Debug)]
pub struct BackgroundJobId(pub u64);

#[derive(Clone, Copy, PartialEq, Eq, Debug, Structural)]
pub enum BackgroundJobKind {
    StorageTiering,
    Upload,
    Montage,
    DiscordWebhook,
    PostProcess,
}

pub open spec fn kind_name(kind: BackgroundJobKind) -> Seq<char> {
    match kind {
        BackgroundJobKind::StorageTiering => "storage_tiering"@,
        BackgroundJobKind::Upload => "upload"@,
        BackgroundJobKind::Montage => "montage"@,
        BackgroundJobKind::DiscordWebhook => "discord_webhook"@,
        BackgroundJobKind::PostProcess => "post_process"@,
    }
}

pub open spec fn kind_from_name(value: Seq<char>) -> BackgroundJobKind {
    if value == "upload"@ {
        BackgroundJobKind::Upload
    } else if value == "montage"@ {
        BackgroundJobKind::Montage
    } else if value == "discord_webhook"@ {
        BackgroundJobKind::DiscordWebhook
    } else if value == "post_process"@ {
        BackgroundJobKind::PostProcess
    } else {
        BackgroundJobKind::StorageTiering
    }
}

pub open spec fn kind_label(kind: BackgroundJobKind) -> Seq<char> {
    match kind {
        BackgroundJobKind::StorageTiering => "Storage Tiering"@,
        BackgroundJobKind::Upload => "Upload"@,
        BackgroundJobKind::Montage => "Montage"@,
        BackgroundJobKind::DiscordWebhook => "Discord Webhook"@,
        BackgroundJobKind::PostProcess => "Post Process"@,
    }
}

impl BackgroundJobKind {
    /// The name the job store keeps for this kind.
    pub fn as_str(self) -> (r: &'static str)
        ensures
            r@ == kind_name(self),
    {
        match self {
            BackgroundJobKind::StorageTiering => "storage_tiering",
            BackgroundJobKind::Upload => "upload",
            BackgroundJobKind::Montage => "montage",
            BackgroundJobKind::DiscordWebhook => "discord_webhook",
            BackgroundJobKind::PostProcess => "post_process",
        }
    }

    /// The kind a stored name stands for; unknown names read as storage tiering.
    pub fn from_db(value: &str) -> (r: Self)
        ensures
            r == kind_from_name(value@),
    {
        if str_eq(value, "upload") {
            BackgroundJobKind::Upload
        } else if str_eq(value, "montage") {
            BackgroundJobKind::Montage
        } else if str_eq(value, "discord_webhook") {
            BackgroundJobKind::DiscordWebhook
        } else if str_eq(value, "post_process") {
            BackgroundJobKind::PostProcess
        } else {
            BackgroundJobKind::StorageTiering
        }
    }

    /// The name shown to users.
    pub fn label(self) -> (r: &'static str)
        ensures
            r@ == kind_label(self),
    {
        match self {
            BackgroundJobKind::StorageTiering => "Storage Tiering",
            BackgroundJobKind::Upload => "Upload",
            BackgroundJobKind::Montage => "Montage",
            BackgroundJobKind::DiscordWebhook => "Discord Webhook",
            BackgroundJobKind::PostProcess => "Post Process",
        }
    }

    /// How many jobs of this kind may run at once.
    pub fn concurrency_limit(self) -> (r: usize)
        ensures
            r == match self {
                BackgroundJobKind::PostProcess => 1usize,
                BackgroundJobKind::Upload => 2usize,
                BackgroundJobKind::Montage => 1usize,
                BackgroundJobKind::StorageTiering => 1usize,
                BackgroundJobKind::DiscordWebhook => 4usize,
            },
    {
        match self {
            BackgroundJobKind::PostProcess => 1,
            BackgroundJobKind::Upload => 2,
            BackgroundJobKind::Montage => 1,
            BackgroundJobKind::StorageTiering => 1,
            BackgroundJobKind::DiscordWebhook => 4,
        }
    }
}

#[derive(Clone, Copy, PartialEq, Eq, Debug, Structural)]
pub enum BackgroundJobState {
    Queued,
    Running,
    Succeeded,
    Failed,
    Cancelled,
}

pub open spec fn state_name(state: BackgroundJobState) -> Seq<char> {
    match state {
        BackgroundJobState::Queued => "queued"@,
        BackgroundJobState::Running => "running"@,
        BackgroundJobState::Succeeded => "succeeded"@,
        BackgroundJobState::Failed => "failed"@,
        BackgroundJobState::Cancelled => "cancelled"@,
    }
}

pub open spec fn state_from_name(value: Seq<char>) -> BackgroundJobState {
    if value == "queued"@ {
        BackgroundJobState::Queued
    } else if value == "running"@ {
        BackgroundJobState::Running
    } else if value == "succeeded"@ {
        BackgroundJobState::Succeeded
    } else if value == "cancelled"@ {
        BackgroundJobState::Cancelled
    } else {
        BackgroundJobState::Failed
    }
}

pub open spec fn state_label(state: BackgroundJobState) -> Seq<char> {
    match state {
        BackgroundJobState::Queued => "Queued"@,
        BackgroundJobState::Running => "Running"@,
        BackgroundJobState::Succeeded => "Succeeded"@,
        BackgroundJobState::Failed => "Failed"@,
        BackgroundJobState::Cancelled => "Cancelled"@,
    }
}

impl BackgroundJobState {
    /// The name the job store keeps for this state.
    pub fn as_str(self) -> (r: &'static str)
        ensures
            r@ == state_name(self),
    {
        match self {
            BackgroundJobState::Queued => "queued",
            BackgroundJobState::Running => "running",
            BackgroundJobState::Succeeded => "succeeded",
            BackgroundJobState::Failed => "failed",
            BackgroundJobState::Cancelled => "cancelled",
        }
    }

    /// The state a stored name stands for; unknown names read as failed.
    pub fn from_db(value: &str) -> (r: Self)
        ensures
            r == state_from_name(value@),
    {
        if str_eq(value, "queued") {
            BackgroundJobState::Queued
        } else if str_eq(value, "running") {
            BackgroundJobState::Running
        } else if str_eq(value, "succeeded") {
            BackgroundJobState::Succeeded
        } else if str_eq(value, "cancelled") {
            BackgroundJobState::Cancelled
        } else {
            BackgroundJobState::Failed
        }
    }

    /// The name shown to users.
    pub fn label(self) -> (r: &'static str)
        ensures
            r@ == state_label(self),
    {
        match self {
            BackgroundJobState::Queued => "Queued",
            BackgroundJobState::Running => "Running",
            BackgroundJobState::Succeeded => "Succeeded",
            BackgroundJobState::Failed => "Failed",
            BackgroundJobState::Cancelled => "Cancelled",
        }
    }
}

/// Reading back the stored name of a kind gives the kind.
pub proof fn lemma_kind_name_round_trip(kind: BackgroundJobKind)
    ensures
        kind_from_name(kind_name(kind)) == kind,
{
    reveal_strlit("storage_tiering");
    reveal_strlit("upload");
    reveal_strlit("montage");
    reveal_strlit("discord_webhook");
    reveal_strlit("post_process");
    assert("storage_tiering"@.len() == 15);
    assert("upload"@.len() == 6);
    assert("montage"@.len() == 7);
    assert("discord_webhook"@.len() == 15);
    assert("post_process"@.len() == 12);
    assert("storage_tiering"@[0] != "discord_webhook"@[0]);
}

/// Reading back the stored name of a state gives the state.
pub proof fn lemma_state_name_round_trip(state: BackgroundJobState)
    ensures
        state_from_name(state_name(state)) == state,
{
    reveal_strlit("queued");
    reveal_strlit("running");
    reveal_strlit("succeeded");
    reveal_strlit("failed");
    reveal_strlit("cancelled");
    assert("queued"@[0] != "failed"@[0]);
    assert("succeeded"@[0] != "cancelled"@[0]);
}


/// How far a running job has come.
#[derive(Debug)]
pub struct BackgroundJobProgress {
    pub current_step: u32,
    pub total_steps: u32,
    pub message: String,
}

pub struct ProgressView {
    pub current_step: u32,
    pub total_steps: u32,
    pub message: Seq<char>,
}

impl View for BackgroundJobProgress {
    type V = ProgressView;

    open spec fn view(&self) -> ProgressView {
        ProgressView {
            current_step: self.current_step,
            total_steps: self.total_steps,
            message: self.message@,
        }
    }
}

impl BackgroundJobProgress {
    /// A progress report; a job always counts at least one step.
    pub fn new(current_step: u32, total_steps: u32, message: String) -> (r: Self)
        ensures
            r.current_step == current_step,
            r.total_steps == if total_steps == 0 { 1 } else { total_steps },
            r.message@ == message@,
    {
        BackgroundJobProgress {
            current_step,
            total_steps: if total_steps == 0 { 1 } else { total_steps },
            message,
        }
    }

    pub fn copy(&self) -> (r: Self)
        ensures
            r@ == self@,
    {
        BackgroundJobProgress {
            current_step: self.current_step,
            total_steps: self.total_steps,
            message: self.message.clone(),
        }
    }
}

/// The progress stored with a job: there when all three of its columns are;
/// a negative step counts as none done and a total below one as one.
pub fn stored_job_progress(current_step: Option<i64>, total_steps: Option<i64>, message: Option<String>) -> (r: Option<BackgroundJobProgress>)
    ensures
        match (current_step, total_steps, message) {
            (Some(c), Some(t), Some(m)) => r matches Some(p) && p.current_step == (if c < 0 { 0 } else { c }) as u32
                && p.total_steps == (if t < 1 { 1 } else { t }) as u32 && p.message@ == m@,
            _ => r is None,
        },
{
    match (current_step, total_steps, message) {
        (Some(c), Some(t), Some(m)) => {
            let current: i64 = if c < 0 { 0 } else { c };
            let total: i64 = if t < 1 { 1 } else { t };
            Some(BackgroundJobProgress { current_step: current as u32, total_steps: total as u32, message: m })
        },
        _ => None,
    }
}

/// What a job reports while it runs: `Err` once it has been cancelled.
pub fn check_cancelled(cancelled: bool) -> (r: Result<(), String>)
    ensures
        cancelled <==> r is Err,
        r matches Err(m) ==> m@ == cancelled_message(),
{
    if cancelled {
        Err(owned("Job cancelled."))
    } else {
        Ok(())
    }
}

/// A job as the board and the job store know it. Times are Unix milliseconds.
#[derive(Debug)]
pub struct BackgroundJobRecord {
    pub id: BackgroundJobId,
    pub kind: BackgroundJobKind,
    pub label: String,
    pub state: BackgroundJobState,
    pub related_clip_ids: Vec<i64>,
    pub progress: Option<BackgroundJobProgress>,
    pub started_at: i64,
    pub updated_at: i64,
    pub finished_at: Option<i64>,
    pub detail: Option<String>,
    pub cancellable: bool,
}

pub struct JobRecordView {
    pub id: u64,
    pub kind: BackgroundJobKind,
    pub label: Seq<char>,
    pub state: BackgroundJobState,
    pub related_clip_ids: Seq<i64>,
    pub progress: Option<ProgressView>,
    pub started_at: i64,
    pub updated_at: i64,
    pub finished_at: Option<i64>,
    pub detail: Option<Seq<char>>,
    pub cancellable: bool,
}

pub open spec fn opt_string_view(o: Option<String>) -> Option<Seq<char>> {
    match o {
        Some(s) => Some(s@),
        None => None,
    }
}

pub open spec fn opt_progress_view(o: Option<BackgroundJobProgress>) -> Option<ProgressView> {
    match o {
        Some(p) => Some(p@),
        None => None,
    }
}

impl View for BackgroundJobRecord {
    type V = JobRecordView;

    open spec fn view(&self) -> JobRecordView {
        JobRecordView {
            id: self.id.0,
            kind: self.kind,
            label: self.label@,
            state: self.state,
            related_clip_ids: self.related_clip_ids@,
            progress: opt_progress_view(self.progress),
            started_at: self.started_at,
            updated_at: self.updated_at,
            finished_at: self.finished_at,
            detail: opt_string_view(self.detail),
            cancellable: self.cancellable,
        }
    }
}

pub fn copy_opt_string(o: &Option<String>) -> (r: Option<String>)
    ensures
        opt_string_view(r) == opt_string_view(*o),
{
    match o {
        Some(s) => Some(s.clone()),
        None => None,
    }
}

pub fn copy_ids(v: &Vec<i64>) -> (r: Vec<i64>)
    ensures
        r@ == v@,
{
    let mut r: Vec<i64> = Vec::new();
    let mut i: usize = 0;
    while i < v.len()
        invariant
            i <= v.len(),
            r@ == v@.take(i as int),
        decreases v.len() - i,
    {
        r.push(v[i]);
        i = i + 1;
    }
    assert(v@.take(v.len() as int) =~= v@);
    r
}

impl BackgroundJobRecord {
    pub fn copy(&self) -> (r: Self)
        ensures
            r@ == self@,
    {
        BackgroundJobRecord {
            id: self.id,
            kind: self.kind,
            label: self.label.clone(),
            state: self.state,
            related_clip_ids: copy_ids(&self.related_clip_ids),
            progress: match &self.progress {
                Some(p) => Some(p.copy()),
                None => None,
            },
            started_at: self.started_at,
            updated_at: self.updated_at,
            finished_at: self.finished_at,
            detail: copy_opt_string(&self.detail),
            cancellable: self.cancellable,
        }
    }
}

/// What a job produced when it succeeded, each kind with the summary
/// (`message`) that its record keeps.
#[derive(Debug)]
pub enum BackgroundJobSuccess {
    StorageTiering { moved_clip_ids: Vec<i64>, message: String },
    Upload { clip_id: i64, provider_label: String, clip_url: Option<String>, message: String },
    Montage { output_path: String, source_clip_ids: Vec<i64>, message: String },
    DiscordWebhook { clip_id: i64, message: String },
    PostProcess { clip_id: i64, final_path: String, message: String },
}

pub enum SuccessView {
    StorageTiering { moved_clip_ids: Seq<i64>, message: Seq<char> },
    Upload { clip_id: i64, provider_label: Seq<char>, clip_url: Option<Seq<char>>, message: Seq<char> },
    Montage { output_path: Seq<char>, source_clip_ids: Seq<i64>, message: Seq<char> },
    DiscordWebhook { clip_id: i64, message: Seq<char> },
    PostProcess { clip_id: i64, final_path: Seq<char>, message: Seq<char> },
}

impl View for BackgroundJobSuccess {
    type V = SuccessView;

    open spec fn view(&self) -> SuccessView {
        match self {
            BackgroundJobSuccess::StorageTiering { moved_clip_ids, message } => SuccessView::StorageTiering {
                moved_clip_ids: moved_clip_ids@,
                message: message@,
            },
            BackgroundJobSuccess::Upload { clip_id, provider_label, clip_url, message } => SuccessView::Upload {
                clip_id: *clip_id,
                provider_label: provider_label@,
                clip_url: opt_string_view(*clip_url),
                message: message@,
            },
            BackgroundJobSuccess::Montage { output_path, source_clip_ids, message } => SuccessView::Montage {
                output_path: output_path@,
                source_clip_ids: source_clip_ids@,
                message: message@,
            },
            BackgroundJobSuccess::DiscordWebhook { clip_id, message } => SuccessView::DiscordWebhook {
                clip_id: *clip_id,
                message: message@,
            },
            BackgroundJobSuccess::PostProcess { clip_id, final_path, message } => SuccessView::PostProcess {
                clip_id: *clip_id,
                final_path: final_path@,
                message: message@,
            },
        }
    }
}

/// The summary a success carries.
pub open spec fn success_message(s: SuccessView) -> Seq<char> {
    match s {
        SuccessView::StorageTiering { message, .. } => message,
        SuccessView::Upload { message, .. } => message,
        SuccessView::Montage { message, .. } => message,
        SuccessView::DiscordWebhook { message, .. } => message,
        SuccessView::PostProcess { message, .. } => message,
    }
}

/// What a running job reports to the board.
#[derive(Debug)]
pub enum JobEvent {
    Started { id: BackgroundJobId },
    Progress { id: BackgroundJobId, progress: BackgroundJobProgress },
    Cancelled { id: BackgroundJobId },
    /// The job succeeded with `success`.
    Finished { id: BackgroundJobId, success: BackgroundJobSuccess },
    Failed { id: BackgroundJobId, error: String },
}

/// What the board tells the application after applying an event.
#[derive(Debug)]
pub enum JobNotification {
    Updated(BackgroundJobRecord),
    /// The job left the board, with what it produced when it succeeded or
    /// the error when it failed.
    Finished { record: BackgroundJobRecord, success: Option<BackgroundJobSuccess>, error: Option<String> },
}

/// How a job's work ended, as the task that ran it saw it.
#[derive(Debug)]
pub enum JobOutcome {
    Succeeded { success: BackgroundJobSuccess },
    Failed { error: String },
}

/// The events that the task running a job sends once the job's work is over,
/// or once it finds the job cancelled before starting (`ran` is then false).
pub fn completion_events(id: BackgroundJobId, ran: bool, outcome: JobOutcome, cancelled: bool) -> (r:
    Vec<JobEvent>)
    ensures
        (!ran || cancelled) ==> r.len() == 2 && (r[0] matches JobEvent::Cancelled { id: i } && i == id)
            && (r[1] matches JobEvent::Failed { id: i, error } && i == id && error@ == (
        match outcome {
            JobOutcome::Failed { error: e } if ran && trim(e@).len() != 0 => e@,
            _ => cancelled_message(),
        })),
        (ran && !cancelled) ==> r.len() == 1 && match outcome {
            JobOutcome::Succeeded { success } => r[0] matches JobEvent::Finished { id: i, success: s }
                && i == id && s@ == success@,
            JobOutcome::Failed { error } => r[0] matches JobEvent::Failed { id: i, error: e } && i
                == id && e@ == error@,
        },
{
    let mut events: Vec<JobEvent> = Vec::new();
    if !ran || cancelled {
        events.push(JobEvent::Cancelled { id });
        let error = match outcome {
            JobOutcome::Failed { error } if ran && !is_blank(error.as_str()) => error,
            _ => owned("Job cancelled."),
        };
        events.push(JobEvent::Failed { id, error });
    } else {
        match outcome {
            JobOutcome::Succeeded { success } => events.push(JobEvent::Finished { id, success }),
            JobOutcome::Failed { error } => events.push(JobEvent::Failed { id, error }),
        }
    }
    events
}


/// A job on the board: its record and whether cancellation was requested.
#[derive(Debug)]
pub struct JobEntry {
    pub record: BackgroundJobRecord,
    pub cancelled: bool,
}

/// The jobs that are queued or running, in the order they were queued, and
/// the most recent finished jobs, newest first.
#[derive(Debug)]
pub struct BackgroundJobBoard {
    next_id: u64,
    jobs: Vec<JobEntry>,
    history: VecDeque<BackgroundJobRecord>,
}

/// `s` cut to the history limit.
pub open spec fn capped(s: Seq<JobRecordView>) -> Seq<JobRecordView> {
    if s.len() > HISTORY_LIMIT {
        s.take(HISTORY_LIMIT as int)
    } else {
        s
    }
}

/// The id an event speaks of.
pub open spec fn event_id(event: JobEvent) -> u64 {
    match event {
        JobEvent::Started { id } => id.0,
        JobEvent::Progress { id, .. } => id.0,
        JobEvent::Cancelled { id } => id.0,
        JobEvent::Finished { id, .. } => id.0,
        JobEvent::Failed { id, .. } => id.0,
    }
}

/// The record `rv` after `event` is applied at time `now`, the job's
/// cancellation flag being `cancelled`.
pub open spec fn record_after(rv: JobRecordView, event: JobEvent, cancelled: bool, now: i64) -> JobRecordView {
    match event {
        JobEvent::Started { .. } => JobRecordView {
            state: BackgroundJobState::Running,
            updated_at: now,
            ..rv
        },
        JobEvent::Progress { progress, .. } => JobRecordView {
            progress: Some(progress@),
            updated_at: now,
            ..rv
        },
        JobEvent::Cancelled { .. } => JobRecordView {
            state: BackgroundJobState::Cancelled,
            updated_at: now,
            ..rv
        },
        JobEvent::Finished { success, .. } => JobRecordView {
            state: if cancelled {
                BackgroundJobState::Cancelled
            } else {
                BackgroundJobState::Succeeded
            },
            detail: Some(success_message(success@)),
            updated_at: now,
            finished_at: Some(now),
            ..rv
        },
        JobEvent::Failed { error, .. } => JobRecordView {
            state: if cancelled {
                BackgroundJobState::Cancelled
            } else {
                BackgroundJobState::Failed
            },
            detail: Some(error@),
            updated_at: now,
            finished_at: Some(now),
            ..rv
        },
    }
}

/// Whether `event` ends the job it speaks of.
pub open spec fn is_terminal(event: JobEvent) -> bool {
    event is Finished || event is Failed
}

/// What a notification carries as the result of a terminal event.
pub open spec fn terminal_success(event: JobEvent) -> Option<SuccessView> {
    match event {
        JobEvent::Finished { success, .. } => Some(success@),
        _ => None,
    }
}

/// The error a notification carries for a terminal event.
pub open spec fn terminal_error(event: JobEvent) -> Option<Seq<char>> {
    match event {
        JobEvent::Failed { error, .. } => Some(error@),
        _ => None,
    }
}

/// The board seen as its active records, their cancellation flags and the
/// history.
pub struct BoardModel {
    pub active: Seq<JobRecordView>,
    pub flags: Seq<bool>,
    pub history: Seq<JobRecordView>,
}

pub enum NotificationView {
    Updated(JobRecordView),
    Finished { record: JobRecordView, success: Option<SuccessView>, error: Option<Seq<char>> },
}

pub open spec fn notification_view(n: JobNotification) -> NotificationView {
    match n {
        JobNotification::Updated(r) => NotificationView::Updated(r@),
        JobNotification::Finished { record, success, error } => NotificationView::Finished {
            record: record@,
            success: match success {
                Some(x) => Some(x@),
                None => None,
            },
            error: opt_string_view(error),
        },
    }
}

pub open spec fn opt_notification_view(n: Option<JobNotification>) -> Option<NotificationView> {
    match n {
        Some(x) => Some(notification_view(x)),
        None => None,
    }
}

/// Where the job `id` stands among `active`.
pub open spec fn index_of_job(active: Seq<JobRecordView>, id: u64) -> Option<int> {
    if exists|i: int| 0 <= i < active.len() && #[trigger] active[i].id == id {
        Some(choose|i: int| 0 <= i < active.len() && #[trigger] active[i].id == id)
    } else {
        None
    }
}

/// The board after one event, and the notification it gives.
pub open spec fn model_apply(m: BoardModel, event: JobEvent, now: i64) -> (BoardModel, Option<NotificationView>) {
    match index_of_job(m.active, event_id(event)) {
        None => (m, None),
        Some(i) => {
            let rv = record_after(m.active[i], event, m.flags[i], now);
            if is_terminal(event) {
                (
                    BoardModel {
                        active: m.active.remove(i),
                        flags: m.flags.remove(i),
                        history: capped(seq![rv] + m.history),
                    },
                    Some(NotificationView::Finished { record: rv, success: terminal_success(event), error: terminal_error(event) }),
                )
            } else {
                (
                    BoardModel { active: m.active.update(i, rv), flags: m.flags, history: m.history },
                    Some(NotificationView::Updated(rv)),
                )
            }
        },
    }
}

/// The board after the events in order, and the notifications they give.
pub open spec fn model_drain(m: BoardModel, events: Seq<JobEvent>, now: i64) -> (BoardModel, Seq<NotificationView>)
    decreases events.len(),
{
    if events.len() == 0 {
        (m, seq![])
    } else {
        let (m1, ns) = model_drain(m, events.drop_last(), now);
        let (m2, n) = model_apply(m1, events.last(), now);
        (m2, match n {
            Some(x) => ns.push(x),
            None => ns,
        })
    }
}

impl BackgroundJobBoard {
    /// The jobs on the board, in the order they were queued.
    pub closed spec fn active(self) -> Seq<JobRecordView> {
        self.jobs@.map_values(|e: JobEntry| e.record@)
    }

    /// Whether cancellation was requested, job by job.
    pub closed spec fn cancel_flags(self) -> Seq<bool> {
        self.jobs@.map_values(|e: JobEntry| e.cancelled)
    }

    /// The finished jobs kept, newest first.
    pub closed spec fn history(self) -> Seq<JobRecordView> {
        self.history@.map_values(|r: BackgroundJobRecord| r@)
    }

    pub open spec fn model(self) -> BoardModel {
        BoardModel { active: self.active(), flags: self.cancel_flags(), history: self.history() }
    }

    /// The id the next queued job gets.
    pub closed spec fn spec_next_id(self) -> u64 {
        self.next_id
    }

    /// The board's invariant: active ids increase and all ids seen are below
    /// the next id; the history stays within its limit.
    pub closed spec fn wf(self) -> bool {
        &&& self.next_id >= 1
        &&& forall|i: int, j: int|
            0 <= i < j < self.jobs@.len() ==> #[trigger] self.jobs@[i].record.id.0
                < #[trigger] self.jobs@[j].record.id.0
        &&& forall|i: int| 0 <= i < self.jobs@.len() ==> #[trigger] self.jobs@[i].record.id.0 < self.next_id
        &&& forall|i: int| 0 <= i < self.history@.len() ==> #[trigger] self.history@[i].id.0 < self.next_id
        &&& self.history@.len() <= HISTORY_LIMIT
    }

    /// Where the job `id` stands among the active jobs.
    pub open spec fn active_index(self, id: u64) -> Option<int> {
        if exists|i: int| 0 <= i < self.active().len() && #[trigger] self.active()[i].id == id {
            Some(choose|i: int| 0 <= i < self.active().len() && #[trigger] self.active()[i].id == id)
        } else {
            None
        }
    }

    proof fn lemma_views(self)
        ensures
            self.active().len() == self.jobs@.len(),
            self.cancel_flags().len() == self.jobs@.len(),
            self.history().len() == self.history@.len(),
            forall|i: int| 0 <= i < self.jobs@.len() ==> #[trigger] self.active()[i] == self.jobs@[i].record@,
            forall|i: int| 0 <= i < self.jobs@.len() ==> #[trigger] self.cancel_flags()[i] == self.jobs@[i].cancelled,
            forall|i: int| 0 <= i < self.history@.len() ==> #[trigger] self.history()[i] == self.history@[i]@,
    {
    }

    pub fn new() -> (r: Self)
        ensures
            r.wf(),
            r.active().len() == 0,
            r.history().len() == 0,
            r.spec_next_id() == 1,
    {
        BackgroundJobBoard { next_id: 1, jobs: Vec::new(), history: VecDeque::new() }
    }

    pub fn next_id(&self) -> (r: u64)
        ensures
            r == self.spec_next_id(),
    {
        self.next_id
    }

    /// Index of the active job `id`.
    fn find(&self, id: BackgroundJobId) -> (r: Option<usize>)
        requires
            self.wf(),
        ensures
            match r {
                Some(i) => self.active_index(id.0) == Some(i as int) && i < self.jobs@.len(),
                None => self.active_index(id.0) is None,
            },
    {
        proof {
            self.lemma_views();
        }
        let mut i: usize = 0;
        while i < self.jobs.len()
            invariant
                self.wf(),
                i <= self.jobs@.len(),
                self.active().len() == self.jobs@.len(),
                forall|k: int| 0 <= k < self.jobs@.len() ==> #[trigger] self.active()[k] == self.jobs@[k].record@,
                forall|k: int| 0 <= k < i ==> self.jobs@[k].record.id.0 != id.0,
            decreases self.jobs.len() - i,
        {
            if self.jobs[i].record.id.0 == id.0 {
                proof {
                    assert(self.active()[i as int].id == id.0);
                    let c = choose|k: int| 0 <= k < self.active().len() && #[trigger] self.active()[k].id == id.0;
                    if c != i {
                        if c < i {
                            assert(self.jobs@[c].record.id.0 < self.jobs@[i as int].record.id.0);
                        } else {
                            assert(self.jobs@[i as int].record.id.0 < self.jobs@[c].record.id.0);
                        }
                    }
                }
                return Some(i);
            }
            i = i + 1;
        }
        proof {
            assert forall|k: int| 0 <= k < self.active().len() implies #[trigger] self.active()[k].id != id.0 by {
                assert(self.active()[k] == self.jobs@[k].record@);
            }
        }
        None
    }

    /// Whether `id` is queued or running.
    pub fn is_active(&self, id: BackgroundJobId) -> (r: bool)
        requires
            self.wf(),
        ensures
            r == (self.active_index(id.0) is Some),
    {
        self.find(id).is_some()
    }

    /// Puts a new job on the board, queued, and gives its id.
    pub fn queue(
        &mut self,
        kind: BackgroundJobKind,
        label: String,
        related_clip_ids: Vec<i64>,
        now: i64,
    ) -> (id: BackgroundJobId)
        requires
            old(self).wf(),
            old(self).spec_next_id() < u64::MAX,
        ensures
            final(self).wf(),
            id.0 == old(self).spec_next_id(),
            final(self).spec_next_id() == old(self).spec_next_id() + 1,
            final(self).active() == old(self).active().push(
                JobRecordView {
                    id: id.0,
                    kind,
                    label: label@,
                    state: BackgroundJobState::Queued,
                    related_clip_ids: related_clip_ids@,
                    progress: None,
                    started_at: now,
                    updated_at: now,
                    finished_at: None,
                    detail: None,
                    cancellable: true,
                },
            ),
            final(self).cancel_flags() == old(self).cancel_flags().push(false),
            final(self).history() == old(self).history(),
    {
        let id = BackgroundJobId(self.next_id);
        self.next_id = self.next_id + 1;
        let record = BackgroundJobRecord {
            id,
            kind,
            label,
            state: BackgroundJobState::Queued,
            related_clip_ids,
            progress: None,
            started_at: now,
            updated_at: now,
            finished_at: None,
            detail: None,
            cancellable: true,
        };
        self.jobs.push(JobEntry { record, cancelled: false });
        proof {
            assert(self.active() =~= old(self).active().push(self.jobs@.last().record@));
            assert(self.cancel_flags() =~= old(self).cancel_flags().push(false));
            assert(self.history() =~= old(self).history());
        }
        id
    }

    /// Requests cancellation of the active job `id`; false when it is not active.
    pub fn cancel(&mut self, id: BackgroundJobId, now: i64) -> (r: bool)
        requires
            old(self).wf(),
        ensures
            final(self).wf(),
            r == (old(self).active_index(id.0) is Some),
            final(self).spec_next_id() == old(self).spec_next_id(),
            final(self).history() == old(self).history(),
            match old(self).active_index(id.0) {
                Some(i) => {
                    &&& final(self).active() == old(self).active().update(
                        i,
                        JobRecordView {
                            detail: Some("Cancellation requested."@),
                            updated_at: now,
                            ..old(self).active()[i]
                        },
                    )
                    &&& final(self).cancel_flags() == old(self).cancel_flags().update(i, true)
                },
                None => final(self).active() == old(self).active() && final(self).cancel_flags()
                    == old(self).cancel_flags(),
            },
    {
        match self.find(id) {
            Some(i) => {
                let mut entry = self.jobs.remove(i);
                entry.cancelled = true;
                entry.record.detail = Some(owned("Cancellation requested."));
                entry.record.updated_at = now;
                self.jobs.insert(i, entry);
                proof {
                    old(self).lemma_views();
                    assert(self.active() =~= old(self).active().update(
                        i as int,
                        JobRecordView {
                            detail: Some("Cancellation requested."@),
                            updated_at: now,
                            ..old(self).active()[i as int]
                        },
                    ));
                    assert(self.cancel_flags() =~= old(self).cancel_flags().update(i as int, true));
                    assert(self.history() =~= old(self).history());
                }
                true
            },
            None => false,
        }
    }

    /// Applies one event that a running job reported at time `now`.
    pub fn apply(&mut self, event: JobEvent, now: i64) -> (r: Option<JobNotification>)
        requires
            old(self).wf(),
        ensures
            final(self).wf(),
            final(self).spec_next_id() == old(self).spec_next_id(),
            (final(self).model(), opt_notification_view(r)) == model_apply(old(self).model(), event, now),
            match old(self).active_index(event_id(event)) {
                None => {
                    &&& r is None
                    &&& final(self).active() == old(self).active()
                    &&& final(self).cancel_flags() == old(self).cancel_flags()
                    &&& final(self).history() == old(self).history()
                },
                Some(i) => {
                    let rv = record_after(
                        old(self).active()[i],
                        event,
                        old(self).cancel_flags()[i],
                        now,
                    );
                    if is_terminal(event) {
                        &&& final(self).active() == old(self).active().remove(i)
                        &&& final(self).cancel_flags() == old(self).cancel_flags().remove(i)
                        &&& final(self).history() == capped(seq![rv] + old(self).history())
                        &&& r matches Some(JobNotification::Finished { record, error, .. }) && record@
                            == rv && opt_string_view(error) == terminal_error(event)
                    } else {
                        &&& final(self).active() == old(self).active().update(i, rv)
                        &&& final(self).cancel_flags() == old(self).cancel_flags()
                        &&& final(self).history() == old(self).history()
                        &&& r matches Some(JobNotification::Updated(record)) && record@ == rv
                    }
                },
            },
    {
        proof {
            old(self).lemma_views();
        }
        let id = match &event {
            JobEvent::Started { id } => *id,
            JobEvent::Progress { id, .. } => *id,
            JobEvent::Cancelled { id } => *id,
            JobEvent::Finished { id, .. } => *id,
            JobEvent::Failed { id, .. } => *id,
        };
        let i = match self.find(id) {
            Some(i) => i,
            None => return None,
        };
        let ghost old_rv = old(self).active()[i as int];
        let ghost flag = old(self).cancel_flags()[i as int];
        let ghost ev = event;
        let mut entry = self.jobs.remove(i);
        assert(entry.record@ == old_rv);
        let terminal = match &event {
            JobEvent::Finished { .. } | JobEvent::Failed { .. } => true,
            _ => false,
        };
        let mut error: Option<String> = None;
        let mut done: Option<BackgroundJobSuccess> = None;
        match event {
            JobEvent::Started { .. } => {
                entry.record.state = BackgroundJobState::Running;
                entry.record.updated_at = now;
            },
            JobEvent::Progress { progress, .. } => {
                entry.record.progress = Some(progress);
                entry.record.updated_at = now;
            },
            JobEvent::Cancelled { .. } => {
                entry.record.state = BackgroundJobState::Cancelled;
                entry.record.updated_at = now;
            },
            JobEvent::Finished { success, .. } => {
                let message = match &success {
                    BackgroundJobSuccess::StorageTiering { message, .. } => owned(message.as_str()),
                    BackgroundJobSuccess::Upload { message, .. } => owned(message.as_str()),
                    BackgroundJobSuccess::Montage { message, .. } => owned(message.as_str()),
                    BackgroundJobSuccess::DiscordWebhook { message, .. } => owned(message.as_str()),
                    BackgroundJobSuccess::PostProcess { message, .. } => owned(message.as_str()),
                };
                entry.record.state = if entry.cancelled {
                    BackgroundJobState::Cancelled
                } else {
                    BackgroundJobState::Succeeded
                };
                entry.record.detail = Some(message);
                done = Some(success);
                entry.record.updated_at = now;
                entry.record.finished_at = Some(now);
            },
            JobEvent::Failed { error: e, .. } => {
                entry.record.state = if entry.cancelled {
                    BackgroundJobState::Cancelled
                } else {
                    BackgroundJobState::Failed
                };
                entry.record.detail = Some(e.clone());
                entry.record.updated_at = now;
                entry.record.finished_at = Some(now);
                error = Some(e);
            },
        }
        assert(entry.record@ == record_after(old_rv, ev, flag, now));
        if terminal {
            let record = entry.record.copy();
            self.push_history(entry.record);
            proof {
                assert(self.active() =~= old(self).active().remove(i as int));
                assert(self.cancel_flags() =~= old(self).cancel_flags().remove(i as int));
            }
            Some(JobNotification::Finished { record, success: done, error })
        } else {
            let record = entry.record.copy();
            self.jobs.insert(i, entry);
            proof {
                assert(self.active() =~= old(self).active().update(i as int, record@));
                assert(self.cancel_flags() =~= old(self).cancel_flags());
            }
            Some(JobNotification::Updated(record))
        }
    }

    /// Puts a finished record at the front of the history, dropping the
    /// oldest records beyond the limit.
    fn push_history(&mut self, record: BackgroundJobRecord)
        requires
            record.id.0 < old(self).next_id,
            forall|i: int| 0 <= i < old(self).history@.len() ==> #[trigger] old(self).history@[i].id.0 < old(self).next_id,
            old(self).history@.len() <= HISTORY_LIMIT,
        ensures
            final(self).next_id == old(self).next_id,
            final(self).jobs == old(self).jobs,
            final(self).history() == capped(seq![record@] + old(self).history()),
            forall|i: int| 0 <= i < final(self).history@.len() ==> #[trigger] final(self).history@[i].id.0 < final(self).next_id,
            final(self).history@.len() <= HISTORY_LIMIT,
    {
        let ghost old_h = self.history();
        self.history.push_front(record);
        if self.history.len() > HISTORY_LIMIT {
            self.history.truncate(HISTORY_LIMIT);
        }
        proof {
            assert(self.history() =~= capped(seq![record@] + old_h));
        }
    }

    /// Applies the events in order and gives the notifications they produce.
    pub fn drain_notifications(&mut self, events: Vec<JobEvent>, now: i64) -> (r: Vec<JobNotification>)
        requires
            old(self).wf(),
        ensures
            final(self).wf(),
            final(self).spec_next_id() == old(self).spec_next_id(),
            (final(self).model(), r@.map_values(|n: JobNotification| notification_view(n)))
                == model_drain(old(self).model(), events@, now),
    {
        let mut out: Vec<JobNotification> = Vec::new();
        let mut events = events;
        let ghost all = events@;
        let ghost start = self.model();
        let ghost mut k: int = 0;
        while events.len() > 0
            invariant
                self.wf(),
                self.spec_next_id() == old(self).spec_next_id(),
                start == old(self).model(),
                0 <= k <= all.len(),
                events@ == all.skip(k),
                (self.model(), out@.map_values(|n: JobNotification| notification_view(n)))
                    == model_drain(start, all.take(k), now),
            decreases events.len(),
        {
            let ghost before = out@;
            let event = events.remove(0);
            assert(event == all[k]);
            assert(all.take(k + 1).drop_last() =~= all.take(k));
            let n = self.apply(event, now);
            match n {
                Some(notification) => {
                    out.push(notification);
                    assert(out@.map_values(|n: JobNotification| notification_view(n)) =~= before.map_values(
                        |n: JobNotification| notification_view(n),
                    ).push(notification_view(notification)));
                },
                None => {},
            }
            proof {
                k = k + 1;
                assert(events@ =~= all.skip(k));
            }
        }
        assert(all.take(k) =~= all);
        out
    }

    /// Copies of the active records, in the order they were queued.
    pub fn active_jobs(&self) -> (r: Vec<BackgroundJobRecord>)
        requires
            self.wf(),
        ensures
            r@.map_values(|x: BackgroundJobRecord| x@) == self.active(),
    {
        proof {
            self.lemma_views();
        }
        let mut r: Vec<BackgroundJobRecord> = Vec::new();
        let mut i: usize = 0;
        while i < self.jobs.len()
            invariant
                i <= self.jobs@.len(),
                forall|k: int| 0 <= k < self.jobs@.len() ==> #[trigger] self.active()[k] == self.jobs@[k].record@,
                self.active().len() == self.jobs@.len(),
                r@.map_values(|x: BackgroundJobRecord| x@) == self.active().take(i as int),
            decreases self.jobs.len() - i,
        {
            let ghost prev = r@;
            let c = self.jobs[i].record.copy();
            r.push(c);
            assert(r@.map_values(|x: BackgroundJobRecord| x@) =~= prev.map_values(|x: BackgroundJobRecord| x@).push(c@));
            assert(self.active().take(i + 1) =~= self.active().take(i as int).push(self.active()[i as int]));
            i = i + 1;
        }
        assert(self.active().take(i as int) =~= self.active());
        r
    }

    /// Copies of the history, newest first.
    pub fn recent_jobs(&self) -> (r: Vec<BackgroundJobRecord>)
        ensures
            r@.map_values(|x: BackgroundJobRecord| x@) == self.history(),
    {
        proof {
            self.lemma_views();
        }
        let mut r: Vec<BackgroundJobRecord> = Vec::new();
        let mut i: usize = 0;
        while i < self.history.len()
            invariant
                i <= self.history@.len(),
                self.history().len() == self.history@.len(),
                forall|k: int| 0 <= k < self.history@.len() ==> #[trigger] self.history()[k] == self.history@[k]@,
                r@.map_values(|x: BackgroundJobRecord| x@) == self.history().take(i as int),
            decreases self.history.len() - i,
        {
            let ghost prev = r@;
            let c = self.history[i].copy();
            r.push(c);
            assert(r@.map_values(|x: BackgroundJobRecord| x@) =~= prev.map_values(|x: BackgroundJobRecord| x@).push(c@));
            assert(self.history().take(i + 1) =~= self.history().take(i as int).push(self.history()[i as int]));
            i = i + 1;
        }
        assert(self.history().take(i as int) =~= self.history());
        r
    }

    /// Where `id` stands in the history, if it is there.
    pub open spec fn history_index(self, id: u64) -> Option<int> {
        if exists|i: int| 0 <= i < self.history().len() && #[trigger] self.history()[i].id == id {
            Some(
                choose|i: int|
                    0 <= i < self.history().len() && #[trigger] self.history()[i].id == id
                    && forall|k: int| 0 <= k < i ==> self.history()[k].id != id,
            )
        } else {
            None
        }
    }

    /// Index of the first history record with `id`.
    fn find_history(&self, id: BackgroundJobId) -> (r: Option<usize>)
        ensures
            match r {
                Some(i) => i < self.history@.len() && self.history_index(id.0) == Some(i as int),
                None => self.history_index(id.0) is None,
            },
    {
        let mut i: usize = 0;
        while i < self.history.len()
            invariant
                i <= self.history@.len(),
                forall|k: int| 0 <= k < i ==> self.history()[k].id != id.0,
            decreases self.history.len() - i,
        {
            if self.history[i].id.0 == id.0 {
                proof {
                    assert(self.history()[i as int].id == id.0);
                    let c = choose|k: int|
                        0 <= k < self.history().len() && #[trigger] self.history()[k].id == id.0
                        && forall|m: int| 0 <= m < k ==> self.history()[m].id != id.0;
                    if c < i {
                        assert(self.history()[c].id != id.0);
                    } else if c > i {
                        assert(self.history()[i as int].id != id.0);
                    }
                }
                return Some(i);
            }
            i = i + 1;
        }
        None
    }

    /// The record of `id`: the active one if it is active, else the newest in
    /// the history.
    pub fn record(&self, id: BackgroundJobId) -> (r: Option<BackgroundJobRecord>)
        requires
            self.wf(),
        ensures
            match self.active_index(id.0) {
                Some(i) => r matches Some(x) && x@ == self.active()[i],
                None => match self.history_index(id.0) {
                    Some(i) => r matches Some(x) && x@ == self.history()[i],
                    None => r is None,
                },
            },
    {
        proof {
            self.lemma_views();
        }
        match self.find(id) {
            Some(i) => Some(self.jobs[i].record.copy()),
            None => match self.find_history(id) {
                Some(i) => Some(self.history[i].copy()),
                None => None,
            },
        }
    }

    /// Takes the first record with `id` out of the history.
    pub fn remove_history(&mut self, id: BackgroundJobId) -> (r: Option<BackgroundJobRecord>)
        requires
            old(self).wf(),
        ensures
            final(self).wf(),
            final(self).spec_next_id() == old(self).spec_next_id(),
            final(self).active() == old(self).active(),
            final(self).cancel_flags() == old(self).cancel_flags(),
            match old(self).history_index(id.0) {
                Some(i) => r matches Some(x) && x@ == old(self).history()[i] && final(self).history()
                    == old(self).history().remove(i),
                None => r is None && final(self).history() == old(self).history(),
            },
    {
        proof {
            old(self).lemma_views();
        }
        match self.find_history(id) {
            Some(i) => {
                let removed = self.history.remove(i);
                proof {
                    assert(self.history() =~= old(self).history().remove(i as int));
                }
                removed
            },
            None => None,
        }
    }

    /// Replaces the history with (at most the limit of) `jobs`, the ids
    /// to come staying above every id in it.
    pub fn replace_recent_jobs(&mut self, jobs: Vec<BackgroundJobRecord>)
        requires
            old(self).wf(),
            forall|i: int| 0 <= i < jobs@.len() && i < HISTORY_LIMIT ==> #[trigger] jobs@[i].id.0 < u64::MAX,
        ensures
            final(self).wf(),
            final(self).active() == old(self).active(),
            final(self).cancel_flags() == old(self).cancel_flags(),
            final(self).history() == capped(jobs@.map_values(|x: BackgroundJobRecord| x@)),
            final(self).spec_next_id() >= old(self).spec_next_id(),
            forall|i: int| 0 <= i < final(self).history().len() ==> #[trigger] final(self).history()[i].id
                < final(self).spec_next_id(),
    {
        let mut jobs = jobs;
        let ghost all = jobs@;
        if jobs.len() > HISTORY_LIMIT {
            jobs.truncate(HISTORY_LIMIT);
        }
        assert forall|k: int| 0 <= k < jobs@.len() implies #[trigger] jobs@[k].id.0 < u64::MAX by {
            assert(jobs@[k] == all[k]);
        }
        let mut max_id: u64 = 0;
        let mut i: usize = 0;
        while i < jobs.len()
            invariant
                i <= jobs@.len() <= HISTORY_LIMIT,
                forall|k: int| 0 <= k < jobs@.len() ==> #[trigger] jobs@[k].id.0 < u64::MAX,
                forall|k: int| 0 <= k < i ==> #[trigger] jobs@[k].id.0 <= max_id,
                max_id < u64::MAX,
            decreases jobs.len() - i,
        {
            if jobs[i].id.0 > max_id {
                max_id = jobs[i].id.0;
            }
            i = i + 1;
        }
        if max_id + 1 > self.next_id {
            self.next_id = max_id + 1;
        }
        let mut history: VecDeque<BackgroundJobRecord> = VecDeque::new();
        let mut rest = jobs;
        let ghost kept = rest@;
        while rest.len() > 0
            invariant
                history@ + rest@ == kept,
            decreases rest.len(),
        {
            let x = rest.remove(0);
            let ghost h = history@;
            history.push_back(x);
            assert(history@ + rest@ =~= h + seq![x] + rest@);
        }
        assert(history@ =~= kept);
        self.history = history;
        proof {
            assert(self.history() =~= capped(all.map_values(|x: BackgroundJobRecord| x@)));
        }
    }
}


/// A board model whose flags match its active jobs and whose active jobs
/// have distinct ids.
pub open spec fn board_ok(m: BoardModel) -> bool {
    &&& m.flags.len() == m.active.len()
    &&& forall|i: int, j: int| 0 <= i < j < m.active.len() ==> #[trigger] m.active[i].id != #[trigger] m.active[j].id
}

/// Whether cancellation was requested for the active job `id` of `m`.
#[verifier::opaque]
pub open spec fn flagged(m: BoardModel, id: u64) -> bool {
    exists|i: int| 0 <= i < m.active.len() && #[trigger] m.active[i].id == id && m.flags[i]
}

/// Whether `id` is among the active jobs of `m`.
pub open spec fn is_active_id(m: BoardModel, id: u64) -> bool {
    exists|i: int| 0 <= i < m.active.len() && #[trigger] m.active[i].id == id
}

/// Whether every active job of `m` carries the cancellation flag its id
/// had in `m0`.
pub open spec fn kept_from(m0: BoardModel, m: BoardModel) -> bool {
    forall|i: int| 0 <= i < m.active.len() ==> m.flags[i] == flagged(m0, #[trigger] m.active[i].id)
}

proof fn lemma_kept_from_start(m0: BoardModel)
    requires
        board_ok(m0),
    ensures
        kept_from(m0, m0),
{
    reveal(flagged);
    assert forall|i: int| 0 <= i < m0.active.len() implies m0.flags[i] == flagged(m0, #[trigger] m0.active[i].id) by {
        if m0.flags[i] {
            assert(m0.active[i].id == m0.active[i].id);
        } else if flagged(m0, m0.active[i].id) {
            let j = choose|j: int| 0 <= j < m0.active.len() && #[trigger] m0.active[j].id == m0.active[i].id && m0.flags[j];
            if j < i {
                assert(m0.active[j].id != m0.active[i].id);
            } else if i < j {
                assert(m0.active[i].id != m0.active[j].id);
            }
        }
    }
}

/// What a finished notification says of the job it reports, the board
/// having been `m0` when the drain began: it ended at `now`; it ended
/// cancelled when cancellation was requested, and otherwise succeeded
/// exactly when no error is reported, failing when one is; it carries
/// either a success or an error, never both.
pub open spec fn finished_ok(m0: BoardModel, n: NotificationView, now: i64) -> bool {
    n matches NotificationView::Finished { record, success, error } ==> {
        &&& success.is_some() != error.is_some()
        &&& record.finished_at == Some(now)
        &&& flagged(m0, record.id) ==> record.state == BackgroundJobState::Cancelled
        &&& !flagged(m0, record.id) ==> ((record.state == BackgroundJobState::Succeeded && error is None) || (record.state
            == BackgroundJobState::Failed && error is Some))
    }
}

/// One event keeps a drained board sound and its finished notification
/// true to the board the drain began with.
proof fn lemma_apply_step(m0: BoardModel, m: BoardModel, event: JobEvent, now: i64)
    requires
        board_ok(m0),
        board_ok(m),
        kept_from(m0, m),
        m.history.len() <= HISTORY_LIMIT,
    ensures
        ({
            let (m2, n) = model_apply(m, event, now);
            &&& board_ok(m2)
            &&& kept_from(m0, m2)
            &&& m2.history.len() <= HISTORY_LIMIT
            &&& forall|id: u64| !is_active_id(m, id) ==> !is_active_id(m2, id)
            &&& match n {
                Some(x) => {
                    &&& finished_ok(m0, x, now)
                    &&& (x matches NotificationView::Finished { record, .. } ==> !is_active_id(m2, record.id) && m2.history.len() > 0
                        && m2.history[0] == record)
                    &&& (x is Updated ==> m2.history == m.history)
                },
                None => m2 == m,
            }
        }),
{
    lemma_index_of_job(m.active, event_id(event));
    match index_of_job(m.active, event_id(event)) {
        None => {},
        Some(i) => {
            let rv = record_after(m.active[i], event, m.flags[i], now);
            assert(rv.id == m.active[i].id);
            let (m2, n) = model_apply(m, event, now);
            if is_terminal(event) {
                assert(m2.active == m.active.remove(i));
                assert forall|k: int| 0 <= k < m2.active.len() implies m2.active[k] == (if k < i { m.active[k] } else { m.active[k + 1] }) && m2.flags[k] == (if k < i { m.flags[k] } else { m.flags[k + 1] }) by {}
                assert forall|a: int, b: int| 0 <= a < b < m2.active.len() implies #[trigger] m2.active[a].id != #[trigger] m2.active[b].id by {
                    let a1 = if a < i { a } else { a + 1 };
                    let b1 = if b < i { b } else { b + 1 };
                    assert(m2.active[a] == m.active[a1] && m2.active[b] == m.active[b1]);
                }
                assert forall|k: int| 0 <= k < m2.active.len() implies m2.flags[k] == flagged(m0, #[trigger] m2.active[k].id) by {
                    let k1 = if k < i { k } else { k + 1 };
                    assert(m2.active[k] == m.active[k1] && m2.flags[k] == m.flags[k1]);
                }
                assert forall|id: u64| !is_active_id(m, id) implies !is_active_id(m2, id) by {
                    if is_active_id(m2, id) {
                        let k = choose|k: int| 0 <= k < m2.active.len() && #[trigger] m2.active[k].id == id;
                        let k1 = if k < i { k } else { k + 1 };
                        assert(m.active[k1].id == id);
                    }
                }
                assert(!is_active_id(m2, rv.id)) by {
                    if is_active_id(m2, rv.id) {
                        let k = choose|k: int| 0 <= k < m2.active.len() && #[trigger] m2.active[k].id == rv.id;
                        let k1 = if k < i { k } else { k + 1 };
                        assert(m.active[k1].id == m.active[i].id);
                        if k1 < i {
                            assert(m.active[k1].id != m.active[i].id);
                        } else {
                            assert(m.active[i].id != m.active[k1].id);
                        }
                    }
                }
                assert((seq![rv] + m.history)[0] == rv);
            } else {
                assert forall|a: int, b: int| 0 <= a < b < m2.active.len() implies #[trigger] m2.active[a].id != #[trigger] m2.active[b].id by {
                    assert(m2.active[a].id == m.active[a].id && m2.active[b].id == m.active[b].id);
                }
                assert forall|k: int| 0 <= k < m2.active.len() implies m2.flags[k] == flagged(m0, #[trigger] m2.active[k].id) by {
                    assert(m2.active[k].id == m.active[k].id);
                }
                assert forall|id: u64| !is_active_id(m, id) implies !is_active_id(m2, id) by {
                    if is_active_id(m2, id) {
                        let k = choose|k: int| 0 <= k < m2.active.len() && #[trigger] m2.active[k].id == id;
                        assert(m.active[k].id == id);
                    }
                }
            }
        },
    }
}

/// Draining a sound board: every job reported finished ended at `now`,
/// cancelled when its cancellation was requested and otherwise succeeded
/// exactly when no error is reported, carrying either what it produced or
/// the error; it is no longer active; the history
/// keeps at most its limit, and the last job reported finished heads it.
pub proof fn lemma_drain_finishes_jobs(m0: BoardModel, events: Seq<JobEvent>, now: i64)
    requires
        board_ok(m0),
        m0.history.len() <= HISTORY_LIMIT,
    ensures
        ({
            let (m, ns) = model_drain(m0, events, now);
            &&& board_ok(m)
            &&& kept_from(m0, m)
            &&& m.history.len() <= HISTORY_LIMIT
            &&& forall|k: int| 0 <= k < ns.len() ==> finished_ok(m0, #[trigger] ns[k], now)
            &&& forall|k: int|
                0 <= k < ns.len() ==> (#[trigger] ns[k] matches NotificationView::Finished { record, .. } ==> !is_active_id(m, record.id))
            &&& forall|k: int|
                0 <= k < ns.len() && #[trigger] ns[k] is Finished && (forall|j: int| k < j < ns.len() ==> !(ns[j] is Finished))
                    ==> m.history.len() > 0 && m.history[0] == ns[k]->record
        }),
    decreases events.len(),
{
    if events.len() == 0 {
        lemma_kept_from_start(m0);
    } else {
        lemma_drain_finishes_jobs(m0, events.drop_last(), now);
        let (m1, ns1) = model_drain(m0, events.drop_last(), now);
        lemma_apply_step(m0, m1, events.last(), now);
        let (m2, n) = model_apply(m1, events.last(), now);
        let ns = model_drain(m0, events, now).1;
        match n {
            None => {
                assert(ns == ns1);
            },
            Some(x) => {
                assert(ns == ns1.push(x));
                assert forall|k: int| 0 <= k < ns.len() implies finished_ok(m0, #[trigger] ns[k], now) by {
                    if k < ns1.len() {
                        assert(ns[k] == ns1[k]);
                    }
                }
                assert forall|k: int| 0 <= k < ns.len() implies (#[trigger] ns[k] matches NotificationView::Finished { record, .. }
                    ==> !is_active_id(m2, record.id)) by {
                    if k < ns1.len() {
                        assert(ns[k] == ns1[k]);
                    }
                }
                assert forall|k: int|
                    0 <= k < ns.len() && #[trigger] ns[k] is Finished && (forall|j: int| k < j < ns.len() ==> !(ns[j] is Finished)) implies
                    m2.history.len() > 0 && m2.history[0] == ns[k]->record by {
                    if k < ns1.len() {
                        assert(ns[k] == ns1[k]);
                        assert(ns[ns.len() - 1] == x);
                        assert(!(x is Finished));
                        assert forall|j: int| k < j < ns1.len() implies !(ns1[j] is Finished) by {
                            assert(ns[j] == ns1[j]);
                        }
                    }
                }
            },
        }
    }
}

/// A well-formed board's model is sound, so `lemma_drain_finishes_jobs`
/// holds of what `drain_notifications` does to it.
pub proof fn lemma_board_model_ok(b: BackgroundJobBoard)
    requires
        b.wf(),
    ensures
        board_ok(b.model()),
        b.model().history.len() <= HISTORY_LIMIT,
{
    b.lemma_views();
    lemma_board_ids_below_next(b);
    assert forall|i: int, j: int| 0 <= i < j < b.model().active.len() implies #[trigger] b.model().active[i].id
        != #[trigger] b.model().active[j].id by {
        assert(b.active()[i] == b.jobs@[i].record@);
        assert(b.active()[j] == b.jobs@[j].record@);
    }
}

/// Where `index_of_job` points, the job has the id asked for; where it finds
/// nothing, no active job has that id.
pub proof fn lemma_index_of_job(active: Seq<JobRecordView>, id: u64)
    ensures
        match index_of_job(active, id) {
            Some(i) => 0 <= i < active.len() && active[i].id == id,
            None => forall|k: int| 0 <= k < active.len() ==> #[trigger] active[k].id != id,
        },
{
}

/// Every id on a board, active or kept in the history, is below the id the
/// next queued job gets, so a newly queued job never shares its id with a
/// job the board has seen; the history never holds more than its limit.
pub proof fn lemma_board_ids_below_next(b: BackgroundJobBoard)
    requires
        b.wf(),
    ensures
        b.active().len() == b.cancel_flags().len(),
        forall|i: int| 0 <= i < b.active().len() ==> #[trigger] b.active()[i].id < b.spec_next_id(),
        forall|i: int| 0 <= i < b.history().len() ==> #[trigger] b.history()[i].id < b.spec_next_id(),
        b.history().len() <= HISTORY_LIMIT,
{
    b.lemma_views();
    assert forall|i: int| 0 <= i < b.active().len() implies #[trigger] b.active()[i].id < b.spec_next_id() by {
        assert(b.active()[i] == b.jobs@[i].record@);
    }
    assert forall|i: int| 0 <= i < b.history().len() implies #[trigger] b.history()[i].id < b.spec_next_id() by {
        assert(b.history()[i] == b.history@[i]@);
    }
}

/// A job whose cancellation was requested ends as cancelled whether it then
/// reports success or failure: it leaves the active jobs, heads the history
/// with state `Cancelled`, and the notification carries that record.
pub proof fn lemma_flagged_job_ends_cancelled(m: BoardModel, event: JobEvent, now: i64)
    requires
        m.flags.len() == m.active.len(),
        is_terminal(event),
        index_of_job(m.active, event_id(event)) matches Some(i) && m.flags[i],
    ensures
        ({
            let (m2, n) = model_apply(m, event, now);
            let i = index_of_job(m.active, event_id(event))->0;
            &&& m2.active == m.active.remove(i)
            &&& m2.history.len() > 0
            &&& m2.history[0].id == event_id(event)
            &&& m2.history[0].state == BackgroundJobState::Cancelled
            &&& n matches Some(NotificationView::Finished { record, .. }) && record == m2.history[0]
        }),
{
    lemma_index_of_job(m.active, event_id(event));
}

/// A job that reports success without a cancellation request ends as
/// succeeded: it heads the history with its summary as detail and its end
/// time set, and the notification carries that record and the success, with
/// no error.
pub proof fn lemma_finished_job_recorded_succeeded(m: BoardModel, event: JobEvent, now: i64)
    requires
        m.flags.len() == m.active.len(),
        event is Finished,
        index_of_job(m.active, event_id(event)) matches Some(i) && !m.flags[i],
    ensures
        ({
            let (m2, n) = model_apply(m, event, now);
            &&& m2.history.len() > 0
            &&& m2.history[0].id == event_id(event)
            &&& m2.history[0].state == BackgroundJobState::Succeeded
            &&& m2.history[0].detail == Some(success_message(event->Finished_success@))
            &&& m2.history[0].finished_at == Some(now)
            &&& n == Some(
                NotificationView::Finished { record: m2.history[0], success: Some(event->Finished_success@), error: None },
            )
        }),
{
    lemma_index_of_job(m.active, event_id(event));
}

/// An event for a job that is not active changes nothing and gives no
/// notification.
pub proof fn lemma_unknown_job_event_ignored(m: BoardModel, event: JobEvent, now: i64)
    requires
        forall|k: int| 0 <= k < m.active.len() ==> #[trigger] m.active[k].id != event_id(event),
    ensures
        model_apply(m, event, now) == (m, None::<NotificationView>),
{
    lemma_index_of_job(m.active, event_id(event));
}

/// Cancelling an active job and then receiving its success or failure ends
/// the job as cancelled: the record at the head of the history, and the one
/// notified, have state `Cancelled`.
pub proof fn lemma_cancel_then_end_is_cancelled(
    before: BackgroundJobBoard,
    after_cancel: BackgroundJobBoard,
    event: JobEvent,
    now: i64,
    cancel_time: i64,
)
    requires
        before.wf(),
        after_cancel.wf(),
        before.active_index(event_id(event)) is Some,
        is_terminal(event),
        ({
            let i = before.active_index(event_id(event))->0;
            &&& after_cancel.active() == before.active().update(
                i,
                JobRecordView {
                    detail: Some("Cancellation requested."@),
                    updated_at: cancel_time,
                    ..before.active()[i]
                },
            )
            &&& after_cancel.cancel_flags() == before.cancel_flags().update(i, true)
        }),
    ensures
        ({
            let (m2, n) = model_apply(after_cancel.model(), event, now);
            &&& m2.history.len() > 0
            &&& m2.history[0].id == event_id(event)
            &&& m2.history[0].state == BackgroundJobState::Cancelled
            &&& n matches Some(NotificationView::Finished { record, .. }) && record == m2.history[0]
        }),
{
    let id = event_id(event);
    let i = before.active_index(id)->0;
    lemma_board_ids_below_next(before);
    lemma_board_ids_below_next(after_cancel);
    lemma_index_of_job(after_cancel.active(), id);
    assert(after_cancel.active()[i].id == id);
    let j = index_of_job(after_cancel.active(), id)->0;
    if j != i {
        after_cancel.lemma_views();
        if j < i {
            assert(after_cancel.jobs@[j].record.id.0 < after_cancel.jobs@[i].record.id.0);
        } else {
            assert(after_cancel.jobs@[i].record.id.0 < after_cancel.jobs@[j].record.id.0);
        }
    }
    lemma_flagged_job_ends_cancelled(after_cancel.model(), event, now);
}

} // verus!
