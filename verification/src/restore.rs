//! Restoring a backup: the steps in their order, what each outcome leads to,
//! and what is recorded when one fails.

use crate::backup::BackupFailure;
use crate::numbers::{signed_digits, signed_text};
use crate::store::ProbeConfiguration;
use crate::text::joined;
use vstd::prelude::*;
use vstd::string::*;

verus! {

/// The stage of a restore as it is shown.
#[derive(Debug, Clone, Copy, PartialEq, Eq, Structural)]
pub enum RestoreStage {
    Verify,
    Switch,
    Recheck,
}

/// The name of a stage.
pub open spec fn stage_name(stage: RestoreStage) -> Seq<char> {
    match stage {
        RestoreStage::Verify => "verify"@,
        RestoreStage::Switch => "switch"@,
        RestoreStage::Recheck => "recheck"@,
    }
}

impl RestoreStage {
    /// The name of the stage.
    pub fn as_str(self) -> (r: &'static str)
        ensures
            r@ == stage_name(self),
    {
        match self {
            RestoreStage::Verify => "verify",
            RestoreStage::Switch => "switch",
            RestoreStage::Recheck => "recheck",
        }
    }
}

/// What came of a restore.
#[derive(Debug, Clone)]
pub struct RestoreOutcome {
    pub candidate_name: String,
    pub candidate_schema: i64,
    pub restored_schema: i64,
    pub pre_restore_backup_name: String,
    pub completed_at: i64,
    pub probe_configurations: Vec<ProbeConfiguration>,
}

/// Why a candidate could not be made ready.
#[derive(Debug)]
pub enum RestoreStagingFailure {
    /// It is not among the managed backups.
    Select(String),
    /// It could not be copied, or does not verify.
    Verify(String),
    /// Its migration failed.
    Migrate(String),
    /// It could not be closed.
    Close(String),
}

/// The recorded stage of a failure.
pub open spec fn failed_stage(failure: RestoreStagingFailure) -> Seq<char> {
    match failure {
        RestoreStagingFailure::Select(_) => "select"@,
        RestoreStagingFailure::Verify(_) => "verify_candidate"@,
        RestoreStagingFailure::Migrate(_) => "migrate_candidate"@,
        RestoreStagingFailure::Close(_) => "switch"@,
    }
}

/// Why a candidate could not be made ready, in words.
pub open spec fn failed_reason(failure: RestoreStagingFailure) -> Seq<char> {
    match failure {
        RestoreStagingFailure::Select(reason) => reason@,
        RestoreStagingFailure::Verify(reason) => reason@,
        RestoreStagingFailure::Migrate(reason) => reason@,
        RestoreStagingFailure::Close(reason) => reason@,
    }
}

impl RestoreStagingFailure {
    /// The recorded stage.
    pub fn stage(&self) -> (r: &'static str)
        ensures
            r@ == failed_stage(*self),
    {
        match self {
            RestoreStagingFailure::Select(_) => "select",
            RestoreStagingFailure::Verify(_) => "verify_candidate",
            RestoreStagingFailure::Migrate(_) => "migrate_candidate",
            RestoreStagingFailure::Close(_) => "switch",
        }
    }

    /// The reason in words.
    pub fn reason(&self) -> (r: &String)
        ensures
            r@ == failed_reason(*self),
    {
        match self {
            RestoreStagingFailure::Select(reason) => reason,
            RestoreStagingFailure::Verify(reason) => reason,
            RestoreStagingFailure::Migrate(reason) => reason,
            RestoreStagingFailure::Close(reason) => reason,
        }
    }

    /// The backup that the failure is recorded for: none where none was found.
    pub fn source(&self, backup_name: &String) -> (r: Option<String>)
        ensures
            r == source_told(*self, *backup_name),
    {
        match self {
            RestoreStagingFailure::Select(_) => None,
            _ => Some(backup_name.clone()),
        }
    }
}

/// What a restore does next.
#[derive(Debug, Clone, Copy, PartialEq, Eq, Structural)]
pub enum RestoreStep {
    /// Look for the backup among the managed ones.
    Select,
    /// Back the current database up.
    Preserve,
    /// Look for the backup once more; making the last one may have rotated it
    /// out.
    Reselect,
    /// Copy the backup beside the database.
    Copy,
    /// Open the copy and check it.
    Verify,
    /// Bring the copy to the supported schema.
    Migrate,
    /// Close the copy.
    Close,
    /// Put the copy in the place of the database.
    Switch,
    /// Record the restore and send every route back to being checked.
    Recheck,
    /// Nothing: the current database stays.
    Stop,
}

/// How a step went.
#[derive(Debug)]
pub enum RestoreEvent {
    Found(bool),
    ListFailed,
    Preserved(String),
    PreserveFailed(BackupFailure),
    Done,
    Failed(String),
    Checked(i64),
    CheckFailed(BackupFailure),
}

/// A restore under way.
#[derive(Debug)]
pub struct Restore {
    pub backup_name: String,
    pub supported: i64,
    pub step: RestoreStep,
    /// The backup of the current database, once it was made.
    pub preserved: Option<String>,
    /// The schema of the candidate, once it was checked.
    pub candidate_schema: Option<i64>,
    /// Whether the copy has the supported schema.
    pub ready: bool,
}

/// What is recorded of a restore that failed.
pub struct RecordData {
    pub stage: Seq<char>,
    pub reason: Seq<char>,
    pub source: Option<Seq<char>>,
}

/// What is recorded of a restore that failed.
#[derive(Debug)]
pub struct RestoreFailure {
    pub stage: &'static str,
    pub reason: String,
    pub source: Option<String>,
}

impl View for RestoreFailure {
    type V = RecordData;

    open spec fn view(&self) -> RecordData {
        RecordData {
            stage: self.stage@,
            reason: self.reason@,
            source: match self.source {
                Some(name) => Some(name@),
                None => None,
            },
        }
    }
}

/// Whether an event is an outcome of a step.
pub open spec fn event_of_step(step: RestoreStep, event: RestoreEvent) -> bool {
    match step {
        RestoreStep::Select => event is Found,
        RestoreStep::Preserve => event is Preserved || event is PreserveFailed,
        RestoreStep::Reselect => event is Found || event is ListFailed,
        RestoreStep::Verify => event is Checked || event is CheckFailed,
        RestoreStep::Copy | RestoreStep::Migrate | RestoreStep::Close | RestoreStep::Switch => event
            is Done || event is Failed,
        RestoreStep::Recheck | RestoreStep::Stop => false,
    }
}

/// The words for a backup that is not among the managed ones.
pub open spec fn not_managed(name: Seq<char>) -> Seq<char> {
    "backup "@ + name + " is not in the managed backup set"@
}

/// What is recorded when an event ends a restore.
pub open spec fn failure_record(restore: Restore, event: RestoreEvent) -> Option<RecordData> {
    let name = restore.backup_name@;
    match (restore.step, event) {
        (RestoreStep::Select, RestoreEvent::Found(false))
        | (RestoreStep::Reselect, RestoreEvent::Found(false)) => Some(
            RecordData { stage: "select"@, reason: not_managed(name), source: None },
        ),
        (RestoreStep::Reselect, RestoreEvent::ListFailed) => Some(
            RecordData {
                stage: "select"@,
                reason: "could not list the managed backups"@,
                source: None,
            },
        ),
        (RestoreStep::Preserve, RestoreEvent::PreserveFailed(failure)) => Some(
            RecordData {
                stage: "backup_current"@,
                reason: "could not preserve the current database: "@ + ("backup failed at "@
                    + failure.stage@ + ": "@ + failure.reason@),
                source: Some(name),
            },
        ),
        (RestoreStep::Copy, RestoreEvent::Failed(error)) => Some(
            RecordData {
                stage: "verify_candidate"@,
                reason: "could not stage the candidate backup: "@ + error@,
                source: Some(name),
            },
        ),
        (RestoreStep::Verify, RestoreEvent::CheckFailed(failure)) => Some(
            RecordData {
                stage: "verify_candidate"@,
                reason: "candidate failed verification: "@ + ("backup failed at "@ + failure.stage@
                    + ": "@ + failure.reason@),
                source: Some(name),
            },
        ),
        (RestoreStep::Verify, RestoreEvent::Checked(schema)) => if schema > restore.supported {
            Some(
                RecordData {
                    stage: "verify_candidate"@,
                    reason: "backup "@ + name + " has schema v"@ + signed_digits(schema as int)
                        + ", newer than this binary supports"@,
                    source: Some(name),
                },
            )
        } else if schema < 1 {
            Some(
                RecordData {
                    stage: "verify_candidate"@,
                    reason: "backup "@ + name + " has an unsupported schema version "@
                        + signed_digits(schema as int),
                    source: Some(name),
                },
            )
        } else {
            None
        },
        (RestoreStep::Migrate, RestoreEvent::Failed(error)) => Some(
            RecordData {
                stage: "migrate_candidate"@,
                reason: "candidate migration failed: "@ + error@,
                source: Some(name),
            },
        ),
        (RestoreStep::Close, RestoreEvent::Failed(error)) => Some(
            RecordData {
                stage: "switch"@,
                reason: "candidate could not be closed cleanly: "@ + error@,
                source: Some(name),
            },
        ),
        (RestoreStep::Switch, RestoreEvent::Failed(error)) => Some(
            RecordData {
                stage: "switch"@,
                reason: "could not switch to the candidate: "@ + error@,
                source: Some(name),
            },
        ),
        _ => None,
    }
}

/// The step that follows when nothing failed.
pub open spec fn following(restore: Restore, event: RestoreEvent) -> RestoreStep {
    match restore.step {
        RestoreStep::Select => RestoreStep::Preserve,
        RestoreStep::Preserve => RestoreStep::Reselect,
        RestoreStep::Reselect => RestoreStep::Copy,
        RestoreStep::Copy => RestoreStep::Verify,
        RestoreStep::Verify => if event is Checked && event->Checked_0 < restore.supported {
            RestoreStep::Migrate
        } else {
            RestoreStep::Close
        },
        RestoreStep::Migrate => RestoreStep::Close,
        RestoreStep::Close => RestoreStep::Switch,
        RestoreStep::Switch => RestoreStep::Recheck,
        RestoreStep::Recheck | RestoreStep::Stop => restore.step,
    }
}

/// The state that is recorded of a restored database, and the schema it was
/// migrated from.
pub open spec fn recorded_state(schema: i64, supported: i64) -> (Seq<char>, Option<i64>) {
    if schema < supported {
        ("migrated"@, Some(schema))
    } else {
        ("current"@, None)
    }
}

impl Restore {
    /// What holds of a restore at any time: the database is only replaced, or
    /// a copy only closed for it, after the current one was backed up and the
    /// copy has the supported schema.
    pub open spec fn wf(self) -> bool {
        &&& self.supported >= 1
        &&& match self.step {
            RestoreStep::Select | RestoreStep::Preserve | RestoreStep::Stop => true,
            RestoreStep::Reselect | RestoreStep::Copy | RestoreStep::Verify => self.preserved
                is Some,
            RestoreStep::Migrate => self.preserved is Some && (
            self.candidate_schema matches Some(s) && 1 <= s < self.supported),
            RestoreStep::Close | RestoreStep::Switch | RestoreStep::Recheck => self.preserved
                is Some && self.ready && (self.candidate_schema matches Some(s) && 1 <= s
                <= self.supported),
        }
    }

    /// The restore of a backup into a database that is open: the backup is
    /// looked for first.
    pub fn begin(backup_name: String, supported: i64) -> (r: Self)
        requires
            supported >= 1,
        ensures
            r.wf(),
            r.step == RestoreStep::Select,
            r.backup_name == backup_name,
            r.supported == supported,
            r.preserved is None,
            r.candidate_schema is None,
            !r.ready,
    {
        Restore {
            backup_name,
            supported,
            step: RestoreStep::Select,
            preserved: None,
            candidate_schema: None,
            ready: false,
        }
    }

    /// The restore of a backup into a database that is closed: the current
    /// database is backed up first.
    pub fn begin_offline(backup_name: String, supported: i64) -> (r: Self)
        requires
            supported >= 1,
        ensures
            r.wf(),
            r.step == RestoreStep::Preserve,
            r.backup_name == backup_name,
            r.supported == supported,
            r.preserved is None,
            r.candidate_schema is None,
            !r.ready,
    {
        Restore {
            backup_name,
            supported,
            step: RestoreStep::Preserve,
            preserved: None,
            candidate_schema: None,
            ready: false,
        }
    }

    /// Takes in how the step went. A failure ends the restore, and the answer
    /// is what is recorded of it.
    pub fn advance(&mut self, event: RestoreEvent) -> (r: Option<RestoreFailure>)
        requires
            old(self).wf(),
            event_of_step(old(self).step, event),
        ensures
            final(self).wf(),
            final(self).backup_name == old(self).backup_name,
            final(self).supported == old(self).supported,
            r is Some <==> failure_record(*old(self), event) is Some,
            r is Some ==> r->0@ == failure_record(*old(self), event)->0 && final(self).step
                == RestoreStep::Stop,
            r is None ==> final(self).step == following(*old(self), event),
            final(self).preserved == match event {
                RestoreEvent::Preserved(name) => Some(name),
                _ => old(self).preserved,
            },
            r is None ==> final(self).candidate_schema == match event {
                RestoreEvent::Checked(schema) => Some(schema),
                _ => old(self).candidate_schema,
            },
    {
        let ghost before = *self;
        let failure: Option<RestoreStagingFailure> = match (self.step, event) {
            (RestoreStep::Select, RestoreEvent::Found(found)) => {
                if found {
                    self.step = RestoreStep::Preserve;
                    None
                } else {
                    Some(RestoreStagingFailure::Select(self.not_managed_text()))
                }
            },
            (RestoreStep::Reselect, RestoreEvent::Found(found)) => {
                if found {
                    self.step = RestoreStep::Copy;
                    None
                } else {
                    Some(RestoreStagingFailure::Select(self.not_managed_text()))
                }
            },
            (RestoreStep::Reselect, RestoreEvent::ListFailed) => Some(
                RestoreStagingFailure::Select("could not list the managed backups".to_owned()),
            ),
            (RestoreStep::Preserve, RestoreEvent::Preserved(name)) => {
                self.preserved = Some(name);
                self.step = RestoreStep::Reselect;
                None
            },
            (RestoreStep::Preserve, RestoreEvent::PreserveFailed(failed)) => {
                self.step = RestoreStep::Stop;
                let reason = joined(
                    "could not preserve the current database: ",
                    failed.describe().as_str(),
                );
                return Some(
                    RestoreFailure {
                        stage: "backup_current",
                        reason,
                        source: Some(self.backup_name.clone()),
                    },
                );
            },
            (RestoreStep::Copy, RestoreEvent::Done) => {
                self.step = RestoreStep::Verify;
                None
            },
            (RestoreStep::Copy, RestoreEvent::Failed(error)) => Some(
                RestoreStagingFailure::Verify(
                    joined("could not stage the candidate backup: ", error.as_str()),
                ),
            ),
            (RestoreStep::Verify, RestoreEvent::CheckFailed(failed)) => Some(
                RestoreStagingFailure::Verify(
                    joined("candidate failed verification: ", failed.describe().as_str()),
                ),
            ),
            (RestoreStep::Verify, RestoreEvent::Checked(schema)) => {
                let head = joined("backup ", self.backup_name.as_str());
                if schema > self.supported {
                    Some(
                        RestoreStagingFailure::Verify(
                            joined(
                                joined(
                                    joined(head.as_str(), " has schema v").as_str(),
                                    signed_text(schema).as_str(),
                                ).as_str(),
                                ", newer than this binary supports",
                            ),
                        ),
                    )
                } else if schema < 1 {
                    Some(
                        RestoreStagingFailure::Verify(
                            joined(
                                joined(
                                    head.as_str(),
                                    " has an unsupported schema version ",
                                ).as_str(),
                                signed_text(schema).as_str(),
                            ),
                        ),
                    )
                } else {
                    self.candidate_schema = Some(schema);
                    if schema < self.supported {
                        self.step = RestoreStep::Migrate;
                    } else {
                        self.ready = true;
                        self.step = RestoreStep::Close;
                    }
                    None
                }
            },
            (RestoreStep::Migrate, RestoreEvent::Done) => {
                self.ready = true;
                self.step = RestoreStep::Close;
                None
            },
            (RestoreStep::Migrate, RestoreEvent::Failed(error)) => Some(
                RestoreStagingFailure::Migrate(
                    joined("candidate migration failed: ", error.as_str()),
                ),
            ),
            (RestoreStep::Close, RestoreEvent::Done) => {
                self.step = RestoreStep::Switch;
                None
            },
            (RestoreStep::Close, RestoreEvent::Failed(error)) => Some(
                RestoreStagingFailure::Close(
                    joined("candidate could not be closed cleanly: ", error.as_str()),
                ),
            ),
            (RestoreStep::Switch, RestoreEvent::Done) => {
                self.step = RestoreStep::Recheck;
                None
            },
            (RestoreStep::Switch, RestoreEvent::Failed(error)) => {
                self.step = RestoreStep::Stop;
                return Some(
                    RestoreFailure {
                        stage: "switch",
                        reason: joined("could not switch to the candidate: ", error.as_str()),
                        source: Some(self.backup_name.clone()),
                    },
                );
            },
            _ => None,
        };
        match failure {
            None => None,
            Some(failure) => {
                self.step = RestoreStep::Stop;
                let stage = failure.stage();
                let reason = failure.reason().clone();
                let source = failure.source(&self.backup_name);
                Some(RestoreFailure { stage, reason, source })
            },
        }
    }

    /// The words for a backup that is not among the managed ones.
    fn not_managed_text(&self) -> (r: String)
        ensures
            r@ == not_managed(self.backup_name@),
    {
        joined(
            joined("backup ", self.backup_name.as_str()).as_str(),
            " is not in the managed backup set",
        )
    }

    /// The state that is recorded of the restored database, and the schema it
    /// was migrated from.
    pub fn restored_state(&self) -> (r: (&'static str, Option<i64>))
        requires
            self.wf(),
            self.step == RestoreStep::Recheck,
        ensures
            (r.0@, r.1) == recorded_state(self.candidate_schema->0, self.supported),
    {
        match self.candidate_schema {
            Some(schema) => if schema < self.supported {
                ("migrated", Some(schema))
            } else {
                ("current", None)
            },
            None => ("current", None),
        }
    }
}

/// The database is replaced only after the current one was backed up and the
/// candidate was checked and brought to the supported schema.
pub proof fn law_switch_only_when_safe(restore: Restore)
    requires
        restore.wf(),
        restore.step == RestoreStep::Switch,
    ensures
        restore.preserved is Some,
        restore.candidate_schema is Some,
        1 <= restore.candidate_schema->0 <= restore.supported,
        restore.ready,
{
}

/// The stage that a step is shown as; a restore that has ended is at none.
pub open spec fn stage_of_step(step: RestoreStep) -> Option<RestoreStage> {
    match step {
        RestoreStep::Switch => Some(RestoreStage::Switch),
        RestoreStep::Recheck => Some(RestoreStage::Recheck),
        RestoreStep::Stop => None,
        _ => Some(RestoreStage::Verify),
    }
}

/// The place of a stage in a restore.
pub open spec fn stage_place(stage: RestoreStage) -> int {
    match stage {
        RestoreStage::Verify => 0,
        RestoreStage::Switch => 1,
        RestoreStage::Recheck => 2,
    }
}

impl RestoreStep {
    /// The stage that the step is shown as.
    pub fn stage(self) -> (r: Option<RestoreStage>)
        ensures
            r == stage_of_step(self),
    {
        match self {
            RestoreStep::Switch => Some(RestoreStage::Switch),
            RestoreStep::Recheck => Some(RestoreStage::Recheck),
            RestoreStep::Stop => None,
            _ => Some(RestoreStage::Verify),
        }
    }
}

/// As long as nothing fails, the stages of a restore come in their order, from
/// the first, and none is left out.
pub proof fn law_stages_come_in_order(restore: Restore, event: RestoreEvent)
    requires
        restore.step != RestoreStep::Stop,
    ensures
        stage_of_step(RestoreStep::Select) == Some(RestoreStage::Verify),
        stage_of_step(RestoreStep::Preserve) == Some(RestoreStage::Verify),
        ({
            let now = stage_of_step(restore.step);
            let next = stage_of_step(following(restore, event));
            &&& now is Some && next is Some
            &&& stage_place(now->0) <= stage_place(next->0) <= stage_place(now->0) + 1
        }),
{
}

/// What the administrator sees of a restore.
#[derive(Debug, Clone)]
pub struct RestoreProgress {
    pub candidate: String,
    pub stage: RestoreStage,
    pub started_at: i64,
    pub session_token_hash: Vec<u8>,
    /// The stages so far, in order.
    pub stages: Vec<RestoreStage>,
    /// When the restore ended.
    pub finished_at: Option<i64>,
}

/// A restore that ended.
pub open spec fn restore_over(progress: RestoreProgress, now: i64) -> RestoreProgress {
    RestoreProgress { finished_at: Some(now), ..progress }
}

/// The backup that a failure is recorded for: none where none was found.
pub open spec fn source_told(failure: RestoreStagingFailure, backup_name: String) -> Option<String> {
    if failure is Select {
        None
    } else {
        Some(backup_name)
    }
}

/// Seconds for which a restore that ended is still shown.
pub const RECENT_RESTORE_RETENTION_SECONDS: i64 = 10;

/// What the administrator is shown of a restore.
#[derive(Debug, Clone, Copy, PartialEq, Eq, Structural)]
pub enum RestoreView {
    Restoring,
    Recent,
    Idle,
}

/// The stages that were noted after one was reached.
pub open spec fn stages_after(stages: Seq<RestoreStage>, stage: RestoreStage) -> Seq<RestoreStage> {
    if stages.len() > 0 && stages.last() == stage {
        stages
    } else {
        stages.push(stage)
    }
}

/// What is shown of a restore at a time, by when it ended.
pub open spec fn restore_shown(finished_at: Option<i64>, now: int) -> RestoreView {
    match finished_at {
        None => RestoreView::Restoring,
        Some(at) => if now - at <= 10 {
            RestoreView::Recent
        } else {
            RestoreView::Idle
        },
    }
}

/// Whether a session sees the restore that another or itself began.
pub open spec fn sees_restore(token_hash: Option<Vec<u8>>, began_by: Seq<u8>) -> bool {
    token_hash matches Some(hash) && hash@ == began_by
}

impl RestoreProgress {
    /// A restore that begins.
    pub fn begin(candidate: String, started_at: i64, session_token_hash: Vec<u8>) -> (r: Self)
        ensures
            r.candidate == candidate,
            r.stage == RestoreStage::Verify,
            r.started_at == started_at,
            r.session_token_hash == session_token_hash,
            r.stages@ == Seq::<RestoreStage>::empty(),
            r.finished_at is None,
    {
        RestoreProgress {
            candidate,
            stage: RestoreStage::Verify,
            started_at,
            session_token_hash,
            stages: Vec::new(),
            finished_at: None,
        }
    }

    /// Notes that a stage was reached; one that was just noted is not noted
    /// again.
    pub fn reach(&mut self, stage: RestoreStage)
        ensures
            final(self).stage == stage,
            final(self).stages@ == stages_after(old(self).stages@, stage),
            final(self).candidate == old(self).candidate,
            final(self).started_at == old(self).started_at,
            final(self).session_token_hash == old(self).session_token_hash,
            final(self).finished_at == old(self).finished_at,
    {
        self.stage = stage;
        let count: usize = self.stages.len();
        if count == 0 || self.stages[count - 1] != stage {
            self.stages.push(stage);
        }
    }

    /// Notes that the restore ended.
    pub fn finish(&mut self, now: i64)
        ensures
            *final(self) == restore_over(*old(self), now),
    {
        self.finished_at = Some(now);
    }

    /// What is shown of the restore at a time.
    pub fn view_at(&self, now: i64) -> (r: RestoreView)
        ensures
            r == restore_shown(self.finished_at, now as int),
    {
        match self.finished_at {
            None => RestoreView::Restoring,
            Some(at) => if now as i128 - at as i128 <= RECENT_RESTORE_RETENTION_SECONDS as i128 {
                RestoreView::Recent
            } else {
                RestoreView::Idle
            },
        }
    }

    /// Whether a session may see the restore: the one that began it.
    pub fn is_visible_to(&self, token_hash: &Option<Vec<u8>>) -> (r: bool)
        ensures
            r == sees_restore(*token_hash, self.session_token_hash@),
    {
        match token_hash {
            Some(hash) => crate::text::same_bytes(
                hash.as_slice(),
                self.session_token_hash.as_slice(),
            ),
            None => false,
        }
    }
}

/// The next step in putting a copy in the place of the database.
#[derive(Debug, Clone, Copy, PartialEq, Eq, Structural)]
pub enum SwapStep {
    /// Close the database.
    CloseLive,
    /// Move the database aside.
    MoveAside,
    /// Move the copy to the place of the database.
    MoveIn,
    /// Open what stands there now.
    Open,
    /// Check it.
    Confirm,
    /// Remove what was moved aside.
    Finish,
    /// Nothing more.
    Stop,
}

/// What stands in the place of the database.
#[derive(Debug, Clone, Copy, PartialEq, Eq, Structural)]
pub enum LiveFile {
    Current,
    Nothing,
    Candidate,
}

/// What is undone when a step fails.
#[derive(Debug, Clone, Copy, PartialEq, Eq, Structural)]
pub struct SwapUndo {
    /// Remove the copy that was not used.
    pub remove_staged: bool,
    /// Move the database back from where it was moved aside.
    pub put_back: bool,
    /// Open the database again.
    pub reopen: bool,
}

/// Putting a copy in the place of the database.
#[derive(Debug)]
pub struct Swap {
    /// Whether the database is open.
    pub online: bool,
    pub step: SwapStep,
    pub live: LiveFile,
}

/// What stands in the place of the database after a step that went well.
pub open spec fn live_after(step: SwapStep, live: LiveFile) -> LiveFile {
    match step {
        SwapStep::MoveAside => LiveFile::Nothing,
        SwapStep::MoveIn => LiveFile::Candidate,
        _ => live,
    }
}

/// The step after one that went well. A database that was open is opened again
/// and checked before what was moved aside is removed.
pub open spec fn swap_following(online: bool, step: SwapStep) -> SwapStep {
    match step {
        SwapStep::CloseLive => SwapStep::MoveAside,
        SwapStep::MoveAside => SwapStep::MoveIn,
        SwapStep::MoveIn => if online {
            SwapStep::Open
        } else {
            SwapStep::Finish
        },
        SwapStep::Open => SwapStep::Confirm,
        SwapStep::Confirm => if online {
            SwapStep::Finish
        } else {
            SwapStep::Stop
        },
        SwapStep::Finish => if online {
            SwapStep::Stop
        } else {
            SwapStep::Confirm
        },
        SwapStep::Stop => SwapStep::Stop,
    }
}

/// What is undone after a step that failed. A copy that is open but does not
/// pass its check stays where it is.
pub open spec fn swap_undo(online: bool, step: SwapStep) -> SwapUndo {
    match step {
        SwapStep::CloseLive | SwapStep::MoveAside => SwapUndo {
            remove_staged: true,
            put_back: false,
            reopen: online,
        },
        SwapStep::MoveIn | SwapStep::Open => SwapUndo {
            remove_staged: false,
            put_back: true,
            reopen: online,
        },
        _ => SwapUndo { remove_staged: false, put_back: false, reopen: false },
    }
}

impl Swap {
    /// What holds at any time: the database is in its place until it is moved
    /// aside, and the copy once it was moved in.
    pub open spec fn wf(self) -> bool {
        match self.step {
            SwapStep::CloseLive | SwapStep::MoveAside => self.live == LiveFile::Current,
            SwapStep::MoveIn => self.live == LiveFile::Nothing,
            SwapStep::Open | SwapStep::Confirm | SwapStep::Finish => self.live
                == LiveFile::Candidate,
            SwapStep::Stop => true,
        }
    }

    /// Begins with a database that is open, or with one that is not.
    pub fn begin(online: bool) -> (r: Self)
        ensures
            r.wf(),
            r.online == online,
            r.live == LiveFile::Current,
            r.step == if online {
                SwapStep::CloseLive
            } else {
                SwapStep::MoveAside
            },
    {
        Swap {
            online,
            step: if online {
                SwapStep::CloseLive
            } else {
                SwapStep::MoveAside
            },
            live: LiveFile::Current,
        }
    }

    /// Takes in how the step went; where it failed, the answer says what is
    /// undone.
    pub fn advance(&mut self, ok: bool) -> (r: Option<SwapUndo>)
        requires
            old(self).wf(),
            old(self).step != SwapStep::Stop,
        ensures
            final(self).wf(),
            final(self).online == old(self).online,
            ok ==> r is None && final(self).step == swap_following(
                old(self).online,
                old(self).step,
            ) && final(self).live == live_after(old(self).step, old(self).live),
            !ok ==> r == Some(swap_undo(old(self).online, old(self).step)) && final(self).step
                == SwapStep::Stop && final(self).live == live_after_failure(*old(self)),
    {
        if !ok {
            let undo = match self.step {
                SwapStep::CloseLive | SwapStep::MoveAside => SwapUndo {
                    remove_staged: true,
                    put_back: false,
                    reopen: self.online,
                },
                SwapStep::MoveIn | SwapStep::Open => SwapUndo {
                    remove_staged: false,
                    put_back: true,
                    reopen: self.online,
                },
                _ => SwapUndo { remove_staged: false, put_back: false, reopen: false },
            };
            if undo.put_back {
                self.live = LiveFile::Current;
            }
            self.step = SwapStep::Stop;
            return Some(undo);
        }
        match self.step {
            SwapStep::CloseLive => {
                self.step = SwapStep::MoveAside;
            },
            SwapStep::MoveAside => {
                self.live = LiveFile::Nothing;
                self.step = SwapStep::MoveIn;
            },
            SwapStep::MoveIn => {
                self.live = LiveFile::Candidate;
                self.step = if self.online {
                    SwapStep::Open
                } else {
                    SwapStep::Finish
                };
            },
            SwapStep::Open => {
                self.step = SwapStep::Confirm;
            },
            SwapStep::Confirm => {
                self.step = if self.online {
                    SwapStep::Finish
                } else {
                    SwapStep::Stop
                };
            },
            SwapStep::Finish => {
                self.step = if self.online {
                    SwapStep::Stop
                } else {
                    SwapStep::Confirm
                };
            },
            SwapStep::Stop => {},
        }
        None
    }
}

/// What stands in the place of the database after a step that failed was
/// undone.
pub open spec fn live_after_failure(swap: Swap) -> LiveFile {
    if swap_undo(swap.online, swap.step).put_back {
        LiveFile::Current
    } else {
        swap.live
    }
}

/// A step that fails before the copy was opened leaves the current database in
/// its place.
pub proof fn law_failed_switch_keeps_the_current_database(swap: Swap)
    requires
        swap.wf(),
        swap.step == SwapStep::CloseLive || swap.step == SwapStep::MoveAside || swap.step
            == SwapStep::MoveIn || swap.step == SwapStep::Open,
    ensures
        live_after_failure(swap) == LiveFile::Current,
{
}

/// The stages have their names.
pub proof fn law_stages_are_named()
    ensures
        stage_name(RestoreStage::Verify) == "verify"@,
        stage_name(RestoreStage::Switch) == "switch"@,
        stage_name(RestoreStage::Recheck) == "recheck"@,
{
}

/// A candidate that is not ready is recorded under the stage where it failed,
/// with its reason.
pub proof fn law_staging_failures_are_recorded(reason: String)
    ensures
        failed_stage(RestoreStagingFailure::Select(reason)) == "select"@,
        failed_stage(RestoreStagingFailure::Verify(reason)) == "verify_candidate"@,
        failed_stage(RestoreStagingFailure::Migrate(reason)) == "migrate_candidate"@,
        failed_stage(RestoreStagingFailure::Close(reason)) == "switch"@,
        failed_reason(RestoreStagingFailure::Select(reason)) == reason@,
        failed_reason(RestoreStagingFailure::Verify(reason)) == reason@,
        failed_reason(RestoreStagingFailure::Migrate(reason)) == reason@,
        failed_reason(RestoreStagingFailure::Close(reason)) == reason@,
{
}

/// A restore goes on where the backup is found, the current database was
/// preserved, and the copy made, checked, migrated, closed and put in place.
pub proof fn law_restores_go_on(restore: Restore, event: RestoreEvent)
    ensures
        event == RestoreEvent::Found(true) || event is Preserved || event is Done
            ==> failure_record(restore, event) is None,
        restore.step == RestoreStep::Verify && (event matches RestoreEvent::Checked(schema) && 1
            <= schema <= restore.supported) ==> failure_record(restore, event) is None,
        restore.step == RestoreStep::Select ==> following(restore, event) == RestoreStep::Preserve,
        restore.step == RestoreStep::Preserve ==> following(restore, event)
            == RestoreStep::Reselect,
        restore.step == RestoreStep::Reselect ==> following(restore, event) == RestoreStep::Copy,
        restore.step == RestoreStep::Copy ==> following(restore, event) == RestoreStep::Verify,
        restore.step == RestoreStep::Verify && (event matches RestoreEvent::Checked(schema)
            && schema < restore.supported) ==> following(restore, event) == RestoreStep::Migrate,
        restore.step == RestoreStep::Verify && (event matches RestoreEvent::Checked(schema)
            && schema == restore.supported) ==> following(restore, event) == RestoreStep::Close,
        restore.step == RestoreStep::Migrate ==> following(restore, event) == RestoreStep::Close,
        restore.step == RestoreStep::Close ==> following(restore, event) == RestoreStep::Switch,
        restore.step == RestoreStep::Switch ==> following(restore, event) == RestoreStep::Recheck,
{
}

/// A restore ends with the first step that fails, and is recorded under it; the
/// backup is named, unless it was not found.
pub proof fn law_failed_restores_are_recorded(restore: Restore, event: RestoreEvent)
    requires
        event_of_step(restore.step, event),
    ensures
        ({
            let record = failure_record(restore, event);
            let failed = event is Failed || event is CheckFailed || event is PreserveFailed
                || event is ListFailed || event == RestoreEvent::Found(false);
            &&& failed ==> record is Some
            &&& event matches RestoreEvent::Checked(schema) ==> (record is Some <==> schema < 1
                || schema > restore.supported)
            &&& record is Some && (restore.step == RestoreStep::Select || restore.step
                == RestoreStep::Reselect) ==> record->0.stage == "select"@ && record->0.source is None
            &&& record is Some && restore.step == RestoreStep::Preserve ==> record->0.stage
                == "backup_current"@
            &&& record is Some && (restore.step == RestoreStep::Copy || restore.step
                == RestoreStep::Verify) ==> record->0.stage == "verify_candidate"@
            &&& record is Some && restore.step == RestoreStep::Migrate ==> record->0.stage
                == "migrate_candidate"@
            &&& record is Some && (restore.step == RestoreStep::Close || restore.step
                == RestoreStep::Switch) ==> record->0.stage == "switch"@
            &&& record is Some && restore.step != RestoreStep::Select && restore.step
                != RestoreStep::Reselect ==> record->0.source == Some(restore.backup_name@)
        }),
{
}

/// A restored database is recorded as migrated from an older schema, else as
/// current.
pub proof fn law_restored_databases_are_recorded(schema: i64, supported: i64)
    ensures
        schema < supported ==> recorded_state(schema, supported) == ("migrated"@, Some(schema)),
        schema >= supported ==> recorded_state(schema, supported) == ("current"@, None::<i64>),
{
}

/// Each stage is noted when it is reached, and not twice in a row.
pub proof fn law_stages_are_noted(stages: Seq<RestoreStage>, stage: RestoreStage)
    ensures
        stages_after(stages, stage).len() > 0,
        stages_after(stages, stage).last() == stage,
        stages.len() == 0 || stages.last() != stage ==> stages_after(stages, stage).len()
            == stages.len() + 1,
        stages_after(stages_after(stages, stage), stage) == stages_after(stages, stage),
        forall|i: int| 0 <= i < stages.len() ==> #[trigger] stages_after(stages, stage)[i] == stages[i],
{
}

/// A restore is shown while it goes on and for ten seconds after it ended, to
/// the session that began it.
pub proof fn law_restores_are_shown(at: i64, now: int, hash: Vec<u8>, began_by: Seq<u8>)
    ensures
        restore_shown(None, now) == RestoreView::Restoring,
        now - at <= 10 ==> restore_shown(Some(at), now) == RestoreView::Recent,
        now - at > 10 ==> restore_shown(Some(at), now) == RestoreView::Idle,
        !sees_restore(None, began_by),
        sees_restore(Some(hash), began_by) <==> hash@ == began_by,
{
}

/// A copy takes the place of the database in order: the database is closed where
/// it is open and moved aside, then the copy moved in; an open one is opened and
/// checked before the old one is removed, a closed one checked after.
pub proof fn law_copies_take_their_place(online: bool, live: LiveFile)
    ensures
        swap_following(online, SwapStep::CloseLive) == SwapStep::MoveAside,
        swap_following(online, SwapStep::MoveAside) == SwapStep::MoveIn,
        swap_following(true, SwapStep::MoveIn) == SwapStep::Open,
        swap_following(true, SwapStep::Open) == SwapStep::Confirm,
        swap_following(true, SwapStep::Confirm) == SwapStep::Finish,
        swap_following(true, SwapStep::Finish) == SwapStep::Stop,
        swap_following(false, SwapStep::MoveIn) == SwapStep::Finish,
        swap_following(false, SwapStep::Finish) == SwapStep::Confirm,
        swap_following(false, SwapStep::Confirm) == SwapStep::Stop,
        live_after(SwapStep::MoveAside, live) == LiveFile::Nothing,
        live_after(SwapStep::MoveIn, live) == LiveFile::Candidate,
        live_after(SwapStep::CloseLive, live) == live,
        live_after(SwapStep::Open, live) == live,
        live_after(SwapStep::Confirm, live) == live,
        live_after(SwapStep::Finish, live) == live,
{
}

/// What failed before the database was moved aside removes the copy; what failed
/// after that puts the database back, until the copy was opened; an open
/// database is opened again in both cases, and nothing is undone later.
pub proof fn law_failed_switches_are_undone(online: bool)
    ensures
        swap_undo(online, SwapStep::CloseLive).remove_staged && !swap_undo(
            online,
            SwapStep::CloseLive,
        ).put_back,
        swap_undo(online, SwapStep::MoveAside).remove_staged && !swap_undo(
            online,
            SwapStep::MoveAside,
        ).put_back,
        swap_undo(online, SwapStep::MoveIn).put_back && !swap_undo(
            online,
            SwapStep::MoveIn,
        ).remove_staged,
        swap_undo(online, SwapStep::Open).put_back && !swap_undo(
            online,
            SwapStep::Open,
        ).remove_staged,
        swap_undo(online, SwapStep::CloseLive).reopen == online,
        swap_undo(online, SwapStep::MoveAside).reopen == online,
        swap_undo(online, SwapStep::MoveIn).reopen == online,
        swap_undo(online, SwapStep::Open).reopen == online,
        !swap_undo(online, SwapStep::Confirm).put_back && !swap_undo(
            online,
            SwapStep::Confirm,
        ).remove_staged,
        !swap_undo(online, SwapStep::Finish).put_back && !swap_undo(
            online,
            SwapStep::Finish,
        ).remove_staged,
{
}

/// A restore that ended keeps what was noted of it; a failure is recorded for
/// its backup unless no backup was found.
pub proof fn law_ended_restores_are_noted(
    progress: RestoreProgress,
    now: i64,
    reason: String,
    name: String,
)
    ensures
        restore_over(progress, now).finished_at == Some(now),
        restore_over(progress, now).candidate == progress.candidate,
        restore_over(progress, now).stage == progress.stage,
        restore_over(progress, now).stages == progress.stages,
        restore_over(progress, now).started_at == progress.started_at,
        restore_over(progress, now).session_token_hash == progress.session_token_hash,
        source_told(RestoreStagingFailure::Select(reason), name) is None,
        source_told(RestoreStagingFailure::Verify(reason), name) == Some(name),
        source_told(RestoreStagingFailure::Migrate(reason), name) == Some(name),
        source_told(RestoreStagingFailure::Close(reason), name) == Some(name),
{
}

} // verus!
