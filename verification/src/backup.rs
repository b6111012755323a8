//! Managed backups: their names, their order, which are kept, and the
//! bookkeeping about them.

use crate::numbers::{
    all_digits, digits_of, digits_value, is_digit, lemma_digits_round_trip,
    lemma_fixed_digits_value, number_up_to, only_digits, padded_digits, padded_digits_text,
};
use crate::order::{
    lemma_in_order_unique, lemma_ranked, lemma_text_order, ranked, sort_ranked, text_at_most, text_le, Ranked,
};
use crate::text::{
    begins_with, chars_of, contains_text, finishes_with, first_index, index_of, is_text, joined,
    lemma_first_index, occurs_in, same_text, without_prefix, without_suffix,
};
use vstd::prelude::*;
use vstd::string::*;

verus! {

/// How many backups are kept.
pub const RETENTION: usize = 10;

/// Seconds between automatic backups.
pub const AUTO_BACKUP_INTERVAL_SECONDS: i64 = 86_400;

/// The application that a backup names.
pub const APPLICATION_IDENTITY: &'static str = "local-api-relay";

/// What a backup was made for.
#[derive(Debug, Clone, Copy, PartialEq, Eq, Structural)]
pub enum TriggerKind {
    Auto,
    Manual,
    /// Before a migration of the schema.
    Migration,
    /// Before a restore.
    Restore,
}

/// The recorded name of a trigger.
pub open spec fn trigger_name(trigger: TriggerKind) -> Seq<char> {
    match trigger {
        TriggerKind::Auto => "auto"@,
        TriggerKind::Manual => "manual"@,
        TriggerKind::Migration => "migration"@,
        TriggerKind::Restore => "restore"@,
    }
}

impl TriggerKind {
    /// The recorded name.
    pub fn as_str(&self) -> (r: &'static str)
        ensures
            r@ == trigger_name(*self),
    {
        match self {
            TriggerKind::Auto => "auto",
            TriggerKind::Manual => "manual",
            TriggerKind::Migration => "migration",
            TriggerKind::Restore => "restore",
        }
    }
}

/// A managed backup.
#[derive(Debug, Clone)]
pub struct BackupArtifact {
    pub name: String,
    pub path: String,
    pub sequence: i64,
    pub created_at: i64,
    pub trigger: String,
    pub schema_version: i64,
    pub size: i64,
}

impl Ranked for BackupArtifact {
    /// The newest first: by sequence, then by name, both descending.
    open spec fn rank_le(self, other: Self) -> bool {
        self.sequence > other.sequence || (self.sequence == other.sequence && text_le(
            other.name@,
            self.name@,
        ))
    }

    proof fn lemma_rank_order(a: Self, b: Self, c: Self) {
        lemma_text_order(c.name@, b.name@, a.name@);
        lemma_text_order(b.name@, a.name@, c.name@);
    }

    fn at_most(&self, other: &Self) -> (r: bool) {
        self.sequence > other.sequence || (self.sequence == other.sequence && text_at_most(
            other.name.as_str(),
            self.name.as_str(),
        ))
    }
}

/// The hexadecimal digit of a value under 16.
pub open spec fn hex_char(d: nat) -> char {
    if d < 10 {
        crate::numbers::digit_char(d)
    } else if d == 10 {
        'a'
    } else if d == 11 {
        'b'
    } else if d == 12 {
        'c'
    } else if d == 13 {
        'd'
    } else if d == 14 {
        'e'
    } else {
        'f'
    }
}

/// The last `width` hexadecimal digits of `n`.
pub open spec fn hex_digits(n: nat, width: nat) -> Seq<char>
    decreases width,
{
    if width == 0 {
        Seq::empty()
    } else {
        hex_digits(n / 16, (width - 1) as nat).push(hex_char(n % 16))
    }
}

/// The last `width` hexadecimal digits of `n`.
fn hex_text(n: u64, width: usize) -> (r: String)
    ensures
        r@ == hex_digits(n as nat, width as nat),
    decreases width,
{
    if width == 0 {
        return String::new();
    }
    let mut out = hex_text(n / 16, width - 1);
    let d: u64 = n % 16;
    let c = if d < 10 {
        crate::numbers::char_of_digit(d)
    } else if d == 10 {
        'a'
    } else if d == 11 {
        'b'
    } else if d == 12 {
        'c'
    } else if d == 13 {
        'd'
    } else if d == 14 {
        'e'
    } else {
        'f'
    };
    out.push(c);
    out
}

/// A sequence number as six digits; a minus sign takes the place of one.
pub open spec fn sequence_text(sequence: int) -> Seq<char> {
    if sequence < 0 {
        seq!['-'] + padded_digits((-sequence) as nat, 5)
    } else {
        padded_digits(sequence as nat, 6)
    }
}

/// The name of a backup.
pub open spec fn artifact_name_data(sequence: int, nonce: nat) -> Seq<char> {
    "backup-"@ + sequence_text(sequence) + "-"@ + hex_digits(nonce, 16) + ".sqlite3"@
}

/// The name of a backup.
pub fn artifact_name(sequence: i64, nonce: u64) -> (r: String)
    ensures
        r@ == artifact_name_data(sequence as int, nonce as nat),
{
    let number = if sequence < 0 {
        let magnitude: u64 = (-(sequence as i128)) as u64;
        proof {
            reveal_strlit("-");
            assert("-"@ =~= seq!['-']);
        }
        joined("-", padded_digits_text(magnitude, 5).as_str())
    } else {
        padded_digits_text(sequence as u64, 6)
    };
    let head = joined(joined("backup-", number.as_str()).as_str(), "-");
    joined(joined(head.as_str(), hex_text(nonce, 16).as_str()).as_str(), ".sqlite3")
}

/// Calls `rand::random` for a number of 64 bits; which one is left to chance.
#[verifier::external_body]
fn random_nonce() -> u64 {
    rand::random::<u64>()
}

/// A new name for a backup.
pub fn new_artifact_name(sequence: i64) -> (r: String)
    ensures
        exists|nonce: u64|
            r@ == #[trigger] artifact_name_data(sequence as int, nonce as nat),
{
    let nonce: u64 = random_nonce();
    artifact_name(sequence, nonce)
}

/// What stands in a name between `backup-` and `.sqlite3`, up to the first
/// hyphen.
pub open spec fn sequence_part(name: Seq<char>) -> Option<Seq<char>> {
    if !begins_with(name, "backup-"@) {
        None
    } else {
        let rest = name.skip("backup-"@.len() as int);
        if !finishes_with(rest, ".sqlite3"@) {
            None
        } else {
            let base = rest.take(rest.len() - ".sqlite3"@.len());
            Some(
                match first_index(base, '-') {
                    Some(i) => base.take(i),
                    None => base,
                },
            )
        }
    }
}

/// The sequence number that a name gives.
pub open spec fn named_sequence(name: Seq<char>) -> Option<int> {
    match sequence_part(name) {
        Some(part) => if part.len() > 0 && all_digits(part) && digits_value(part) <= i64::MAX {
            Some(digits_value(part) as int)
        } else {
            None
        },
        None => None,
    }
}

/// The sequence number that a name gives.
pub fn backup_sequence(name: &str) -> (r: Option<i64>)
    ensures
        r is Some <==> named_sequence(name@) is Some,
        r matches Some(n) ==> named_sequence(name@) == Some(n as int),
{
    let rest = match without_prefix(name, "backup-") {
        Some(rest) => rest,
        None => {
            return None;
        },
    };
    let base = match without_suffix(rest.as_str(), ".sqlite3") {
        Some(base) => base,
        None => {
            return None;
        },
    };
    let chars = chars_of(base.as_str());
    let end: usize = match index_of(chars.as_slice(), '-') {
        Some(i) => i,
        None => chars.len(),
    };
    proof {
        assert(chars@.subrange(0, end as int) =~= base@.take(end as int));
        assert(base@.take(base@.len() as int) =~= base@);
    }
    let part = vstd::slice::slice_subrange(chars.as_slice(), 0, end);
    if part.len() == 0 || !only_digits(part) {
        return None;
    }
    match number_up_to(part, 0x7fff_ffff_ffff_ffff) {
        Some(n) => Some(n as i64),
        None => None,
    }
}

/// The name of a backup gives its sequence number back.
pub proof fn law_names_give_their_sequence(sequence: int, nonce: nat)
    requires
        0 <= sequence <= i64::MAX,
    ensures
        named_sequence(artifact_name_data(sequence, nonce)) == Some(sequence),
{
    let name = artifact_name_data(sequence, nonce);
    let number = sequence_text(sequence);
    let hex = hex_digits(nonce, 16);
    reveal_strlit("backup-");
    reveal_strlit("-");
    reveal_strlit(".sqlite3");
    let rest = number + "-"@ + hex + ".sqlite3"@;
    let base = number + "-"@ + hex;
    assert(name =~= "backup-"@ + rest);
    assert(name.take("backup-"@.len() as int) =~= "backup-"@);
    assert(name.skip("backup-"@.len() as int) =~= rest);
    assert(rest.skip(rest.len() - ".sqlite3"@.len()) =~= ".sqlite3"@);
    assert(rest.take(rest.len() - ".sqlite3"@.len()) =~= base);
    lemma_padded(sequence as nat, 6);
    assert forall|k: int| 0 <= k < number.len() implies #[trigger] base[k] != '-' by {
        assert(base[k] == number[k]);
        assert(is_digit(number[k]));
    }
    assert(base[number.len() as int] == '-');
    lemma_first_index(base, '-', number.len() as int);
    assert(base.take(number.len() as int) =~= number);
}

/// Padding keeps a number readable.
proof fn lemma_padded(n: nat, width: nat)
    ensures
        padded_digits(n, width).len() > 0,
        all_digits(padded_digits(n, width)),
        digits_value(padded_digits(n, width)) == n,
{
    lemma_digits_round_trip(n);
    if digits_of(n).len() < width {
        crate::timeutil::lemma_digits_bound(n);
        crate::timeutil::lemma_pow10_grows(digits_of(n).len(), width);
        lemma_fixed_digits_value(n, width);
    }
}

/// Backups, the newest first.
pub fn order_artifacts(artifacts: Vec<BackupArtifact>) -> (r: Vec<BackupArtifact>)
    ensures
        r@ == ranked(artifacts@),
{
    sort_ranked(artifacts)
}

/// Rotation keeps the newest backups: none that it removes is newer than one
/// that it keeps.
pub proof fn law_rotation_keeps_the_newest(artifacts: Seq<BackupArtifact>, keep: int, kept: int, removed: int)
    requires
        0 <= kept < keep <= removed < ranked(artifacts).len(),
    ensures
        ranked(artifacts)[kept].sequence >= ranked(artifacts)[removed].sequence,
{
    lemma_ranked(artifacts);
    let order = ranked(artifacts);
    assert(order[kept].rank_le(order[removed]));
}

/// What is known of the managed backups.
pub struct StateData {
    pub next_sequence: i64,
    pub last_auto_backup_at: Option<i64>,
    pub last_snapshot_writes: Option<i64>,
    pub last_failure_stage: Option<Seq<char>>,
    pub last_failure_reason: Option<Seq<char>>,
    pub last_failure_at: Option<i64>,
}

/// The bookkeeping about the managed backups.
#[derive(Debug, Clone)]
pub struct BackupState {
    pub next_sequence: i64,
    pub last_auto_backup_at: Option<i64>,
    pub last_snapshot_writes: Option<i64>,
    pub last_failure_stage: Option<String>,
    pub last_failure_reason: Option<String>,
    pub last_failure_at: Option<i64>,
}

/// The characters of an optional text.
pub open spec fn chars_of_option(text: Option<String>) -> Option<Seq<char>> {
    match text {
        Some(t) => Some(t@),
        None => None,
    }
}

impl View for BackupState {
    type V = StateData;

    open spec fn view(&self) -> StateData {
        StateData {
            next_sequence: self.next_sequence,
            last_auto_backup_at: self.last_auto_backup_at,
            last_snapshot_writes: self.last_snapshot_writes,
            last_failure_stage: chars_of_option(self.last_failure_stage),
            last_failure_reason: chars_of_option(self.last_failure_reason),
            last_failure_at: self.last_failure_at,
        }
    }
}

impl Default for BackupState {
    fn default() -> (r: Self)
        ensures
            r@ == (StateData {
                next_sequence: 0,
                last_auto_backup_at: None,
                last_snapshot_writes: None,
                last_failure_stage: None,
                last_failure_reason: None,
                last_failure_at: None,
            }),
    {
        BackupState {
            next_sequence: 0,
            last_auto_backup_at: None,
            last_snapshot_writes: None,
            last_failure_stage: None,
            last_failure_reason: None,
            last_failure_at: None,
        }
    }
}

/// What a backup says of the writes that it holds.
#[derive(Debug, Clone, Copy, PartialEq, Eq, Structural)]
pub enum SnapshotWrites {
    /// The counter of writes at the time of the backup.
    Counted(i64),
    /// The counter was not read, and what was known of it no longer holds.
    Unknown,
    /// The counter was not read; what was known of it stays.
    Kept,
}

/// The bookkeeping after a backup was made. Only an automatic backup of the
/// running service, which knows its counter of writes, begins a new day.
pub open spec fn after_backup(
    state: StateData,
    trigger: TriggerKind,
    now: i64,
    writes: SnapshotWrites,
) -> StateData {
    StateData {
        next_sequence: (state.next_sequence + 1) as i64,
        last_auto_backup_at: if trigger == TriggerKind::Auto && writes is Counted {
            Some(now)
        } else {
            state.last_auto_backup_at
        },
        last_snapshot_writes: match writes {
            SnapshotWrites::Counted(n) => Some(n),
            SnapshotWrites::Unknown => None,
            SnapshotWrites::Kept => state.last_snapshot_writes,
        },
        last_failure_stage: None,
        last_failure_reason: None,
        last_failure_at: None,
    }
}

/// The bookkeeping after a backup failed.
pub open spec fn after_failed_backup(
    state: StateData,
    stage: Seq<char>,
    reason: Seq<char>,
    now: i64,
) -> StateData {
    StateData {
        last_failure_stage: Some(stage),
        last_failure_reason: Some(reason),
        last_failure_at: Some(now),
        ..state
    }
}

/// Whether an automatic backup is due: something was written since the last
/// snapshot, and the last automatic backup is a day old.
pub open spec fn auto_backup_due(state: StateData, writes: int, now: int) -> bool {
    &&& state.last_snapshot_writes matches Some(n) ==> n != writes
    &&& state.last_auto_backup_at matches Some(at) ==> now - at >= 86_400
}

impl BackupState {
    /// Takes in a backup that was made.
    pub fn record_backup(&mut self, trigger: TriggerKind, now: i64, writes: SnapshotWrites)
        requires
            old(self).next_sequence < i64::MAX,
        ensures
            final(self)@ == after_backup(old(self)@, trigger, now, writes),
    {
        self.next_sequence = self.next_sequence + 1;
        match writes {
            SnapshotWrites::Counted(n) => {
                if trigger == TriggerKind::Auto {
                    self.last_auto_backup_at = Some(now);
                }
                self.last_snapshot_writes = Some(n);
            },
            SnapshotWrites::Unknown => {
                self.last_snapshot_writes = None;
            },
            SnapshotWrites::Kept => {},
        }
        self.last_failure_stage = None;
        self.last_failure_reason = None;
        self.last_failure_at = None;
    }

    /// Takes in a backup that failed.
    pub fn record_backup_failure(&mut self, stage: &str, reason: &str, now: i64)
        ensures
            final(self)@ == after_failed_backup(old(self)@, stage@, reason@, now),
    {
        self.last_failure_stage = Some(stage.to_owned());
        self.last_failure_reason = Some(reason.to_owned());
        self.last_failure_at = Some(now);
    }

    /// Whether an automatic backup is due. A difference of times past 64 bits
    /// counts as the largest there is.
    pub fn is_auto_backup_due(&self, writes: i64, now: i64) -> (r: bool)
        ensures
            r == auto_backup_due(self@, writes as int, now as int),
    {
        let unchanged = match self.last_snapshot_writes {
            Some(n) => n == writes,
            None => false,
        };
        if unchanged {
            return false;
        }
        match self.last_auto_backup_at {
            Some(at) => now as i128 - at as i128 >= AUTO_BACKUP_INTERVAL_SECONDS as i128,
            None => true,
        }
    }
}

/// After an automatic backup the next one is not due on the same day, and none
/// is due as long as nothing is written.
pub proof fn law_one_automatic_backup_a_day(state: StateData, now: i64, writes: i64, later_writes: int, later: int)
    ensures
        ({
            let after = after_backup(
                state,
                TriggerKind::Auto,
                now,
                SnapshotWrites::Counted(writes),
            );
            &&& !auto_backup_due(after, writes as int, later)
            &&& later - now < 86_400 ==> !auto_backup_due(after, later_writes, later)
        }),
{
}

/// What is shown of the managed backups.
#[derive(Debug, Clone)]
pub struct BackupStatus {
    pub state: String,
    pub last_backup_at: Option<i64>,
    pub last_trigger: Option<String>,
    pub schema_version: Option<i64>,
    pub last_size: Option<i64>,
    pub next_auto_backup_at: Option<i64>,
    pub count: usize,
    pub retention: usize,
    pub last_failed_stage: Option<String>,
    pub last_failed_reason: Option<String>,
}

/// What is said of the managed backups as a whole: degraded when the last
/// failure is no older than the latest backup.
pub open spec fn status_label(failure_at: Option<i64>, latest_at: Option<i64>) -> Seq<char> {
    match (failure_at, latest_at) {
        (Some(failure), Some(latest)) => if failure >= latest {
            "degraded"@
        } else {
            "ok"@
        },
        (Some(_), None) => "degraded"@,
        (None, Some(_)) => "ok"@,
        (None, None) => "none"@,
    }
}

/// When the next automatic backup comes: none while nothing is written.
pub open spec fn next_auto_backup(state: StateData, writes: int, now: int) -> Option<int> {
    if state.last_snapshot_writes matches Some(n) && n == writes {
        None
    } else {
        let due = (match state.last_auto_backup_at {
            Some(at) => at as int,
            None => 0,
        }) + 86_400;
        Some(
            if due > now {
                due
            } else {
                now
            },
        )
    }
}

/// Whether `r` is what is shown of the managed backups.
pub open spec fn backups_shown(
    r: BackupStatus,
    state: BackupState,
    artifacts: Seq<BackupArtifact>,
    writes: int,
    now: int,
) -> bool {
    let latest_at = if artifacts.len() > 0 {
        Some(artifacts[0].created_at)
    } else {
        None
    };
    let next = next_auto_backup(state@, writes, now);
    &&& r.state@ == status_label(state.last_failure_at, latest_at)
    &&& r.last_backup_at == latest_at
    &&& r.last_trigger == if artifacts.len() > 0 {
        Some(artifacts[0].trigger)
    } else {
        None
    }
    &&& r.schema_version == if artifacts.len() > 0 {
        Some(artifacts[0].schema_version)
    } else {
        None
    }
    &&& r.last_size == if artifacts.len() > 0 {
        Some(artifacts[0].size)
    } else {
        None
    }
    &&& r.next_auto_backup_at is Some <==> next is Some
    &&& r.next_auto_backup_at is Some ==> r.next_auto_backup_at->0 == next->0
    &&& r.count == artifacts.len()
    &&& r.retention == 10
    &&& r.last_failed_stage == state.last_failure_stage
    &&& r.last_failed_reason == state.last_failure_reason
}

/// What is shown of the managed backups; `artifacts` are in order, the newest
/// first.
pub fn backup_status(
    state: &BackupState,
    artifacts: &Vec<BackupArtifact>,
    writes: i64,
    now: i64,
) -> (r: BackupStatus)
    requires
        state.last_auto_backup_at matches Some(at) ==> at + 86_400 <= i64::MAX,
    ensures
        backups_shown(r, *state, artifacts@, writes as int, now as int),
{
    let unchanged = match state.last_snapshot_writes {
        Some(n) => n == writes,
        None => false,
    };
    let next_auto_backup_at: Option<i64> = if unchanged {
        None
    } else {
        let base: i64 = match state.last_auto_backup_at {
            Some(at) => at,
            None => 0,
        };
        let due: i64 = base + AUTO_BACKUP_INTERVAL_SECONDS;
        Some(
            if due > now {
                due
            } else {
                now
            },
        )
    };
    let count: usize = artifacts.len();
    let degraded = match state.last_failure_at {
        Some(failure_at) => count == 0 || failure_at >= artifacts[0].created_at,
        None => false,
    };
    let label = if degraded {
        "degraded"
    } else if count > 0 {
        "ok"
    } else {
        "none"
    };
    let (last_backup_at, last_trigger, schema_version, last_size) = if count > 0 {
        let latest = &artifacts[0];
        (
            Some(latest.created_at),
            Some(latest.trigger.clone()),
            Some(latest.schema_version),
            Some(latest.size),
        )
    } else {
        (None, None, None, None)
    };
    BackupStatus {
        state: label.to_owned(),
        last_backup_at,
        last_trigger,
        schema_version,
        last_size,
        next_auto_backup_at,
        count,
        retention: RETENTION,
        last_failed_stage: state.last_failure_stage.clone(),
        last_failed_reason: state.last_failure_reason.clone(),
    }
}

/// A backup that failed: at one of the stages `create`, `verify` and `rotate`,
/// and why.
#[derive(Debug)]
pub struct BackupFailure {
    pub stage: &'static str,
    pub reason: String,
}

/// A failed backup in words.
pub open spec fn told_failure(stage: Seq<char>, reason: Seq<char>) -> Seq<char> {
    "backup failed at "@ + stage + ": "@ + reason
}

impl BackupFailure {
    /// The failure in words.
    pub fn describe(&self) -> (r: String)
        ensures
            r@ == told_failure(self.stage@, self.reason@),
    {
        let head = joined(joined("backup failed at ", self.stage).as_str(), ": ");
        joined(head.as_str(), self.reason.as_str())
    }
}

/// The next step in making a backup.
#[derive(Debug, Clone, Copy, PartialEq, Eq, Structural)]
pub enum BackupStep {
    /// Make the snapshot and check it.
    Snapshot,
    /// Write the bookkeeping.
    Record,
    /// List the managed backups, the new one among them.
    List,
    /// Remove the next backup that is kept no longer.
    Remove,
    Stop,
}

/// How a step of a backup went.
#[derive(Debug)]
pub enum BackupEvent {
    Done,
    /// The managed backups, the newest first.
    Listed(Vec<BackupArtifact>),
    /// The snapshot or the rotation failed.
    Failed(BackupFailure),
    /// The bookkeeping could not be written.
    Unwritten,
}

/// Whether an event can come of a step.
pub open spec fn backup_event_of(step: BackupStep, event: BackupEvent) -> bool {
    match step {
        BackupStep::Snapshot | BackupStep::Remove => event is Done || event is Failed,
        BackupStep::Record => event is Done || event is Unwritten,
        BackupStep::List => event is Listed || event is Failed,
        BackupStep::Stop => false,
    }
}

/// The making of a backup: the name of the new one, what it is made for, the
/// bookkeeping as it is to be written, what the bookkeeping said before of the
/// last backups, and how far the rotation has come.
#[derive(Debug)]
pub struct BackupRun {
    pub name: String,
    pub trigger: TriggerKind,
    pub now: i64,
    pub writes: SnapshotWrites,
    pub state: BackupState,
    pub earlier_auto_backup_at: Option<i64>,
    pub earlier_snapshot_writes: Option<i64>,
    /// The managed backups when the rotation began, the newest first.
    pub listed: Vec<BackupArtifact>,
    /// How many of them were removed.
    pub gone: usize,
    pub step: BackupStep,
}

/// What is done about a backup that failed.
#[derive(Debug)]
pub struct BackupEnd {
    pub failure: BackupFailure,
    /// The name of the backup that is removed.
    pub removed: String,
    /// Whether the failure is written to the bookkeeping and reported.
    pub recorded: bool,
}

/// What is done about a backup that failed.
pub struct EndData {
    pub stage: Seq<char>,
    pub reason: Seq<char>,
    pub removed: Seq<char>,
    pub recorded: bool,
}

impl View for BackupEnd {
    type V = EndData;

    open spec fn view(&self) -> EndData {
        EndData {
            stage: self.failure.stage@,
            reason: self.failure.reason@,
            removed: self.removed@,
            recorded: self.recorded,
        }
    }
}

/// What is done about a backup when a step goes as it did; nothing where it did
/// not fail. Bookkeeping that cannot be written is tried again, with the
/// failure, unless the backup was to make it forget the counter of writes.
pub open spec fn end_of_backup(run: BackupRun, event: BackupEvent) -> Option<EndData> {
    match event {
        BackupEvent::Done | BackupEvent::Listed(_) => None,
        BackupEvent::Failed(failure) => Some(
            EndData {
                stage: failure.stage@,
                reason: failure.reason@,
                removed: run.name@,
                recorded: true,
            },
        ),
        BackupEvent::Unwritten => Some(
            EndData {
                stage: "verify"@,
                reason: "could not record backup state"@,
                removed: run.name@,
                recorded: !(run.writes is Unknown),
            },
        ),
    }
}

/// The bookkeeping without the new backup: of the last backups it says what it
/// said before, and the number of the new one is not given again.
pub open spec fn without_new_backup(run: BackupRun) -> StateData {
    StateData {
        last_auto_backup_at: run.earlier_auto_backup_at,
        last_snapshot_writes: run.earlier_snapshot_writes,
        ..run.state@
    }
}

/// The bookkeeping after a step: a snapshot that was made is taken in; when a
/// later step fails it is taken out again, and a failure that is recorded is
/// taken in.
pub open spec fn bookkeeping_after(run: BackupRun, event: BackupEvent) -> StateData {
    match end_of_backup(run, event) {
        None => if run.step == BackupStep::Snapshot {
            after_backup(run.state@, run.trigger, run.now, run.writes)
        } else {
            run.state@
        },
        Some(end) => if end.recorded {
            StateData {
                last_failure_stage: Some(end.stage),
                last_failure_reason: Some(end.reason),
                last_failure_at: Some(run.now),
                ..without_new_backup(run)
            }
        } else {
            without_new_backup(run)
        },
    }
}

/// The step that follows when nothing failed: backups are removed as long as
/// more are left than are kept.
pub open spec fn step_after(run: BackupRun, event: BackupEvent) -> BackupStep {
    match run.step {
        BackupStep::Snapshot => BackupStep::Record,
        BackupStep::Record => BackupStep::List,
        BackupStep::List => if event is Listed && event->Listed_0@.len() > RETENTION {
            BackupStep::Remove
        } else {
            BackupStep::Stop
        },
        BackupStep::Remove => if run.listed@.len() > RETENTION + run.gone + 1 {
            BackupStep::Remove
        } else {
            BackupStep::Stop
        },
        BackupStep::Stop => BackupStep::Stop,
    }
}

/// The backups that are left of those listed when `gone` of those that are kept
/// no longer were removed, the newest of these first.
pub open spec fn left_of(listed: Seq<BackupArtifact>, gone: int) -> Seq<BackupArtifact> {
    if listed.len() <= RETENTION {
        listed
    } else {
        listed.take(RETENTION as int) + listed.skip(RETENTION + gone)
    }
}

impl BackupRun {
    /// Before the snapshot the bookkeeping is as it was, and the next backup
    /// can be numbered; a backup is removed only while more are left than are
    /// kept.
    pub open spec fn wf(&self) -> bool {
        &&& self.step == BackupStep::Snapshot ==> self.state.next_sequence < i64::MAX
            && self.state.last_auto_backup_at == self.earlier_auto_backup_at
            && self.state.last_snapshot_writes == self.earlier_snapshot_writes
        &&& self.step == BackupStep::Remove ==> RETENTION + self.gone < self.listed@.len()
    }

    /// A backup that begins, under a new name.
    pub fn begin(state: BackupState, trigger: TriggerKind, now: i64, writes: SnapshotWrites) -> (r:
        Self)
        requires
            state.next_sequence < i64::MAX,
        ensures
            r.wf(),
            r.step == BackupStep::Snapshot,
            r.state == state,
            r.earlier_auto_backup_at == state.last_auto_backup_at,
            r.earlier_snapshot_writes == state.last_snapshot_writes,
            r.trigger == trigger,
            r.now == now,
            r.writes == writes,
            r.listed@.len() == 0,
            r.gone == 0,
            exists|nonce: u64|
                r.name@ == #[trigger] artifact_name_data(state.next_sequence as int, nonce as nat),
    {
        let name = new_artifact_name(state.next_sequence);
        BackupRun {
            name,
            trigger,
            now,
            writes,
            earlier_auto_backup_at: state.last_auto_backup_at,
            earlier_snapshot_writes: state.last_snapshot_writes,
            state,
            listed: Vec::new(),
            gone: 0,
            step: BackupStep::Snapshot,
        }
    }

    /// The backup that is removed next: the newest of those that are kept no
    /// longer.
    pub fn outdated(&self) -> (r: &BackupArtifact)
        requires
            self.wf(),
            self.step == BackupStep::Remove,
        ensures
            *r == self.listed@[RETENTION + self.gone],
    {
        let beyond: usize = self.listed.len() - RETENTION;
        proof {
            assert(self.gone < beyond);
        }
        &self.listed[RETENTION + self.gone]
    }

    /// Takes in how the step went. A failure ends the backup, and the answer
    /// says what is done about it.
    pub fn advance(&mut self, event: BackupEvent) -> (r: Option<BackupEnd>)
        requires
            old(self).wf(),
            backup_event_of(old(self).step, event),
        ensures
            final(self).wf(),
            final(self).name == old(self).name,
            final(self).trigger == old(self).trigger,
            final(self).now == old(self).now,
            final(self).writes == old(self).writes,
            final(self).earlier_auto_backup_at == old(self).earlier_auto_backup_at,
            final(self).earlier_snapshot_writes == old(self).earlier_snapshot_writes,
            r is Some <==> end_of_backup(*old(self), event) is Some,
            r matches Some(end) ==> end_of_backup(*old(self), event) == Some(end@),
            final(self).state@ == bookkeeping_after(*old(self), event),
            final(self).step == if r is Some {
                BackupStep::Stop
            } else {
                step_after(*old(self), event)
            },
            final(self).listed == match event {
                BackupEvent::Listed(artifacts) => artifacts,
                _ => old(self).listed,
            },
            final(self).gone == match event {
                BackupEvent::Listed(_) => 0,
                BackupEvent::Done => if old(self).step == BackupStep::Remove {
                    old(self).gone + 1
                } else {
                    old(self).gone as int
                },
                _ => old(self).gone as int,
            },
    {
        let (failure, recorded) = match event {
            BackupEvent::Done => {
                match self.step {
                    BackupStep::Snapshot => {
                        self.state.record_backup(self.trigger, self.now, self.writes);
                        self.step = BackupStep::Record;
                    },
                    BackupStep::Record => {
                        self.step = BackupStep::List;
                    },
                    _ => {
                        let beyond: usize = self.listed.len() - RETENTION;
                        self.gone = self.gone + 1;
                        if self.gone == beyond {
                            self.step = BackupStep::Stop;
                        }
                    },
                }
                return None;
            },
            BackupEvent::Listed(artifacts) => {
                self.step = if artifacts.len() > RETENTION {
                    BackupStep::Remove
                } else {
                    BackupStep::Stop
                };
                self.listed = artifacts;
                self.gone = 0;
                return None;
            },
            BackupEvent::Failed(failure) => (failure, true),
            BackupEvent::Unwritten => (
                BackupFailure {
                    stage: "verify",
                    reason: "could not record backup state".to_owned(),
                },
                self.writes != SnapshotWrites::Unknown,
            ),
        };
        self.state.last_auto_backup_at = self.earlier_auto_backup_at;
        self.state.last_snapshot_writes = self.earlier_snapshot_writes;
        if recorded {
            self.state.record_backup_failure(failure.stage, failure.reason.as_str(), self.now);
        }
        self.step = BackupStep::Stop;
        Some(BackupEnd { failure, removed: self.name.clone(), recorded })
    }
}

/// Whatever step of a backup fails, the new backup is removed, and the
/// bookkeeping does not count it: automatic backups fall due as they did before
/// it. The bookkeeping of a failure that is recorded says when, where and why;
/// only bookkeeping that cannot be written goes without.
pub proof fn law_a_failed_backup_does_not_count(
    run: BackupRun,
    event: BackupEvent,
    before: StateData,
    writes: int,
    later: int,
)
    requires
        backup_event_of(run.step, event),
        event is Failed || event is Unwritten,
        before.last_auto_backup_at == run.earlier_auto_backup_at,
        before.last_snapshot_writes == run.earlier_snapshot_writes,
    ensures
        ({
            let state = bookkeeping_after(run, event);
            &&& end_of_backup(run, event) matches Some(end)
            &&& end.removed == run.name@
            &&& state.last_auto_backup_at == before.last_auto_backup_at
            &&& state.last_snapshot_writes == before.last_snapshot_writes
            &&& auto_backup_due(state, writes, later) == auto_backup_due(before, writes, later)
            &&& state.next_sequence == run.state@.next_sequence
            &&& end.recorded ==> state.last_failure_at == Some(run.now) && state.last_failure_stage
                == Some(end.stage) && state.last_failure_reason == Some(end.reason)
            &&& run.step != BackupStep::Record ==> end.recorded
        }),
{
}

/// Backups without the one of a name.
pub open spec fn without(artifacts: Seq<BackupArtifact>, name: Seq<char>) -> Seq<BackupArtifact>
    decreases artifacts.len(),
{
    if artifacts.len() == 0 {
        artifacts
    } else {
        let rest = without(artifacts.drop_last(), name);
        if artifacts.last().name@ == name {
            rest
        } else {
            rest.push(artifacts.last())
        }
    }
}

/// Taking out a name that only one place may have leaves the others.
proof fn lemma_without(artifacts: Seq<BackupArtifact>, name: Seq<char>, place: int)
    requires
        0 <= place,
        forall|k: int|
            0 <= k < artifacts.len() && k != place ==> (#[trigger] artifacts[k]).name@ != name,
    ensures
        without(artifacts, name) == if place < artifacts.len() && artifacts[place].name@ == name {
            artifacts.remove(place)
        } else {
            artifacts
        },
    decreases artifacts.len(),
{
    if artifacts.len() > 0 {
        let (front, last) = (artifacts.drop_last(), artifacts.last());
        lemma_without(front, name, place);
        assert(artifacts =~= front.push(last));
        if place < front.len() {
            assert(artifacts[artifacts.len() - 1].name@ != name);
            assert(front[place] == artifacts[place]);
            assert(artifacts.remove(place) =~= front.remove(place).push(last));
        } else if place == front.len() {
            assert(artifacts.remove(place) =~= front);
        } else {
            assert(artifacts[artifacts.len() - 1].name@ != name);
        }
    }
}

/// A backup that is numbered above all others stands first when the backups are
/// listed, before the others in the order they had.
pub proof fn law_a_new_backup_is_listed_first(
    held: Seq<BackupArtifact>,
    grown: Seq<BackupArtifact>,
    new: BackupArtifact,
)
    requires
        grown.to_multiset() == held.to_multiset().insert(new),
        forall|k: int| 0 <= k < held.len() ==> (#[trigger] held[k]).sequence < new.sequence,
        forall|i: int, j: int|
            0 <= i < j < held.len() ==> (#[trigger] held[i]).name@ != (#[trigger] held[j]).name@,
    ensures
        ranked(grown) == seq![new] + ranked(held),
{
    broadcast use vstd::seq_lib::group_to_multiset_ensures;

    let before = ranked(held);
    let list = seq![new] + before;
    lemma_ranked(held);
    lemma_ranked(grown);
    assert(list =~= before.insert(0, new));
    assert forall|k: int| 0 <= k < before.len() implies held.contains(#[trigger] before[k]) by {
        assert(before.contains(before[k]));
    }
    assert forall|i: int, j: int| 0 <= i <= j < list.len() implies #[trigger] list[i].rank_le(
        #[trigger] list[j],
    ) by {
        if i > 0 {
            assert(before[i - 1].rank_le(before[j - 1]));
        } else if j > 0 {
            assert(held.contains(before[j - 1]));
        } else {
            BackupArtifact::lemma_rank_order(new, new, new);
        }
    }
    assert forall|i: int, j: int|
        0 <= i < list.len() && 0 <= j < list.len() && (#[trigger] list[i]).rank_le(
            #[trigger] list[j],
        ) && list[j].rank_le(list[i]) implies list[i] == list[j] by {
        lemma_text_order(list[i].name@, list[j].name@, list[i].name@);
        if i > 0 {
            assert(held.contains(before[i - 1]));
        }
        if j > 0 {
            assert(held.contains(before[j - 1]));
        }
        if i > 0 && j > 0 {
            let a = choose|a: int| 0 <= a < held.len() && held[a] == before[i - 1];
            let b = choose|b: int| 0 <= b < held.len() && held[b] == before[j - 1];
            if a < b {
                assert(held[a].name@ != held[b].name@);
            } else if b < a {
                assert(held[b].name@ != held[a].name@);
            }
        }
    }
    lemma_in_order_unique(list, ranked(grown));
}

/// A removal takes the next backup that is kept no longer, and no other.
pub proof fn law_a_removal_takes_only_the_next(listed: Seq<BackupArtifact>, gone: int)
    requires
        0 <= gone,
        RETENTION + gone < listed.len(),
        forall|i: int, j: int|
            0 <= i < j < listed.len() ==> (#[trigger] listed[i]).name@ != (
            #[trigger] listed[j]).name@,
    ensures
        left_of(listed, 0) == listed,
        without(left_of(listed, gone), listed[RETENTION + gone].name@) == left_of(listed, gone + 1),
{
    let left = left_of(listed, gone);
    let next = listed[RETENTION + gone];
    assert(left_of(listed, 0) =~= listed);
    assert(left[RETENTION as int] == next);
    assert forall|k: int| 0 <= k < left.len() && k != RETENTION implies (#[trigger] left[k]).name@
        != next.name@ by {
        if k < RETENTION {
            assert(left[k] == listed[k]);
        } else {
            assert(left[k] == listed[k + gone]);
        }
    }
    lemma_without(left, next.name@, RETENTION as int);
    assert(left.remove(RETENTION as int) =~= left_of(listed, gone + 1));
}

/// A backup that fails leaves every backup that was there before it. `before`
/// lists those, and `new` is the new one, which a rotation lists first. Only
/// where there were more than are kept, and some of these were removed when a
/// removal fails, are these gone; what is kept is left.
pub proof fn law_a_failed_backup_leaves_the_others(
    run: BackupRun,
    event: BackupEvent,
    new: BackupArtifact,
    before: Seq<BackupArtifact>,
)
    requires
        run.wf(),
        backup_event_of(run.step, event),
        event is Failed || event is Unwritten,
        new.name@ == run.name@,
        forall|k: int| 0 <= k < before.len() ==> (#[trigger] before[k]).name@ != run.name@,
        run.step == BackupStep::Remove ==> run.listed@ == seq![new] + before,
    ensures
        ({
            let removed = end_of_backup(run, event)->0.removed;
            let left = without(left_of(run.listed@, run.gone as int), removed);
            &&& run.step != BackupStep::Remove ==> without(before, removed) == before && without(
                seq![new] + before,
                removed,
            ) == before
            &&& run.step == BackupStep::Remove ==> left == before.take(RETENTION - 1) + before.skip(
                RETENTION - 1 + run.gone,
            ) && left_of(run.listed@, run.gone as int).take(RETENTION as int) == run.listed@.take(
                RETENTION as int,
            )
            &&& run.step == BackupStep::Remove && (run.gone == 0 || before.len() <= RETENTION)
                ==> left == before
        }),
{
    let name = run.name@;
    let all = seq![new] + before;
    assert forall|k: int| 0 <= k < all.len() && k != 0 implies (#[trigger] all[k]).name@
        != name by {
        assert(all[k] == before[k - 1]);
    }
    lemma_without(all, name, 0);
    assert(all.remove(0) =~= before);
    lemma_without(before, name, before.len() as int);
    if run.step == BackupStep::Remove {
        let gone = run.gone as int;
        let kept = left_of(all, gone);
        assert(kept.take(RETENTION as int) =~= all.take(RETENTION as int));
        assert forall|k: int| 0 <= k < kept.len() && k != 0 implies (#[trigger] kept[k]).name@
            != name by {
            if k < RETENTION {
                assert(kept[k] == all[k]);
            } else {
                assert(kept[k] == all[k + gone]);
            }
        }
        lemma_without(kept, name, 0);
        assert(kept[0] == new);
        assert(kept.remove(0) =~= before.take(RETENTION - 1) + before.skip(
            RETENTION - 1 + gone,
        ));
        if gone == 0 {
            assert(before.take(RETENTION - 1) + before.skip(RETENTION - 1) =~= before);
        }
    }
}

/// A backup that ends well leaves the newest of those listed, as many as are
/// kept, and so never more.
pub proof fn law_a_finished_rotation_leaves_what_is_kept(run: BackupRun, event: BackupEvent)
    requires
        run.wf(),
        backup_event_of(run.step, event),
        event is Listed || (event is Done && run.step == BackupStep::Remove),
        step_after(run, event) == BackupStep::Stop,
    ensures
        ({
            let (listed, gone) = match event {
                BackupEvent::Listed(artifacts) => (artifacts@, 0),
                _ => (run.listed@, run.gone + 1),
            };
            let left = left_of(listed, gone);
            &&& left.len() <= RETENTION
            &&& left == if listed.len() <= RETENTION {
                listed
            } else {
                listed.take(RETENTION as int)
            }
        }),
{
    if event is Done {
        assert(left_of(run.listed@, run.gone + 1) =~= run.listed@.take(RETENTION as int));
    }
}

/// Why a snapshot is not accepted, by what its integrity check answered and
/// which application it names; `None` where it could not be asked.
pub open spec fn snapshot_complaint(
    integrity: Option<Seq<char>>,
    application: Option<Seq<char>>,
) -> Option<Seq<char>> {
    if integrity != Some("ok"@) {
        Some("backup integrity check failed"@)
    } else if application != Some("local-api-relay"@) {
        Some("backup identity check failed"@)
    } else {
        None
    }
}

/// Accepts a snapshot by what its integrity check answered and which
/// application it names.
pub fn verify_snapshot(integrity: &Option<String>, application: &Option<String>) -> (r: Result<
    (),
    &'static str,
>)
    ensures
        ({
            let complaint = snapshot_complaint(
                chars_of_option(*integrity),
                chars_of_option(*application),
            );
            match r {
                Ok(()) => complaint is None,
                Err(message) => complaint == Some(message@),
            }
        }),
{
    if !is_text(integrity, "ok") {
        return Err("backup integrity check failed");
    }
    if !is_text(application, APPLICATION_IDENTITY) {
        return Err("backup identity check failed");
    }
    Ok(())
}

/// Why a new backup is not accepted: it is no snapshot, its schema is not the
/// one it claims, or not one up to the expected.
pub open spec fn destination_complaint(
    integrity: Option<Seq<char>>,
    application: Option<Seq<char>>,
    provenance_schema: Option<i64>,
    database_schema: Option<i64>,
    expected: i64,
) -> Option<Seq<char>> {
    match snapshot_complaint(integrity, application) {
        Some(complaint) => Some(complaint),
        None => match (provenance_schema, database_schema) {
            (None, _) => Some("backup identity check failed"@),
            (Some(_), None) => Some("backup schema is inconsistent"@),
            (Some(claimed), Some(held)) => if claimed != held {
                Some("backup schema is inconsistent"@)
            } else if !(1 <= claimed <= expected) {
                Some("backup schema is unsupported"@)
            } else {
                None
            },
        },
    }
}

/// Accepts a new backup.
pub fn verify_destination(
    integrity: &Option<String>,
    application: &Option<String>,
    provenance_schema: Option<i64>,
    database_schema: Option<i64>,
    expected_schema_version: i64,
) -> (r: Result<(), &'static str>)
    ensures
        ({
            let complaint = destination_complaint(
                chars_of_option(*integrity),
                chars_of_option(*application),
                provenance_schema,
                database_schema,
                expected_schema_version,
            );
            match r {
                Ok(()) => complaint is None,
                Err(message) => complaint == Some(message@),
            }
        }),
{
    match verify_snapshot(integrity, application) {
        Ok(()) => {},
        Err(message) => {
            return Err(message);
        },
    }
    match (provenance_schema, database_schema) {
        (None, _) => Err("backup identity check failed"),
        (Some(_), None) => Err("backup schema is inconsistent"),
        (Some(claimed), Some(held)) => if claimed != held {
            Err("backup schema is inconsistent")
        } else if claimed < 1 || claimed > expected_schema_version {
            Err("backup schema is unsupported")
        } else {
            Ok(())
        },
    }
}

/// The reason that is shown when the backup directory cannot be used.
pub open spec fn shown_directory_error(message: Seq<char>) -> Seq<char> {
    if occurs_in(message, "could not create"@) {
        "could not create the backup directory"@
    } else if occurs_in(message, "could not secure"@) {
        "could not secure the backup directory"@
    } else {
        "could not prepare the backup directory"@
    }
}

/// The reason that is shown when a backup does not verify.
pub open spec fn shown_backup_error(message: Seq<char>) -> Seq<char> {
    if occurs_in(message, "backup integrity check failed"@) {
        "backup integrity check failed"@
    } else if occurs_in(message, "backup identity check failed"@) {
        "backup identity check failed"@
    } else if occurs_in(message, "backup schema is inconsistent"@) {
        "backup schema is inconsistent"@
    } else if occurs_in(message, "backup schema is unsupported"@) {
        "backup schema is unsupported"@
    } else {
        "backup verification failed"@
    }
}

/// The reason that is shown when the backup directory cannot be used.
pub fn normalize_directory_error(message: &str) -> (r: &'static str)
    ensures
        r@ == shown_directory_error(message@),
{
    if contains_text(message, "could not create") {
        "could not create the backup directory"
    } else if contains_text(message, "could not secure") {
        "could not secure the backup directory"
    } else {
        "could not prepare the backup directory"
    }
}

/// The reason that is shown when a backup does not verify.
pub fn normalize_backup_error(message: &str) -> (r: &'static str)
    ensures
        r@ == shown_backup_error(message@),
{
    if contains_text(message, "backup integrity check failed") {
        "backup integrity check failed"
    } else if contains_text(message, "backup identity check failed") {
        "backup identity check failed"
    } else if contains_text(message, "backup schema is inconsistent") {
        "backup schema is inconsistent"
    } else if contains_text(message, "backup schema is unsupported") {
        "backup schema is unsupported"
    } else {
        "backup verification failed"
    }
}

/// Where the backup with a name stands.
pub fn find_artifact(artifacts: &Vec<BackupArtifact>, name: &str) -> (r: Option<usize>)
    ensures
        r matches Some(i) ==> i < artifacts@.len() && artifacts@[i as int].name@ == name@
            && forall|k: int| 0 <= k < i ==> (#[trigger] artifacts@[k]).name@ != name@,
        r is None ==> forall|k: int|
            0 <= k < artifacts@.len() ==> (#[trigger] artifacts@[k]).name@ != name@,
{
    for i in 0..artifacts.len()
        invariant
            forall|k: int| 0 <= k < i ==> (#[trigger] artifacts@[k]).name@ != name@,
    {
        if same_text(artifacts[i].name.as_str(), name) {
            return Some(i);
        }
    }
    None
}

/// A name is `backup-`, at least six digits of the sequence, 16 hexadecimal
/// digits and `.sqlite3`, with hyphens between; a name that begins or ends
/// otherwise gives no sequence.
pub proof fn law_backups_are_named(sequence: int, nonce: nat, name: Seq<char>)
    requires
        0 <= sequence,
    ensures
        begins_with(artifact_name_data(sequence, nonce), "backup-"@),
        finishes_with(artifact_name_data(sequence, nonce), ".sqlite3"@),
        sequence_text(sequence).len() >= 6,
        hex_digits(nonce, 16).len() == 16,
        artifact_name_data(sequence, nonce).len() == "backup-"@.len() + sequence_text(
            sequence,
        ).len() + "-"@.len() + 16 + ".sqlite3"@.len(),
        !begins_with(name, "backup-"@) ==> named_sequence(name) is None,
        !finishes_with(name, ".sqlite3"@) ==> named_sequence(name) is None || name.len()
            < "backup-"@.len() + ".sqlite3"@.len(),
{
    let data = artifact_name_data(sequence, nonce);
    let head = "backup-"@;
    let tail = ".sqlite3"@;
    assert(data.take(head.len() as int) =~= head);
    assert(data.skip(data.len() - tail.len()) =~= tail);
    lemma_hex_len(nonce, 16);
    lemma_padded_len(sequence as nat, 6);
    if begins_with(name, head) && !finishes_with(name, tail) && name.len() >= head.len()
        + tail.len() {
        let rest = name.skip(head.len() as int);
        assert(rest.skip(rest.len() - tail.len()) =~= name.skip(name.len() - tail.len()));
    }
}

proof fn lemma_hex_len(n: nat, width: nat)
    ensures
        hex_digits(n, width).len() == width,
    decreases width,
{
    if width > 0 {
        lemma_hex_len(n / 16, (width - 1) as nat);
    }
}

proof fn lemma_padded_len(n: nat, width: nat)
    ensures
        padded_digits(n, width).len() >= width,
{
    if digits_of(n).len() < width {
        crate::timeutil::lemma_digits_bound(n);
        crate::timeutil::lemma_pow10_grows(digits_of(n).len(), width);
        lemma_fixed_digits_value(n, width);
    }
}

/// Different nonces of 64 bits give different names.
pub proof fn law_nonces_tell_names_apart(a: nat, b: nat, width: nat)
    requires
        hex_digits(a, width) == hex_digits(b, width),
        a < vstd::arithmetic::power::pow(16, width),
        b < vstd::arithmetic::power::pow(16, width),
    ensures
        a == b,
    decreases width,
{
    if width == 0 {
        vstd::arithmetic::power::lemma_pow0(16);
    } else {
        let less = (width - 1) as nat;
        vstd::arithmetic::power::lemma_pow_adds(16, less, 1);
        vstd::arithmetic::power::lemma_pow1(16);
        let p = vstd::arithmetic::power::pow(16, less);
        assert(vstd::arithmetic::power::pow(16, width) == p * 16);
        assert(a / 16 < p && b / 16 < p) by (nonlinear_arith)
            requires
                a < p * 16,
                b < p * 16,
        ;
        assert(hex_digits(a, width).drop_last() =~= hex_digits(a / 16, less));
        assert(hex_digits(b, width).drop_last() =~= hex_digits(b / 16, less));
        assert(hex_digits(a, width).last() == hex_char(a % 16));
        assert(hex_digits(b, width).last() == hex_char(b % 16));
        law_nonces_tell_names_apart(a / 16, b / 16, less);
        assert(a % 16 == b % 16);
    }
}

/// The newest backup comes first, and no backup is lost.
pub proof fn law_backups_stand_newest_first(artifacts: Seq<BackupArtifact>, i: int, j: int)
    requires
        0 <= i <= j < artifacts.len(),
    ensures
        ranked(artifacts).len() == artifacts.len(),
        ranked(artifacts)[i].sequence >= ranked(artifacts)[j].sequence,
        ranked(artifacts).to_multiset() == artifacts.to_multiset(),
{
    lemma_ranked(artifacts);
    assert(ranked(artifacts)[i].rank_le(ranked(artifacts)[j]));
}

/// A backup that was made takes the next number and clears the last failure;
/// only an automatic one that knows its counter of writes begins a new day.
pub proof fn law_backups_are_counted(
    state: StateData,
    trigger: TriggerKind,
    now: i64,
    writes: SnapshotWrites,
)
    requires
        state.next_sequence < i64::MAX,
    ensures
        ({
            let after = after_backup(state, trigger, now, writes);
            &&& after.next_sequence == state.next_sequence + 1
            &&& after.last_failure_stage is None && after.last_failure_reason is None
                && after.last_failure_at is None
            &&& trigger == TriggerKind::Auto && writes is Counted ==> after.last_auto_backup_at
                == Some(now)
            &&& trigger != TriggerKind::Auto || !(writes is Counted) ==> after.last_auto_backup_at
                == state.last_auto_backup_at
            &&& writes matches SnapshotWrites::Counted(n) ==> after.last_snapshot_writes == Some(n)
            &&& writes is Unknown ==> after.last_snapshot_writes is None
            &&& writes is Kept ==> after.last_snapshot_writes == state.last_snapshot_writes
        }),
{
}

/// A failure is kept with its stage, its reason and its time, and changes
/// nothing else of the bookkeeping.
pub proof fn law_failed_backups_are_kept_on_record(
    state: StateData,
    stage: Seq<char>,
    reason: Seq<char>,
    now: i64,
)
    ensures
        ({
            let after = after_failed_backup(state, stage, reason, now);
            &&& after.last_failure_stage == Some(stage)
            &&& after.last_failure_reason == Some(reason)
            &&& after.last_failure_at == Some(now)
            &&& after.next_sequence == state.next_sequence
            &&& after.last_auto_backup_at == state.last_auto_backup_at
            &&& after.last_snapshot_writes == state.last_snapshot_writes
        }),
{
}

/// An automatic backup is due a day after the last, once something was written
/// since the last snapshot; the first is due at once.
pub proof fn law_automatic_backups_fall_due(state: StateData, writes: int, now: int)
    ensures
        state.last_auto_backup_at is None && state.last_snapshot_writes is None ==> auto_backup_due(
            state,
            writes,
            now,
        ),
        (state.last_snapshot_writes matches Some(n) && n == writes) ==> !auto_backup_due(
            state,
            writes,
            now,
        ),
        (state.last_snapshot_writes is None || state.last_snapshot_writes->0 != writes) && (
        state.last_auto_backup_at matches Some(at) && now - at >= 24 * 60 * 60) ==> auto_backup_due(
            state,
            writes,
            now,
        ),
        (state.last_auto_backup_at matches Some(at) && now - at < 24 * 60 * 60) ==> !auto_backup_due(
            state,
            writes,
            now,
        ),
{
}

/// The next automatic backup is shown for when it falls due, now where it has;
/// none is shown while nothing is written.
pub proof fn law_the_next_backup_is_shown(state: StateData, writes: int, now: int)
    ensures
        (state.last_snapshot_writes matches Some(n) && n == writes) <==> next_auto_backup(
            state,
            writes,
            now,
        ) is None,
        next_auto_backup(state, writes, now) matches Some(at) ==> at >= now,
        (state.last_snapshot_writes is None || state.last_snapshot_writes->0 != writes) && (
        state.last_auto_backup_at matches Some(last) && last + 86_400 > now) ==> next_auto_backup(
            state,
            writes,
            now,
        ) == Some(state.last_auto_backup_at->0 + 86_400),
        auto_backup_due(state, writes, now) && now >= 86_400 ==> next_auto_backup(
            state,
            writes,
            now,
        ) == Some(now),
{
}

/// What is shown is that of the latest backup, and of the last failure; the
/// backups are degraded while a failure is no older than the latest of them.
pub proof fn law_backups_are_shown(
    r: BackupStatus,
    state: BackupState,
    artifacts: Seq<BackupArtifact>,
    writes: int,
    now: int,
)
    requires
        backups_shown(r, state, artifacts, writes, now),
    ensures
        artifacts.len() > 0 ==> r.last_backup_at == Some(artifacts[0].created_at) && r.last_trigger
            == Some(artifacts[0].trigger) && r.schema_version == Some(artifacts[0].schema_version)
            && r.last_size == Some(artifacts[0].size),
        artifacts.len() == 0 ==> r.last_backup_at is None && r.last_trigger is None
            && r.schema_version is None && r.last_size is None,
        artifacts.len() > 0 && state.last_failure_at is None ==> r.state@ == "ok"@,
        artifacts.len() == 0 && state.last_failure_at is None ==> r.state@ == "none"@,
        artifacts.len() == 0 && state.last_failure_at is Some ==> r.state@ == "degraded"@,
        artifacts.len() > 0 && (state.last_failure_at matches Some(at) && at
            >= artifacts[0].created_at) ==> r.state@ == "degraded"@,
        artifacts.len() > 0 && (state.last_failure_at matches Some(at) && at
            < artifacts[0].created_at) ==> r.state@ == "ok"@,
        r.count == artifacts.len(),
        r.retention == 10,
        r.last_failed_stage == state.last_failure_stage,
        r.last_failed_reason == state.last_failure_reason,
{
}

/// A backup is snapshot, recorded, listed among the others, and those beyond
/// the tenth are removed one by one; then it is done.
pub proof fn law_backups_go_step_by_step(run: BackupRun, event: BackupEvent)
    ensures
        run.step == BackupStep::Snapshot ==> step_after(run, event) == BackupStep::Record,
        run.step == BackupStep::Record ==> step_after(run, event) == BackupStep::List,
        run.step == BackupStep::List && (event matches BackupEvent::Listed(listed) && listed@.len()
            > 10) ==> step_after(run, event) == BackupStep::Remove,
        run.step == BackupStep::List && (event matches BackupEvent::Listed(listed) && listed@.len()
            <= 10) ==> step_after(run, event) == BackupStep::Stop,
        run.step == BackupStep::Remove && run.listed@.len() - run.gone - 1 > 10 ==> step_after(
            run,
            event,
        ) == BackupStep::Remove,
        run.step == BackupStep::Remove && run.listed@.len() - run.gone - 1 <= 10 ==> step_after(
            run,
            event,
        ) == BackupStep::Stop,
{
}

/// A snapshot is accepted where its integrity check says ok and it names this
/// application; a new backup, where its schema is also the one it claims and
/// from 1 up to the expected.
pub proof fn law_snapshots_are_accepted(
    integrity: Option<Seq<char>>,
    application: Option<Seq<char>>,
    claimed: Option<i64>,
    held: Option<i64>,
    expected: i64,
)
    ensures
        snapshot_complaint(integrity, application) is None <==> integrity == Some("ok"@)
            && application == Some("local-api-relay"@),
        destination_complaint(integrity, application, claimed, held, expected) is None
            <==> integrity == Some("ok"@) && application == Some("local-api-relay"@) && claimed is Some
            && claimed == held && 1 <= claimed->0 <= expected,
        integrity != Some("ok"@) ==> destination_complaint(
            integrity,
            application,
            claimed,
            held,
            expected,
        ) == Some("backup integrity check failed"@),
        integrity == Some("ok"@) && (application != Some("local-api-relay"@) || claimed is None)
            ==> destination_complaint(integrity, application, claimed, held, expected) == Some(
            "backup identity check failed"@,
        ),
{
}

/// A message that says what failed is shown as that.
pub proof fn law_failures_are_shown_as_what_they_are(head: Seq<char>, tail: Seq<char>)
    ensures
        shown_directory_error(head + "could not create"@ + tail)
            == "could not create the backup directory"@,
        !occurs_in(head + "could not secure"@ + tail, "could not create"@) ==> shown_directory_error(
            head + "could not secure"@ + tail,
        ) == "could not secure the backup directory"@,
        shown_backup_error(head + "backup integrity check failed"@ + tail)
            == "backup integrity check failed"@,
        !occurs_in(head, "backup integrity check failed"@) && !occurs_in(
            head,
            "backup identity check failed"@,
        ) && !occurs_in(head, "backup schema is inconsistent"@) && !occurs_in(
            head,
            "backup schema is unsupported"@,
        ) ==> shown_backup_error(head) == "backup verification failed"@,
        occurs_in(head, "backup schema is unsupported"@) && !occurs_in(
            head,
            "backup integrity check failed"@,
        ) && !occurs_in(head, "backup identity check failed"@) && !occurs_in(
            head,
            "backup schema is inconsistent"@,
        ) ==> shown_backup_error(head) == "backup schema is unsupported"@,
{
    lemma_occurs(head, "could not create"@, tail);
    lemma_occurs(head, "could not secure"@, tail);
    lemma_occurs(head, "backup integrity check failed"@, tail);
}

proof fn lemma_occurs(head: Seq<char>, part: Seq<char>, tail: Seq<char>)
    ensures
        occurs_in(head + part + tail, part),
{
    let whole = head + part + tail;
    assert(whole.subrange(head.len() as int, head.len() as int + part.len() as int) =~= part);
}

/// A failed backup is told with its stage and, behind it, its reason.
pub proof fn law_failures_are_told(stage: Seq<char>, reason: Seq<char>)
    ensures
        told_failure(stage, reason).len() == 19 + stage.len() + reason.len(),
        told_failure(stage, reason).take(17) == "backup failed at "@,
        told_failure(stage, reason).subrange(17, 17int + stage.len()) == stage,
        told_failure(stage, reason).subrange(17int + stage.len(), 19int + stage.len()) == ": "@,
        told_failure(stage, reason).skip(19int + stage.len()) == reason,
{
    reveal_strlit("backup failed at ");
    reveal_strlit(": ");
    assert(told_failure(stage, reason).take(17) =~= "backup failed at "@);
    assert(told_failure(stage, reason).subrange(17, 17int + stage.len()) =~= stage);
    assert(told_failure(stage, reason).subrange(17int + stage.len(), 19int + stage.len()) =~= ": "@);
    assert(told_failure(stage, reason).skip(19int + stage.len()) =~= reason);
}

} // verus!
