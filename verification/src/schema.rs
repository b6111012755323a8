//! The version of the database's schema: what is done with a database on
//! opening it, and which migrations it takes.

use crate::numbers::{parse_signed, signed_digits, signed_text, spelled_integer};
use crate::text::joined;
use vstd::prelude::*;
use vstd::string::*;

verus! {

/// The schema version of this program.
pub const SCHEMA_VERSION: i64 = 17;

/// Lowers the schema version that the process supports.
pub const TEST_SCHEMA_VERSION_VARIABLE: &'static str = "LOCAL_API_RELAY_TEST_SCHEMA_VERSION";

/// The version that a text lowers the supported schema to, if it does.
pub open spec fn lowered_schema(value: Option<Seq<char>>) -> int {
    match value {
        Some(text) => match spelled_integer(text, i64::MIN as int, i64::MAX as int) {
            Some(version) => if 1 <= version <= 17 {
                version
            } else {
                17
            },
            None => 17,
        },
        None => 17,
    }
}

/// The schema version that the process supports: its own, or a lower one that
/// is asked for.
pub fn supported_schema(value: Option<&str>) -> (r: i64)
    ensures
        r == lowered_schema(
            match value {
                Some(text) => Some(text@),
                None => None,
            },
        ),
        1 <= r <= 17,
{
    match value {
        Some(text) => match parse_signed(text) {
            Some(version) => if 1 <= version && version <= SCHEMA_VERSION {
                version
            } else {
                SCHEMA_VERSION
            },
            None => SCHEMA_VERSION,
        },
        None => SCHEMA_VERSION,
    }
}

/// What is done with a database on opening it.
pub enum PlanData {
    /// It is not opened, and nothing is written to it.
    Refuse(Seq<char>),
    /// It is new: it is set up from the first version on.
    Fresh,
    /// It is used as it is.
    Current,
    /// It is backed up, then migrated from a version.
    Migrate(i64),
}

/// What is done with a database on opening it.
#[derive(Debug)]
pub enum OpenPlan {
    Refuse(String),
    Fresh,
    Current,
    Migrate(i64),
}

impl View for OpenPlan {
    type V = PlanData;

    open spec fn view(&self) -> PlanData {
        match *self {
            OpenPlan::Refuse(message) => PlanData::Refuse(message@),
            OpenPlan::Fresh => PlanData::Fresh,
            OpenPlan::Current => PlanData::Current,
            OpenPlan::Migrate(version) => PlanData::Migrate(version),
        }
    }
}

/// The message for a database that is left alone.
pub open spec fn about_database(path: Seq<char>, rest: Seq<char>) -> Seq<char> {
    "SQLite database at "@ + path + rest
}

/// The message for a schema version.
pub open spec fn about_version(version: int, rest: Seq<char>) -> Seq<char> {
    "SQLite schema version "@ + signed_digits(version) + rest
}

/// The refusal of a file that is there but empty.
pub fn refuse_empty(path: &str, exists: bool, empty: bool) -> (r: Option<String>)
    ensures
        r is Some <==> exists && empty,
        r matches Some(message) ==> message@ == about_database(
            path@,
            " exists but is empty; it was left untouched for evidence — restore from a verified backup"@,
        ),
{
    if exists && empty {
        Some(
            joined(
                joined("SQLite database at ", path).as_str(),
                " exists but is empty; it was left untouched for evidence — restore from a verified backup",
            ),
        )
    } else {
        None
    }
}

/// The message for a database that cannot be read.
pub fn corrupted_message(path: &str) -> (r: String)
    ensures
        r@ == about_database(
            path@,
            " is corrupted or not a valid local-api-relay database; it was left untouched for evidence — restore from a verified backup"@,
        ),
{
    joined(
        joined("SQLite database at ", path).as_str(),
        " is corrupted or not a valid local-api-relay database; it was left untouched for evidence — restore from a verified backup",
    )
}

/// The message for a migration whose backup failed.
pub fn unprotected_message(failure: &str) -> (r: String)
    ensures
        r@ == "migration pre-backup failed: "@ + failure@
            + "; the database was left untouched — restore from a verified backup"@,
{
    joined(
        joined("migration pre-backup failed: ", failure).as_str(),
        "; the database was left untouched — restore from a verified backup",
    )
}

/// The message for a migration that failed.
pub const ROLLED_BACK_MESSAGE: &'static str =
    "the migration failed and was rolled back; the database was left untouched — restore from a verified backup";

/// What is done with a database, by whether its file was there and the schema
/// version it holds, if any.
pub open spec fn plan_for(path: Seq<char>, exists: bool, version: Option<i64>, supported: i64) -> PlanData {
    match version {
        None => if exists {
            PlanData::Refuse(
                about_database(
                    path,
                    " exists but has no local-api-relay schema; it was left untouched for evidence — restore from a verified backup"@,
                ),
            )
        } else {
            PlanData::Fresh
        },
        Some(v) => if v > supported {
            PlanData::Refuse(
                about_version(
                    v as int,
                    " is newer than this binary supports; the database was left untouched — use a newer local-api-relay binary"@,
                ),
            )
        } else if v < 1 {
            PlanData::Refuse(
                about_version(
                    v as int,
                    " cannot be migrated by this binary; the database was left untouched"@,
                ),
            )
        } else if v == supported {
            PlanData::Current
        } else {
            PlanData::Migrate(v)
        },
    }
}

/// What is done with a database on opening it.
pub fn open_plan(path: &str, exists: bool, version: Option<i64>, supported: i64) -> (r: OpenPlan)
    ensures
        r@ == plan_for(path@, exists, version, supported),
{
    match version {
        None => if exists {
            OpenPlan::Refuse(
                joined(
                    joined("SQLite database at ", path).as_str(),
                    " exists but has no local-api-relay schema; it was left untouched for evidence — restore from a verified backup",
                ),
            )
        } else {
            OpenPlan::Fresh
        },
        Some(v) => if v > supported {
            OpenPlan::Refuse(
                joined(
                    joined("SQLite schema version ", signed_text(v).as_str()).as_str(),
                    " is newer than this binary supports; the database was left untouched — use a newer local-api-relay binary",
                ),
            )
        } else if v < 1 {
            OpenPlan::Refuse(
                joined(
                    joined("SQLite schema version ", signed_text(v).as_str()).as_str(),
                    " cannot be migrated by this binary; the database was left untouched",
                ),
            )
        } else if v == supported {
            OpenPlan::Current
        } else {
            OpenPlan::Migrate(v)
        },
    }
}

/// A database is never taken back to an older schema: one that is newer than
/// supported is refused, and a migration only ever goes up.
pub proof fn law_schemas_only_move_forward(path: Seq<char>, exists: bool, version: i64, supported: i64)
    ensures
        version > supported ==> plan_for(path, exists, Some(version), supported) is Refuse,
        plan_for(path, exists, Some(version), supported) matches PlanData::Migrate(from) ==> from
            == version && 1 <= from < supported,
{
}

/// The first version from `from` on, up to `target`, that no step migrates.
pub open spec fn stuck_at(from: int, target: int) -> Option<int> {
    if from >= target {
        None
    } else if from < 1 || from > 16 {
        Some(from)
    } else if target > 17 {
        Some(17)
    } else {
        None
    }
}

/// Whether `r` is the steps that bring a database from one version to another.
pub open spec fn steps_to(r: Result<Vec<i64>, String>, from: int, target: int) -> bool {
    match stuck_at(from, target) {
        Some(version) => r is Err && r->Err_0@ == about_version(
            version,
            " cannot be migrated by this binary"@,
        ),
        None => r is Ok && r->Ok_0@.len() == (if from < target {
            target - from
        } else {
            0
        }) && forall|i: int| 0 <= i < r->Ok_0@.len() ==> #[trigger] r->Ok_0@[i] == from + i,
    }
}

/// The versions from which a step is taken, one after the other, to bring a
/// database from `from` to `target`; each step raises the version by one.
pub fn migration_steps(from: i64, target: i64) -> (r: Result<Vec<i64>, String>)
    ensures
        steps_to(r, from as int, target as int),
{
    let mut steps: Vec<i64> = Vec::new();
    let mut version: i64 = from;
    while version < target
        invariant
            version == from || 1 <= from < version <= 17,
            from < target ==> version <= target,
            from >= target ==> version == from,
            steps@.len() == version - from,
            forall|i: int| 0 <= i < steps@.len() ==> #[trigger] steps@[i] == from + i,
        decreases target - version,
    {
        if version < 1 || version > 16 {
            return Err(
                joined(
                    joined("SQLite schema version ", signed_text(version).as_str()).as_str(),
                    " cannot be migrated by this binary",
                ),
            );
        }
        steps.push(version);
        version = version + 1;
    }
    Ok(steps)
}

/// What is on record of migrations and restores.
#[derive(Debug, Clone)]
pub struct DataOperationsStatus {
    pub running_schema: i64,
    pub supported_schema: i64,
    pub migration_state: String,
    pub migrated_from_schema: Option<i64>,
    pub pre_backup_ok: Option<bool>,
    pub pre_backup_name: Option<String>,
    pub last_phase: String,
    pub last_result: String,
    pub last_completed_at: Option<i64>,
    pub last_failed_stage: Option<String>,
    pub last_failed_reason: Option<String>,
    pub restore_source: Option<String>,
}

/// Whether a record says nothing of any operation.
pub open spec fn no_operation(status: DataOperationsStatus) -> bool {
    &&& status.last_phase@ == "none"@
    &&& status.last_result@ == "none"@
    &&& status.last_completed_at is None
    &&& status.last_failed_stage is None
    &&& status.last_failed_reason is None
    &&& status.restore_source is None
}

/// Whether two records say the same of the last operation.
pub open spec fn same_operation(a: DataOperationsStatus, b: DataOperationsStatus) -> bool {
    &&& a.last_phase == b.last_phase
    &&& a.last_result == b.last_result
    &&& a.last_completed_at == b.last_completed_at
    &&& a.last_failed_stage == b.last_failed_stage
    &&& a.last_failed_reason == b.last_failed_reason
    &&& a.restore_source == b.restore_source
}

/// The record where none was made.
pub fn data_operations_default(supported: i64) -> (r: DataOperationsStatus)
    ensures
        r.running_schema == supported,
        r.supported_schema == supported,
        r.migration_state@ == "current"@,
        r.migrated_from_schema is None,
        r.pre_backup_ok is None,
        r.pre_backup_name is None,
        no_operation(r),
{
    DataOperationsStatus {
        running_schema: supported,
        supported_schema: supported,
        migration_state: "current".to_owned(),
        migrated_from_schema: None,
        pre_backup_ok: None,
        pre_backup_name: None,
        last_phase: "none".to_owned(),
        last_result: "none".to_owned(),
        last_completed_at: None,
        last_failed_stage: None,
        last_failed_reason: None,
        restore_source: None,
    }
}

/// Whether `r` is the record after the database was opened or restored.
pub open spec fn operations_ensured(
    before: Option<DataOperationsStatus>,
    r: DataOperationsStatus,
    supported: i64,
    migration_state: Seq<char>,
    migrated_from_schema: Option<i64>,
    pre_backup_ok: Option<bool>,
    pre_backup_name: Option<String>,
) -> bool {
    &&& r.running_schema == supported
    &&& r.supported_schema == supported
    &&& r.migration_state@ == migration_state
    &&& r.migrated_from_schema == migrated_from_schema
    &&& r.pre_backup_ok == pre_backup_ok
    &&& r.pre_backup_name == pre_backup_name
    &&& match before {
        Some(status) => same_operation(r, status),
        None => no_operation(r),
    }
}

/// The record after the database was opened or restored: what was on record of
/// the last operation stays.
pub fn ensure_data_operations(
    before: Option<DataOperationsStatus>,
    supported: i64,
    migration_state: &str,
    migrated_from_schema: Option<i64>,
    pre_backup_ok: Option<bool>,
    pre_backup_name: Option<String>,
) -> (r: DataOperationsStatus)
    ensures
        operations_ensured(
            before,
            r,
            supported,
            migration_state@,
            migrated_from_schema,
            pre_backup_ok,
            pre_backup_name,
        ),
{
    let mut status = match before {
        Some(status) => status,
        None => data_operations_default(supported),
    };
    status.running_schema = supported;
    status.supported_schema = supported;
    status.migration_state = migration_state.to_owned();
    status.migrated_from_schema = migrated_from_schema;
    status.pre_backup_ok = pre_backup_ok;
    status.pre_backup_name = pre_backup_name;
    status
}

/// Whether `after` is `before` with the outcome of a migration or a restore.
pub open spec fn operation_recorded(
    before: DataOperationsStatus,
    after: DataOperationsStatus,
    phase: Seq<char>,
    result: Seq<char>,
    completed_at: i64,
    failed_stage: Option<String>,
    failed_reason: Option<String>,
    restore_source: Option<String>,
) -> bool {
    &&& after.last_phase@ == phase
    &&& after.last_result@ == result
    &&& after == (DataOperationsStatus {
        last_phase: after.last_phase,
        last_result: after.last_result,
        last_completed_at: Some(completed_at),
        last_failed_stage: failed_stage,
        last_failed_reason: failed_reason,
        restore_source,
        ..before
    })
}

impl DataOperationsStatus {
    /// Takes in the outcome of a migration or a restore.
    pub fn record_operation(
        &mut self,
        phase: &str,
        result: &str,
        completed_at: i64,
        failed_stage: Option<String>,
        failed_reason: Option<String>,
        restore_source: Option<String>,
    )
        ensures
            operation_recorded(
                *old(self),
                *final(self),
                phase@,
                result@,
                completed_at,
                failed_stage,
                failed_reason,
                restore_source,
            ),
    {
        self.last_phase = phase.to_owned();
        self.last_result = result.to_owned();
        self.last_completed_at = Some(completed_at);
        self.last_failed_stage = failed_stage;
        self.last_failed_reason = failed_reason;
        self.restore_source = restore_source;
    }
}

/// The supported schema is 17, or a lower one from 1 on that is asked for.
pub proof fn law_supported_schemas(text: Seq<char>)
    ensures
        lowered_schema(None) == 17,
        ({
            let asked = spelled_integer(text, i64::MIN as int, i64::MAX as int);
            &&& asked is None ==> lowered_schema(Some(text)) == 17
            &&& asked matches Some(version) ==> (1 <= version <= 17 ==> lowered_schema(Some(text))
                == version)
            &&& asked matches Some(version) ==> (version < 1 || version > 17 ==> lowered_schema(
                Some(text),
            ) == 17)
        }),
{
}

/// A file that is not there is set up; one without a schema is left alone, and
/// so is one that is newer than supported or older than the first; a current
/// one is used, and one in between is migrated.
pub proof fn law_databases_are_opened(
    path: Seq<char>,
    exists: bool,
    version: i64,
    supported: i64,
)
    requires
        1 <= supported,
    ensures
        plan_for(path, false, None, supported) is Fresh,
        plan_for(path, true, None, supported) is Refuse,
        version == supported ==> plan_for(path, exists, Some(version), supported) is Current,
        1 <= version < supported ==> plan_for(path, exists, Some(version), supported)
            == PlanData::Migrate(version),
        version > supported || version < 1 ==> plan_for(path, exists, Some(version), supported) is Refuse,
{
}

/// A database is brought up one version at a time, from its own up to the last
/// before the target; a target at or below its version takes no step.
pub proof fn law_migrations_go_step_by_step(
    r: Result<Vec<i64>, String>,
    from: int,
    target: int,
    version: int,
)
    requires
        steps_to(r, from, target),
    ensures
        1 <= from <= target <= 17 ==> r is Ok,
        from >= target ==> r is Ok && r->Ok_0@.len() == 0,
        r is Ok && from < target ==> r->Ok_0@.len() == target - from,
        r is Ok && from <= version < target ==> r->Ok_0@[version - from] == version,
        from < target && (from < 1 || target > 17) ==> r is Err,
{
}

/// What was on record of the last operation stays when a database is opened;
/// what is said of the schema and the migration is new.
pub proof fn law_operations_stay_on_record(
    before: Option<DataOperationsStatus>,
    r: DataOperationsStatus,
    supported: i64,
    migration_state: Seq<char>,
    migrated_from_schema: Option<i64>,
    pre_backup_ok: Option<bool>,
    pre_backup_name: Option<String>,
)
    requires
        operations_ensured(
            before,
            r,
            supported,
            migration_state,
            migrated_from_schema,
            pre_backup_ok,
            pre_backup_name,
        ),
    ensures
        r.running_schema == supported && r.supported_schema == supported,
        r.migration_state@ == migration_state,
        r.migrated_from_schema == migrated_from_schema,
        r.pre_backup_ok == pre_backup_ok,
        r.pre_backup_name == pre_backup_name,
        before matches Some(was) ==> r.last_phase == was.last_phase && r.last_result
            == was.last_result && r.last_completed_at == was.last_completed_at
            && r.last_failed_stage == was.last_failed_stage && r.last_failed_reason
            == was.last_failed_reason && r.restore_source == was.restore_source,
        before is None ==> r.last_phase@ == "none"@ && r.last_result@ == "none"@
            && r.last_completed_at is None && r.last_failed_stage is None && r.last_failed_reason is None
            && r.restore_source is None,
{
}

/// The outcome of an operation replaces that of the last, and leaves what is
/// said of the schema and the migration.
pub proof fn law_operations_are_recorded(
    before: DataOperationsStatus,
    after: DataOperationsStatus,
    phase: Seq<char>,
    result: Seq<char>,
    completed_at: i64,
    failed_stage: Option<String>,
    failed_reason: Option<String>,
    restore_source: Option<String>,
)
    requires
        operation_recorded(
            before,
            after,
            phase,
            result,
            completed_at,
            failed_stage,
            failed_reason,
            restore_source,
        ),
    ensures
        after.last_phase@ == phase && after.last_result@ == result,
        after.last_completed_at == Some(completed_at),
        after.last_failed_stage == failed_stage,
        after.last_failed_reason == failed_reason,
        after.restore_source == restore_source,
        after.running_schema == before.running_schema,
        after.supported_schema == before.supported_schema,
        after.migration_state == before.migration_state,
        after.migrated_from_schema == before.migrated_from_schema,
        after.pre_backup_ok == before.pre_backup_ok,
        after.pre_backup_name == before.pre_backup_name,
{
}

} // verus!
