//! Faults that a drill asks for through the environment of the process.

use crate::backup::BackupFailure;
use crate::text::{joined, same_text};
use vstd::prelude::*;
use vstd::string::*;

verus! {

/// Names the stage of a backup that is to fail.
pub const FAIL_BACKUP_VARIABLE: &'static str = "LOCAL_API_RELAY_TEST_FAIL_BACKUP_STAGE";

/// Set to `1`, lets the check of an installation fail.
pub const FAIL_CHECK_VARIABLE: &'static str = "LOCAL_API_RELAY_TEST_FAIL_CHECK";

/// Set to `1`, lets a migration fail.
pub const FAIL_MIGRATION_VARIABLE: &'static str = "LOCAL_API_RELAY_TEST_FAIL_MIGRATION";

/// Set to anything, lets every change of the configuration fail.
pub const FAIL_CONFIG_COMMIT_VARIABLE: &'static str = "LOCAL_API_RELAY_TEST_FAIL_CONFIG_COMMIT";

/// Names the kind of records whose writes are to fail.
pub const FAIL_WRITE_VARIABLE: &'static str = "LOCAL_API_RELAY_TEST_FAIL_OPERATIONAL_WRITE";

/// Names the kind of records whose next write is to fail.
pub const FAIL_WRITE_ONCE_VARIABLE: &'static str =
    "LOCAL_API_RELAY_TEST_FAIL_OPERATIONAL_WRITE_ONCE";

/// How long a restore pauses after each stage, in milliseconds.
pub const RESTORE_PAUSE_VARIABLE: &'static str = "LOCAL_API_RELAY_TEST_RESTORE_STAGE_PAUSE_MS";

/// Whether a variable has a value.
pub open spec fn is_set_to(value: Option<&str>, wanted: Seq<char>) -> bool {
    value matches Some(text) && text@ == wanted
}

/// Whether a variable has a value.
fn set_to(value: Option<&str>, wanted: &str) -> (r: bool)
    ensures
        r == is_set_to(value, wanted@),
{
    match value {
        Some(text) => same_text(text, wanted),
        None => false,
    }
}

/// Fails a stage of a backup, where the drill names it.
pub fn fail_if_requested(value: Option<&str>, stage: &'static str) -> (r: Result<(), BackupFailure>)
    ensures
        r is Err <==> is_set_to(value, stage@),
        r matches Err(failure) ==> failure.stage == stage && failure.reason@ == "injected "@ + stage@
            + " failure"@,
{
    if set_to(value, stage) {
        Err(
            BackupFailure {
                stage,
                reason: joined(joined("injected ", stage).as_str(), " failure"),
            },
        )
    } else {
        Ok(())
    }
}

/// Fails the check of an installation, where the drill asks for it.
pub fn fail_check_if_requested(value: Option<&str>) -> (r: Result<(), &'static str>)
    ensures
        r is Err <==> is_set_to(value, "1"@),
        r matches Err(message) ==> message@ == "injected preflight check failure"@,
{
    if set_to(value, "1") {
        Err("injected preflight check failure")
    } else {
        Ok(())
    }
}

/// Fails a migration, where the drill asks for it.
pub fn fail_migration_if_requested(value: Option<&str>) -> (r: Result<(), &'static str>)
    ensures
        r is Err <==> is_set_to(value, "1"@),
        r matches Err(message) ==> message@ == "injected migration failure"@,
{
    if set_to(value, "1") {
        Err("injected migration failure")
    } else {
        Ok(())
    }
}

/// Whether a drill asks for the writes of a kind of records to fail.
pub open spec fn names_category(value: Option<&str>, category: Seq<char>) -> bool {
    is_set_to(value, "all"@) || is_set_to(value, category)
}

/// Whether a drill asks for the writes of a kind of records to fail.
pub fn operational_write_injection_matches(value: Option<&str>, category: &str) -> (r: bool)
    ensures
        r == names_category(value, category@),
{
    set_to(value, "all") || set_to(value, category)
}

/// What comes of a drill on the write of a record.
pub open spec fn write_drilled(
    r: Result<(), String>,
    always: Option<&str>,
    once: Option<&str>,
    failed_before: bool,
    failed_after: bool,
    category: Seq<char>,
) -> bool {
    if names_category(always, category) {
        &&& r is Err
        &&& r->Err_0@ == "injected operational write failure: "@ + category
        &&& failed_after == failed_before
    } else if names_category(once, category) {
        &&& failed_after
        &&& if failed_before {
            r is Ok
        } else {
            r is Err && r->Err_0@ == "injected one-time operational write failure: "@ + category
        }
    } else {
        r is Ok && failed_after == failed_before
    }
}

/// Fails the write of a record, where the drill names its kind: always, or
/// once. `failed_once` says whether the one failure has come.
pub fn fail_operational_write_if_requested(
    always: Option<&str>,
    once: Option<&str>,
    failed_once: &mut bool,
    category: &str,
) -> (r: Result<(), String>)
    ensures
        write_drilled(r, always, once, *old(failed_once), *final(failed_once), category@),
{
    if operational_write_injection_matches(always, category) {
        return Err(joined("injected operational write failure: ", category));
    }
    if operational_write_injection_matches(once, category) {
        let again = *failed_once;
        *failed_once = true;
        if !again {
            return Err(joined("injected one-time operational write failure: ", category));
        }
    }
    Ok(())
}

/// A drill on writes fails those of the kind it names, or all; once only the
/// first, and without a drill none fails.
pub proof fn law_drills_fail_what_they_name(
    r: Result<(), String>,
    always: Option<&str>,
    once: Option<&str>,
    failed_before: bool,
    failed_after: bool,
    category: Seq<char>,
)
    requires
        write_drilled(r, always, once, failed_before, failed_after, category),
    ensures
        always is None && once is None ==> r is Ok && failed_after == failed_before,
        always matches Some(named) ==> (named@ == category || named@ == "all"@ ==> r is Err),
        always is None && (once matches Some(named) && (named@ == category || named@ == "all"@))
            ==> failed_after && (failed_before ==> r is Ok) && (!failed_before ==> r is Err),
        r is Err ==> (always matches Some(named) && (named@ == category || named@ == "all"@)) || (
        once matches Some(named) && (named@ == category || named@ == "all"@)),
{
}

} // verus!
