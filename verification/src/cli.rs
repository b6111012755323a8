//! The command line: its values, and what the upgrade check reports.

use crate::backup::TriggerKind;
use crate::numbers::{
    all_digits, digits_value, is_digit, parse_unsigned, signed_digits, signed_text, spelled_integer,
};
use crate::paths::validate_port;
use crate::text::{joined, same_text};
use vstd::prelude::*;
use vstd::string::*;

verus! {

/// What the program is asked to do.
#[derive(Debug)]
pub enum Command {
    /// Generate the administrator's first credential.
    InitAdmin,
    /// Serve, on a port other than the configured one where one is given.
    Serve { port: Option<u16> },
    /// Say whether an upgrade can go ahead, without writing anything.
    Check,
    /// Back the database up.
    Backup { reason: TriggerKind },
    /// Restore a backup.
    Restore { name: String },
}

/// The command line.
#[derive(Debug)]
pub struct Cli {
    pub command: Command,
}

/// Whether `r` is the port that a text gives.
pub open spec fn port_read(r: Result<u16, String>, value: Seq<char>) -> bool {
    match spelled_integer(value, 0, 65_535) {
        None => r is Err && r->Err_0@ == "port must be a number"@,
        Some(port) => if port == 0 {
            r is Err && r->Err_0@ == "port must be between 1 and 65535"@
        } else {
            r is Ok && r->Ok_0 == port
        },
    }
}

/// Reads a port.
pub fn parse_port(value: &str) -> (r: Result<u16, String>)
    ensures
        port_read(r, value@),
{
    match parse_unsigned(value, 65_535) {
        None => Err("port must be a number".to_owned()),
        Some(n) => {
            let port: u16 = n as u16;
            match validate_port(port) {
                Ok(()) => Ok(port),
                Err(message) => Err(message.to_owned()),
            }
        },
    }
}

/// The trigger that a name stands for.
pub open spec fn trigger_named(value: Seq<char>) -> Option<TriggerKind> {
    if value == "auto"@ {
        Some(TriggerKind::Auto)
    } else if value == "manual"@ {
        Some(TriggerKind::Manual)
    } else if value == "migration"@ {
        Some(TriggerKind::Migration)
    } else if value == "restore"@ {
        Some(TriggerKind::Restore)
    } else {
        None
    }
}

/// Reads a trigger.
pub fn parse_trigger(value: &str) -> (r: Result<TriggerKind, String>)
    ensures
        match trigger_named(value@) {
            Some(trigger) => r == Ok::<TriggerKind, String>(trigger),
            None => r is Err && r->Err_0@
                == "trigger must be one of auto, manual, migration, restore"@,
        },
{
    if same_text(value, "auto") {
        Ok(TriggerKind::Auto)
    } else if same_text(value, "manual") {
        Ok(TriggerKind::Manual)
    } else if same_text(value, "migration") {
        Ok(TriggerKind::Migration)
    } else if same_text(value, "restore") {
        Ok(TriggerKind::Restore)
    } else {
        Err("trigger must be one of auto, manual, migration, restore".to_owned())
    }
}

/// A trigger read back is the trigger that was written.
pub proof fn law_trigger_round_trip(trigger: TriggerKind)
    ensures
        trigger_named(crate::backup::trigger_name(trigger)) == Some(trigger),
{
    reveal_strlit("auto");
    reveal_strlit("manual");
    reveal_strlit("migration");
    reveal_strlit("restore");
    assert("auto"@.len() == 4 && "manual"@.len() == 6 && "migration"@.len() == 9
        && "restore"@.len() == 7);
}

/// The version that is reported.
pub open spec fn version_shown(value: Option<Seq<char>>, own: Seq<char>) -> Seq<char> {
    match value {
        Some(text) => if text.len() > 0 {
            text
        } else {
            own
        },
        None => own,
    }
}

/// The version that is reported: the one that a variable gives, unless it is
/// empty, else the program's own.
pub fn displayed_version(value: Option<&str>, own: &str) -> (r: String)
    ensures
        r@ == version_shown(
            match value {
                Some(text) => Some(text@),
                None => None,
            },
            own@,
        ),
{
    match value {
        Some(text) => if text.is_empty() {
            own.to_owned()
        } else {
            text.to_owned()
        },
        None => own.to_owned(),
    }
}

/// Why the upgrade check cannot begin: there is a file without a schema.
pub open spec fn foreign_database(
    path: Seq<char>,
    exists_already: bool,
    database_schema: Option<i64>,
) -> Option<Seq<char>> {
    if exists_already && database_schema is None {
        Some(
            "SQLite database at "@ + path
                + " exists but has no local-api-relay schema; it was left untouched"@,
        )
    } else {
        None
    }
}

/// Why the upgrade check cannot begin: there is a file without a schema.
pub fn check_refusal(path: &str, exists: bool, database_schema: Option<i64>) -> (r: Option<String>)
    ensures
        r is Some <==> foreign_database(path@, exists, database_schema) is Some,
        r matches Some(message) ==> foreign_database(path@, exists, database_schema) == Some(
            message@,
        ),
{
    if exists && database_schema.is_none() {
        Some(
            joined(
                joined("SQLite database at ", path).as_str(),
                " exists but has no local-api-relay schema; it was left untouched",
            ),
        )
    } else {
        None
    }
}

/// Whether the database is to be migrated.
pub open spec fn migration_needed(database_schema: Option<i64>, supported: i64) -> bool {
    database_schema matches Some(schema) && schema < supported
}

/// The lines that the upgrade check reports.
pub open spec fn report_lines(
    version: Seq<char>,
    supported: i64,
    port: u16,
    database_schema: Option<i64>,
) -> Seq<Seq<char>> {
    seq![
        "version="@ + version,
        "supported_schema="@ + signed_digits(supported as int),
        "port="@ + signed_digits(port as int),
        "database_schema="@ + match database_schema {
            Some(schema) => signed_digits(schema as int),
            None => "none"@,
        },
        "migration_needed="@ + if migration_needed(database_schema, supported) {
            "true"@
        } else {
            "false"@
        },
    ]
}

/// The lines that the upgrade check reports.
pub fn check_report(version: &str, supported: i64, port: u16, database_schema: Option<i64>) -> (r: Vec<
    String,
>)
    ensures
        r@.map_values(|line: String| line@) == report_lines(
            version@,
            supported,
            port,
            database_schema,
        ),
{
    let needed = match database_schema {
        Some(schema) => schema < supported,
        None => false,
    };
    let schema_text = match database_schema {
        Some(schema) => signed_text(schema),
        None => "none".to_owned(),
    };
    let needed_text = if needed {
        "true"
    } else {
        "false"
    };
    let mut out: Vec<String> = Vec::new();
    out.push(joined("version=", version));
    out.push(joined("supported_schema=", signed_text(supported).as_str()));
    out.push(joined("port=", signed_text(port as i64).as_str()));
    out.push(joined("database_schema=", schema_text.as_str()));
    out.push(joined("migration_needed=", needed_text));
    proof {
        assert(out@.map_values(|line: String| line@) =~= report_lines(
            version@,
            supported,
            port,
            database_schema,
        ));
    }
    out
}

/// Whether an upgrade is blocked.
pub open spec fn upgrade_blocked(database_schema: Option<i64>, supported: i64) -> bool {
    database_schema matches Some(schema) && schema > supported
}

/// Why an upgrade is blocked: the database is newer than supported.
pub fn upgrade_block(database_schema: Option<i64>, supported: i64) -> (r: Option<String>)
    ensures
        r is Some <==> upgrade_blocked(database_schema, supported),
        r matches Some(message) ==> message@ == "database schema "@ + signed_digits(
            database_schema->0 as int,
        ) + " is newer than this binary supports ("@ + signed_digits(supported as int)
            + "); the upgrade is blocked and the database was left untouched"@,
{
    match database_schema {
        Some(schema) => if schema > supported {
            let head = joined("database schema ", signed_text(schema).as_str());
            let middle = joined(head.as_str(), " is newer than this binary supports (");
            let numbered = joined(middle.as_str(), signed_text(supported).as_str());
            Some(
                joined(
                    numbered.as_str(),
                    "); the upgrade is blocked and the database was left untouched",
                ),
            )
        } else {
            None
        },
        None => None,
    }
}

/// A port is read from its digits, from 1 to 65535.
pub proof fn law_ports_are_read(r: Result<u16, String>, digits: Seq<char>)
    requires
        digits.len() > 0,
        all_digits(digits),
        port_read(r, digits),
    ensures
        1 <= digits_value(digits) <= 65_535 ==> r is Ok && r->Ok_0 == digits_value(digits),
        digits_value(digits) == 0 || digits_value(digits) > 65_535 ==> r is Err,
{
    assert(is_digit(digits[0]));
}

/// A version that is given is shown, unless it is empty.
pub proof fn law_versions_are_shown(given: Seq<char>, own: Seq<char>)
    ensures
        version_shown(None, own) == own,
        given.len() > 0 ==> version_shown(Some(given), own) == given,
        given.len() == 0 ==> version_shown(Some(given), own) == own,
{
}

/// The check reports the version, the supported schema, the port, the schema of
/// the database and whether it is to be migrated, which an older one is.
pub proof fn law_the_check_reports(
    version: Seq<char>,
    supported: i64,
    port: u16,
    database_schema: Option<i64>,
)
    ensures
        report_lines(version, supported, port, database_schema).len() == 5,
        report_lines(version, supported, port, database_schema)[0] == "version="@ + version,
        report_lines(version, supported, port, database_schema)[1] == "supported_schema="@
            + signed_digits(supported as int),
        report_lines(version, supported, port, database_schema)[2] == "port="@ + signed_digits(
            port as int,
        ),
        database_schema is None ==> report_lines(version, supported, port, database_schema)[3]
            == "database_schema="@ + "none"@,
        database_schema matches Some(schema) ==> report_lines(
            version,
            supported,
            port,
            database_schema,
        )[3] == "database_schema="@ + signed_digits(schema as int),
        (database_schema matches Some(schema) && schema < supported) ==> report_lines(
            version,
            supported,
            port,
            database_schema,
        )[4] == "migration_needed="@ + "true"@,
        database_schema is None || database_schema->0 >= supported ==> report_lines(
            version,
            supported,
            port,
            database_schema,
        )[4] == "migration_needed="@ + "false"@,
{
}

/// An upgrade is blocked for a newer database and for no other; a database is
/// never both to be migrated and blocked.
pub proof fn law_newer_databases_block(schema: i64, supported: i64)
    ensures
        !upgrade_blocked(None, supported),
        upgrade_blocked(Some(schema), supported) <==> supported < schema,
        !(upgrade_blocked(Some(schema), supported) && migration_needed(Some(schema), supported)),
        schema == supported ==> !migration_needed(Some(schema), supported),
{
}

/// Four names are triggers, and no other text is one.
pub proof fn law_triggers_are_named(value: Seq<char>)
    ensures
        trigger_named("auto"@) == Some(TriggerKind::Auto),
        trigger_named("manual"@) == Some(TriggerKind::Manual),
        trigger_named("migration"@) == Some(TriggerKind::Migration),
        trigger_named("restore"@) == Some(TriggerKind::Restore),
        trigger_named(value) is Some ==> value == "auto"@ || value == "manual"@ || value
            == "migration"@ || value == "restore"@,
{
    reveal_strlit("auto");
    reveal_strlit("manual");
    reveal_strlit("migration");
    reveal_strlit("restore");
    assert("auto"@.len() == 4 && "manual"@.len() == 6 && "migration"@.len() == 9
        && "restore"@.len() == 7);
}

/// The check is refused only where there is a file and no schema in it, and the
/// refusal names the file.
pub proof fn law_foreign_databases_are_left(path: Seq<char>, schema: i64, found: bool)
    ensures
        foreign_database(path, false, None) is None,
        foreign_database(path, found, Some(schema)) is None,
        foreign_database(path, true, None) matches Some(message) && message.len() > 19int + path.len()
            && message.take(19) == "SQLite database at "@ && message.subrange(
            19,
            19int + path.len(),
        ) == path && message.skip(19int + path.len())
            == " exists but has no local-api-relay schema; it was left untouched"@,
{
    reveal_strlit("SQLite database at ");
    reveal_strlit(" exists but has no local-api-relay schema; it was left untouched");
    let message = foreign_database(path, true, None)->0;
    assert(message.take(19) =~= "SQLite database at "@);
    assert(message.subrange(19, 19int + path.len()) =~= path);
    assert(message.skip(19int + path.len())
        =~= " exists but has no local-api-relay schema; it was left untouched"@);
}

} // verus!
