//! The desktop shell: finding the relay, waiting for it, and starting with the
//! user's session.

use crate::json::{parse_json, parsed_json, Json, JsonData, JsonNumber, NumberData};
use crate::stream::payload_data;
use crate::text::{finishes_with, joined, law_prefixes_and_suffixes, without_suffix};
use vstd::prelude::*;
use vstd::string::*;

verus! {

/// The name under which the shell starts with the user's session.
pub const AUTOSTART_VALUE_NAME: &'static str = "LocalApiRelay";

/// The end of the address at which the relay says that it is ready.
pub const READY_SUFFIX: &'static str = "/ready";

/// How often the shell asks whether the relay is ready.
pub const READY_ATTEMPTS: u32 = 200;

/// The relay as it describes itself.
#[derive(Debug)]
pub struct RelaySnapshot {
    pub port: u16,
    pub ready_url: String,
}

/// The port that a description gives: an integer of 16 bits.
pub open spec fn described_port(data: JsonData) -> Option<u16> {
    match data.member("port"@) {
        Some(JsonData::Number(NumberData::Unsigned(n))) => if n <= 65_535 {
            Some(n as u16)
        } else {
            None
        },
        _ => None,
    }
}

/// What is wrong with a description, given what it says as JSON.
pub open spec fn description_complaint(data: Option<JsonData>) -> Option<Seq<char>> {
    match data {
        None => Some("`local-api-relay check --json` returned invalid JSON"@),
        Some(value) => if described_port(value) is None {
            Some("`local-api-relay check --json` did not contain a valid port"@)
        } else if value.text_member("ready_url"@) is None {
            Some("`local-api-relay check --json` did not contain ready_url"@)
        } else {
            None
        },
    }
}

/// Reads a description of the relay, given what it says as JSON.
pub fn read_description(value: &Option<Json>) -> (r: Result<RelaySnapshot, &'static str>)
    ensures
        match description_complaint(payload_data(*value)) {
            Some(complaint) => r is Err && r->Err_0@ == complaint,
            None => r is Ok && Some(r->Ok_0.port) == described_port(value->0@) && Some(
                r->Ok_0.ready_url@,
            ) == value->0@.text_member("ready_url"@),
        },
{
    let described = match value {
        Some(described) => described,
        None => {
            return Err("`local-api-relay check --json` returned invalid JSON");
        },
    };
    let port: u16 = match described.get("port") {
        Some(Json::Number(JsonNumber::Unsigned(n))) => if *n <= 65_535 {
            *n as u16
        } else {
            return Err("`local-api-relay check --json` did not contain a valid port");
        },
        Some(Json::Number(JsonNumber::Other(number))) => match number.as_u64() {
            Some(n) => if n <= 65_535 {
                n as u16
            } else {
                return Err("`local-api-relay check --json` did not contain a valid port");
            },
            None => {
                return Err("`local-api-relay check --json` did not contain a valid port");
            },
        },
        _ => {
            return Err("`local-api-relay check --json` did not contain a valid port");
        },
    };
    match described.text_at("ready_url") {
        Some(ready_url) => Ok(RelaySnapshot { port, ready_url: ready_url.clone() }),
        None => Err("`local-api-relay check --json` did not contain ready_url"),
    }
}

/// Reads what the relay prints of itself.
pub fn parse_relay_snapshot(stdout: &[u8]) -> (r: Result<RelaySnapshot, &'static str>)
    ensures
        match description_complaint(parsed_json(stdout@)) {
            Some(complaint) => r is Err && r->Err_0@ == complaint,
            None => r is Ok && Some(r->Ok_0.port) == described_port(parsed_json(stdout@)->0)
                && Some(r->Ok_0.ready_url@) == parsed_json(stdout@)->0.text_member("ready_url"@),
        },
{
    read_description(&parse_json(stdout))
}

/// The address of the relay's pages, by that of its readiness.
pub open spec fn pages_of(ready_url: Seq<char>) -> Option<Seq<char>> {
    if finishes_with(ready_url, "/ready"@) {
        Some(ready_url.take(ready_url.len() - "/ready"@.len()) + "/"@)
    } else {
        None
    }
}

/// The address of the relay's pages: that of its readiness without its end.
pub fn base_url_from_ready_url(ready_url: &str) -> (r: Option<String>)
    ensures
        r is Some <==> pages_of(ready_url@) is Some,
        r matches Some(base) ==> pages_of(ready_url@) == Some(base@),
{
    match without_suffix(ready_url, READY_SUFFIX) {
        Some(base) => Some(joined(base.as_str(), "/")),
        None => None,
    }
}

/// What the shell notices while it waits for the relay.
#[derive(Debug)]
pub enum SidecarEvent {
    /// The relay's process ended.
    Terminated,
    /// The relay's process could not be run.
    Error(String),
    /// The relay answered, with success or without.
    Answered(bool),
    /// Nothing of note.
    Other,
}

/// What the shell does next.
#[derive(Debug)]
pub enum SidecarStep {
    /// The relay is ready.
    Ready,
    /// It waits and asks again.
    Wait,
    /// It gives up.
    GiveUp(String),
}

/// Whether `r` is what the shell does after its `attempt`th look at the relay.
pub open spec fn step_taken(
    r: SidecarStep,
    ready_url: Seq<char>,
    attempt: u32,
    event: SidecarEvent,
) -> bool {
    match event {
        SidecarEvent::Terminated => r is GiveUp && r->GiveUp_0@
            == "relay sidecar exited before becoming ready"@,
        SidecarEvent::Error(message) => r is GiveUp && r->GiveUp_0@ == "relay sidecar error: "@
            + message@,
        SidecarEvent::Answered(true) => r is Ready,
        _ => if attempt >= 199 {
            r is GiveUp && r->GiveUp_0@ == "relay sidecar did not become ready at "@ + ready_url
        } else {
            r is Wait
        },
    }
}

/// What the shell does after its `attempt`th look at the relay, counted from 0.
pub fn sidecar_step(ready_url: &str, attempt: u32, event: &SidecarEvent) -> (r: SidecarStep)
    ensures
        step_taken(r, ready_url@, attempt, *event),
{
    match event {
        SidecarEvent::Terminated => SidecarStep::GiveUp(
            "relay sidecar exited before becoming ready".to_owned(),
        ),
        SidecarEvent::Error(message) => SidecarStep::GiveUp(
            joined("relay sidecar error: ", message.as_str()),
        ),
        SidecarEvent::Answered(true) => SidecarStep::Ready,
        _ => if attempt >= READY_ATTEMPTS - 1 {
            SidecarStep::GiveUp(joined("relay sidecar did not become ready at ", ready_url))
        } else {
            SidecarStep::Wait
        },
    }
}

/// Whether the shell starts with the user's session: the value of its name is
/// set.
pub fn is_enabled(run_value: Option<&str>) -> (r: bool)
    ensures
        r == (run_value is Some),
{
    run_value.is_some()
}

/// A program in quotes.
pub open spec fn quoted_program(program: Seq<char>) -> Seq<char> {
    "\""@ + program + "\""@
}

/// The command that the shell is started with: its program in quotes.
pub fn autostart_command(program: &str) -> (r: String)
    ensures
        r@ == quoted_program(program@),
{
    joined(joined("\"", program).as_str(), "\"")
}

/// A description is read where it gives a port of 16 bits and the address of
/// readiness; a description without one of them is refused for it.
pub proof fn law_descriptions_are_read(data: JsonData)
    ensures
        description_complaint(None) is Some,
        (data.member("port"@) matches Some(JsonData::Number(NumberData::Unsigned(n))) && n
            <= 65_535) && (data.member("ready_url"@) matches Some(JsonData::Text(url)))
            ==> description_complaint(Some(data)) is None,
        data.member("port"@) matches Some(JsonData::Number(NumberData::Unsigned(n))) ==> (n
            <= 65_535 ==> described_port(data) == Some(n as u16)),
        data.member("port"@) matches Some(JsonData::Number(NumberData::Unsigned(n))) ==> (n
            > 65_535 ==> description_complaint(Some(data)) is Some),
        data.member("port"@) is None || data.member("ready_url"@) is None
            ==> description_complaint(Some(data)) is Some,
{
}

/// The pages stand where readiness does, without `ready` at the end.
pub proof fn law_pages_stand_beside_readiness(base: Seq<char>, other: Seq<char>)
    ensures
        pages_of(base + "/ready"@) == Some(base + "/"@),
        pages_of(other) is Some ==> exists|head: Seq<char>| other == #[trigger] (head + "/ready"@),
{
    law_prefixes_and_suffixes("/ready"@, base, other);
    assert((base + "/ready"@).take(base.len() as int) =~= base);
}

/// The shell waits for the relay until it answers with success, gives up when
/// it ends or fails, and after 200 looks in any case.
pub proof fn law_the_shell_waits(
    r: SidecarStep,
    ready_url: Seq<char>,
    attempt: u32,
    event: SidecarEvent,
)
    requires
        step_taken(r, ready_url, attempt, event),
    ensures
        event == SidecarEvent::Answered(true) <==> r is Ready,
        event is Terminated || event is Error ==> r is GiveUp,
        (event is Other || event == SidecarEvent::Answered(false)) && attempt + 1 < 200 ==> r is Wait,
        (event is Other || event == SidecarEvent::Answered(false)) && attempt + 1 >= 200
            ==> r is GiveUp,
{
}

/// A program stands between two quotes, unchanged.
pub proof fn law_programs_are_quoted(program: Seq<char>)
    ensures
        quoted_program(program).len() == program.len() + 2,
        quoted_program(program).first() == '"' && quoted_program(program).last() == '"',
        quoted_program(program).subrange(1, program.len() + 1int) == program,
{
    reveal_strlit("\"");
    assert(quoted_program(program).subrange(1, program.len() + 1int) =~= program);
}

} // verus!
