//! What the administrator's requests are answered: who is let in, how refusals
//! are reported, and how lists are paged.

use crate::json::{number_string, number_text, Json, JsonData};
use crate::log::{is_known_section, known_section};
use crate::recovery::RouteHealth;
use crate::session::{Session, SessionKind};
use crate::store::{Refusal, StoreError};
use crate::text::{begins_with, contains_text, has_prefix, joined, occurs_in};
use vstd::prelude::*;
use vstd::string::*;

verus! {

pub const DEFAULT_EVENTS_PAGE_SIZE: i64 = 50;

pub const MAX_EVENTS_PAGE_SIZE: i64 = 200;

pub const DEFAULT_CALLS_PAGE_SIZE: i64 = 25;

pub const MAX_CALLS_PAGE_SIZE: i64 = 100;

/// What an error answer to the administrator says.
pub struct AnswerData {
    pub status: u16,
    pub message: Seq<char>,
    pub field: Option<Seq<char>>,
}

/// An error answer to the administrator, laid to a form field where there is
/// one.
#[derive(Debug)]
pub struct AdminError {
    pub status: u16,
    pub message: String,
    pub field: Option<&'static str>,
}

impl View for AdminError {
    type V = AnswerData;

    open spec fn view(&self) -> AnswerData {
        AnswerData {
            status: self.status,
            message: self.message@,
            field: match self.field {
                Some(field) => Some(field@),
                None => None,
            },
        }
    }
}

/// An answer laid to no field.
pub open spec fn answer(status: u16, message: Seq<char>) -> AnswerData {
    AnswerData { status, message, field: None }
}

impl AdminError {
    /// An answer laid to no field.
    pub fn new(status: u16, message: &str) -> (r: Self)
        ensures
            r@ == answer(status, message@),
    {
        AdminError { status, message: message.to_owned(), field: None }
    }

    /// An answer laid to a field.
    pub fn with_field(status: u16, message: String, field: &'static str) -> (r: Self)
        ensures
            r@ == (AnswerData { status, message: message@, field: Some(field@) }),
    {
        AdminError { status, message, field: Some(field) }
    }

    /// The answer when the local data cannot be read, and why.
    pub fn internal(error: &str) -> (r: Self)
        ensures
            r@ == answer(500, "local state is unavailable: "@ + error@),
    {
        AdminError {
            status: 500,
            message: joined("local state is unavailable: ", error),
            field: None,
        }
    }

    /// The answer when the local data cannot be reached.
    pub fn unavailable() -> (r: Self)
        ensures
            r@ == answer(500, "local state is unavailable"@),
    {
        AdminError::new(500, "local state is unavailable")
    }
}

/// The answer to a refused change of the configuration.
pub open spec fn refused_change(refusal: Refusal) -> AnswerData {
    AnswerData { status: 422, message: refusal.message, field: refusal.field }
}

/// The answer to a refused change of the configuration.
pub fn store_error_to_admin(error: StoreError) -> (r: AdminError)
    ensures
        r@ == refused_change(error@),
{
    AdminError { status: 422, message: error.message, field: error.field }
}

/// How a request for the administrator is refused: without a session, and with
/// one that must change the password first.
pub open spec fn session_refusal(session: Option<Session>) -> Option<AnswerData> {
    match session {
        None => Some(answer(401, "administrator session is required"@)),
        Some(session) => if session.kind == SessionKind::Active {
            None
        } else {
            Some(answer(403, "administrator password change is required"@))
        },
    }
}

/// Lets a request in that comes with an active session.
pub fn require_active_session(session: Option<Session>) -> (r: Result<(), AdminError>)
    ensures
        match session_refusal(session) {
            None => r is Ok,
            Some(refusal) => r is Err && r->Err_0@ == refusal,
        },
{
    match session {
        None => Err(AdminError::new(401, "administrator session is required")),
        Some(session) => if session.kind == SessionKind::Active {
            Ok(())
        } else {
            Err(AdminError::new(403, "administrator password change is required"))
        },
    }
}

/// Only an active session is let in.
pub proof fn law_only_active_sessions_administer(session: Option<Session>)
    ensures
        session_refusal(session) is None <==> session == Some(
            Session { kind: SessionKind::Active },
        ),
{
}

/// What is said of a session: whether there is one, and whether its password
/// must be changed.
pub open spec fn said_of_session(session: Option<Session>) -> (bool, bool) {
    (session is Some, session == Some(Session { kind: SessionKind::Bootstrap }))
}

/// What is said of a session: whether there is one, and whether its password
/// must be changed.
pub fn session_status(session: Option<Session>) -> (r: (bool, bool))
    ensures
        r == said_of_session(session),
{
    match session {
        Some(session) => (true, session.kind == SessionKind::Bootstrap),
        None => (false, false),
    }
}

/// The answer to a login that failed.
pub fn invalid_credentials() -> (r: AdminError)
    ensures
        r@ == answer(401, "invalid administrator credentials"@),
{
    AdminError::new(401, "invalid administrator credentials")
}

/// The answer to a change of the password that failed, by what was wrong.
pub open spec fn password_answer(message: Seq<char>, detail: Seq<char>) -> AnswerData {
    if begins_with(message, "password must be"@) {
        answer(422, message)
    } else if occurs_in(message, "requires the bootstrap session"@) {
        answer(403, "administrator password change is not available for this session"@)
    } else {
        answer(500, "local state is unavailable: "@ + detail)
    }
}

/// The answer to a change of the password that failed.
pub fn password_change_error(message: &str, detail: &str) -> (r: AdminError)
    ensures
        r@ == password_answer(message@, detail@),
{
    if has_prefix(message, "password must be") {
        AdminError::new(422, message)
    } else if contains_text(message, "requires the bootstrap session") {
        AdminError::new(403, "administrator password change is not available for this session")
    } else {
        AdminError::internal(detail)
    }
}

/// A decimal that was sent as a text or as a number, as a text.
pub open spec fn decimal_sent(value: JsonData) -> Option<Seq<char>> {
    match value {
        JsonData::Text(text) => Some(text),
        JsonData::Number(number) => Some(number_text(number)),
        _ => None,
    }
}

/// A decimal that was sent as a text or as a number, as a text.
pub fn decimal_request_value(value: &Json, label: &str, field: &'static str) -> (r: Result<
    String,
    AdminError,
>)
    ensures
        match decimal_sent(value@) {
            Some(text) => r is Ok && r->Ok_0@ == text,
            None => r is Err && r->Err_0@ == (AnswerData {
                status: 422,
                message: label@ + " must be a decimal"@,
                field: Some(field@),
            }),
        },
{
    match value {
        Json::Text(text) => Ok(text.clone()),
        Json::Number(number) => Ok(number_string(number)),
        _ => Err(AdminError::with_field(422, joined(label, " must be a decimal"), field)),
    }
}

/// The page that is shown, counted from 0.
pub open spec fn page_shown(page: Option<i64>) -> i64 {
    match page {
        Some(p) => if p < 0 {
            0
        } else {
            p
        },
        None => 0,
    }
}

/// The size of the page that is shown.
pub open spec fn size_shown(page_size: Option<i64>, default_size: i64, max_size: i64) -> i64 {
    match page_size {
        Some(s) => if s < 1 {
            1
        } else if s > max_size {
            max_size
        } else {
            s
        },
        None => default_size,
    }
}

/// How many entries come before a page, held within 64 bits.
pub open spec fn entries_before(page: int, page_size: int) -> int {
    if page * page_size > i64::MAX {
        i64::MAX as int
    } else if page * page_size < i64::MIN {
        i64::MIN as int
    } else {
        page * page_size
    }
}

/// The page that is shown, counted from 0, and its size: what was asked for,
/// within bounds.
pub fn page_request(
    page: Option<i64>,
    page_size: Option<i64>,
    default_size: i64,
    max_size: i64,
) -> (r: (i64, i64))
    requires
        1 <= default_size <= max_size,
    ensures
        r.0 == page_shown(page),
        r.1 == size_shown(page_size, default_size, max_size),
{
    let shown: i64 = match page {
        Some(p) => if p < 0 {
            0
        } else {
            p
        },
        None => 0,
    };
    let size: i64 = match page_size {
        Some(s) => if s < 1 {
            1
        } else if s > max_size {
            max_size
        } else {
            s
        },
        None => default_size,
    };
    (shown, size)
}

/// How many entries come before a page, held within 64 bits.
pub fn page_offset(page: i64, page_size: i64) -> (r: i64)
    ensures
        r == entries_before(page as int, page_size as int),
{
    let bound: i128 = 0x4000_0000_0000_0000_0000_0000_0000_0000;
    proof {
        assert(-bound <= page * page_size <= bound) by (nonlinear_arith)
            requires
                -0x8000_0000_0000_0000 <= page <= 0x7fff_ffff_ffff_ffff,
                -0x8000_0000_0000_0000 <= page_size <= 0x7fff_ffff_ffff_ffff,
                bound == 0x4000_0000_0000_0000_0000_0000_0000_0000,
        ;
    }
    let product: i128 = page as i128 * page_size as i128;
    if product > 0x7fff_ffff_ffff_ffff {
        i64::MAX
    } else if product < -0x8000_0000_0000_0000 {
        i64::MIN
    } else {
        product as i64
    }
}

/// Accepts a filter for events: none, or one of the known sections.
pub fn check_section(section: Option<&str>) -> (r: Result<(), AdminError>)
    ensures
        r is Ok <==> (section matches Some(name) ==> known_section(name@)),
        r matches Err(error) ==> error@ == answer(422, "unknown operational event section"@),
{
    match section {
        Some(name) => if is_known_section(name) {
            Ok(())
        } else {
            Err(AdminError::new(422, "unknown operational event section"))
        },
        None => Ok(()),
    }
}

/// The answer when a check of a route is under way already.
pub fn check_in_progress() -> (r: AdminError)
    ensures
        r@ == answer(409, "a recovery check is already in progress for this model route"@),
{
    AdminError::new(409, "a recovery check is already in progress for this model route")
}

/// The answer when a provider is not there.
pub fn provider_missing() -> (r: AdminError)
    ensures
        r@ == answer(404, "upstream provider does not exist"@),
{
    AdminError::new(404, "upstream provider does not exist")
}

/// The health that a check found.
pub open spec fn health_found(available: bool) -> RouteHealth {
    if available {
        RouteHealth::Available
    } else {
        RouteHealth::Unavailable
    }
}

/// The health that a check found.
pub fn checked_health(available: bool) -> (r: RouteHealth)
    ensures
        r == health_found(available),
{
    if available {
        RouteHealth::Available
    } else {
        RouteHealth::Unavailable
    }
}

/// A request without a session is answered 401, and one whose password must be
/// changed first 403.
pub proof fn law_sessions_are_asked_for(session: Session)
    ensures
        session_refusal(None) matches Some(refusal) && refusal.status == 401,
        session.kind == SessionKind::Bootstrap ==> (session_refusal(Some(session)) matches Some(
            refusal,
        ) && refusal.status == 403),
        session.kind == SessionKind::Active ==> session_refusal(Some(session)) is None,
        said_of_session(None) == (false, false),
        session.kind == SessionKind::Active ==> said_of_session(Some(session)) == (true, false),
        session.kind == SessionKind::Bootstrap ==> said_of_session(Some(session)) == (true, true),
{
}

/// A refused change of the configuration is answered 422, with its message and
/// the field it is laid to.
pub proof fn law_refused_changes_are_answered(refusal: Refusal)
    ensures
        refused_change(refusal).status == 422,
        refused_change(refusal).message == refusal.message,
        refused_change(refusal).field == refusal.field,
{
}

/// A password that is refused for itself is answered 422 with the message, a
/// session that may not change it 403, and anything else 500 with the detail.
pub proof fn law_password_failures_are_answered(rest: Seq<char>, head: Seq<char>, detail: Seq<char>)
    ensures
        password_answer("password must be"@ + rest, detail) == (AnswerData {
            status: 422,
            message: "password must be"@ + rest,
            field: None,
        }),
        !begins_with(head + "requires the bootstrap session"@ + rest, "password must be"@)
            ==> password_answer(head + "requires the bootstrap session"@ + rest, detail).status
            == 403,
        !begins_with(head, "password must be"@) && !occurs_in(
            head,
            "requires the bootstrap session"@,
        ) ==> password_answer(head, detail).status == 500 && password_answer(head, detail).message
            == "local state is unavailable: "@ + detail,
{
    crate::text::law_prefixes_and_suffixes("password must be"@, rest, head);
    let part = "requires the bootstrap session"@;
    let whole = head + part + rest;
    assert(whole.subrange(head.len() as int, head.len() as int + part.len() as int) =~= part);
}

/// A decimal may be sent as a text or as a number, and as nothing else.
pub proof fn law_decimals_are_sent(value: JsonData, text: Seq<char>)
    ensures
        decimal_sent(JsonData::Text(text)) == Some(text),
        value matches JsonData::Number(number) ==> decimal_sent(value) == Some(number_text(number)),
        !(value is Text) && !(value is Number) ==> decimal_sent(value) is None,
{
}

/// The page that is shown is the one asked for, from the first on; its size is
/// the one asked for, from one up to the largest.
pub proof fn law_pages_are_within_bounds(
    page: i64,
    size: i64,
    default_size: i64,
    max_size: i64,
)
    requires
        1 <= default_size <= max_size,
    ensures
        page_shown(None) == 0,
        page >= 0 ==> page_shown(Some(page)) == page,
        page < 0 ==> page_shown(Some(page)) == 0,
        size_shown(None, default_size, max_size) == default_size,
        1 <= size <= max_size ==> size_shown(Some(size), default_size, max_size) == size,
        size > max_size ==> size_shown(Some(size), default_size, max_size) == max_size,
        size < 1 ==> size_shown(Some(size), default_size, max_size) == 1,
{
}

/// Each page begins where the one before it ends.
pub proof fn law_pages_follow_each_other(page: int, page_size: int)
    requires
        0 <= page,
        1 <= page_size,
        (page + 1) * page_size <= i64::MAX,
    ensures
        entries_before(0, page_size) == 0,
        entries_before(page + 1, page_size) == entries_before(page, page_size) + page_size,
{
    assert((page + 1) * page_size == page * page_size + page_size) by (nonlinear_arith);
    assert(0 <= page * page_size) by (nonlinear_arith)
        requires
            0 <= page,
            1 <= page_size,
    ;
    assert(0 * page_size == 0) by (nonlinear_arith);
}

/// A check that succeeds finds a route available, one that fails unavailable.
pub proof fn law_checks_find_health()
    ensures
        health_found(true) == RouteHealth::Available,
        health_found(false) == RouteHealth::Unavailable,
{
}

} // verus!
