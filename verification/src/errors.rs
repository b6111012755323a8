//! The error that a relay client is answered with.

use crate::text::same_text;
use vstd::prelude::*;
use vstd::string::*;

verus! {

/// What an error answer says.
pub struct ErrorData {
    pub status: u16,
    pub message: Seq<char>,
    pub error_type: Seq<char>,
    pub param: Option<Seq<char>>,
    pub code: Option<Seq<char>>,
    pub authenticate: bool,
}

/// An error answer in the shape of the OpenAI API.
#[derive(Debug)]
pub struct RelayError {
    pub status: u16,
    pub message: &'static str,
    pub error_type: &'static str,
    pub param: Option<&'static str>,
    pub code: Option<&'static str>,
    /// Whether the answer asks for a bearer token.
    pub authenticate: bool,
}

/// The characters of an optional text.
pub open spec fn optional_str(text: Option<&'static str>) -> Option<Seq<char>> {
    match text {
        Some(t) => Some(t@),
        None => None,
    }
}

impl View for RelayError {
    type V = ErrorData;

    open spec fn view(&self) -> ErrorData {
        ErrorData {
            status: self.status,
            message: self.message@,
            error_type: self.error_type@,
            param: optional_str(self.param),
            code: optional_str(self.code),
            authenticate: self.authenticate,
        }
    }
}

/// An answer that asks for no token.
pub open spec fn error_data(
    status: u16,
    message: Seq<char>,
    error_type: Seq<char>,
    param: Option<Seq<char>>,
    code: Option<Seq<char>>,
) -> ErrorData {
    ErrorData { status, message, error_type, param, code, authenticate: false }
}

/// The answer to a request that is not understood.
pub open spec fn invalid_request(message: Seq<char>, param: Option<Seq<char>>) -> ErrorData {
    error_data(400, message, "invalid_request_error"@, param, None)
}

/// An answer that lays the failure on the upstream.
pub open spec fn bad_gateway(message: Seq<char>, code: Option<Seq<char>>) -> ErrorData {
    error_data(502, message, "api_error"@, None, code)
}

/// The answer to a request without a valid key.
pub open spec fn unauthorized_data() -> ErrorData {
    ErrorData {
        status: 401,
        message: "a valid relay access key is required"@,
        error_type: "authentication_error"@,
        param: None,
        code: Some("invalid_api_key"@),
        authenticate: true,
    }
}

/// The answer while the local data cannot be read.
pub open spec fn local_state_data() -> ErrorData {
    error_data(500, "local state is unavailable"@, "api_error"@, None, None)
}

/// The answer when an upstream takes too long.
pub open spec fn timeout_data() -> ErrorData {
    error_data(504, "upstream request timed out"@, "api_error"@, None, Some("upstream_timeout"@))
}

/// The answer when an upstream cannot be reached.
pub open spec fn unreachable_data() -> ErrorData {
    bad_gateway("could not reach the upstream service"@, Some("upstream_unavailable"@))
}

/// The answer when an upstream stream falls silent.
pub open spec fn idle_data() -> ErrorData {
    error_data(
        504,
        "upstream SSE stream became idle before its next event"@,
        "api_error"@,
        None,
        Some("upstream_timeout"@),
    )
}

impl RelayError {
    /// An answer that asks for no token.
    pub fn new(
        status: u16,
        message: &'static str,
        error_type: &'static str,
        param: Option<&'static str>,
        code: Option<&'static str>,
    ) -> (r: Self)
        ensures
            r@ == error_data(
                status,
                message@,
                error_type@,
                optional_str(param),
                optional_str(code),
            ),
    {
        RelayError { status, message, error_type, param, code, authenticate: false }
    }

    /// The answer to a request without a valid key.
    pub fn unauthorized() -> (r: Self)
        ensures
            r@ == unauthorized_data(),
    {
        RelayError {
            status: 401,
            message: "a valid relay access key is required",
            error_type: "authentication_error",
            param: None,
            code: Some("invalid_api_key"),
            authenticate: true,
        }
    }

    /// The answer while the local data cannot be read.
    pub fn local_state_unavailable() -> (r: Self)
        ensures
            r@ == local_state_data(),
    {
        RelayError::new(500, "local state is unavailable", "api_error", None, None)
    }
}

/// The answer when an upstream takes too long.
pub fn relay_upstream_timeout_error() -> (r: RelayError)
    ensures
        r@ == timeout_data(),
{
    RelayError::new(504, "upstream request timed out", "api_error", None, Some("upstream_timeout"))
}

/// The answer to a failed exchange with an upstream, by whether it timed out.
pub open spec fn transport_data(timed_out: bool) -> ErrorData {
    if timed_out {
        timeout_data()
    } else {
        unreachable_data()
    }
}

/// The answer to a failed exchange with an upstream, by whether it timed out.
pub fn relay_upstream_transport_error(timed_out: bool) -> (r: RelayError)
    ensures
        r@ == transport_data(timed_out),
{
    if timed_out {
        relay_upstream_timeout_error()
    } else {
        RelayError::new(
            502,
            "could not reach the upstream service",
            "api_error",
            None,
            Some("upstream_unavailable"),
        )
    }
}

/// The answer when an upstream stream falls silent.
pub fn relay_idle_error() -> (r: RelayError)
    ensures
        r@ == idle_data(),
{
    RelayError::new(
        504,
        "upstream SSE stream became idle before its next event",
        "api_error",
        None,
        Some("upstream_timeout"),
    )
}

/// The answer when no candidate served the call and none said why.
pub open spec fn exhausted_data() -> ErrorData {
    bad_gateway(
        "all eligible upstream attempts failed"@,
        Some("all_upstream_attempts_failed"@),
    )
}

/// The answer when no candidate served the call and none said why.
pub fn relay_candidates_exhausted_error() -> (r: RelayError)
    ensures
        r@ == exhausted_data(),
{
    RelayError::new(
        502,
        "all eligible upstream attempts failed",
        "api_error",
        None,
        Some("all_upstream_attempts_failed"),
    )
}

/// The category under which an error is recorded.
pub open spec fn error_category(code: Option<Seq<char>>) -> Seq<char> {
    if code == Some("upstream_timeout"@) {
        "upstream_timeout"@
    } else if code == Some("upstream_unavailable"@) {
        "upstream_connection"@
    } else if code == Some("invalid_upstream_response"@) {
        "invalid_upstream_response"@
    } else if code == Some("upstream_semantic_failure"@) {
        "upstream_semantic_failure"@
    } else {
        "upstream_failure"@
    }
}

/// The category under which an error is recorded.
pub fn relay_error_category(error: &RelayError) -> (r: &'static str)
    ensures
        r@ == error_category(error@.code),
{
    match error.code {
        Some(code) => if same_text(code, "upstream_timeout") {
            "upstream_timeout"
        } else if same_text(code, "upstream_unavailable") {
            "upstream_connection"
        } else if same_text(code, "invalid_upstream_response") {
            "invalid_upstream_response"
        } else if same_text(code, "upstream_semantic_failure") {
            "upstream_semantic_failure"
        } else {
            "upstream_failure"
        },
        None => "upstream_failure",
    }
}

/// Whether a status reports success.
pub open spec fn success_status(status: u16) -> bool {
    200 <= status < 300
}

/// The upstream statuses that speak against the route: 401, 403, 404, 429 and
/// every 5xx.
pub open spec fn attributable_status(status: u16) -> bool {
    500 <= status < 600 || status == 401 || status == 403 || status == 404 || status == 429
}

/// Whether an upstream status speaks against the route.
pub fn is_attributable_upstream_status(status: u16) -> (r: bool)
    ensures
        r == attributable_status(status),
{
    (500 <= status && status < 600) || status == 401 || status == 403 || status == 404 || status
        == 429
}

/// The category of an upstream status that speaks against the route.
pub open spec fn http_category(status: u16) -> Seq<char> {
    if status == 401 {
        "upstream_http_401"@
    } else if status == 403 {
        "upstream_http_403"@
    } else if status == 404 {
        "upstream_http_404"@
    } else if status == 429 {
        "upstream_http_429"@
    } else {
        "upstream_http_5xx"@
    }
}

/// The category of an upstream status that speaks against the route.
pub fn attributable_http_category(status: u16) -> (r: &'static str)
    ensures
        r@ == http_category(status),
{
    if status == 401 {
        "upstream_http_401"
    } else if status == 403 {
        "upstream_http_403"
    } else if status == 404 {
        "upstream_http_404"
    } else if status == 429 {
        "upstream_http_429"
    } else {
        "upstream_http_5xx"
    }
}

/// The category of an upstream status that speaks against the request only.
pub open spec fn neutral_category() -> Seq<char> {
    "upstream_http_4xx"@
}

/// The category of an upstream status that speaks against the request only.
pub fn health_neutral_http_category() -> (r: &'static str)
    ensures
        r@ == neutral_category(),
{
    "upstream_http_4xx"
}

/// A status as it is relayed: one outside 100 to 999 becomes 502.
pub open spec fn relayed_status(status: u16) -> u16 {
    if 100 <= status < 1000 {
        status
    } else {
        502
    }
}

/// The answer to an upstream status that is no success.
pub open spec fn status_error_data(status: u16) -> ErrorData {
    error_data(status, "upstream request failed"@, "api_error"@, None, None)
}

/// The answer to an upstream status that is no success.
pub fn upstream_status_error(status: u16) -> (r: RelayError)
    ensures
        r@ == status_error_data(status),
{
    RelayError::new(status, "upstream request failed", "api_error", None, None)
}

/// Of the statuses that are no success, 401, 403, 404, 429 and those of a server
/// error speak against the route, and no others; what is recorded of one of them
/// is never what is recorded of a status that speaks against the request.
pub proof fn law_statuses_part(status: u16)
    requires
        !success_status(status),
    ensures
        attributable_status(status) <==> (status == 401 || status == 403 || status == 404 || status
            == 429 || 500 <= status <= 599),
        attributable_status(status) ==> http_category(status) != "upstream_http_4xx"@,
{
    reveal_strlit("upstream_http_401");
    reveal_strlit("upstream_http_403");
    reveal_strlit("upstream_http_404");
    reveal_strlit("upstream_http_429");
    reveal_strlit("upstream_http_5xx");
    reveal_strlit("upstream_http_4xx");
    assert("upstream_http_4xx"@[15] == 'x' && "upstream_http_4xx"@[14] == '4');
    assert("upstream_http_401"@[15] == '0');
    assert("upstream_http_403"@[15] == '0');
    assert("upstream_http_404"@[15] == '0');
    assert("upstream_http_429"@[15] == '2');
    assert("upstream_http_5xx"@[14] == '5');
}

/// The categories of errors are distinct.
pub proof fn lemma_categories()
    ensures
        "upstream_timeout"@ != "upstream_connection"@,
        "upstream_timeout"@ != "invalid_upstream_response"@,
        "upstream_timeout"@ != "upstream_semantic_failure"@,
        "upstream_timeout"@ != "upstream_failure"@,
        "upstream_timeout"@ != "upstream_unavailable"@,
        "invalid_upstream_response"@ != "upstream_unavailable"@,
        "upstream_semantic_failure"@ != "upstream_unavailable"@,
        "upstream_semantic_failure"@ != "invalid_upstream_response"@,
{
    reveal_strlit("upstream_timeout");
    reveal_strlit("upstream_connection");
    reveal_strlit("invalid_upstream_response");
    reveal_strlit("upstream_semantic_failure");
    reveal_strlit("upstream_failure");
    reveal_strlit("upstream_unavailable");
    assert("upstream_timeout"@.len() == 16 && "upstream_connection"@.len() == 19);
    assert("invalid_upstream_response"@.len() == 25 && "upstream_semantic_failure"@.len() == 25);
    assert("upstream_failure"@.len() == 16 && "upstream_unavailable"@.len() == 20);
    assert("upstream_timeout"@[9] == 't' && "upstream_failure"@[9] == 'f');
    assert("invalid_upstream_response"@[0] == 'i' && "upstream_semantic_failure"@[0] == 'u');
}

/// A failure is recorded as what its code says: a timeout, a lost connection, an
/// invalid answer or a failed response; any other, and one without a code, as a
/// failure of the upstream.
pub proof fn law_failures_are_recorded_as_what_they_are(code: Seq<char>)
    ensures
        error_category(timeout_data().code) == "upstream_timeout"@,
        error_category(idle_data().code) == "upstream_timeout"@,
        error_category(unreachable_data().code) == "upstream_connection"@,
        error_category(Some("invalid_upstream_response"@)) == "invalid_upstream_response"@,
        error_category(Some("upstream_semantic_failure"@)) == "upstream_semantic_failure"@,
        error_category(None) == "upstream_failure"@,
        code != "upstream_timeout"@ && code != "upstream_unavailable"@ && code
            != "invalid_upstream_response"@ && code != "upstream_semantic_failure"@
            ==> error_category(Some(code)) == "upstream_failure"@,
{
    lemma_categories();
}

/// Who is at fault shows in the status: the client for a request without a key
/// or that is not understood, the upstream for what it did not answer in time,
/// or not at all, or not well, and the relay for its own data.
pub proof fn law_statuses_say_who_is_at_fault(message: Seq<char>, param: Option<Seq<char>>)
    ensures
        unauthorized_data().status == 401 && unauthorized_data().authenticate
            && unauthorized_data().code == Some("invalid_api_key"@),
        invalid_request(message, param).status == 400 && invalid_request(message, param).param
            == param && invalid_request(message, param).message == message,
        timeout_data().status == 504 && idle_data().status == 504,
        unreachable_data().status == 502,
        bad_gateway(message, param).status == 502 && bad_gateway(message, param).code == param
            && bad_gateway(message, param).message == message,
        local_state_data().status == 500,
        !invalid_request(message, param).authenticate && !bad_gateway(message, param).authenticate,
{
}

/// A status that can be relayed is relayed as it is.
pub proof fn law_statuses_are_relayed(status: u16)
    ensures
        100 <= status <= 999 ==> relayed_status(status) == status,
        status < 100 || status > 999 ==> relayed_status(status) == 502,
        success_status(status) <==> 200 <= status <= 299,
{
}

/// An error is seen by its status, message, type, parameter, code, and whether
/// it asks for a token.
pub proof fn law_errors_are_seen_by_their_parts(error: RelayError)
    ensures
        error@.status == error.status,
        error@.message == error.message@,
        error@.error_type == error.error_type@,
        error.param matches Some(param) ==> error@.param == Some(param@),
        error.param is None ==> error@.param is None,
        error.code matches Some(code) ==> error@.code == Some(code@),
        error.code is None ==> error@.code is None,
        error@.authenticate == error.authenticate,
{
}

/// Each answer says in its type and code what went wrong.
pub proof fn law_answers_say_what_went_wrong(message: Seq<char>, param: Option<Seq<char>>, status: u16)
    ensures
        invalid_request(message, param).error_type == "invalid_request_error"@,
        invalid_request(message, param).code is None,
        bad_gateway(message, param).error_type == "api_error"@,
        bad_gateway(message, param).param is None,
        unauthorized_data().error_type == "authentication_error"@,
        unauthorized_data().message == "a valid relay access key is required"@,
        local_state_data().error_type == "api_error"@ && local_state_data().code is None,
        local_state_data().message == "local state is unavailable"@,
        timeout_data().error_type == "api_error"@ && timeout_data().code == Some(
            "upstream_timeout"@,
        ),
        timeout_data().message == "upstream request timed out"@,
        idle_data().error_type == "api_error"@ && idle_data().code == Some("upstream_timeout"@),
        idle_data().message == "upstream SSE stream became idle before its next event"@,
        unreachable_data().error_type == "api_error"@ && unreachable_data().code == Some(
            "upstream_unavailable"@,
        ),
        unreachable_data().message == "could not reach the upstream service"@,
        transport_data(true).status == 504 && transport_data(false).status == 502,
        transport_data(true).code == Some("upstream_timeout"@) && transport_data(false).code
            == Some("upstream_unavailable"@),
        exhausted_data().status == 502 && exhausted_data().code == Some(
            "all_upstream_attempts_failed"@,
        ) && exhausted_data().message == "all eligible upstream attempts failed"@,
        status_error_data(status).status == status && status_error_data(status).error_type
            == "api_error"@ && status_error_data(status).code is None && status_error_data(
            status,
        ).message == "upstream request failed"@,
        !timeout_data().authenticate && !local_state_data().authenticate,
{
}

/// A status that speaks against the route is recorded as itself, a server error
/// as one of them; one that speaks against the request, as one of those.
pub proof fn law_statuses_are_recorded(status: u16)
    ensures
        http_category(401) == "upstream_http_401"@,
        http_category(403) == "upstream_http_403"@,
        http_category(404) == "upstream_http_404"@,
        http_category(429) == "upstream_http_429"@,
        500 <= status <= 599 ==> http_category(status) == "upstream_http_5xx"@,
        neutral_category() == "upstream_http_4xx"@,
{
}

} // verus!
