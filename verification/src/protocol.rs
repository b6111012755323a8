//! The two relay protocols: what a request must hold, what a complete answer
//! is, and what an answer reports of its usage.

use crate::errors::{bad_gateway, error_data, invalid_request, ErrorData, RelayError};
use crate::json::{
    json_data, json_integer, json_wf, law_integers_are_read, law_member_set_then_read,
    lemma_item_form, lemma_member_first, lemma_member_form, lemma_set_keeps_form,
    lemma_with_member_at, member_from, parse_json, parsed_json, with_member, Json, JsonData,
};
use crate::text::{
    joined, law_only_white_space_is_blank, same_text, trim, trimmed, white_space,
};
use vstd::prelude::*;
use vstd::string::*;

verus! {

/// The protocol of a call.
#[derive(Debug, Clone, Copy, PartialEq, Eq, Structural)]
pub enum StreamProtocol {
    ChatCompletions,
    Responses,
}

/// The name of a protocol.
pub open spec fn protocol_name(protocol: StreamProtocol) -> Seq<char> {
    match protocol {
        StreamProtocol::ChatCompletions => "chat_completions"@,
        StreamProtocol::Responses => "responses"@,
    }
}

impl StreamProtocol {
    /// The name of the protocol.
    pub fn as_str(self) -> (r: &'static str)
        ensures
            r@ == protocol_name(self),
    {
        match self {
            StreamProtocol::ChatCompletions => "chat_completions",
            StreamProtocol::Responses => "responses",
        }
    }
}

/// Tokens that a successful upstream reported.
#[derive(Debug, Clone, Copy, PartialEq, Eq, Structural)]
pub struct Usage {
    pub input_tokens: i64,
    pub cached_input_tokens: i64,
    pub output_tokens: i64,
}

/// The endpoint of a protocol below a base URL.
pub open spec fn endpoint_data(protocol: StreamProtocol, base_url: Seq<char>) -> Seq<char> {
    match protocol {
        StreamProtocol::ChatCompletions => base_url + "/chat/completions"@,
        StreamProtocol::Responses => base_url + "/responses"@,
    }
}

/// The endpoint of a protocol below a base URL.
pub fn upstream_endpoint(protocol: StreamProtocol, base_url: &str) -> (r: String)
    ensures
        r@ == endpoint_data(protocol, base_url@),
{
    match protocol {
        StreamProtocol::ChatCompletions => joined(base_url, "/chat/completions"),
        StreamProtocol::Responses => joined(base_url, "/responses"),
    }
}

/// Whether a choice of a chat completion is complete.
pub open spec fn complete_choice(choice: JsonData) -> bool {
    &&& choice.integer_member("index"@) is Some
    &&& choice.member("message"@) matches Some(message) && message is Object
    &&& choice.member("finish_reason"@) is Some
}

/// Whether a body is a complete chat completion.
pub open spec fn complete_chat_completion(body: JsonData) -> bool {
    &&& body.text_member("object"@) == Some("chat.completion"@)
    &&& body.has_name("id"@)
    &&& body.integer_member("created"@) is Some
    &&& body.has_name("model"@)
    &&& body.items_member("choices"@) matches Some(choices) && choices.len() > 0 && forall|i: int|
        0 <= i < choices.len() ==> complete_choice(#[trigger] choices[i])
}

/// Whether a choice of a chat completion is complete.
fn is_complete_choice(choice: &Json) -> (r: bool)
    ensures
        r == complete_choice(choice@),
{
    choice.integer_at("index").is_some() && (match choice.get("message") {
        Some(message) => message.is_object(),
        None => false,
    }) && choice.get("finish_reason").is_some()
}

/// Whether a body is a complete chat completion.
pub fn is_complete_chat_completion(body: &Json) -> (r: bool)
    ensures
        r == complete_chat_completion(body@),
{
    if !body.text_is("object", "chat.completion") || !body.named_at("id") || body.integer_at(
        "created",
    ).is_none() || !body.named_at("model") {
        return false;
    }
    match body.get("choices") {
        Some(value) => match value.as_array() {
            Some(choices) => {
                let ghost data = value@->Array_0;
                if choices.len() == 0 {
                    return false;
                }
                for i in 0..choices.len()
                    invariant
                        body@.items_member("choices"@) == Some(data),
                        data.len() == choices@.len() > 0,
                        forall|k: int|
                            0 <= k < data.len() ==> #[trigger] data[k] == choices@[k]@,
                        forall|k: int| 0 <= k < i ==> complete_choice(#[trigger] data[k]),
                {
                    if !is_complete_choice(&choices[i]) {
                        proof {
                            assert(!complete_choice(data[i as int]));
                        }
                        return false;
                    }
                }
                true
            },
            None => false,
        },
        None => false,
    }
}

/// Whether a status is one that a finished response has.
pub open spec fn finished_status(status: Seq<char>) -> bool {
    status == "completed"@ || status == "failed"@ || status == "cancelled"@ || status
        == "incomplete"@
}

/// Whether a body is a complete response of the Responses protocol.
pub open spec fn complete_response(body: JsonData) -> bool {
    &&& body.text_member("object"@) == Some("response"@)
    &&& body.has_name("id"@)
    &&& body.integer_member("created_at"@) is Some
    &&& body.has_name("model"@)
    &&& body.text_member("status"@) matches Some(status) && finished_status(status)
    &&& body.items_member("output"@) is Some
}

/// Whether a body is a complete response of the Responses protocol.
pub fn is_complete_responses_response(body: &Json) -> (r: bool)
    ensures
        r == complete_response(body@),
{
    body.text_is("object", "response") && body.named_at("id") && body.integer_at(
        "created_at",
    ).is_some() && body.named_at("model") && (match body.text_at("status") {
        Some(status) => same_text(status.as_str(), "completed") || same_text(
            status.as_str(),
            "failed",
        ) || same_text(status.as_str(), "cancelled") || same_text(status.as_str(), "incomplete"),
        None => false,
    }) && (match body.get("output") {
        Some(output) => output.is_array(),
        None => false,
    })
}

/// Whether a status reports that no answer came about.
pub open spec fn failed_status(status: Option<Seq<char>>) -> bool {
    status == Some("failed"@) || status == Some("cancelled"@)
}

/// Whether a value has an error that is not null.
pub open spec fn carries_error(data: JsonData) -> bool {
    data.member("error"@) matches Some(error) && !(error is Null)
}

/// Whether a response reports that no answer came about.
pub open spec fn semantic_failure(body: JsonData) -> bool {
    failed_status(body.text_member("status"@)) || carries_error(body)
}

/// Whether a value has an error that is not null.
pub fn has_error(data: &Json) -> (r: bool)
    ensures
        r == carries_error(data@),
{
    match data.get("error") {
        Some(error) => !error.is_null(),
        None => false,
    }
}

/// Whether a response reports that no answer came about.
pub fn responses_semantic_failure(body: &Json) -> (r: bool)
    ensures
        r == semantic_failure(body@),
{
    body.text_is("status", "failed") || body.text_is("status", "cancelled") || has_error(body)
}

/// Whether a body is a complete answer of `protocol`.
pub open spec fn complete_answer(protocol: StreamProtocol, body: JsonData) -> bool {
    match protocol {
        StreamProtocol::ChatCompletions => complete_chat_completion(body),
        StreamProtocol::Responses => complete_response(body),
    }
}

/// Whether a body is a complete answer of `protocol`.
pub fn validate_complete_response(protocol: StreamProtocol, body: &Json) -> (r: bool)
    ensures
        r == complete_answer(protocol, body@),
{
    match protocol {
        StreamProtocol::ChatCompletions => is_complete_chat_completion(body),
        StreamProtocol::Responses => is_complete_responses_response(body),
    }
}

/// Whether an answer reports a failure in its body.
pub fn is_semantic_failure(protocol: StreamProtocol, body: &Json) -> (r: bool)
    ensures
        r == (protocol == StreamProtocol::Responses && semantic_failure(body@)),
{
    protocol == StreamProtocol::Responses && responses_semantic_failure(body)
}

/// What is answered in place of an upstream answer that is not complete.
pub open spec fn invalid_answer(protocol: StreamProtocol) -> ErrorData {
    match protocol {
        StreamProtocol::ChatCompletions => bad_gateway(
            "upstream returned an invalid Chat Completions response"@,
            None,
        ),
        StreamProtocol::Responses => bad_gateway(
            "upstream returned an invalid Responses response"@,
            Some("invalid_upstream_response"@),
        ),
    }
}

/// What is answered in place of an upstream answer that is not complete.
pub fn invalid_upstream_response_error(protocol: StreamProtocol) -> (r: RelayError)
    ensures
        r@ == invalid_answer(protocol),
{
    match protocol {
        StreamProtocol::ChatCompletions => RelayError::new(
            502,
            "upstream returned an invalid Chat Completions response",
            "api_error",
            None,
            None,
        ),
        StreamProtocol::Responses => RelayError::new(
            502,
            "upstream returned an invalid Responses response",
            "api_error",
            None,
            Some("invalid_upstream_response"),
        ),
    }
}

/// What is answered in place of a response that failed in its body.
pub fn semantic_failure_error() -> (r: RelayError)
    ensures
        r@ == bad_gateway(
            "upstream returned a failed Responses response"@,
            Some("upstream_semantic_failure"@),
        ),
{
    RelayError::new(
        502,
        "upstream returned a failed Responses response",
        "api_error",
        None,
        Some("upstream_semantic_failure"),
    )
}

/// The names that a protocol gives to its token counts.
pub open spec fn usage_names(protocol: StreamProtocol) -> (Seq<char>, Seq<char>, Seq<char>) {
    match protocol {
        StreamProtocol::ChatCompletions => (
            "prompt_tokens"@,
            "completion_tokens"@,
            "prompt_tokens_details"@,
        ),
        StreamProtocol::Responses => (
            "input_tokens"@,
            "output_tokens"@,
            "input_tokens_details"@,
        ),
    }
}

/// The usage that a payload reports: the input and output tokens it names, and
/// of the input those it names as cached, else none.
pub open spec fn reported_usage(protocol: StreamProtocol, payload: JsonData) -> Option<Usage> {
    let (input, output, details) = usage_names(protocol);
    match payload.member("usage"@) {
        None => None,
        Some(usage) => match (usage.integer_member(input), usage.integer_member(output)) {
            (Some(i), Some(o)) => Some(
                Usage {
                    input_tokens: i as i64,
                    cached_input_tokens: (match usage.member(details) {
                        Some(d) => match d.integer_member("cached_tokens"@) {
                            Some(c) => c,
                            None => 0,
                        },
                        None => 0,
                    }) as i64,
                    output_tokens: o as i64,
                },
            ),
            _ => None,
        },
    }
}

/// The usage that a payload reports.
pub fn extract_usage(protocol: StreamProtocol, payload: &Json) -> (r: Option<Usage>)
    ensures
        r == reported_usage(protocol, payload@),
{
    let (input, output, details) = match protocol {
        StreamProtocol::ChatCompletions => (
            "prompt_tokens",
            "completion_tokens",
            "prompt_tokens_details",
        ),
        StreamProtocol::Responses => ("input_tokens", "output_tokens", "input_tokens_details"),
    };
    match payload.get("usage") {
        None => None,
        Some(usage) => match (usage.integer_at(input), usage.integer_at(output)) {
            (Some(input_tokens), Some(output_tokens)) => {
                let cached_input_tokens: i64 = match usage.get(details) {
                    Some(d) => match d.integer_at("cached_tokens") {
                        Some(c) => c,
                        None => 0,
                    },
                    None => 0,
                };
                Some(Usage { input_tokens, cached_input_tokens, output_tokens })
            },
            _ => None,
        },
    }
}

/// A message with empty content in place of null content.
pub open spec fn normal_message(message: JsonData) -> JsonData {
    match message {
        JsonData::Object(members) => if message.member("content"@) == Some(JsonData::Null) {
            JsonData::Object(with_member(members, "content"@, JsonData::Text(Seq::empty())))
        } else {
            message
        },
        _ => message,
    }
}

/// A list of messages, each with empty content in place of null content;
/// anything else as it is.
pub open spec fn normal_list(list: JsonData) -> JsonData {
    match list {
        JsonData::Array(items) => JsonData::Array(items.map_values(|m: JsonData| normal_message(m))),
        other => other,
    }
}

/// A request with the list of messages `key` normalized, where it has one.
pub open spec fn normal_at(request: JsonData, key: Seq<char>) -> JsonData {
    match (request, request.member(key)) {
        (JsonData::Object(members), Some(list)) => JsonData::Object(
            with_member(members, key, normal_list(list)),
        ),
        _ => request,
    }
}

/// A request with empty content in place of null content in its messages.
pub open spec fn normal_request(request: JsonData) -> JsonData {
    normal_at(normal_at(request, "messages"@), "input"@)
}

/// Replaces null content of a message.
fn normalize_message(message: &mut Json)
    ensures
        final(message)@ == normal_message(old(message)@),
{
    let null_content = match message.get("content") {
        Some(content) => content.is_null(),
        None => false,
    };
    if null_content {
        let empty = String::new();
        message.set("content", Json::Text(empty));
    }
}

/// Replaces null content in a list of messages.
fn normalize_list(list: &mut Json)
    ensures
        final(list)@ == normal_list(old(list)@),
{
    match list {
        Json::Array(items) => {
            let ghost before = items@;
            let total: usize = items.len();
            for i in 0..total
                invariant
                    items@.len() == before.len() == total,
                    forall|k: int| i <= k < before.len() ==> #[trigger] items@[k] == before[k],
                    forall|k: int|
                        0 <= k < i ==> (#[trigger] items@[k])@ == normal_message(before[k]@),
            {
                normalize_message(&mut items[i]);
            }
            proof {
                let data = json_data(Json::Array(*items))->Array_0;
                assert(data =~= normal_list(old(list)@)->Array_0);
            }
        },
        _ => {},
    }
}

/// Replaces null content in the list of messages `key`, where there is one.
fn normalize_at(request: &mut Json, key: &str)
    ensures
        final(request)@ == normal_at(old(request)@, key@),
{
    match request {
        Json::Object(members) => {
            let ghost data = old(request)@->Object_0;
            let ghost before = members@;
            let mut i: usize = 0;
            while i < members.len() && !same_text(members[i].0.as_str(), key)
                invariant
                    i <= members@.len(),
                    members@ == before,
                    data.len() == members@.len(),
                    forall|k: int|
                        0 <= k < data.len() ==> #[trigger] data[k] == (
                            before[k].0@,
                            before[k].1@,
                        ),
                    forall|k: int| 0 <= k < i ==> (#[trigger] data[k]).0 != key@,
                    member_from(data, key@, 0) == member_from(data, key@, i as int),
                decreases members@.len() - i,
            {
                i = i + 1;
            }
            if i < members.len() {
                normalize_list(&mut members[i].1);
                proof {
                    let list = data[i as int].1;
                    lemma_with_member_at(data, key@, normal_list(list), i as int);
                    let after = json_data(Json::Object(*members))->Object_0;
                    assert(after =~= data.update(i as int, (key@, normal_list(list))));
                }
            }
        },
        _ => {},
    }
}

/// Replaces null content by empty content in the messages of a request.
pub fn normalize_null_message_content(request: &mut Json)
    ensures
        final(request)@ == normal_request(old(request)@),
{
    normalize_at(request, "messages");
    normalize_at(request, "input");
}

/// A normalized message is in good form.
proof fn lemma_normal_message_form(message: JsonData)
    requires
        json_wf(message),
    ensures
        json_wf(normal_message(message)),
{
    if message is Object {
        lemma_set_keeps_form(
            message->Object_0,
            "content"@,
            JsonData::Text(Seq::empty()),
        );
    }
}

/// A normalized request is in good form.
proof fn lemma_normal_at_form(request: JsonData, key: Seq<char>)
    requires
        json_wf(request),
    ensures
        json_wf(normal_at(request, key)),
{
    if request is Object && request.member(key) is Some {
        let members = request->Object_0;
        let list = request.member(key)->0;
        lemma_member_form(members, key, 0);
        if list is Array {
            let items = list->Array_0;
            let after = normal_list(list)->Array_0;
            assert forall|i: int| 0 <= i < after.len() implies json_wf(#[trigger] after[i]) by {
                lemma_item_form(items, i);
                lemma_normal_message_form(items[i]);
            }
        }
        lemma_set_keeps_form(members, key, normal_list(list));
    }
}

/// What a well-made request asks for.
pub struct RequestData {
    pub model: Seq<char>,
    pub stream: bool,
    pub body: JsonData,
}

/// Whether a request holds the messages that its protocol asks for.
pub open spec fn holds_messages(protocol: StreamProtocol, request: JsonData) -> bool {
    match protocol {
        StreamProtocol::ChatCompletions => request.member("messages"@) matches Some(list)
            && list is Array,
        StreamProtocol::Responses => request.member("input"@) matches Some(input) && (input is Text
            || input is Array),
    }
}

/// The answer to a request without the messages that its protocol asks for.
pub open spec fn messages_complaint(protocol: StreamProtocol) -> ErrorData {
    match protocol {
        StreamProtocol::ChatCompletions => invalid_request(
            "messages must be an array"@,
            Some("messages"@),
        ),
        StreamProtocol::Responses => invalid_request(
            "input must be a string or array"@,
            Some("input"@),
        ),
    }
}

/// What a request asks for, or how it is refused. A request without a `stream`
/// member is forwarded with one that is false.
pub open spec fn understood(protocol: StreamProtocol, request: JsonData) -> Result<
    RequestData,
    ErrorData,
> {
    match request {
        JsonData::Object(members) => match request.text_member("model"@) {
            Some(model) if trimmed(model).len() > 0 => if !holds_messages(protocol, request) {
                Err(messages_complaint(protocol))
            } else {
                match request.member("stream"@) {
                    Some(JsonData::Bool(stream)) => Ok(
                        RequestData {
                            model: trimmed(model),
                            stream,
                            body: normal_request(request),
                        },
                    ),
                    Some(_) => Err(invalid_request("stream must be a boolean"@, Some("stream"@))),
                    None => Ok(
                        RequestData {
                            model: trimmed(model),
                            stream: false,
                            body: normal_request(
                                JsonData::Object(
                                    with_member(members, "stream"@, JsonData::Bool(false)),
                                ),
                            ),
                        },
                    ),
                }
            },
            _ => Err(invalid_request("model must be a non-empty string"@, Some("model"@))),
        },
        _ => Err(invalid_request("request body must be a JSON object"@, None)),
    }
}

/// A well-made request.
#[derive(Debug)]
pub struct RelayRequest {
    pub model: String,
    pub stream: bool,
    pub body: Json,
}

impl View for RelayRequest {
    type V = RequestData;

    open spec fn view(&self) -> RequestData {
        RequestData { model: self.model@, stream: self.stream, body: self.body@ }
    }
}

/// Takes a parsed request body.
pub fn understand_request(protocol: StreamProtocol, request: Json) -> (r: Result<
    RelayRequest,
    RelayError,
>)
    ensures
        r matches Ok(taken) ==> understood(protocol, request@) == Ok::<RequestData, ErrorData>(
            taken@,
        ),
        r matches Err(error) ==> understood(protocol, request@) == Err::<RequestData, ErrorData>(
            error@,
        ),
        r is Ok && json_wf(request@) ==> json_wf(r->Ok_0.body@),
{
    let mut request = request;
    let ghost given = request@;
    if !request.is_object() {
        return Err(
            RelayError::new(
                400,
                "request body must be a JSON object",
                "invalid_request_error",
                None,
                None,
            ),
        );
    }
    let model = match request.text_at("model") {
        Some(model) => trim(model.as_str()),
        None => String::new(),
    };
    if model.as_str().is_empty() {
        return Err(
            RelayError::new(
                400,
                "model must be a non-empty string",
                "invalid_request_error",
                Some("model"),
                None,
            ),
        );
    }
    match protocol {
        StreamProtocol::ChatCompletions => {
            let present = match request.get("messages") {
                Some(list) => list.is_array(),
                None => false,
            };
            if !present {
                return Err(
                    RelayError::new(
                        400,
                        "messages must be an array",
                        "invalid_request_error",
                        Some("messages"),
                        None,
                    ),
                );
            }
        },
        StreamProtocol::Responses => {
            let present = match request.get("input") {
                Some(input) => input.as_str().is_some() || input.is_array(),
                None => false,
            };
            if !present {
                return Err(
                    RelayError::new(
                        400,
                        "input must be a string or array",
                        "invalid_request_error",
                        Some("input"),
                        None,
                    ),
                );
            }
        },
    }
    let asked: Option<bool> = match request.get("stream") {
        Some(Json::Bool(stream)) => Some(*stream),
        Some(_) => {
            return Err(
                RelayError::new(
                    400,
                    "stream must be a boolean",
                    "invalid_request_error",
                    Some("stream"),
                    None,
                ),
            );
        },
        None => None,
    };
    let stream = match asked {
        Some(stream) => stream,
        None => {
            request.set("stream", Json::Bool(false));
            false
        },
    };
    proof {
        if json_wf(given) {
            lemma_set_keeps_form(given->Object_0, "stream"@, JsonData::Bool(false));
            lemma_normal_at_form(request@, "messages"@);
            lemma_normal_at_form(normal_at(request@, "messages"@), "input"@);
        }
    }
    normalize_null_message_content(&mut request);
    Ok(RelayRequest { model, stream, body: request })
}

/// An upstream reads in a request the name of its own model and whether to
/// stream, and every field that the relay does not know as the client sent it.
pub proof fn law_requests_keep_their_fields(
    protocol: StreamProtocol,
    request: JsonData,
    upstream_model: Seq<char>,
    other: Seq<char>,
)
    requires
        understood(protocol, request) is Ok,
        other != "model"@ && other != "stream"@ && other != "messages"@ && other != "input"@,
    ensures
        ({
            let taken = understood(protocol, request)->Ok_0;
            let sent = JsonData::Object(
                with_member(taken.body->Object_0, "model"@, JsonData::Text(upstream_model)),
            );
            &&& taken.body is Object
            &&& sent.text_member("model"@) == Some(upstream_model)
            &&& sent.member("stream"@) == Some(JsonData::Bool(taken.stream))
            &&& sent.member(other) == request.member(other)
        }),
{
    let taken = understood(protocol, request)->Ok_0;
    let asked = match request.member("stream"@) {
        Some(_) => request,
        None => JsonData::Object(
            with_member(request->Object_0, "stream"@, JsonData::Bool(false)),
        ),
    };
    reveal_strlit("model");
    reveal_strlit("stream");
    reveal_strlit("messages");
    reveal_strlit("input");
    assert("stream"@.len() == 6 && "messages"@.len() == 8 && "input"@.len() == 5);
    assert("model"@[0] == 'm' && "stream"@[0] == 's');
    law_member_set_then_read(request->Object_0, "stream"@, JsonData::Bool(false), other);
    law_member_set_then_read(request->Object_0, "stream"@, JsonData::Bool(false), "stream"@);
    assert(asked is Object && asked.member("stream"@) == Some(JsonData::Bool(taken.stream)));
    assert(asked.member(other) == request.member(other));
    lemma_normal_elsewhere(asked, "messages"@, other);
    lemma_normal_elsewhere(asked, "messages"@, "stream"@);
    let halfway = normal_at(asked, "messages"@);
    lemma_normal_elsewhere(halfway, "input"@, other);
    lemma_normal_elsewhere(halfway, "input"@, "stream"@);
    assert(taken.body == normal_at(halfway, "input"@));
    let text = JsonData::Text(upstream_model);
    law_member_set_then_read(taken.body->Object_0, "model"@, text, other);
    law_member_set_then_read(taken.body->Object_0, "model"@, text, "stream"@);
}

/// Normalizing one list leaves the other members as they are.
proof fn lemma_normal_elsewhere(request: JsonData, key: Seq<char>, other: Seq<char>)
    requires
        other != key,
    ensures
        normal_at(request, key).member(other) == request.member(other),
        request is Object ==> normal_at(request, key) is Object,
{
    if request is Object && request.member(key) is Some {
        law_member_set_then_read(
            request->Object_0,
            key,
            normal_list(request.member(key)->0),
            other,
        );
    }
}

/// The longest request body that is taken, in bytes.
pub const MAX_RELAY_REQUEST_BODY_BYTES: usize = 16_777_216;

/// The refusal of a request body that is too large.
pub open spec fn too_large() -> ErrorData {
    error_data(413, "request body is too large"@, "invalid_request_error"@, None, None)
}

/// What a request body asks for, or how it is refused; a body that was not
/// taken in for its size is given as `None`.
pub open spec fn understood_body(protocol: StreamProtocol, body: Option<Seq<u8>>) -> Result<
    RequestData,
    ErrorData,
> {
    match body {
        None => Err(too_large()),
        Some(bytes) => if bytes.len() > 16_777_216 {
            Err(too_large())
        } else {
            match parsed_json(bytes) {
                None => Err(invalid_request("request body must be valid JSON"@, None)),
                Some(request) => understood(protocol, request),
            }
        },
    }
}

/// Takes a request body; one that was not taken in for its size is given as
/// `None`.
pub fn read_request(protocol: StreamProtocol, body: Option<&[u8]>) -> (r: Result<
    RelayRequest,
    RelayError,
>)
    ensures
        ({
            let bytes = match body {
                Some(b) => Some(b@),
                None => None,
            };
            match r {
                Ok(taken) => understood_body(protocol, bytes) == Ok::<RequestData, ErrorData>(
                    taken@,
                ) && json_wf(taken.body@),
                Err(error) => understood_body(protocol, bytes) == Err::<RequestData, ErrorData>(
                    error@,
                ),
            }
        }),
{
    match body {
        None => Err(too_large_error()),
        Some(bytes) => if bytes.len() > MAX_RELAY_REQUEST_BODY_BYTES {
            Err(too_large_error())
        } else {
            match parse_json(bytes) {
                None => Err(
                    RelayError::new(
                        400,
                        "request body must be valid JSON",
                        "invalid_request_error",
                        None,
                        None,
                    ),
                ),
                Some(request) => understand_request(protocol, request),
            }
        },
    }
}

/// The refusal of a request body that is too large.
fn too_large_error() -> (r: RelayError)
    ensures
        r@ == too_large(),
{
    RelayError::new(413, "request body is too large", "invalid_request_error", None, None)
}

/// A body over the size limit is answered as too large, whatever it holds.
pub proof fn law_large_bodies_are_refused(protocol: StreamProtocol, body: Seq<u8>)
    requires
        body.len() > 16_777_216,
    ensures
        understood_body(protocol, Some(body)) == Err::<RequestData, ErrorData>(too_large()),
        too_large().status == 413,
{
}

/// What a call is answered when no candidate is left: whether a route is set up
/// for the key and model decides.
pub open spec fn no_route_data(configured: bool) -> ErrorData {
    if configured {
        error_data(
            503,
            "no eligible model route is currently available"@,
            "api_error"@,
            None,
            Some("no_available_route"@),
        )
    } else {
        error_data(
            404,
            "the requested published model is not available for this relay access key"@,
            "invalid_request_error"@,
            Some("model"@),
            Some("model_not_found"@),
        )
    }
}

/// What a call is answered when no candidate is left.
pub fn no_route_error(configured: bool) -> (r: RelayError)
    ensures
        r@ == no_route_data(configured),
{
    if configured {
        RelayError::new(
            503,
            "no eligible model route is currently available",
            "api_error",
            None,
            Some("no_available_route"),
        )
    } else {
        RelayError::new(
            404,
            "the requested published model is not available for this relay access key",
            "invalid_request_error",
            Some("model"),
            Some("model_not_found"),
        )
    }
}

/// A member set to what it is leaves an object as it is.
proof fn lemma_set_same(members: Seq<(Seq<char>, JsonData)>, key: Seq<char>, value: JsonData)
    requires
        member_from(members, key, 0) == Some(value),
    ensures
        with_member(members, key, value) == members,
    decreases members.len(),
{
    lemma_member_first(members, key);
    if members[0].0 == key {
        assert(seq![(key, value)] + members.drop_first() =~= members);
    } else {
        lemma_set_same(members.drop_first(), key, value);
        assert(seq![members[0]] + members.drop_first() =~= members);
    }
}

/// Normalizing a list a second time changes nothing.
proof fn lemma_normal_list_twice(list: JsonData)
    ensures
        normal_list(normal_list(list)) == normal_list(list),
{
    if list is Array {
        let once = normal_list(list)->Array_0;
        let twice = normal_list(normal_list(list))->Array_0;
        assert forall|i: int| 0 <= i < once.len() implies twice[i] == once[i] by {
            let message = list->Array_0[i];
            if message is Object {
                law_member_set_then_read(
                    message->Object_0,
                    "content"@,
                    JsonData::Text(Seq::empty()),
                    "content"@,
                );
            }
        }
        assert(twice =~= once);
    }
}

/// Normalizing a request a second time changes nothing.
pub proof fn law_normalizing_is_idempotent(request: JsonData)
    ensures
        normal_request(normal_request(request)) == normal_request(request),
{
    reveal_strlit("messages");
    reveal_strlit("input");
    assert("messages"@.len() == 8 && "input"@.len() == 5);
    let first = normal_at(request, "messages"@);
    let second = normal_at(first, "input"@);
    if request is Object {
        if request.member("messages"@) is Some {
            let list = request.member("messages"@)->0;
            lemma_normal_list_twice(list);
            law_member_set_then_read(
                request->Object_0,
                "messages"@,
                normal_list(list),
                "input"@,
            );
        }
        if first.member("input"@) is Some {
            let list = first.member("input"@)->0;
            lemma_normal_list_twice(list);
            law_member_set_then_read(first->Object_0, "input"@, normal_list(list), "messages"@);
        }
        if second.member("messages"@) is Some {
            let list = second.member("messages"@)->0;
            assert(normal_list(list) == list);
            lemma_set_same(second->Object_0, "messages"@, list);
        }
        assert(normal_at(second, "messages"@) == second);
        if second.member("input"@) is Some {
            let list = second.member("input"@)->0;
            assert(normal_list(list) == list);
            lemma_set_same(second->Object_0, "input"@, list);
        }
    }
}

/// A chat request is taken whatever else it holds: an object with a model that
/// is not blank, a list of messages, and a `stream` that is a boolean or absent.
/// A responses request is taken the same way with an input that is a text or a
/// list, of any items.
pub proof fn law_well_made_requests_are_taken(
    protocol: StreamProtocol,
    request: JsonData,
    model: Seq<char>,
    visible: int,
    items: Seq<JsonData>,
    text: Seq<char>,
)
    requires
        request is Object,
        request.member("model"@) == Some(JsonData::Text(model)),
        0 <= visible < model.len(),
        !white_space(model[visible]),
        protocol == StreamProtocol::ChatCompletions ==> request.member("messages"@) == Some(
            JsonData::Array(items),
        ),
        protocol == StreamProtocol::Responses ==> request.member("input"@) == Some(
            JsonData::Array(items),
        ) || request.member("input"@) == Some(JsonData::Text(text)),
        request.member("stream"@) is None || request.member("stream"@) == Some(
            JsonData::Bool(true),
        ) || request.member("stream"@) == Some(JsonData::Bool(false)),
    ensures
        ({
            let taken = understood(protocol, request);
            &&& taken is Ok
            &&& taken->Ok_0.model == trimmed(model)
            &&& taken->Ok_0.model.len() > 0
            &&& taken->Ok_0.stream == (request.member("stream"@) == Some(JsonData::Bool(true)))
            &&& taken->Ok_0.body.member("stream"@) == Some(JsonData::Bool(taken->Ok_0.stream))
        }),
{
    law_only_white_space_is_blank(model);
    reveal_strlit("model");
    reveal_strlit("stream");
    assert("stream"@.len() == 6 && "model"@.len() == 5);
    assert("model"@[0] == 'm' && "stream"@[0] == 's');
    let other = seq!['?'];
    assert(other[0] == '?');
    reveal_strlit("messages");
    reveal_strlit("input");
    assert("messages"@.len() == 8 && "input"@.len() == 5);
    law_requests_keep_their_fields(protocol, request, model, other);
    let taken = understood(protocol, request)->Ok_0;
    law_member_set_then_read(
        taken.body->Object_0,
        "model"@,
        JsonData::Text(model),
        "stream"@,
    );
}

/// What is taken was well made: a body that is no object, a model that is
/// missing, no text or blank, messages or input of another kind, and a `stream`
/// that is no boolean are each refused with 400, and the answer names the
/// member.
pub proof fn law_ill_made_requests_are_refused(protocol: StreamProtocol, request: JsonData)
    ensures
        understood(protocol, request) matches Err(error) ==> error.status == 400
            && error.error_type == "invalid_request_error"@ && error.code is None,
        !(request is Object) ==> (understood(protocol, request) matches Err(error)
            && error.param is None),
        request is Object && (request.member("model"@) is None || !(request.member("model"@)->0
            is Text)) ==> (understood(protocol, request) matches Err(error) && error.param == Some(
            "model"@,
        )),
        request.member("model"@) matches Some(JsonData::Text(model)) ==> (forall|i: int|
            0 <= i < model.len() ==> white_space(#[trigger] model[i])) ==> (understood(
            protocol,
            request,
        ) matches Err(error) && error.param == Some("model"@)),
        understood(protocol, request) is Ok ==> request is Object && (match protocol {
            StreamProtocol::ChatCompletions => request.member("messages"@) matches Some(
                JsonData::Array(_),
            ),
            StreamProtocol::Responses => (request.member("input"@) matches Some(JsonData::Array(_)))
                || (request.member("input"@) matches Some(JsonData::Text(_))),
        }) && (request.member("stream"@) matches Some(stream) ==> stream is Bool),
{
    if let Some(JsonData::Text(model)) = request.member("model"@) {
        law_only_white_space_is_blank(model);
    }
}

/// The list of messages that a request is forwarded with holds as many messages
/// as the client sent, each with its members; only content that is null is
/// forwarded as an empty text. An input that is a text is forwarded as it is.
pub proof fn law_messages_are_forwarded(
    protocol: StreamProtocol,
    request: JsonData,
    key: Seq<char>,
    items: Seq<JsonData>,
    i: int,
    other: Seq<char>,
)
    requires
        understood(protocol, request) is Ok,
        key == "messages"@ || key == "input"@,
        other != "content"@,
    ensures
        ({
            let body = understood(protocol, request)->Ok_0.body;
            &&& request.member(key) == Some(JsonData::Array(items)) ==> {
                &&& body.member(key) matches Some(JsonData::Array(sent))
                &&& sent.len() == items.len()
                &&& 0 <= i < items.len() ==> {
                    &&& sent[i].member(other) == items[i].member(other)
                    &&& sent[i].member("content"@) == if items[i].member("content"@) == Some(
                        JsonData::Null,
                    ) {
                        Some(JsonData::Text(Seq::empty()))
                    } else {
                        items[i].member("content"@)
                    }
                    &&& items[i].member("content"@) != Some(JsonData::Null) ==> sent[i] == items[i]
                }
            }
            &&& request.member(key) is None ==> body.member(key) is None
            &&& request.member(key) matches Some(list) ==> !(list is Array) ==> body.member(key)
                == Some(list)
        }),
{
    reveal_strlit("model");
    reveal_strlit("stream");
    reveal_strlit("messages");
    reveal_strlit("input");
    assert("stream"@.len() == 6 && "messages"@.len() == 8 && "input"@.len() == 5);
    let members = request->Object_0;
    let asked = match request.member("stream"@) {
        Some(_) => request,
        None => JsonData::Object(with_member(members, "stream"@, JsonData::Bool(false))),
    };
    law_member_set_then_read(members, "stream"@, JsonData::Bool(false), "messages"@);
    law_member_set_then_read(members, "stream"@, JsonData::Bool(false), "input"@);
    assert(asked is Object && asked.member(key) == request.member(key));
    let halfway = normal_at(asked, "messages"@);
    let body = normal_at(halfway, "input"@);
    lemma_normal_elsewhere(asked, "messages"@, "input"@);
    lemma_normal_elsewhere(halfway, "input"@, "messages"@);
    if asked.member("messages"@) is Some {
        law_member_set_then_read(
            asked->Object_0,
            "messages"@,
            normal_list(asked.member("messages"@)->0),
            "messages"@,
        );
    }
    if halfway.member("input"@) is Some {
        law_member_set_then_read(
            halfway->Object_0,
            "input"@,
            normal_list(halfway.member("input"@)->0),
            "input"@,
        );
    }
    assert(request.member(key) is Some ==> body.member(key) == Some(
        normal_list(request.member(key)->0),
    ));
    if request.member(key) == Some(JsonData::Array(items)) && 0 <= i < items.len() {
        let sent = normal_list(JsonData::Array(items))->Array_0;
        assert(sent[i] == normal_message(items[i]));
        if items[i] is Object {
            law_member_set_then_read(
                items[i]->Object_0,
                "content"@,
                JsonData::Text(Seq::empty()),
                other,
            );
        }
    }
}

/// A chat completion is complete whatever else it holds: it names its kind, id,
/// time and model, and has choices, each with a place, a message and a reason
/// for its end, of any kind.
pub proof fn law_chat_completions_are_complete(
    body: JsonData,
    id: Seq<char>,
    created: i64,
    model: Seq<char>,
    choices: Seq<JsonData>,
)
    requires
        body.member("object"@) == Some(JsonData::Text("chat.completion"@)),
        body.member("id"@) == Some(JsonData::Text(id)),
        id.len() > 0,
        body.member("created"@) == Some(json_integer(created)),
        body.member("model"@) == Some(JsonData::Text(model)),
        model.len() > 0,
        body.member("choices"@) == Some(JsonData::Array(choices)),
        choices.len() > 0,
        forall|i: int|
            0 <= i < choices.len() ==> (exists|n: i64|
                (#[trigger] choices[i]).member("index"@) == Some(#[trigger] json_integer(n))) && (
            choices[i].member("message"@) matches Some(JsonData::Object(_))) && choices[i].member(
                "finish_reason"@,
            ) is Some,
    ensures
        complete_answer(StreamProtocol::ChatCompletions, body),
{
    assert forall|i: int| 0 <= i < choices.len() implies complete_choice(#[trigger] choices[i]) by {
        let n = choose|n: i64| choices[i].member("index"@) == Some(#[trigger] json_integer(n));
        law_integers_are_read(n, choices[i]);
    }
    law_integers_are_read(created, body);
}

/// What counts as a chat completion has all of this: without the right kind, an
/// id, a time, a model or a choice, or with a choice that lacks its place, its
/// message or its reason, a body is none.
pub proof fn law_incomplete_chat_completions(body: JsonData, choices: Seq<JsonData>, i: int)
    requires
        complete_answer(StreamProtocol::ChatCompletions, body),
        body.member("choices"@) == Some(JsonData::Array(choices)) || !(body.member("choices"@)
            matches Some(JsonData::Array(_))),
    ensures
        body.member("object"@) == Some(JsonData::Text("chat.completion"@)),
        body.member("id"@) matches Some(JsonData::Text(id)) && id.len() > 0,
        body.member("created"@) matches Some(JsonData::Number(_)),
        body.member("model"@) matches Some(JsonData::Text(model)) && model.len() > 0,
        body.member("choices"@) == Some(JsonData::Array(choices)),
        choices.len() > 0,
        0 <= i < choices.len() ==> (choices[i].member("index"@) matches Some(JsonData::Number(_)))
            && (choices[i].member("message"@) matches Some(JsonData::Object(_)))
            && choices[i].member("finish_reason"@) is Some,
{
    if 0 <= i < choices.len() {
        assert(complete_choice(choices[i]));
    }
}

/// A response is complete whatever else it holds: it names its kind, id, time
/// and model, has one of the four statuses of a response that has ended, and a
/// list of output of any items.
pub proof fn law_responses_are_complete(
    body: JsonData,
    id: Seq<char>,
    created: i64,
    model: Seq<char>,
    status: Seq<char>,
    output: Seq<JsonData>,
)
    requires
        body.member("object"@) == Some(JsonData::Text("response"@)),
        body.member("id"@) == Some(JsonData::Text(id)),
        id.len() > 0,
        body.member("created_at"@) == Some(json_integer(created)),
        body.member("model"@) == Some(JsonData::Text(model)),
        model.len() > 0,
        body.member("status"@) == Some(JsonData::Text(status)),
        status == "completed"@ || status == "incomplete"@ || status == "failed"@ || status
            == "cancelled"@,
        body.member("output"@) == Some(JsonData::Array(output)),
    ensures
        complete_answer(StreamProtocol::Responses, body),
{
    law_integers_are_read(created, body);
}

/// What counts as a response has all of this: one that is still queued or in
/// progress, or that lacks its kind, id, time, model or output, is none.
pub proof fn law_incomplete_responses(body: JsonData)
    requires
        complete_answer(StreamProtocol::Responses, body),
    ensures
        body.member("object"@) == Some(JsonData::Text("response"@)),
        body.member("id"@) matches Some(JsonData::Text(id)) && id.len() > 0,
        body.member("created_at"@) matches Some(JsonData::Number(_)),
        body.member("model"@) matches Some(JsonData::Text(model)) && model.len() > 0,
        body.member("status"@) matches Some(JsonData::Text(status)) && (status == "completed"@
            || status == "incomplete"@ || status == "failed"@ || status == "cancelled"@),
        body.member("output"@) matches Some(JsonData::Array(_)),
{
}

/// A response failed when its status says so or it carries an error; one that
/// was completed or cut short, without an error, did not.
pub proof fn law_failed_responses(body: JsonData)
    ensures
        body.member("status"@) == Some(JsonData::Text("failed"@)) ==> semantic_failure(body),
        body.member("status"@) == Some(JsonData::Text("cancelled"@)) ==> semantic_failure(body),
        body.member("error"@) matches Some(error) ==> error != JsonData::Null ==> semantic_failure(
            body,
        ),
        (body.member("status"@) == Some(JsonData::Text("completed"@)) || body.member("status"@)
            == Some(JsonData::Text("incomplete"@)) || body.member("status"@) is None) && (
        body.member("error"@) is None || body.member("error"@) == Some(JsonData::Null))
            ==> !semantic_failure(body),
{
    lemma_statuses();
}

/// The statuses of a response are distinct.
pub proof fn lemma_statuses()
    ensures
        "failed"@ != "completed"@,
        "failed"@ != "incomplete"@,
        "failed"@ != "cancelled"@,
        "cancelled"@ != "completed"@,
        "cancelled"@ != "incomplete"@,
        "completed"@ != "incomplete"@,
{
    reveal_strlit("failed");
    reveal_strlit("cancelled");
    reveal_strlit("completed");
    reveal_strlit("incomplete");
    assert("failed"@.len() == 6 && "cancelled"@.len() == 9);
    assert("completed"@.len() == 9 && "incomplete"@.len() == 10);
    assert("cancelled"@[1] == 'a' && "completed"@[1] == 'o');
}

/// Usage is read from the members that the protocol gives it: a chat payload
/// counts `prompt_tokens` and `completion_tokens`, and of the prompt those that
/// `prompt_tokens_details` counts as `cached_tokens`.
pub proof fn law_chat_usage_is_read(
    payload: JsonData,
    usage: JsonData,
    details: JsonData,
    input: i64,
    cached: i64,
    output: i64,
)
    requires
        payload.member("usage"@) == Some(usage),
        usage.member("prompt_tokens"@) == Some(json_integer(input)),
        usage.member("completion_tokens"@) == Some(json_integer(output)),
    ensures
        ({
            let read = reported_usage(StreamProtocol::ChatCompletions, payload);
            &&& read is Some
            &&& read->0.input_tokens == input
            &&& read->0.output_tokens == output
            &&& usage.member("prompt_tokens_details"@) == Some(details) && details.member(
                "cached_tokens"@,
            ) == Some(json_integer(cached)) ==> read->0.cached_input_tokens == cached
            &&& usage.member("prompt_tokens_details"@) is None ==> read->0.cached_input_tokens == 0
            &&& usage.member("prompt_tokens_details"@) == Some(details) && !(details.member(
                "cached_tokens"@,
            ) matches Some(JsonData::Number(_))) ==> read->0.cached_input_tokens == 0
        }),
{
    law_integers_are_read(input, usage);
    law_integers_are_read(output, usage);
    law_integers_are_read(cached, usage);
}

/// Usage is read from the members that the protocol gives it: a responses
/// payload counts `input_tokens` and `output_tokens`, and of the input those
/// that `input_tokens_details` counts as `cached_tokens`.
pub proof fn law_responses_usage_is_read(
    payload: JsonData,
    usage: JsonData,
    details: JsonData,
    input: i64,
    cached: i64,
    output: i64,
)
    requires
        payload.member("usage"@) == Some(usage),
        usage.member("input_tokens"@) == Some(json_integer(input)),
        usage.member("output_tokens"@) == Some(json_integer(output)),
    ensures
        ({
            let read = reported_usage(StreamProtocol::Responses, payload);
            &&& read is Some
            &&& read->0.input_tokens == input
            &&& read->0.output_tokens == output
            &&& usage.member("input_tokens_details"@) == Some(details) && details.member(
                "cached_tokens"@,
            ) == Some(json_integer(cached)) ==> read->0.cached_input_tokens == cached
            &&& usage.member("input_tokens_details"@) is None ==> read->0.cached_input_tokens == 0
            &&& usage.member("input_tokens_details"@) == Some(details) && !(details.member(
                "cached_tokens"@,
            ) matches Some(JsonData::Number(_))) ==> read->0.cached_input_tokens == 0
        }),
{
    law_integers_are_read(input, usage);
    law_integers_are_read(output, usage);
    law_integers_are_read(cached, usage);
}

/// Usage that is not reported stays unknown: without a usage, or without a
/// number of its own for the input or the output, nothing is made up.
pub proof fn law_missing_usage_is_unknown(payload: JsonData, usage: JsonData)
    ensures
        payload.member("usage"@) is None ==> reported_usage(
            StreamProtocol::ChatCompletions,
            payload,
        ) is None && reported_usage(StreamProtocol::Responses, payload) is None,
        payload.member("usage"@) == Some(usage) && (!(usage.member("prompt_tokens"@) matches Some(
            JsonData::Number(_),
        )) || !(usage.member("completion_tokens"@) matches Some(JsonData::Number(_))))
            ==> reported_usage(StreamProtocol::ChatCompletions, payload) is None,
        payload.member("usage"@) == Some(usage) && (!(usage.member("input_tokens"@) matches Some(
            JsonData::Number(_),
        )) || !(usage.member("output_tokens"@) matches Some(JsonData::Number(_))))
            ==> reported_usage(StreamProtocol::Responses, payload) is None,
{
}

/// A call is sent to its protocol's path below the provider's base URL, and the
/// two protocols are named and sent apart.
pub proof fn law_protocols_have_their_own_paths(base_url: Seq<char>)
    ensures
        endpoint_data(StreamProtocol::ChatCompletions, base_url) == base_url + "/chat/completions"@,
        endpoint_data(StreamProtocol::Responses, base_url) == base_url + "/responses"@,
        protocol_name(StreamProtocol::ChatCompletions) == "chat_completions"@,
        protocol_name(StreamProtocol::Responses) == "responses"@,
        endpoint_data(StreamProtocol::ChatCompletions, base_url) != endpoint_data(
            StreamProtocol::Responses,
            base_url,
        ),
{
    reveal_strlit("/chat/completions");
    reveal_strlit("/responses");
    assert("/chat/completions"@.len() == 17 && "/responses"@.len() == 10);
}

/// A call without a candidate is answered 503 where a route is set up for it,
/// so that it may be tried again, and 404 where none is.
pub proof fn law_calls_without_a_route(configured: bool)
    ensures
        no_route_data(true).status == 503,
        no_route_data(true).code == Some("no_available_route"@),
        no_route_data(false).status == 404,
        no_route_data(false).code == Some("model_not_found"@),
        no_route_data(false).param == Some("model"@),
{
}

/// A body up to the size limit is read as JSON: one that is none is answered
/// 400, and one that is some is taken or refused for what it says.
pub proof fn law_bodies_up_to_the_limit_are_read(protocol: StreamProtocol, body: Seq<u8>)
    requires
        body.len() <= 16 * 1024 * 1024,
    ensures
        parsed_json(body) is None ==> (understood_body(protocol, Some(body)) matches Err(error)
            && error.status == 400),
        parsed_json(body) matches Some(request) ==> understood_body(protocol, Some(body))
            == understood(protocol, request),
        understood_body(protocol, None) matches Err(error) && error.status == 413,
{
}

/// A request without its messages is told which member it lacks and what that
/// member must be.
pub proof fn law_missing_messages_are_named(protocol: StreamProtocol)
    ensures
        messages_complaint(protocol).status == 400,
        messages_complaint(protocol).error_type == "invalid_request_error"@,
        messages_complaint(protocol).code is None,
        protocol == StreamProtocol::ChatCompletions ==> messages_complaint(protocol).param == Some(
            "messages"@,
        ) && messages_complaint(protocol).message == "messages must be an array"@,
        protocol == StreamProtocol::Responses ==> messages_complaint(protocol).param == Some(
            "input"@,
        ) && messages_complaint(protocol).message == "input must be a string or array"@,
{
}

} // verus!
