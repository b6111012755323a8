//! Relaying a stream of events: which events are valid, which one ends the
//! stream, and what of each is passed on.

use crate::errors::{bad_gateway, ErrorData, RelayError};
use crate::json::{
    json_data, json_integer, json_text, json_wf, law_integers_are_read, law_member_set_then_read,
    lemma_member_form, lemma_set_keeps_form, lemma_with_member_at, member_from, parse_json,
    parsed_json, with_member, write_json, Json, JsonData,
};
use crate::protocol::{
    carries_error, extract_usage, failed_status, has_error, lemma_statuses, reported_usage,
    StreamProtocol, Usage,
};
use crate::sse::{
    event_lines, event_of, first_event_end, law_chunks_do_not_move_events, lines_of, not_utf8_data,
    text_of_bytes, EventData, SseEvent, SseReader,
};
use crate::text::{
    begins_with, chars_of, first_index, has_prefix, index_of, is_text,
    law_first_place_of_a_character, law_prefixes_and_suffixes, lemma_first_index, same_text,
    string_between, trim, trimmed,
};
use std::collections::VecDeque;
use vstd::prelude::*;
use vstd::string::*;
use vstd::utf8::*;

verus! {

/// Whether `c` is an ASCII letter.
pub open spec fn ascii_letter(c: char) -> bool {
    'a' <= c <= 'z' || 'A' <= c <= 'Z'
}

/// Whether two characters differ at most in the case of an ASCII letter.
pub open spec fn same_letter(a: char, b: char) -> bool {
    a == b || (ascii_letter(a) && ascii_letter(b) && (a as u32 == b as u32 + 32 || b as u32
        == a as u32 + 32))
}

/// Whether two texts differ at most in the case of ASCII letters.
pub open spec fn same_letters(a: Seq<char>, b: Seq<char>) -> bool {
    a.len() == b.len() && forall|i: int|
        0 <= i < a.len() ==> same_letter(#[trigger] a[i], #[trigger] b[i])
}

/// The media type of a content type: what stands before the first semicolon,
/// trimmed.
pub open spec fn media_type(value: Seq<char>) -> Seq<char> {
    trimmed(
        match first_index(value, ';') {
            Some(i) => value.take(i),
            None => value,
        },
    )
}

/// Whether a content type is that of an event stream.
pub fn is_event_stream_content_type(value: &str) -> (r: bool)
    ensures
        r == same_letters(media_type(value@), "text/event-stream"@),
{
    let chars = chars_of(value);
    let end: usize = match index_of(chars.as_slice(), ';') {
        Some(i) => i,
        None => chars.len(),
    };
    proof {
        assert(value@.subrange(0, end as int) =~= value@.take(end as int));
        assert(value@.take(value@.len() as int) =~= value@);
    }
    let media = chars_of(trim(string_between(chars.as_slice(), 0, end).as_str()).as_str());
    let wanted = chars_of("text/event-stream");
    if media.len() != wanted.len() {
        return false;
    }
    for i in 0..media.len()
        invariant
            media@.len() == wanted@.len(),
            media@ == media_type(value@),
            wanted@ == "text/event-stream"@,
            forall|k: int|
                0 <= k < i ==> same_letter(#[trigger] media@[k], #[trigger] wanted@[k]),
    {
        if !is_same_letter(media[i], wanted[i]) {
            proof {
                assert(!same_letter(media@[i as int], wanted@[i as int]));
            }
            return false;
        }
    }
    true
}

/// Whether two characters differ at most in the case of an ASCII letter.
pub fn is_same_letter(a: char, b: char) -> (r: bool)
    ensures
        r == same_letter(a, b),
{
    let a_letter = ('a' <= a && a <= 'z') || ('A' <= a && a <= 'Z');
    let b_letter = ('a' <= b && b <= 'z') || ('A' <= b && b <= 'Z');
    a == b || (a_letter && b_letter && (a as u32 == b as u32 + 32 || b as u32 == a as u32 + 32))
}

/// Whether a payload is a chunk of a chat completion.
pub open spec fn chat_chunk(chunk: JsonData) -> bool {
    &&& chunk.text_member("object"@) == Some("chat.completion.chunk"@)
    &&& chunk.has_name("id"@)
    &&& chunk.integer_member("created"@) is Some
    &&& chunk.has_name("model"@)
    &&& chunk.items_member("choices"@) is Some
}

/// Whether a payload is a chunk of a chat completion.
pub fn is_chat_completion_chunk(chunk: &Json) -> (r: bool)
    ensures
        r == chat_chunk(chunk@),
{
    chunk.text_is("object", "chat.completion.chunk") && chunk.named_at("id") && chunk.integer_at(
        "created",
    ).is_some() && chunk.named_at("model") && (match chunk.get("choices") {
        Some(choices) => choices.is_array(),
        None => false,
    })
}

/// What the data of an event says as JSON.
pub open spec fn event_payload(event: EventData) -> Option<JsonData> {
    match event.data {
        Some(data) => parsed_json(encode_utf8(data)),
        None => None,
    }
}

/// The plain data of an optional value.
pub open spec fn payload_data(payload: Option<Json>) -> Option<JsonData> {
    match payload {
        Some(value) => Some(value@),
        None => None,
    }
}

/// What the data of an event says as JSON.
fn payload_of(event: &SseEvent) -> (r: Option<Json>)
    ensures
        payload_data(r) == event_payload(event@),
        r matches Some(value) ==> json_wf(value@),
{
    match &event.data {
        Some(data) => parse_json(data.as_str().as_bytes()),
        None => None,
    }
}

/// Whether an event is one of its protocol, given what its data says as JSON.
/// An event without data is.
pub open spec fn valid_event(
    protocol: StreamProtocol,
    event: EventData,
    payload: Option<JsonData>,
    allow_chat_done: bool,
) -> bool {
    match event.data {
        None => true,
        Some(data) => match protocol {
            StreamProtocol::ChatCompletions => (allow_chat_done && data == "[DONE]"@) || (
            payload matches Some(chunk) && chat_chunk(chunk)),
            StreamProtocol::Responses => match (payload, event.event_type) {
                (Some(value), Some(event_type)) => begins_with(event_type, "response."@)
                    && value.text_member("type"@) == Some(event_type),
                _ => false,
            },
        },
    }
}

/// Whether an event is one of its protocol, given what its data says as JSON.
pub fn judge_event(
    protocol: StreamProtocol,
    event: &SseEvent,
    payload: &Option<Json>,
    allow_chat_done: bool,
) -> (r: bool)
    ensures
        r == valid_event(protocol, event@, payload_data(*payload), allow_chat_done),
{
    match &event.data {
        None => true,
        Some(data) => match protocol {
            StreamProtocol::ChatCompletions => {
                if allow_chat_done && same_text(data.as_str(), "[DONE]") {
                    return true;
                }
                match payload {
                    Some(chunk) => is_chat_completion_chunk(chunk),
                    None => false,
                }
            },
            StreamProtocol::Responses => match (payload, &event.event_type) {
                (Some(value), Some(event_type)) => has_prefix(event_type.as_str(), "response.")
                    && value.text_is("type", event_type.as_str()),
                _ => false,
            },
        },
    }
}

/// Whether an event is one of its protocol.
pub fn is_valid_sse_protocol_event(
    protocol: StreamProtocol,
    event: &SseEvent,
    allow_chat_done: bool,
) -> (r: bool)
    ensures
        r == valid_event(protocol, event@, event_payload(event@), allow_chat_done),
{
    let payload = payload_of(event);
    judge_event(protocol, event, &payload, allow_chat_done)
}

/// The answer when the first event of a stream is not one of its protocol.
pub open spec fn bad_start_data() -> ErrorData {
    bad_gateway(
        "upstream SSE stream started with an invalid protocol event"@,
        Some("invalid_upstream_response"@),
    )
}

/// Accepts the first event of a stream.
pub fn validate_first_sse_event(protocol: StreamProtocol, event: &SseEvent) -> (r: Result<
    (),
    RelayError,
>)
    ensures
        r is Ok <==> valid_event(protocol, event@, event_payload(event@), false),
        r matches Err(error) ==> error@ == bad_start_data(),
{
    if is_valid_sse_protocol_event(protocol, event, false) {
        Ok(())
    } else {
        Err(
            RelayError::new(
                502,
                "upstream SSE stream started with an invalid protocol event",
                "api_error",
                None,
                Some("invalid_upstream_response"),
            ),
        )
    }
}

/// Whether an event ends its stream, given what its data says as JSON.
pub open spec fn terminal_event(
    protocol: StreamProtocol,
    event: EventData,
    payload: Option<JsonData>,
) -> bool {
    match protocol {
        StreamProtocol::ChatCompletions => event.data == Some("[DONE]"@),
        StreamProtocol::Responses => (event.event_type == Some("response.completed"@)
            || event.event_type == Some("response.failed"@) || event.event_type == Some(
            "response.incomplete"@,
        )) && valid_event(protocol, event, payload, true),
    }
}

/// Whether an event ends its stream, given what its data says as JSON.
pub fn judge_terminal(protocol: StreamProtocol, event: &SseEvent, payload: &Option<Json>) -> (r:
    bool)
    ensures
        r == terminal_event(protocol, event@, payload_data(*payload)),
{
    match protocol {
        StreamProtocol::ChatCompletions => is_text(&event.data, "[DONE]"),
        StreamProtocol::Responses => (is_text(&event.event_type, "response.completed") || is_text(
            &event.event_type,
            "response.failed",
        ) || is_text(&event.event_type, "response.incomplete")) && judge_event(
            protocol,
            event,
            payload,
            true,
        ),
    }
}

/// Whether an event ends its stream.
pub fn is_terminal_sse_event(protocol: StreamProtocol, event: &SseEvent) -> (r: bool)
    ensures
        r == terminal_event(protocol, event@, event_payload(event@)),
{
    let payload = payload_of(event);
    judge_terminal(protocol, event, &payload)
}

/// Whether a text is the status of a response that came to nothing.
fn is_failed_status(status: Option<&String>) -> (r: bool)
    ensures
        r == failed_status(
            match status {
                Some(text) => Some(text@),
                None => None,
            },
        ),
{
    match status {
        Some(text) => same_text(text.as_str(), "failed") || same_text(text.as_str(), "cancelled"),
        None => false,
    }
}

/// Whether the last event of a response reports that no answer came about,
/// given what its data says as JSON: by its type, by its own status or that of
/// the response in it, or by an error.
pub open spec fn terminal_failure(event: EventData, payload: Option<JsonData>) -> bool {
    ||| event.event_type == Some("response.failed"@)
    ||| payload matches Some(value) && (failed_status(value.text_member("status"@)) || (
    value.member("response"@) matches Some(response) && failed_status(
        response.text_member("status"@),
    )) || carries_error(value))
}

/// Whether the last event of a response reports that no answer came about,
/// given what its data says as JSON.
pub fn judge_terminal_failure(event: &SseEvent, payload: &Option<Json>) -> (r: bool)
    ensures
        r == terminal_failure(event@, payload_data(*payload)),
{
    if is_text(&event.event_type, "response.failed") {
        return true;
    }
    match payload {
        None => false,
        Some(value) => {
            let nested = match value.get("response") {
                Some(response) => is_failed_status(response.text_at("status")),
                None => false,
            };
            nested || is_failed_status(value.text_at("status")) || has_error(value)
        },
    }
}

/// Whether the last event of a response reports that no answer came about.
pub fn responses_terminal_failure(event: &SseEvent) -> (r: bool)
    ensures
        r == terminal_failure(event@, event_payload(event@)),
{
    let payload = payload_of(event);
    judge_terminal_failure(event, &payload)
}

/// A payload with the model that it names replaced by `name`; `None` where it
/// names none, or `name` already.
pub open spec fn renamed(protocol: StreamProtocol, payload: JsonData, name: Seq<char>) -> Option<
    JsonData,
> {
    match (protocol, payload) {
        (StreamProtocol::ChatCompletions, JsonData::Object(members)) => match payload.text_member(
            "model"@,
        ) {
            Some(model) => if model == name {
                None
            } else {
                Some(JsonData::Object(with_member(members, "model"@, JsonData::Text(name))))
            },
            None => None,
        },
        (StreamProtocol::Responses, JsonData::Object(members)) => match payload.member(
            "response"@,
        ) {
            Some(JsonData::Object(inner)) => match JsonData::Object(inner).text_member("model"@) {
                Some(model) => if model == name {
                    None
                } else {
                    Some(
                        JsonData::Object(
                            with_member(
                                members,
                                "response"@,
                                JsonData::Object(
                                    with_member(inner, "model"@, JsonData::Text(name)),
                                ),
                            ),
                        ),
                    )
                },
                None => None,
            },
            _ => None,
        },
        _ => None,
    }
}

/// Sets the member `key` of the object `outer` of a value.
fn set_nested(value: &mut Json, outer: &str, key: &str, set: Json)
    requires
        old(value)@.member(outer@) matches Some(inner) && inner is Object,
    ensures
        final(value)@ == JsonData::Object(
            with_member(
                old(value)@->Object_0,
                outer@,
                JsonData::Object(
                    with_member(old(value)@.member(outer@)->0->Object_0, key@, set@),
                ),
            ),
        ),
{
    match value {
        Json::Object(members) => {
            let ghost data = old(value)@->Object_0;
            let ghost before = members@;
            let mut i: usize = 0;
            while i < members.len() && !same_text(members[i].0.as_str(), outer)
                invariant
                    i <= members@.len(),
                    members@ == before,
                    data.len() == members@.len(),
                    forall|k: int|
                        0 <= k < data.len() ==> #[trigger] data[k] == (
                            before[k].0@,
                            before[k].1@,
                        ),
                    forall|k: int| 0 <= k < i ==> (#[trigger] data[k]).0 != outer@,
                    member_from(data, outer@, 0) == member_from(data, outer@, i as int),
                decreases members@.len() - i,
            {
                i = i + 1;
            }
            if i < members.len() {
                let ghost set_data = set@;
                members[i].1.set(key, set);
                proof {
                    let inner = data[i as int].1->Object_0;
                    let now = JsonData::Object(with_member(inner, key@, set_data));
                    lemma_with_member_at(data, outer@, now, i as int);
                    let after = json_data(Json::Object(*members))->Object_0;
                    assert(after =~= data.update(i as int, (outer@, now)));
                }
            }
        },
        _ => {},
    }
}

/// Puts `name` in place of the model that a payload names.
fn rename(protocol: StreamProtocol, payload: Json, name: &str) -> (r: Option<Json>)
    requires
        json_wf(payload@),
    ensures
        payload_data(r) == renamed(protocol, payload@, name@),
        r matches Some(value) ==> json_wf(value@),
{
    let mut payload = payload;
    let ghost given = payload@;
    match protocol {
        StreamProtocol::ChatCompletions => {
            let foreign = match payload.text_at("model") {
                Some(model) => !same_text(model.as_str(), name),
                None => false,
            };
            if !foreign {
                return None;
            }
            proof {
                lemma_set_keeps_form(given->Object_0, "model"@, JsonData::Text(name@));
            }
            payload.set("model", Json::Text(name.to_owned()));
            Some(payload)
        },
        StreamProtocol::Responses => {
            let foreign = match payload.get("response") {
                Some(response) => response.is_object() && match response.text_at("model") {
                    Some(model) => !same_text(model.as_str(), name),
                    None => false,
                },
                None => false,
            };
            if !foreign {
                return None;
            }
            proof {
                let members = given->Object_0;
                lemma_member_form(members, "response"@, 0);
                let inner = given.member("response"@)->0->Object_0;
                lemma_set_keeps_form(inner, "model"@, JsonData::Text(name@));
                lemma_set_keeps_form(
                    members,
                    "response"@,
                    JsonData::Object(with_member(inner, "model"@, JsonData::Text(name@))),
                );
            }
            set_nested(&mut payload, "response", "model", Json::Text(name.to_owned()));
            Some(payload)
        },
    }
}

/// Whether a line carries data.
pub open spec fn data_line(line: Seq<char>) -> bool {
    line == "data"@ || begins_with(line, "data:"@)
}

/// Whether a line that carries data is among `lines`.
pub open spec fn has_data_line(lines: Seq<Seq<char>>) -> bool {
    exists|i: int| 0 <= i < lines.len() && data_line(#[trigger] lines[i])
}

/// The lines of an event with `payload` in place of its data: on one line where
/// the first line of data was.
pub open spec fn rebuilt_lines(lines: Seq<Seq<char>>, payload: Seq<char>) -> Seq<char>
    decreases lines.len(),
{
    if lines.len() == 0 {
        Seq::empty()
    } else {
        let before = rebuilt_lines(lines.drop_last(), payload);
        if data_line(lines.last()) {
            if has_data_line(lines.drop_last()) {
                before
            } else {
                before + "data: "@ + payload + seq!['\n']
            }
        } else if lines.last().len() > 0 {
            before + lines.last() + seq!['\n']
        } else {
            before
        }
    }
}

/// The bytes that are passed on for an event, given what its data says as JSON
/// and the JSON text of a renamed payload: the event as it came, unless it
/// names a model other than `name`.
pub open spec fn passed_on(
    protocol: StreamProtocol,
    event: EventData,
    payload: Option<JsonData>,
    name: Seq<char>,
) -> Seq<u8> {
    match payload {
        Some(value) => match renamed(protocol, value, name) {
            Some(new_value) => encode_utf8(
                rebuilt_lines(event_lines(decode_utf8(event.raw)), json_text(new_value)).push('\n'),
            ),
            None => event.raw,
        },
        None => event.raw,
    }
}

/// A copy of bytes.
pub fn copy_bytes(bytes: &[u8]) -> (r: Vec<u8>)
    ensures
        r@ == bytes@,
{
    let mut out: Vec<u8> = Vec::new();
    out.extend_from_slice(bytes);
    proof {
        assert(out@ =~= bytes@);
    }
    out
}

/// The lines of an event with `payload` in place of its data.
fn rebuild(lines: &Vec<String>, payload: &str) -> (r: String)
    ensures
        r@ == rebuilt_lines(lines@.map_values(|line: String| line@), payload@).push('\n'),
{
    let ghost texts = lines@.map_values(|line: String| line@);
    let mut out = String::new();
    let mut wrote_data = false;
    for i in 0..lines.len()
        invariant
            texts == lines@.map_values(|line: String| line@),
            out@ == rebuilt_lines(texts.take(i as int), payload@),
            wrote_data == has_data_line(texts.take(i as int)),
    {
        let line = lines[i].as_str();
        proof {
            let now = texts.take(i + 1);
            assert(now.drop_last() =~= texts.take(i as int));
            assert(now.last() == line@);
            assert(has_data_line(now) == (has_data_line(texts.take(i as int)) || data_line(line@)))
                by {
                if data_line(line@) {
                    assert(data_line(now[i as int]));
                }
                if has_data_line(texts.take(i as int)) {
                    let k = choose|k: int|
                        0 <= k < texts.take(i as int).len() && data_line(
                            #[trigger] texts.take(i as int)[k],
                        );
                    assert(now[k] == texts.take(i as int)[k]);
                }
                if has_data_line(now) {
                    let k = choose|k: int| 0 <= k < now.len() && data_line(#[trigger] now[k]);
                    if k < i {
                        assert(texts.take(i as int)[k] == now[k]);
                    }
                }
            }
        }
        if same_text(line, "data") || has_prefix(line, "data:") {
            if !wrote_data {
                out.append("data: ");
                out.append(payload);
                out.push('\n');
                wrote_data = true;
                proof {
                    assert(out@ =~= rebuilt_lines(texts.take(i + 1), payload@));
                }
            }
        } else if !line.is_empty() {
            out.append(line);
            out.push('\n');
            proof {
                assert(out@ =~= rebuilt_lines(texts.take(i + 1), payload@));
            }
        }
    }
    proof {
        assert(texts.take(texts.len() as int) =~= texts);
    }
    out.push('\n');
    out
}

/// The bytes that are passed on for an event, given what its data says as JSON.
pub fn render_payload(
    protocol: StreamProtocol,
    event: &SseEvent,
    payload: Option<Json>,
    published_model_name: &str,
) -> (r: Vec<u8>)
    requires
        valid_utf8(event.raw@),
        payload is Some ==> json_wf(payload->0@),
    ensures
        r@ == passed_on(protocol, event@, payload_data(payload), published_model_name@),
{
    let renamed_payload = match payload {
        Some(value) => rename(protocol, value, published_model_name),
        None => None,
    };
    match renamed_payload {
        None => copy_bytes(event.raw.as_slice()),
        Some(value) => match text_of_bytes(event.raw.as_slice()) {
            None => copy_bytes(event.raw.as_slice()),
            Some(raw_text) => {
                proof {
                    encode_utf8_decode_utf8(raw_text@);
                }
                let text = write_json(&value);
                let lines = lines_of(raw_text);
                rebuild(&lines, text.as_str()).as_str().as_bytes_vec()
            },
        },
    }
}

/// The bytes that are passed on for an event.
pub fn render_sse_event(protocol: StreamProtocol, event: &SseEvent, published_model_name: &str) -> (r:
    Vec<u8>)
    requires
        valid_utf8(event.raw@),
    ensures
        r@ == passed_on(protocol, event@, event_payload(event@), published_model_name@),
{
    let payload = payload_of(event);
    render_payload(protocol, event, payload, published_model_name)
}

/// The state of a stream that is being relayed.
pub struct StreamState {
    pub buffered: Seq<u8>,
    pub queued: Seq<EventData>,
    pub protocol: StreamProtocol,
    pub name: Seq<char>,
    pub captured_usage: Option<Usage>,
    pub terminal_semantic_failure: bool,
    pub finished: bool,
}

/// A stream that is being relayed. The bytes of the upstream are handed to
/// `push`; what it needs next, or passes on, comes from `prime` and
/// `next_body_chunk`.
#[derive(Debug)]
pub struct SseRelay {
    pub reader: SseReader,
    pub queued_events: VecDeque<SseEvent>,
    pub protocol: StreamProtocol,
    pub published_model_name: String,
    /// Usage reported by the last event that reported any.
    pub captured_usage: Option<Usage>,
    /// Whether the stream ended on an event that reports a failed response.
    pub terminal_semantic_failure: bool,
    pub finished: bool,
}

impl View for SseRelay {
    type V = StreamState;

    open spec fn view(&self) -> StreamState {
        StreamState {
            buffered: self.reader.buffered@,
            queued: self.queued_events@.map_values(|event: SseEvent| event@),
            protocol: self.protocol,
            name: self.published_model_name@,
            captured_usage: self.captured_usage,
            terminal_semantic_failure: self.terminal_semantic_failure,
            finished: self.finished,
        }
    }
}

/// Whether an event is the reading of its own bytes.
pub open spec fn event_wf(event: EventData) -> bool {
    valid_utf8(event.raw) && event == event_of(event.raw)
}

/// Whether every event that waits is the reading of its own bytes.
pub open spec fn stream_wf(state: StreamState) -> bool {
    forall|i: int| 0 <= i < state.queued.len() ==> event_wf(#[trigger] state.queued[i])
}

/// What starting a stream asks for next.
pub enum PrimeData {
    /// More bytes of the upstream.
    More,
    /// Another look: an event without data was set aside.
    Again,
    /// The first event with data is valid: the stream can be committed to.
    Primed,
    Failed(ErrorData),
}

/// What starting a stream asks for next.
#[derive(Debug)]
pub enum PrimeStep {
    More,
    Again,
    Primed,
    Failed(RelayError),
}

impl View for PrimeStep {
    type V = PrimeData;

    open spec fn view(&self) -> PrimeData {
        match *self {
            PrimeStep::More => PrimeData::More,
            PrimeStep::Again => PrimeData::Again,
            PrimeStep::Primed => PrimeData::Primed,
            PrimeStep::Failed(error) => PrimeData::Failed(error@),
        }
    }
}

/// What relaying a stream does next.
pub enum ChunkData {
    /// It needs more bytes of the upstream.
    More,
    /// It passes bytes on.
    Chunk(Seq<u8>),
    /// It has passed everything on.
    End,
    Failed(ErrorData),
}

/// What relaying a stream does next.
#[derive(Debug)]
pub enum ChunkStep {
    More,
    Chunk(Vec<u8>),
    End,
    Failed(RelayError),
}

impl View for ChunkStep {
    type V = ChunkData;

    open spec fn view(&self) -> ChunkData {
        match *self {
            ChunkStep::More => ChunkData::More,
            ChunkStep::Chunk(bytes) => ChunkData::Chunk(bytes@),
            ChunkStep::End => ChunkData::End,
            ChunkStep::Failed(error) => ChunkData::Failed(error@),
        }
    }
}

/// Starting a stream: takes one event off the buffer, and sets it aside unless
/// it is not valid.
pub open spec fn primed(state: StreamState) -> (StreamState, PrimeData) {
    match first_event_end(state.buffered) {
        None => (state, PrimeData::More),
        Some(end) => {
            let raw = state.buffered.take(end);
            let rest = StreamState { buffered: state.buffered.skip(end), ..state };
            let event = event_of(raw);
            let kept = StreamState { queued: state.queued.push(event), ..rest };
            if !valid_utf8(raw) {
                (rest, PrimeData::Failed(not_utf8_data()))
            } else if event.data is None {
                (kept, PrimeData::Again)
            } else if valid_event(state.protocol, event, event_payload(event), false) {
                (kept, PrimeData::Primed)
            } else {
                (rest, PrimeData::Failed(bad_start_data()))
            }
        },
    }
}

/// The answer when an event on the way is not one of its protocol.
pub open spec fn bad_event_data() -> ErrorData {
    bad_gateway(
        "upstream SSE stream sent an invalid protocol event"@,
        Some("invalid_upstream_response"@),
    )
}

/// Passing an event on: an invalid one ends the stream with an error; the last
/// one ends it; what it reports of its usage is kept.
pub open spec fn delivered(state: StreamState, event: EventData) -> (StreamState, ChunkData) {
    let payload = event_payload(event);
    if !valid_event(state.protocol, event, payload, true) {
        (
            StreamState { finished: true, queued: Seq::empty(), ..state },
            ChunkData::Failed(bad_event_data()),
        )
    } else {
        let last = terminal_event(state.protocol, event, payload);
        let usage = match payload {
            Some(value) => match reported_usage(state.protocol, value) {
                Some(usage) => Some(usage),
                None => state.captured_usage,
            },
            None => state.captured_usage,
        };
        (
            StreamState {
                finished: last,
                queued: if last {
                    Seq::empty()
                } else {
                    state.queued
                },
                terminal_semantic_failure: state.terminal_semantic_failure || (last
                    && state.protocol == StreamProtocol::Responses && terminal_failure(
                    event,
                    payload,
                )),
                captured_usage: usage,
                ..state
            },
            ChunkData::Chunk(passed_on(state.protocol, event, payload, state.name)),
        )
    }
}

/// Relaying a stream: the next event is the first that waits, else the first
/// in the buffer.
pub open spec fn relayed(state: StreamState) -> (StreamState, ChunkData) {
    if state.finished {
        (state, ChunkData::End)
    } else if state.queued.len() > 0 {
        delivered(StreamState { queued: state.queued.drop_first(), ..state }, state.queued[0])
    } else {
        match first_event_end(state.buffered) {
            None => (state, ChunkData::More),
            Some(end) => {
                let raw = state.buffered.take(end);
                let rest = StreamState { buffered: state.buffered.skip(end), ..state };
                if valid_utf8(raw) {
                    delivered(rest, event_of(raw))
                } else {
                    (rest, ChunkData::Failed(not_utf8_data()))
                }
            },
        }
    }
}

/// A stream of which nothing has come yet.
pub open spec fn stream_begun(protocol: StreamProtocol, name: Seq<char>) -> StreamState {
    StreamState {
        buffered: Seq::empty(),
        queued: Seq::empty(),
        protocol,
        name,
        captured_usage: None,
        terminal_semantic_failure: false,
        finished: false,
    }
}

/// A stream of which more bytes have come.
pub open spec fn with_bytes(state: StreamState, chunk: Seq<u8>) -> StreamState {
    StreamState { buffered: state.buffered + chunk, ..state }
}

/// A stream that passes nothing more on.
pub open spec fn after_end(state: StreamState) -> StreamState {
    StreamState { finished: true, ..state }
}

/// A stream whose reported usage was taken.
pub open spec fn usage_taken(state: StreamState) -> StreamState {
    StreamState { captured_usage: None, ..state }
}

/// What is said of a stream that ended too early: before its first event, or
/// once it was primed before its last.
pub open spec fn ended_early(primed: bool) -> ErrorData {
    bad_gateway(
        if primed {
            "upstream SSE stream ended before its terminal event"@
        } else {
            "upstream SSE stream ended before its first event"@
        },
        Some("invalid_upstream_response"@),
    )
}

impl SseRelay {
    /// A stream of which nothing has come yet.
    pub fn new(protocol: StreamProtocol, published_model_name: String) -> (r: Self)
        ensures
            r@ == stream_begun(protocol, published_model_name@),
            stream_wf(r@),
    {
        let r = SseRelay {
            reader: SseReader::new(),
            queued_events: VecDeque::new(),
            protocol,
            published_model_name,
            captured_usage: None,
            terminal_semantic_failure: false,
            finished: false,
        };
        proof {
            assert(r@.queued =~= Seq::empty());
        }
        r
    }

    /// Takes the next bytes of the upstream.
    pub fn push(&mut self, chunk: &[u8])
        ensures
            final(self)@ == with_bytes(old(self)@, chunk@),
            stream_wf(old(self)@) ==> stream_wf(final(self)@),
    {
        self.reader.push(chunk);
    }

    /// Looks at one event of the start of the stream.
    pub fn prime(&mut self) -> (r: PrimeStep)
        requires
            stream_wf(old(self)@),
        ensures
            (final(self)@, r@) == primed(old(self)@),
            stream_wf(final(self)@),
    {
        let ghost before = self@;
        match self.reader.next_event() {
            Err(error) => PrimeStep::Failed(error),
            Ok(None) => PrimeStep::More,
            Ok(Some(event)) => {
                let protocol_event = event.data.is_some();
                if protocol_event {
                    if let Err(error) = validate_first_sse_event(self.protocol, &event) {
                        return PrimeStep::Failed(error);
                    }
                }
                let ghost event_data = event@;
                self.queued_events.push_back(event);
                proof {
                    assert(self@.queued =~= before.queued.push(event_data));
                }
                if protocol_event {
                    PrimeStep::Primed
                } else {
                    PrimeStep::Again
                }
            },
        }
    }

    /// Passes one event on, or says what is needed for it.
    pub fn next_body_chunk(&mut self) -> (r: ChunkStep)
        requires
            stream_wf(old(self)@),
        ensures
            (final(self)@, r@) == relayed(old(self)@),
            stream_wf(final(self)@),
    {
        let ghost before = self@;
        if self.finished {
            return ChunkStep::End;
        }
        let event = match self.queued_events.pop_front() {
            Some(event) => {
                proof {
                    assert(before.queued[0] == event@);
                    assert(event_wf(before.queued[0]));
                    assert(self@.queued =~= before.queued.drop_first());
                }
                event
            },
            None => match self.reader.next_event() {
                Err(error) => {
                    return ChunkStep::Failed(error);
                },
                Ok(None) => {
                    return ChunkStep::More;
                },
                Ok(Some(event)) => event,
            },
        };
        let ghost rest = self@;
        let payload = payload_of(&event);
        if !judge_event(self.protocol, &event, &payload, true) {
            self.finished = true;
            self.queued_events.clear();
            proof {
                assert(self@.queued =~= Seq::empty());
            }
            return ChunkStep::Failed(
                RelayError::new(
                    502,
                    "upstream SSE stream sent an invalid protocol event",
                    "api_error",
                    None,
                    Some("invalid_upstream_response"),
                ),
            );
        }
        if judge_terminal(self.protocol, &event, &payload) {
            self.finished = true;
            self.queued_events.clear();
            proof {
                assert(self@.queued =~= Seq::empty());
            }
            if self.protocol == StreamProtocol::Responses && judge_terminal_failure(
                &event,
                &payload,
            ) {
                self.terminal_semantic_failure = true;
            }
        }
        let usage = match &payload {
            Some(value) => extract_usage(self.protocol, value),
            None => None,
        };
        if usage.is_some() {
            self.captured_usage = usage;
        }
        let bytes = render_payload(
            self.protocol,
            &event,
            payload,
            self.published_model_name.as_str(),
        );
        ChunkStep::Chunk(bytes)
    }

    /// The end of the upstream before the first event of its stream.
    pub fn ended_unprimed(&self) -> (r: RelayError)
        ensures
            r@ == ended_early(false),
    {
        RelayError::new(
            502,
            "upstream SSE stream ended before its first event",
            "api_error",
            None,
            Some("invalid_upstream_response"),
        )
    }

    /// The end of the upstream before the last event of its stream.
    pub fn ended(&mut self) -> (r: RelayError)
        ensures
            final(self)@ == after_end(old(self)@),
            r@ == ended_early(true),
            stream_wf(old(self)@) ==> stream_wf(final(self)@),
    {
        self.finished = true;
        RelayError::new(
            502,
            "upstream SSE stream ended before its terminal event",
            "api_error",
            None,
            Some("invalid_upstream_response"),
        )
    }

    /// Takes what was reported of the usage.
    pub fn take_usage(&mut self) -> (r: Option<Usage>)
        ensures
            r == old(self)@.captured_usage,
            final(self)@ == usage_taken(old(self)@),
            stream_wf(old(self)@) ==> stream_wf(final(self)@),
    {
        let usage = self.captured_usage;
        self.captured_usage = None;
        usage
    }
}

/// A stream that has finished, by its last event or by one that is not of its
/// protocol, passes nothing more on, whatever the upstream sends.
pub proof fn law_nothing_follows_the_end(state: StreamState, more: Seq<u8>)
    ensures
        relayed(state).0.finished ==> relayed(
            StreamState { buffered: relayed(state).0.buffered + more, ..relayed(state).0 },
        ).1 == ChunkData::End,
{
}

/// What a stream passes on for an event that it holds does not depend on what
/// comes after it.
pub proof fn law_events_stand_alone(state: StreamState, more: Seq<u8>)
    requires
        relayed(state).1 !is More,
    ensures
        relayed(StreamState { buffered: state.buffered + more, ..state }).1 == relayed(state).1,
        relayed(StreamState { buffered: state.buffered + more, ..state }).0 == (StreamState {
            buffered: relayed(state).0.buffered + more,
            ..relayed(state).0
        }),
{
    law_chunks_do_not_move_events(state.buffered, more);
}

/// An event that names the published model, or no model, is passed on byte for
/// byte.
pub proof fn law_own_events_pass_unchanged(
    protocol: StreamProtocol,
    event: EventData,
    name: Seq<char>,
)
    requires
        event_payload(event) matches Some(payload) ==> renamed(protocol, payload, name) is None,
    ensures
        passed_on(protocol, event, event_payload(event), name) == event.raw,
{
}

/// The model that a payload names to the client.
pub open spec fn named_model(protocol: StreamProtocol, payload: JsonData) -> Option<Seq<char>> {
    match protocol {
        StreamProtocol::ChatCompletions => payload.text_member("model"@),
        StreamProtocol::Responses => match payload.member("response"@) {
            Some(response) => response.text_member("model"@),
            None => None,
        },
    }
}

/// A renamed payload names the published model, so that renaming it again
/// changes nothing, and of its other members, and of those of the response in
/// it, none changes.
pub proof fn law_renaming_names_the_published_model(
    protocol: StreamProtocol,
    payload: JsonData,
    name: Seq<char>,
    other: Seq<char>,
)
    requires
        renamed(protocol, payload, name) is Some,
        other != "model"@,
    ensures
        ({
            let after = renamed(protocol, payload, name)->0;
            &&& named_model(protocol, after) == Some(name)
            &&& renamed(protocol, after, name) is None
            &&& match protocol {
                StreamProtocol::ChatCompletions => after.member(other) == payload.member(other),
                StreamProtocol::Responses => after.member("response"@)->0.member(other)
                    == payload.member("response"@)->0.member(other) && (other != "response"@
                    ==> after.member(other) == payload.member(other)),
            }
        }),
{
    let text = JsonData::Text(name);
    match protocol {
        StreamProtocol::ChatCompletions => {
            law_member_set_then_read(payload->Object_0, "model"@, text, other);
        },
        StreamProtocol::Responses => {
            let inner = payload.member("response"@)->0->Object_0;
            law_member_set_then_read(inner, "model"@, text, other);
            law_member_set_then_read(
                payload->Object_0,
                "response"@,
                JsonData::Object(with_member(inner, "model"@, text)),
                other,
            );
        },
    }
}

/// A chunk of a chat completion is valid whatever its choices hold, be they
/// none, one or many, and whatever else stands in it, as the first event of a
/// stream and later.
pub proof fn law_chat_chunks_are_valid(
    event: EventData,
    chunk: JsonData,
    id: Seq<char>,
    created: i64,
    model: Seq<char>,
    choices: Seq<JsonData>,
    allow_chat_done: bool,
)
    requires
        chunk.member("object"@) == Some(JsonData::Text("chat.completion.chunk"@)),
        chunk.member("id"@) == Some(JsonData::Text(id)),
        id.len() > 0,
        chunk.member("created"@) == Some(json_integer(created)),
        chunk.member("model"@) == Some(JsonData::Text(model)),
        model.len() > 0,
        chunk.member("choices"@) == Some(JsonData::Array(choices)),
    ensures
        valid_event(StreamProtocol::ChatCompletions, event, Some(chunk), allow_chat_done),
{
    law_integers_are_read(created, chunk);
}

/// Data of a chat stream that is valid is a chunk of a chat completion with all
/// of its members, or, once the stream has begun, the mark of its end.
pub proof fn law_valid_chat_events(
    event: EventData,
    payload: Option<JsonData>,
    allow_chat_done: bool,
)
    requires
        event.data is Some,
        valid_event(StreamProtocol::ChatCompletions, event, payload, allow_chat_done),
    ensures
        allow_chat_done && event.data == Some("[DONE]"@) || (payload matches Some(chunk)
            && chunk.member("object"@) == Some(JsonData::Text("chat.completion.chunk"@)) && (
        chunk.member("id"@) matches Some(JsonData::Text(id)) && id.len() > 0) && (chunk.member(
            "created"@,
        ) matches Some(JsonData::Number(_))) && (chunk.member("model"@) matches Some(
            JsonData::Text(model),
        ) && model.len() > 0) && (chunk.member("choices"@) matches Some(JsonData::Array(_)))),
{
}

/// The mark of the end is valid once a chat stream has begun, whatever it says
/// as JSON, and a stream that begins with it is refused.
pub proof fn law_the_end_of_a_chat_stream(event: EventData, payload: Option<JsonData>)
    requires
        event.data == Some("[DONE]"@),
    ensures
        valid_event(StreamProtocol::ChatCompletions, event, payload, true),
        payload is None ==> !valid_event(StreamProtocol::ChatCompletions, event, payload, false),
        terminal_event(StreamProtocol::ChatCompletions, event, payload),
{
}

/// Only the mark of the end ends a chat stream.
pub proof fn law_chat_streams_go_on(event: EventData, payload: Option<JsonData>)
    requires
        event.data != Some("[DONE]"@),
    ensures
        !terminal_event(StreamProtocol::ChatCompletions, event, payload),
{
}

/// An event of a response is valid whatever its kind, if its type begins with
/// `response.` and its data names the same type; nothing else is.
pub proof fn law_response_events(
    event: EventData,
    payload: Option<JsonData>,
    kind: Seq<char>,
    allow_chat_done: bool,
)
    requires
        event.data is Some,
    ensures
        event.event_type == Some("response."@ + kind) && (payload matches Some(value)
            && value.member("type"@) == Some(JsonData::Text("response."@ + kind))) ==> valid_event(
            StreamProtocol::Responses,
            event,
            payload,
            allow_chat_done,
        ),
        valid_event(StreamProtocol::Responses, event, payload, allow_chat_done) ==> (
        event.event_type matches Some(event_type) && event_type.len() >= 9 && event_type.take(9)
            == "response."@ && (payload matches Some(value) && value.member("type"@) == Some(
            JsonData::Text(event_type),
        ))),
{
    law_prefixes_and_suffixes("response."@, kind, kind);
    reveal_strlit("response.");
    assert("response."@.len() == 9);
}

/// A response ends when it was completed, failed or cut short, and with no other
/// event.
pub proof fn law_the_end_of_a_response(event: EventData, payload: Option<JsonData>)
    ensures
        (event.event_type == Some("response.completed"@) || event.event_type == Some(
            "response.failed"@,
        ) || event.event_type == Some("response.incomplete"@)) && valid_event(
            StreamProtocol::Responses,
            event,
            payload,
            true,
        ) ==> terminal_event(StreamProtocol::Responses, event, payload),
        terminal_event(StreamProtocol::Responses, event, payload) ==> (event.event_type == Some(
            "response.completed"@,
        ) || event.event_type == Some("response.failed"@) || event.event_type == Some(
            "response.incomplete"@,
        )) && (event.data is Some ==> (payload matches Some(value) && value.member("type"@)
            == Some(JsonData::Text(event.event_type->0)))),
{
}

/// An event without data, such as a comment that keeps a connection alive, is
/// valid in any stream, and ends no chat stream.
pub proof fn law_events_without_data_are_valid(
    protocol: StreamProtocol,
    event: EventData,
    payload: Option<JsonData>,
    allow_chat_done: bool,
)
    requires
        event.data is None,
    ensures
        valid_event(protocol, event, payload, allow_chat_done),
        !terminal_event(StreamProtocol::ChatCompletions, event, payload),
{
}

/// A response failed that ends with the event of a failure, that reports a
/// failed or cancelled status, its own or that of the response in it, or that
/// carries an error. One that ends otherwise did not fail.
pub proof fn law_failed_ends(event: EventData, payload: Option<JsonData>, response: JsonData)
    ensures
        event.event_type == Some("response.failed"@) ==> terminal_failure(event, payload),
        payload matches Some(value) ==> {
            let own = value.member("status"@);
            let inner = response.member("status"@);
            &&& own == Some(JsonData::Text("failed"@)) || own == Some(JsonData::Text("cancelled"@))
                ==> terminal_failure(event, payload)
            &&& value.member("response"@) == Some(response) && (inner == Some(
                JsonData::Text("failed"@),
            ) || inner == Some(JsonData::Text("cancelled"@))) ==> terminal_failure(event, payload)
            &&& value.member("error"@) is Some && value.member("error"@) != Some(JsonData::Null)
                ==> terminal_failure(event, payload)
            &&& event.event_type != Some("response.failed"@) && (own is None || own == Some(
                JsonData::Text("completed"@),
            ) || own == Some(JsonData::Text("incomplete"@))) && value.member("response"@) == Some(
                response,
            ) && (inner is None || inner == Some(JsonData::Text("completed"@)) || inner == Some(
                JsonData::Text("incomplete"@),
            )) && (value.member("error"@) is None || value.member("error"@) == Some(JsonData::Null))
                ==> !terminal_failure(event, payload)
        },
        payload is None && event.event_type != Some("response.failed"@) ==> !terminal_failure(
            event,
            payload,
        ),
{
    lemma_statuses();
}

/// A payload that names another model is renamed: in a chat chunk the model it
/// names, in an event of a response the model that the response in it names.
pub proof fn law_foreign_models_are_renamed(
    payload: JsonData,
    response: JsonData,
    model: Seq<char>,
    name: Seq<char>,
)
    requires
        model != name,
    ensures
        payload.member("model"@) == Some(JsonData::Text(model)) ==> (renamed(
            StreamProtocol::ChatCompletions,
            payload,
            name,
        ) matches Some(after) && after.member("model"@) == Some(JsonData::Text(name))),
        payload.member("response"@) == Some(response) && response.member("model"@) == Some(
            JsonData::Text(model),
        ) ==> (renamed(StreamProtocol::Responses, payload, name) matches Some(after)
            && after.member("response"@) is Some && after.member("response"@)->0.member("model"@)
            == Some(JsonData::Text(name))),
{
    let text = JsonData::Text(name);
    if payload.member("model"@) == Some(JsonData::Text(model)) {
        law_member_set_then_read(payload->Object_0, "model"@, text, "model"@);
    }
    if payload.member("response"@) == Some(response) && response.member("model"@) == Some(
        JsonData::Text(model),
    ) {
        law_member_set_then_read(response->Object_0, "model"@, text, "model"@);
        law_member_set_then_read(
            payload->Object_0,
            "response"@,
            JsonData::Object(with_member(response->Object_0, "model"@, text)),
            "response"@,
        );
    }
}

/// A payload that names no model, or the published one, is not renamed.
pub proof fn law_other_payloads_are_left(payload: JsonData, name: Seq<char>)
    ensures
        payload.member("model"@) is None || payload.member("model"@) == Some(JsonData::Text(name))
            ==> renamed(StreamProtocol::ChatCompletions, payload, name) is None,
        payload.member("response"@) is None || payload.member("response"@)->0.member("model"@)
            is None || payload.member("response"@)->0.member("model"@) == Some(JsonData::Text(name))
            ==> renamed(StreamProtocol::Responses, payload, name) is None,
{
}

/// Lines, each ended by a line feed.
pub open spec fn ended_lines(lines: Seq<Seq<char>>) -> Seq<char>
    decreases lines.len(),
{
    if lines.len() == 0 {
        Seq::empty()
    } else {
        ended_lines(lines.drop_last()) + lines.last() + seq!['\n']
    }
}

/// An event with a new payload keeps its other lines where they are: the payload
/// stands on one data line in the place of the first, and further data lines,
/// and blank ones, are gone.
pub proof fn law_rewritten_events_keep_their_lines(
    before: Seq<Seq<char>>,
    line: Seq<char>,
    after: Seq<Seq<char>>,
    payload: Seq<char>,
)
    requires
        data_line(line),
        forall|i: int|
            0 <= i < before.len() ==> !data_line(#[trigger] before[i]) && before[i].len() > 0,
        forall|i: int|
            0 <= i < after.len() ==> !data_line(#[trigger] after[i]) && after[i].len() > 0,
    ensures
        rebuilt_lines(before, payload) == ended_lines(before),
        rebuilt_lines(before.push(line) + after, payload) == ended_lines(before) + "data: "@
            + payload + seq!['\n'] + ended_lines(after),
        rebuilt_lines((before.push(line) + after).push(line), payload) == ended_lines(before)
            + "data: "@ + payload + seq!['\n'] + ended_lines(after),
        rebuilt_lines((before.push(line) + after).push(Seq::empty()), payload) == ended_lines(
            before,
        ) + "data: "@ + payload + seq!['\n'] + ended_lines(after),
    decreases before.len() + after.len(),
{
    let all = before.push(line) + after;
    lemma_lines_without_data(before, payload);
    assert(has_data_line(all)) by {
        assert(all[before.len() as int] == line);
    }
    assert(!has_data_line(before));
    if after.len() > 0 {
        let front = after.drop_last();
        assert forall|i: int| 0 <= i < front.len() implies !data_line(#[trigger] front[i])
            && front[i].len() > 0 by {
            assert(front[i] == after[i]);
        }
        law_rewritten_events_keep_their_lines(before, line, front, payload);
        assert(all.drop_last() =~= before.push(line) + front);
        assert(all.last() == after[after.len() - 1]);
        assert(rebuilt_lines(all, payload) =~= ended_lines(before) + "data: "@ + payload
            + seq!['\n'] + ended_lines(after));
    } else {
        assert(all =~= before.push(line));
        assert(all.drop_last() =~= before);
        assert(rebuilt_lines(all, payload) =~= ended_lines(before) + "data: "@ + payload
            + seq!['\n'] + ended_lines(after));
    }
    assert(all.push(line).drop_last() =~= all);
    let blank = Seq::<char>::empty();
    assert(all.push(blank).drop_last() =~= all);
    assert(!data_line(blank)) by {
        reveal_strlit("data");
        reveal_strlit("data:");
        assert("data"@.len() == 4 && "data:"@.len() == 5);
    }
}

/// Lines without data are kept.
proof fn lemma_lines_without_data(lines: Seq<Seq<char>>, payload: Seq<char>)
    requires
        forall|i: int| 0 <= i < lines.len() ==> !data_line(#[trigger] lines[i]) && lines[i].len() > 0,
    ensures
        rebuilt_lines(lines, payload) == ended_lines(lines),
    decreases lines.len(),
{
    if lines.len() > 0 {
        let front = lines.drop_last();
        assert forall|i: int| 0 <= i < front.len() implies !data_line(#[trigger] front[i])
            && front[i].len() > 0 by {
            assert(front[i] == lines[i]);
        }
        assert(!data_line(lines[lines.len() - 1]));
        lemma_lines_without_data(front, payload);
    }
}

/// The lines that carry data are the data fields, and no others.
pub proof fn law_data_lines(value: Seq<char>, line: Seq<char>)
    ensures
        data_line("data:"@ + value),
        data_line("data"@),
        data_line(line) ==> line == "data"@ || (line.len() >= 5 && line.take(5) == "data:"@),
{
    law_prefixes_and_suffixes("data:"@, value, value);
    reveal_strlit("data:");
    assert("data:"@.len() == 5);
}

/// A renamed event is passed on as its lines with the new payload as one data
/// line, ended by a blank line.
pub proof fn law_renamed_events_are_rewritten(
    protocol: StreamProtocol,
    event: EventData,
    payload: JsonData,
    name: Seq<char>,
)
    requires
        renamed(protocol, payload, name) is Some,
    ensures
        passed_on(protocol, event, Some(payload), name) == encode_utf8(
            rebuilt_lines(
                event_lines(decode_utf8(event.raw)),
                json_text(renamed(protocol, payload, name)->0),
            ) + seq!['\n'],
        ),
{
    let text = rebuilt_lines(
        event_lines(decode_utf8(event.raw)),
        json_text(renamed(protocol, payload, name)->0),
    );
    assert(text.push('\n') =~= text + seq!['\n']);
}

/// A stream begins with its first event that has data: where that is valid the
/// stream can be committed to and the event waits to be passed on, behind the
/// events without data that came before it; where it is not, nothing is
/// committed to.
pub proof fn law_streams_begin_with_a_valid_event(state: StreamState, end: int)
    requires
        first_event_end(state.buffered) == Some(end),
        valid_utf8(state.buffered.take(end)),
    ensures
        ({
            let event = event_of(state.buffered.take(end));
            let (after, step) = primed(state);
            &&& after.buffered == state.buffered.skip(end)
            &&& after.protocol == state.protocol && after.name == state.name && after.finished
                == state.finished && after.captured_usage == state.captured_usage
            &&& event.data is None ==> step == PrimeData::Again && after.queued
                == state.queued.push(event)
            &&& event.data is Some && valid_event(
                state.protocol,
                event,
                event_payload(event),
                false,
            ) ==> step == PrimeData::Primed && after.queued == state.queued.push(event)
            &&& event.data is Some && !valid_event(
                state.protocol,
                event,
                event_payload(event),
                false,
            ) ==> (step matches PrimeData::Failed(error) && error.status == 502) && after.queued
                == state.queued
        }),
{
}

/// A stream that holds no whole event asks for more, and changes nothing.
pub proof fn law_streams_wait_for_whole_events(state: StreamState)
    requires
        first_event_end(state.buffered) is None,
    ensures
        primed(state) == (state, PrimeData::More),
        !state.finished && state.queued.len() == 0 ==> relayed(state) == (state, ChunkData::More),
{
}

/// Every valid event is passed on, in the order the events came: those that wait
/// first, then those in the buffer. The stream goes on unless the event is its
/// last, and what it says of the call's usage takes the place of what was said
/// before.
pub proof fn law_valid_events_are_passed_on(state: StreamState, end: int)
    requires
        !state.finished,
        state.queued.len() == 0 ==> first_event_end(state.buffered) == Some(end) && valid_utf8(
            state.buffered.take(end),
        ),
    ensures
        ({
            let event = if state.queued.len() > 0 {
                state.queued[0]
            } else {
                event_of(state.buffered.take(end))
            };
            let payload = event_payload(event);
            let (after, step) = relayed(state);
            &&& valid_event(state.protocol, event, payload, true) ==> {
                &&& step == ChunkData::Chunk(passed_on(state.protocol, event, payload, state.name))
                &&& after.finished == terminal_event(state.protocol, event, payload)
                &&& !after.finished ==> after.queued == if state.queued.len() > 0 {
                    state.queued.drop_first()
                } else {
                    state.queued
                }
                &&& payload is Some && reported_usage(state.protocol, payload->0) is Some
                    ==> after.captured_usage == reported_usage(state.protocol, payload->0)
                &&& payload is None || reported_usage(state.protocol, payload->0) is None
                    ==> after.captured_usage == state.captured_usage
                &&& after.terminal_semantic_failure == (state.terminal_semantic_failure || (
                after.finished && state.protocol == StreamProtocol::Responses && terminal_failure(
                    event,
                    payload,
                )))
            }
            &&& !valid_event(state.protocol, event, payload, true) ==> (
            step matches ChunkData::Failed(error) && error.status == 502) && after.finished
                && after.captured_usage == state.captured_usage
            &&& after.protocol == state.protocol && after.name == state.name
            &&& after.buffered == if state.queued.len() > 0 {
                state.buffered
            } else {
                state.buffered.skip(end)
            }
        }),
{
}

/// A content type is that of an event stream whatever parameters follow it.
pub proof fn law_event_streams_are_known(parameters: Seq<char>, other: Seq<char>)
    requires
        other.len() != 17,
        !other.contains(';'),
    ensures
        same_letters(media_type("text/event-stream"@), "text/event-stream"@),
        same_letters(
            media_type("text/event-stream"@ + seq![';'] + parameters),
            "text/event-stream"@,
        ),
        trimmed(other) == other ==> !same_letters(media_type(other), "text/event-stream"@),
{
    reveal_strlit("text/event-stream");
    let kind = "text/event-stream"@;
    assert(kind.len() == 17);
    assert(kind[0] == 't' && kind[16] == 'm');
    assert forall|k: int| 0 <= k < kind.len() implies #[trigger] kind[k] != ';' by {}
    let full = kind + seq![';'] + parameters;
    assert forall|k: int| 0 <= k < 17 implies #[trigger] full[k] != ';' by {
        assert(full[k] == kind[k]);
    }
    assert(full[17] == ';');
    lemma_first_index(full, ';', 17);
    lemma_first_index(kind, ';', 17);
    assert(full.take(17) =~= kind);
    crate::decimal::lemma_nothing_to_trim(kind);
    law_first_place_of_a_character(other, ';');
    if let Some(i) = first_index(other, ';') {
        assert(other.contains(other[i]));
    }
}

/// Letters differ from their other case, and only from that, in nothing.
pub proof fn law_letter_case(a: char, b: char)
    ensures
        same_letter(a, a),
        same_letter(a, b) == same_letter(b, a),
        same_letter('T', 't'),
        same_letter(a, b) && a != b ==> ascii_letter(a) && ascii_letter(b),
        !('a' <= a <= 'z') && !('A' <= a <= 'Z') && same_letter(a, b) ==> a == b,
{
}

/// A stream begins with nothing seen, nothing reported and nothing ended; its
/// bytes come in order; its usage is handed out once; once ended it stays so.
pub proof fn law_streams_are_kept(
    state: StreamState,
    protocol: StreamProtocol,
    name: Seq<char>,
    chunk: Seq<u8>,
    more: Seq<u8>,
)
    ensures
        stream_begun(protocol, name).buffered.len() == 0,
        stream_begun(protocol, name).queued.len() == 0,
        stream_begun(protocol, name).protocol == protocol,
        stream_begun(protocol, name).name == name,
        stream_begun(protocol, name).captured_usage is None,
        !stream_begun(protocol, name).terminal_semantic_failure,
        !stream_begun(protocol, name).finished,
        with_bytes(with_bytes(state, chunk), more) == with_bytes(state, chunk + more),
        with_bytes(state, chunk).buffered.take(state.buffered.len() as int) == state.buffered,
        with_bytes(state, chunk).buffered.skip(state.buffered.len() as int) == chunk,
        with_bytes(state, chunk).finished == state.finished,
        with_bytes(state, chunk).queued == state.queued,
        with_bytes(state, chunk).captured_usage == state.captured_usage,
        with_bytes(state, chunk).name == state.name,
        after_end(state).finished,
        after_end(state).captured_usage == state.captured_usage,
        after_end(state).buffered == state.buffered,
        usage_taken(state).captured_usage is None,
        usage_taken(state).finished == state.finished,
        usage_taken(state).buffered == state.buffered && usage_taken(state).queued == state.queued,
        usage_taken(state).terminal_semantic_failure == state.terminal_semantic_failure,
{
    assert(with_bytes(with_bytes(state, chunk), more).buffered =~= with_bytes(
        state,
        chunk + more,
    ).buffered);
}

/// A stream that ends too early is the upstream's fault, and what is said of it
/// tells whether its first event had come.
pub proof fn law_early_ends_are_told_apart(primed: bool)
    ensures
        ended_early(primed).status == 502,
        ended_early(primed).error_type == "api_error"@,
        ended_early(primed).code == Some("invalid_upstream_response"@),
        ended_early(primed).param is None,
        primed ==> ended_early(primed).message
            == "upstream SSE stream ended before its terminal event"@,
        !primed ==> ended_early(primed).message
            == "upstream SSE stream ended before its first event"@,
{
}

} // verus!
