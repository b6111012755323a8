//! The JSON that answers, listings and events are written in.

use crate::admin::{AdminError, AnswerData};
use crate::errors::{ErrorData, RelayError};
use crate::json::{
    distinct_names, json_data, json_text, json_wf, law_objects_have_their_members, write_json, Json, JsonData,
    JsonNumber,
    NumberData,
};
use vstd::prelude::*;
use vstd::string::*;

verus! {

/// A text, or null where there is none.
pub open spec fn text_or_null(text: Option<Seq<char>>) -> JsonData {
    match text {
        Some(t) => JsonData::Text(t),
        None => JsonData::Null,
    }
}

/// A text, or null where there is none.
fn text_value(text: Option<&str>) -> (r: Json)
    ensures
        r@ == text_or_null(
            match text {
                Some(t) => Some(t@),
                None => None,
            },
        ),
{
    match text {
        Some(t) => Json::Text(t.to_owned()),
        None => Json::Null,
    }
}

/// The body of an error answer to a relay client.
pub open spec fn relay_error_body(error: ErrorData) -> JsonData {
    JsonData::Object(
        seq![
            (
                "error"@,
                JsonData::Object(
                    seq![
                        ("message"@, JsonData::Text(error.message)),
                        ("type"@, JsonData::Text(error.error_type)),
                        ("param"@, text_or_null(error.param)),
                        ("code"@, text_or_null(error.code)),
                    ],
                ),
            ),
        ],
    )
}

/// The body of an error answer to the administrator.
pub open spec fn admin_error_body(error: AnswerData) -> JsonData {
    let message = ("message"@, JsonData::Text(error.message));
    JsonData::Object(
        seq![
            (
                "error"@,
                JsonData::Object(
                    match error.field {
                        None => seq![message],
                        Some(field) => seq![
                            message,
                            (
                                "fields"@,
                                JsonData::Object(
                                    seq![(field, JsonData::Text(error.message))],
                                ),
                            ),
                        ],
                    },
                ),
            ),
        ],
    )
}

/// An object with one member.
fn single(name: &str, value: Json) -> (r: Json)
    ensures
        r@ == JsonData::Object(seq![(name@, value@)]),
{
    let mut members: Vec<(String, Json)> = Vec::new();
    members.push((name.to_owned(), value));
    let r = Json::Object(members);
    proof {
        assert(r@->Object_0 =~= seq![(name@, value@)]);
    }
    r
}

/// The names in an error are told apart.
proof fn lemma_error_names()
    ensures
        "message"@ != "type"@,
        "message"@ != "param"@,
        "message"@ != "code"@,
        "type"@ != "param"@,
        "type"@ != "code"@,
        "param"@ != "code"@,
        "message"@ != "fields"@,
{
    reveal_strlit("message");
    reveal_strlit("type");
    reveal_strlit("param");
    reveal_strlit("code");
    reveal_strlit("fields");
    assert("message"@.len() == 7 && "type"@.len() == 4 && "param"@.len() == 5 && "code"@.len() == 4
        && "fields"@.len() == 6);
    assert("type"@[0] == 't' && "code"@[0] == 'c');
}

impl RelayError {
    /// The body of the answer.
    pub fn body(&self) -> (r: Json)
        ensures
            r@ == relay_error_body(self@),
            json_wf(r@),
    {
        let mut members: Vec<(String, Json)> = Vec::new();
        members.push(("message".to_owned(), Json::Text(self.message.to_owned())));
        members.push(("type".to_owned(), Json::Text(self.error_type.to_owned())));
        members.push(("param".to_owned(), text_value(self.param)));
        members.push(("code".to_owned(), text_value(self.code)));
        let inner = Json::Object(members);
        let r = single("error", inner);
        proof {
            reveal_with_fuel(json_data, 2);
            reveal_with_fuel(json_wf, 3);
            let expected = relay_error_body(self@)->Object_0[0].1;
            assert(inner@->Object_0 =~= expected->Object_0);
            lemma_error_names();
            assert(distinct_names(inner@->Object_0));
            assert(json_wf(inner@));
            assert(r@->Object_0[0].1 == inner@);
            assert(distinct_names(r@->Object_0));
        }
        r
    }
}

impl AdminError {
    /// The body of the answer.
    pub fn body(&self) -> (r: Json)
        ensures
            r@ == admin_error_body(self@),
            json_wf(r@),
    {
        let mut members: Vec<(String, Json)> = Vec::new();
        members.push(("message".to_owned(), Json::Text(self.message.clone())));
        match self.field {
            Some(field) => {
                let fields = single(field, Json::Text(self.message.clone()));
                members.push(("fields".to_owned(), fields));
            },
            None => {},
        }
        let inner = Json::Object(members);
        let r = single("error", inner);
        proof {
            reveal_with_fuel(json_data, 3);
            reveal_with_fuel(json_wf, 3);
            let expected = admin_error_body(self@)->Object_0[0].1;
            assert(inner@->Object_0 =~= expected->Object_0);
            lemma_error_names();
            assert(distinct_names(inner@->Object_0));
            if self.field is Some {
                assert(json_wf(inner@->Object_0[1].1));
            }
            assert(json_wf(inner@));
            assert(r@->Object_0[0].1 == inner@);
            assert(distinct_names(r@->Object_0));
        }
        r
    }
}

/// A model as relay clients see it.
pub open spec fn listed_model(name: Seq<char>) -> JsonData {
    JsonData::Object(
        seq![
            ("id"@, JsonData::Text(name)),
            ("object"@, JsonData::Text("model"@)),
            ("created"@, JsonData::Number(NumberData::Unsigned(0))),
            ("owned_by"@, JsonData::Text("local-api-relay"@)),
        ],
    )
}

/// The models as relay clients see them.
pub open spec fn models_body(names: Seq<Seq<char>>) -> JsonData {
    JsonData::Object(
        seq![
            ("object"@, JsonData::Text("list"@)),
            ("data"@, JsonData::Array(names.map_values(|name: Seq<char>| listed_model(name)))),
        ],
    )
}

/// The names in a list of models are told apart.
proof fn lemma_listing_names()
    ensures
        "id"@ != "object"@,
        "id"@ != "created"@,
        "id"@ != "owned_by"@,
        "object"@ != "created"@,
        "object"@ != "owned_by"@,
        "created"@ != "owned_by"@,
        "object"@ != "data"@,
{
    reveal_strlit("id");
    reveal_strlit("object");
    reveal_strlit("created");
    reveal_strlit("owned_by");
    reveal_strlit("data");
    assert("id"@.len() == 2 && "object"@.len() == 6 && "created"@.len() == 7 && "owned_by"@.len()
        == 8 && "data"@.len() == 4);
}

/// A model as relay clients see it.
fn model_value(name: &str) -> (r: Json)
    ensures
        r@ == listed_model(name@),
        json_wf(r@),
{
    let mut members: Vec<(String, Json)> = Vec::new();
    members.push(("id".to_owned(), Json::Text(name.to_owned())));
    members.push(("object".to_owned(), Json::Text("model".to_owned())));
    members.push(("created".to_owned(), Json::Number(JsonNumber::Unsigned(0))));
    members.push(("owned_by".to_owned(), Json::Text("local-api-relay".to_owned())));
    let r = Json::Object(members);
    proof {
        reveal_with_fuel(json_data, 2);
        reveal_with_fuel(json_wf, 2);
        assert(r@->Object_0 =~= listed_model(name@)->Object_0);
        lemma_listing_names();
        assert(distinct_names(r@->Object_0));
    }
    r
}

/// The models as relay clients see them.
pub fn models_response(names: &Vec<String>) -> (r: Json)
    ensures
        r@ == models_body(names@.map_values(|name: String| name@)),
        json_wf(r@),
{
    let mut data: Vec<Json> = Vec::new();
    for i in 0..names.len()
        invariant
            data@.len() == i,
            forall|k: int|
                0 <= k < i ==> (#[trigger] data@[k])@ == listed_model(names@[k]@) && json_wf(
                    data@[k]@,
                ),
    {
        data.push(model_value(names[i].as_str()));
    }
    let list = Json::Array(data);
    let mut members: Vec<(String, Json)> = Vec::new();
    members.push(("object".to_owned(), Json::Text("list".to_owned())));
    members.push(("data".to_owned(), list));
    let r = Json::Object(members);
    proof {
        let texts = names@.map_values(|name: String| name@);
        let expected = JsonData::Array(texts.map_values(|name: Seq<char>| listed_model(name)));
        assert(list@->Array_0 =~= expected->Array_0);
        assert forall|i: int| 0 <= i < list@->Array_0.len() implies json_wf(
            #[trigger] list@->Array_0[i],
        ) by {
            assert(list@->Array_0[i] == data@[i]@);
        }
        assert(json_wf(list@));
        lemma_listing_names();
        reveal_with_fuel(json_data, 2);
        assert(r@->Object_0[0].1 == JsonData::Text("list"@));
        assert(r@->Object_0[1].1 == list@);
        assert(r@->Object_0 =~= models_body(texts)->Object_0);
        assert(distinct_names(r@->Object_0));
        assert(json_wf(r@->Object_0[0].1) && json_wf(r@->Object_0[1].1));
    }
    r
}

/// An operational event as it is logged.
pub open spec fn event_envelope(
    ts: i64,
    severity: Seq<char>,
    code: Seq<char>,
    version: Seq<char>,
    section: Seq<char>,
    correlation_id: Option<Seq<char>>,
    payload: JsonData,
) -> JsonData {
    JsonData::Object(
        seq![
            (
                "ts"@,
                JsonData::Number(
                    if ts < 0 {
                        NumberData::Negative(ts)
                    } else {
                        NumberData::Unsigned(ts as u64)
                    },
                ),
            ),
            ("severity"@, JsonData::Text(severity)),
            ("event"@, JsonData::Text(code)),
            ("version"@, JsonData::Text(version)),
            ("section"@, JsonData::Text(section)),
            ("correlation"@, text_or_null(correlation_id)),
            ("payload"@, payload),
        ],
    )
}

/// The names in an event are told apart.
proof fn lemma_event_names()
    ensures
        "ts"@.len() == 2,
        "severity"@.len() == 8 && "severity"@[1] == 'e',
        "event"@.len() == 5,
        "version"@.len() == 7 && "version"@[0] == 'v',
        "section"@.len() == 7 && "section"@[0] == 's',
        "correlation"@.len() == 11,
        "payload"@.len() == 7 && "payload"@[0] == 'p',
{
    reveal_strlit("ts");
    reveal_strlit("severity");
    reveal_strlit("event");
    reveal_strlit("version");
    reveal_strlit("section");
    reveal_strlit("correlation");
    reveal_strlit("payload");
}

/// An operational event as one line of JSON.
pub fn event_line(
    ts: i64,
    section: &str,
    severity: &str,
    code: &str,
    version: &str,
    correlation_id: Option<&str>,
    payload: Json,
) -> (r: String)
    requires
        json_wf(payload@),
    ensures
        r@ == json_text(
            event_envelope(
                ts,
                severity@,
                code@,
                version@,
                section@,
                match correlation_id {
                    Some(id) => Some(id@),
                    None => None,
                },
                payload@,
            ),
        ),
{
    let ghost payload_data = payload@;
    let number = if ts < 0 {
        JsonNumber::Negative(ts)
    } else {
        JsonNumber::Unsigned(ts as u64)
    };
    let correlation = text_value(correlation_id);
    let ghost correlation_data = correlation@;
    let mut members: Vec<(String, Json)> = Vec::new();
    members.push(("ts".to_owned(), Json::Number(number)));
    members.push(("severity".to_owned(), Json::Text(severity.to_owned())));
    members.push(("event".to_owned(), Json::Text(code.to_owned())));
    members.push(("version".to_owned(), Json::Text(version.to_owned())));
    members.push(("section".to_owned(), Json::Text(section.to_owned())));
    members.push(("correlation".to_owned(), correlation));
    members.push(("payload".to_owned(), payload));
    let envelope = Json::Object(members);
    proof {
        let expected = event_envelope(
            ts,
            severity@,
            code@,
            version@,
            section@,
            match correlation_id {
                Some(id) => Some(id@),
                None => None,
            },
            payload_data,
        );
        let held = envelope@->Object_0;
        reveal_with_fuel(json_data, 2);
        assert(held[6].1 == payload_data);
        assert(held[5].1 == correlation_data);
        assert(held =~= expected->Object_0);
        lemma_event_names();
        assert(distinct_names(held));
        assert forall|i: int| 0 <= i < held.len() implies json_wf((#[trigger] held[i]).1) by {
            if i == 6 {
                assert(held[i].1 == payload_data);
            } else if i == 5 {
                assert(held[i].1 == correlation_data);
            }
        }
        assert(json_wf(envelope@));
    }
    write_json(&envelope)
}

/// The first member under a name, at `i`; none where `i` is the end.
proof fn lemma_member_at(members: Seq<(Seq<char>, JsonData)>, key: Seq<char>, i: int)
    requires
        0 <= i <= members.len(),
        forall|k: int| 0 <= k < i ==> (#[trigger] members[k]).0 != key,
        i < members.len() ==> members[i].0 == key,
    ensures
        JsonData::Object(members).member(key) == if i < members.len() {
            Some(members[i].1)
        } else {
            None
        },
{
    let head = members.take(i);
    if i < members.len() {
        let tail = members.skip(i + 1);
        law_objects_have_their_members(head, key, members[i].1, tail, JsonData::Null);
        assert(head + seq![(key, members[i].1)] + tail =~= members);
    } else {
        law_objects_have_their_members(
            head,
            key,
            JsonData::Null,
            Seq::empty(),
            JsonData::Null,
        );
        assert(head =~= members);
    }
}

/// An error answer to a client carries its message, type, parameter and code
/// under `error`, null where there is none.
pub proof fn law_relay_errors_are_written(error: ErrorData)
    ensures
        relay_error_body(error).member("error"@) matches Some(inner) && {
            &&& inner.member("message"@) == Some(JsonData::Text(error.message))
            &&& inner.member("type"@) == Some(JsonData::Text(error.error_type))
            &&& error.param matches Some(param) ==> inner.member("param"@) == Some(
                JsonData::Text(param),
            )
            &&& error.param is None ==> inner.member("param"@) == Some(JsonData::Null)
            &&& error.code matches Some(code) ==> inner.member("code"@) == Some(
                JsonData::Text(code),
            )
            &&& error.code is None ==> inner.member("code"@) == Some(JsonData::Null)
        },
{
    lemma_error_names();
    let body = relay_error_body(error);
    let members = body->Object_0;
    lemma_member_at(members, "error"@, 0);
    let inner = members[0].1->Object_0;
    lemma_member_at(inner, "message"@, 0);
    lemma_member_at(inner, "type"@, 1);
    lemma_member_at(inner, "param"@, 2);
    lemma_member_at(inner, "code"@, 3);
}

/// An error answer to the administrator carries its message under `error`, and
/// once more under the field that it is laid to.
pub proof fn law_admin_errors_are_written(error: AnswerData)
    ensures
        admin_error_body(error).member("error"@) matches Some(inner) && {
            &&& inner.member("message"@) == Some(JsonData::Text(error.message))
            &&& error.field is None ==> inner.member("fields"@) is None
            &&& error.field matches Some(field) ==> (inner.member("fields"@) matches Some(fields)
                && fields.member(field) == Some(JsonData::Text(error.message)))
        },
{
    lemma_error_names();
    let members = admin_error_body(error)->Object_0;
    lemma_member_at(members, "error"@, 0);
    let inner = members[0].1->Object_0;
    lemma_member_at(inner, "message"@, 0);
    match error.field {
        Some(field) => {
            lemma_member_at(inner, "fields"@, 1);
            lemma_member_at(inner[1].1->Object_0, field, 0);
        },
        None => {
            lemma_member_at(inner, "fields"@, 1);
        },
    }
}

/// The list of models has one entry for each name, in their order, under its
/// id.
pub proof fn law_models_are_written(names: Seq<Seq<char>>, i: int)
    requires
        0 <= i < names.len(),
    ensures
        models_body(names).member("object"@) == Some(JsonData::Text("list"@)),
        models_body(names).member("data"@) matches Some(JsonData::Array(data)) && {
            &&& data.len() == names.len()
            &&& data[i].member("id"@) == Some(JsonData::Text(names[i]))
            &&& data[i].member("object"@) == Some(JsonData::Text("model"@))
            &&& data[i].member("created"@) == Some(JsonData::Number(NumberData::Unsigned(0)))
            &&& data[i].member("owned_by"@) == Some(JsonData::Text("local-api-relay"@))
        },
{
    lemma_listing_names();
    let members = models_body(names)->Object_0;
    lemma_member_at(members, "object"@, 0);
    lemma_member_at(members, "data"@, 1);
    let model = listed_model(names[i])->Object_0;
    lemma_member_at(model, "id"@, 0);
    lemma_member_at(model, "object"@, 1);
    lemma_member_at(model, "created"@, 2);
    lemma_member_at(model, "owned_by"@, 3);
}

/// An event carries its time, severity, code, version, section, correlation and
/// payload, each under its name.
pub proof fn law_events_are_written(
    ts: i64,
    severity: Seq<char>,
    code: Seq<char>,
    version: Seq<char>,
    section: Seq<char>,
    correlation_id: Option<Seq<char>>,
    payload: JsonData,
)
    ensures
        ({
            let event = event_envelope(
                ts,
                severity,
                code,
                version,
                section,
                correlation_id,
                payload,
            );
            &&& ts >= 0 ==> event.member("ts"@) == Some(
                JsonData::Number(NumberData::Unsigned(ts as u64)),
            )
            &&& ts < 0 ==> event.member("ts"@) == Some(JsonData::Number(NumberData::Negative(ts)))
            &&& event.member("severity"@) == Some(JsonData::Text(severity))
            &&& event.member("event"@) == Some(JsonData::Text(code))
            &&& event.member("version"@) == Some(JsonData::Text(version))
            &&& event.member("section"@) == Some(JsonData::Text(section))
            &&& correlation_id is None ==> event.member("correlation"@) == Some(JsonData::Null)
            &&& correlation_id matches Some(id) ==> event.member("correlation"@) == Some(
                JsonData::Text(id),
            )
            &&& event.member("payload"@) == Some(payload)
        }),
{
    lemma_event_names();
    let members = event_envelope(
        ts,
        severity,
        code,
        version,
        section,
        correlation_id,
        payload,
    )->Object_0;
    lemma_member_at(members, "ts"@, 0);
    lemma_member_at(members, "severity"@, 1);
    lemma_member_at(members, "event"@, 2);
    lemma_member_at(members, "version"@, 3);
    lemma_member_at(members, "section"@, 4);
    lemma_member_at(members, "correlation"@, 5);
    lemma_member_at(members, "payload"@, 6);
}

} // verus!
