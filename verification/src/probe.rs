//! Probing routes: what a probe asks, how its answer is judged, and when the
//! catalogs of providers stand in for it.

use crate::errors::success_status;
use crate::find::{find, lemma_find, lemma_find_push, lemma_found};
use crate::json::{
    json_data, json_wf, law_objects_have_their_members, Json, JsonData, JsonNumber, NumberData,
};
use crate::numbers::{digits_of, digits_text};
use crate::order::{
    in_order, lemma_ranked, lemma_text_order, ranked, sort_ranked, text_le, Ranked,
};
use crate::protocol::{
    complete_answer, complete_chat_completion, complete_response, is_complete_chat_completion,
    is_complete_responses_response, law_failed_responses, law_well_made_requests_are_taken,
    responses_semantic_failure, semantic_failure, understood, StreamProtocol,
};
use crate::store::{has_text, lists_text, ProbeConfiguration};
use crate::stream::payload_data;
use crate::text::{
    joined, lemma_strip_end_at, same_text, strip_end, strip_end_of, trimmed, white_space,
};
use crate::validate::distinct_texts;
use vstd::prelude::*;
use vstd::string::*;

verus! {

/// What a probe asks: an endpoint and a body.
#[derive(Debug)]
pub struct ProbeRequest {
    pub endpoint: String,
    pub body: Json,
}

/// The body of a probe of a chat completion.
pub open spec fn chat_probe(model: Seq<char>) -> JsonData {
    JsonData::Object(
        seq![
            ("model"@, JsonData::Text(model)),
            (
                "messages"@,
                JsonData::Array(
                    seq![
                        JsonData::Object(
                            seq![
                                ("role"@, JsonData::Text("user"@)),
                                ("content"@, JsonData::Text("ping"@)),
                            ],
                        ),
                    ],
                ),
            ),
            ("max_tokens"@, JsonData::Number(NumberData::Unsigned(1))),
            ("stream"@, JsonData::Bool(false)),
        ],
    )
}

/// The body of a probe of a response.
pub open spec fn response_probe(model: Seq<char>) -> JsonData {
    JsonData::Object(
        seq![
            ("model"@, JsonData::Text(model)),
            ("input"@, JsonData::Text("ping"@)),
            ("max_output_tokens"@, JsonData::Number(NumberData::Unsigned(1))),
            ("stream"@, JsonData::Bool(false)),
        ],
    )
}

/// The body of a probe of a chat completion.
fn chat_probe_body(model: &str) -> (r: Json)
    ensures
        r@ == chat_probe(model@),
{
    let mut message: Vec<(String, Json)> = Vec::new();
    message.push(("role".to_owned(), Json::Text("user".to_owned())));
    message.push(("content".to_owned(), Json::Text("ping".to_owned())));
    let first = Json::Object(message);
    let ghost message_data = JsonData::Object(
        seq![("role"@, JsonData::Text("user"@)), ("content"@, JsonData::Text("ping"@))],
    );
    proof {
        reveal_with_fuel(json_data, 2);
        assert(first@->Object_0 =~= message_data->Object_0);
    }
    let mut messages: Vec<Json> = Vec::new();
    messages.push(first);
    let list = Json::Array(messages);
    proof {
        assert(list@->Array_0 =~= seq![message_data]);
    }
    let mut members: Vec<(String, Json)> = Vec::new();
    members.push(("model".to_owned(), Json::Text(model.to_owned())));
    members.push(("messages".to_owned(), list));
    members.push(("max_tokens".to_owned(), Json::Number(JsonNumber::Unsigned(1))));
    members.push(("stream".to_owned(), Json::Bool(false)));
    let body = Json::Object(members);
    proof {
        reveal_with_fuel(json_data, 2);
        assert(body@->Object_0 =~= chat_probe(model@)->Object_0);
    }
    body
}

/// The body of a probe of a response.
fn response_probe_body(model: &str) -> (r: Json)
    ensures
        r@ == response_probe(model@),
{
    let mut members: Vec<(String, Json)> = Vec::new();
    members.push(("model".to_owned(), Json::Text(model.to_owned())));
    members.push(("input".to_owned(), Json::Text("ping".to_owned())));
    members.push(("max_output_tokens".to_owned(), Json::Number(JsonNumber::Unsigned(1))));
    members.push(("stream".to_owned(), Json::Bool(false)));
    let body = Json::Object(members);
    proof {
        reveal_with_fuel(json_data, 2);
        assert(body@->Object_0 =~= response_probe(model@)->Object_0);
    }
    body
}

/// The bodies of probes are in good form.
pub proof fn lemma_probe_bodies(model: Seq<char>)
    ensures
        json_wf(chat_probe(model)),
        json_wf(response_probe(model)),
{
    reveal_strlit("model");
    reveal_strlit("messages");
    reveal_strlit("max_tokens");
    reveal_strlit("stream");
    reveal_strlit("input");
    reveal_strlit("max_output_tokens");
    reveal_strlit("role");
    reveal_strlit("content");
    assert("model"@.len() == 5 && "messages"@.len() == 8 && "max_tokens"@.len() == 10
        && "stream"@.len() == 6 && "input"@.len() == 5 && "max_output_tokens"@.len() == 17
        && "role"@.len() == 4 && "content"@.len() == 7);
    assert("model"@[0] == 'm' && "input"@[0] == 'i');
    let message = JsonData::Object(
        seq![("role"@, JsonData::Text("user"@)), ("content"@, JsonData::Text("ping"@))],
    );
    reveal_with_fuel(json_wf, 2);
    assert(json_wf(message));
    assert(json_wf(JsonData::Array(seq![message])));
    let chat = chat_probe(model)->Object_0;
    assert(json_wf(chat[0].1) && json_wf(chat[1].1) && json_wf(chat[2].1) && json_wf(chat[3].1));
    let response = response_probe(model)->Object_0;
    assert(json_wf(response[0].1) && json_wf(response[1].1) && json_wf(response[2].1) && json_wf(
        response[3].1,
    ));
}

/// Where and what a probe asks; a route of another protocol is not probed.
pub open spec fn probe_asks(protocol: Seq<char>, base_url: Seq<char>, model: Seq<char>) -> Option<
    (Seq<char>, JsonData),
> {
    if protocol == "chat_completions"@ {
        Some((base_url + "/chat/completions"@, chat_probe(model)))
    } else if protocol == "responses"@ {
        Some((base_url + "/responses"@, response_probe(model)))
    } else {
        None
    }
}

/// What a probe asks; a route of another protocol is not probed.
pub fn probe_request(protocol: &str, base_url: &str, upstream_model_name: &str) -> (r: Option<
    ProbeRequest,
>)
    ensures
        r is Some <==> probe_asks(protocol@, base_url@, upstream_model_name@) is Some,
        r matches Some(request) ==> {
            &&& json_wf(request.body@)
            &&& probe_asks(protocol@, base_url@, upstream_model_name@) == Some(
                (request.endpoint@, request.body@),
            )
        },
{
    proof {
        lemma_probe_bodies(upstream_model_name@);
    }
    if same_text(protocol, "chat_completions") {
        Some(
            ProbeRequest {
                endpoint: joined(base_url, "/chat/completions"),
                body: chat_probe_body(upstream_model_name),
            },
        )
    } else if same_text(protocol, "responses") {
        Some(
            ProbeRequest {
                endpoint: joined(base_url, "/responses"),
                body: response_probe_body(upstream_model_name),
            },
        )
    } else {
        None
    }
}

/// Whether the answer to a probe shows the route to be available: a success
/// with a complete answer that reports no failure.
pub open spec fn probe_succeeds(protocol: Seq<char>, status: u16, body: Option<JsonData>) -> bool {
    success_status(status) && match body {
        None => false,
        Some(value) => if protocol == "chat_completions"@ {
            complete_chat_completion(value)
        } else if protocol == "responses"@ {
            complete_response(value) && !semantic_failure(value)
        } else {
            false
        },
    }
}

/// The result of a probe by its answer: whether the route is available, and
/// the status.
pub open spec fn probe_result(protocol: Seq<char>, status: u16, body: Option<JsonData>) -> (
    bool,
    Option<i64>,
) {
    (probe_succeeds(protocol, status, body), Some(status as i64))
}

/// The result of a probe by its answer: whether the route is available, and
/// the status. A body that is not JSON is given as `None`.
pub fn judge_probe(protocol: &str, status: u16, body: &Option<Json>) -> (r: (bool, Option<i64>))
    ensures
        r == probe_result(protocol@, status, payload_data(*body)),
{
    let http_status: Option<i64> = Some(status as i64);
    if status < 200 || status >= 300 {
        return (false, http_status);
    }
    let valid = match body {
        None => false,
        Some(value) => if same_text(protocol, "chat_completions") {
            is_complete_chat_completion(value)
        } else if same_text(protocol, "responses") {
            is_complete_responses_response(value) && !responses_semantic_failure(value)
        } else {
            false
        },
    };
    (valid, http_status)
}

/// Where a provider's catalog is.
pub open spec fn catalog_url(base_url: Seq<char>) -> Seq<char> {
    strip_end(base_url, '/') + "/models"@
}

/// Where a provider's catalog is.
pub fn catalog_endpoint(base_url: &str) -> (r: String)
    ensures
        r@ == catalog_url(base_url@),
{
    joined(strip_end_of(base_url, '/').as_str(), "/models")
}

/// The ids that the first `n` entries of a catalog give.
pub open spec fn catalog_ids(entries: Seq<JsonData>, n: int) -> Seq<Seq<char>>
    decreases n,
{
    if n <= 0 {
        Seq::empty()
    } else {
        let before = catalog_ids(entries, n - 1);
        match entries[n - 1].text_member("id"@) {
            Some(id) => before.push(id),
            None => before,
        }
    }
}

/// The entries of a catalog; none where it lists none.
pub open spec fn catalog_entries(body: JsonData) -> Seq<JsonData> {
    match body.items_member("data"@) {
        Some(entries) => entries,
        None => Seq::empty(),
    }
}

/// Sorted texts, each once.
fn drop_repeats(texts: Vec<String>) -> (r: Vec<String>)
    requires
        in_order(texts@),
    ensures
        in_order(r@),
        distinct_texts(r@),
        forall|text: Seq<char>| lists_text(r@, text) <==> #[trigger] lists_text(texts@, text),
{
    let total: usize = texts.len();
    let mut out: Vec<String> = Vec::new();
    for i in 0..total
        invariant
            texts@.len() == total,
            in_order(texts@),
            in_order(out@),
            distinct_texts(out@),
            i == 0 ==> out@.len() == 0,
            i > 0 ==> out@.len() > 0 && out@.last()@ == texts@[i - 1]@,
            forall|k: int| 0 <= k < out@.len() ==> lists_text(texts@, (#[trigger] out@[k])@),
            forall|k: int| 0 <= k < i ==> lists_text(out@, (#[trigger] texts@[k])@),
    {
        let ghost before = out@;
        if i == 0 || !same_text(texts[i - 1].as_str(), texts[i].as_str()) {
            proof {
                lemma_text_order(texts@[i as int]@, texts@[i as int]@, texts@[i as int]@);
                assert(i > 0 ==> texts@[i - 1].rank_le(texts@[i as int]));
                assert forall|k: int| 0 <= k < before.len() implies (#[trigger] before[k]).rank_le(
                    texts@[i as int],
                ) && before[k]@ != texts@[i as int]@ by {
                    assert(before[k].rank_le(before.last()));
                    lemma_text_order(before[k]@, before.last()@, texts@[i as int]@);
                    lemma_text_order(before.last()@, texts@[i as int]@, before[k]@);
                }
            }
            out.push(texts[i].clone());
            proof {
                assert(out@.last()@ == texts@[i as int]@);
                assert forall|k: int| 0 <= k < i implies lists_text(out@, (#[trigger] texts@[k])@) by {
                    assert(lists_text(before, texts@[k]@));
                    let m = choose|m: int| 0 <= m < before.len() && before[m]@ == texts@[k]@;
                    assert(out@[m]@ == texts@[k]@);
                }
            }
        }
    }
    proof {
        assert forall|text: Seq<char>| lists_text(out@, text) <==> #[trigger] lists_text(
            texts@,
            text,
        ) by {
            if lists_text(out@, text) {
                let m = choose|m: int| 0 <= m < out@.len() && out@[m]@ == text;
                assert(lists_text(texts@, out@[m]@));
            }
            if lists_text(texts@, text) {
                let m = choose|m: int| 0 <= m < texts@.len() && texts@[m]@ == text;
                assert(lists_text(out@, texts@[m]@));
            }
        }
    }
    out
}

/// What comes of reading a provider's catalog.
pub open spec fn catalog_read(
    status: u16,
    body: JsonData,
    r: Result<Vec<String>, String>,
) -> bool {
    if !success_status(status) {
        r is Err && r->Err_0@ == "catalog status "@ + digits_of(status as nat)
    } else if body.text_member("object"@) != Some("list"@) {
        r is Err && r->Err_0@ == "upstream did not return a models list"@
    } else {
        let entries = catalog_entries(body);
        let ids = catalog_ids(entries, entries.len() as int);
        &&& r is Ok
        &&& in_order(r->Ok_0@)
        &&& distinct_texts(r->Ok_0@)
        &&& forall|name: Seq<char>| #[trigger] lists_text(r->Ok_0@, name) <==> ids.contains(name)
    }
}

/// The models that a provider's catalog lists, sorted, each once; or what is
/// wrong with the answer.
pub fn read_catalog(status: u16, body: &Json) -> (r: Result<Vec<String>, String>)
    ensures
        catalog_read(status, body@, r),
{
    if status < 200 || status >= 300 {
        return Err(joined("catalog status ", digits_text(status as u64).as_str()));
    }
    if !body.text_is("object", "list") {
        return Err("upstream did not return a models list".to_owned());
    }
    let ghost data = catalog_entries(body@);
    let mut ids: Vec<String> = Vec::new();
    proof {
        assert(ids@.map_values(|id: String| id@) =~= Seq::<Seq<char>>::empty());
    }
    match body.get("data") {
        Some(list) => match list.as_array() {
            Some(entries) => {
                for i in 0..entries.len()
                    invariant
                        data.len() == entries@.len(),
                        forall|k: int| 0 <= k < data.len() ==> #[trigger] data[k] == entries@[k]@,
                        ids@.map_values(|id: String| id@) == catalog_ids(data, i as int),
                {
                    proof {
                        assert(data[i as int] == entries@[i as int]@);
                    }
                    match entries[i].text_at("id") {
                        Some(id) => {
                            let ghost before = ids@;
                            ids.push(id.clone());
                            proof {
                                assert(ids@.map_values(|id: String| id@) =~= before.map_values(
                                    |id: String| id@,
                                ).push(id@));
                            }
                        },
                        None => {},
                    }
                }
            },
            None => {},
        },
        None => {},
    }
    let ghost found = ids@;
    let sorted = sort_ranked(ids);
    proof {
        lemma_ranked(found);
    }
    let names = drop_repeats(sorted);
    proof {
        let listed = catalog_ids(data, data.len() as int);
        assert forall|name: Seq<char>| #[trigger] lists_text(names@, name) <==> listed.contains(
            name,
        ) by {
            assert(lists_text(names@, name) <==> lists_text(ranked(found), name));
            if lists_text(ranked(found), name) {
                let k = choose|k: int| 0 <= k < ranked(found).len() && ranked(found)[k]@ == name;
                assert(ranked(found).contains(ranked(found)[k]));
                let m = choose|m: int| 0 <= m < found.len() && found[m] == ranked(found)[k];
                assert(found.map_values(|id: String| id@)[m] == name);
            }
            if listed.contains(name) {
                let m = choose|m: int| 0 <= m < listed.len() && listed[m] == name;
                assert(found.map_values(|id: String| id@)[m] == found[m]@);
                assert(ranked(found).contains(found[m]));
                let k = choose|k: int| 0 <= k < ranked(found).len() && ranked(found)[k] == found[m];
                assert(lists_text(ranked(found), ranked(found)[k]@));
            }
        }
    }
    Ok(names)
}

/// The names of a catalog that was fetched.
pub open spec fn catalog_names(list: Option<&Vec<String>>) -> Option<Seq<String>> {
    match list {
        Some(names) => Some(names@),
        None => None,
    }
}

/// Whether a catalog that was fetched lists a model.
pub open spec fn catalog_lists(list: Option<Seq<String>>, model: Seq<char>) -> bool {
    match list {
        Some(names) => lists_text(names, model),
        None => false,
    }
}

/// Whether a catalog that was fetched lists a model.
pub fn light_validation_passes(list: Option<&Vec<String>>, upstream_model_name: &str) -> (r: bool)
    ensures
        r == catalog_lists(catalog_names(list), upstream_model_name@),
{
    match list {
        Some(names) => has_text(names, upstream_model_name),
        None => false,
    }
}

/// How the result of a check comes about.
#[derive(Debug, Clone, Copy, PartialEq, Eq, Structural)]
pub enum CheckPlan {
    /// By probing the route.
    Probe,
    /// Without a probe: whether the route is available, and the status.
    Settled(bool, i64),
    /// The route stays as it is.
    Leave,
}

/// How a route is checked at the start.
pub open spec fn startup_plan(list: Option<Seq<String>>, model: Seq<char>) -> CheckPlan {
    if catalog_lists(list, model) {
        CheckPlan::Settled(true, 200)
    } else {
        CheckPlan::Probe
    }
}

/// How a route is checked for recovery.
pub open spec fn recovery_plan(list: Option<Seq<String>>, model: Seq<char>) -> CheckPlan {
    if list is Some && !catalog_lists(list, model) {
        CheckPlan::Settled(false, 200)
    } else {
        CheckPlan::Probe
    }
}

/// How an available route is checked on a sweep.
pub open spec fn freshness_plan(list: Option<Seq<String>>, model: Seq<char>) -> CheckPlan {
    if catalog_lists(list, model) {
        CheckPlan::Leave
    } else {
        CheckPlan::Probe
    }
}

/// At the start a route whose model the catalog lists is available; any other
/// is probed.
pub fn startup_check(list: Option<&Vec<String>>, upstream_model_name: &str) -> (r: CheckPlan)
    ensures
        r == startup_plan(catalog_names(list), upstream_model_name@),
{
    if light_validation_passes(list, upstream_model_name) {
        CheckPlan::Settled(true, 200)
    } else {
        CheckPlan::Probe
    }
}

/// For recovery a route whose model is gone from the catalog stays unavailable
/// without a probe; one whose model is listed, or whose catalog could not be
/// fetched, is probed.
pub fn recovery_check(list: Option<&Vec<String>>, upstream_model_name: &str) -> (r: CheckPlan)
    ensures
        r == recovery_plan(catalog_names(list), upstream_model_name@),
{
    match list {
        Some(names) => if has_text(names, upstream_model_name) {
            CheckPlan::Probe
        } else {
            CheckPlan::Settled(false, 200)
        },
        None => CheckPlan::Probe,
    }
}

/// On a sweep an available route whose model the catalog lists is left alone;
/// any other goes back to being checked and is probed.
pub fn freshness_check(list: Option<&Vec<String>>, upstream_model_name: &str) -> (r: CheckPlan)
    ensures
        r == freshness_plan(catalog_names(list), upstream_model_name@),
{
    if light_validation_passes(list, upstream_model_name) {
        CheckPlan::Leave
    } else {
        CheckPlan::Probe
    }
}

/// Whether a periodic task is due: it is enabled, and its interval has passed.
pub open spec fn task_due(interval_ms: int, last_ms: int, now_ms: int) -> bool {
    interval_ms > 0 && now_ms - last_ms >= interval_ms
}

/// Whether a periodic task is due; an interval of 0 disables it.
pub fn is_task_due(interval_ms: i64, last_ms: i64, now_ms: i64) -> (r: bool)
    ensures
        r == task_due(interval_ms as int, last_ms as int, now_ms as int),
{
    interval_ms > 0 && (now_ms as i128) - (last_ms as i128) >= interval_ms as i128
}

/// The probes of one provider.
#[derive(Debug)]
pub struct ProbeGroup {
    pub provider_id: String,
    pub base_url: String,
    pub api_key: String,
    pub probes: Vec<ProbeConfiguration>,
}

/// The probes of a provider among `probes`, in their order.
pub open spec fn probes_of(probes: Seq<ProbeConfiguration>, provider_id: Seq<char>) -> Seq<
    ProbeConfiguration,
>
    decreases probes.len(),
{
    if probes.len() == 0 {
        probes
    } else {
        let before = probes_of(probes.drop_last(), provider_id);
        if probes.last().provider_id@ == provider_id {
            before.push(probes.last())
        } else {
            before
        }
    }
}

/// Whether a probe is of a provider.
pub open spec fn of_provider(provider_id: Seq<char>) -> spec_fn(ProbeConfiguration) -> bool {
    |probe: ProbeConfiguration| probe.provider_id@ == provider_id
}

/// Whether two providers have probes, and the first of the one stands before
/// the first of the other.
pub open spec fn begins_before(
    probes: Seq<ProbeConfiguration>,
    provider_id: Seq<char>,
    other_id: Seq<char>,
) -> bool {
    match (find(probes, of_provider(provider_id)), find(probes, of_provider(other_id))) {
        (Some(i), Some(j)) => i < j,
        _ => false,
    }
}

/// Whether groups hold probes by provider: no provider has two groups, the
/// groups stand in the order of their first probes, each group holds the
/// provider's probes in order and its connection is that of the first of them,
/// and every probe is in a group.
pub open spec fn grouped(groups: Seq<ProbeGroup>, probes: Seq<ProbeConfiguration>) -> bool {
    &&& forall|i: int, j: int|
        0 <= i < j < groups.len() ==> (#[trigger] groups[i]).provider_id@ != (
        #[trigger] groups[j]).provider_id@
    &&& forall|i: int, j: int|
        0 <= i < j < groups.len() ==> begins_before(
            probes,
            (#[trigger] groups[i]).provider_id@,
            (#[trigger] groups[j]).provider_id@,
        )
    &&& forall|i: int|
        0 <= i < groups.len() ==> {
            let group = #[trigger] groups[i];
            &&& group.probes@ == probes_of(probes, group.provider_id@)
            &&& group.probes@.len() > 0
            &&& group.base_url == group.probes@[0].base_url
            &&& group.api_key == group.probes@[0].api_key
        }
    &&& forall|k: int|
        0 <= k < probes.len() ==> has_group(groups, (#[trigger] probes[k]).provider_id@)
}

/// Whether a provider has a group.
pub open spec fn has_group(groups: Seq<ProbeGroup>, provider_id: Seq<char>) -> bool {
    exists|i: int| 0 <= i < groups.len() && (#[trigger] groups[i]).provider_id@ == provider_id
}

/// A provider without probes has none among them.
proof fn lemma_no_probes(probes: Seq<ProbeConfiguration>, provider_id: Seq<char>)
    requires
        forall|k: int| 0 <= k < probes.len() ==> (#[trigger] probes[k]).provider_id@ != provider_id,
    ensures
        probes_of(probes, provider_id) == Seq::<ProbeConfiguration>::empty(),
    decreases probes.len(),
{
    if probes.len() > 0 {
        assert(probes[probes.len() - 1].provider_id@ != provider_id);
        let t = probes.drop_last();
        assert forall|k: int| 0 <= k < t.len() implies (#[trigger] t[k]).provider_id@
            != provider_id by {
            assert(t[k] == probes[k]);
        }
        lemma_no_probes(t, provider_id);
    } else {
        assert(probes =~= Seq::empty());
    }
}

/// A provider's first probe stays where it is when one is appended; that of a
/// provider that had none stands behind all others.
proof fn lemma_first_probes(
    probes: Seq<ProbeConfiguration>,
    more: ProbeConfiguration,
    provider_id: Seq<char>,
)
    requires
        probes_of(probes, provider_id).len() > 0,
    ensures
        find(probes.push(more), of_provider(provider_id)) == find(probes, of_provider(provider_id)),
        find(probes, of_provider(provider_id)) matches Some(i) && i < probes.len(),
{
    let wanted = of_provider(provider_id);
    lemma_find(probes, wanted);
    lemma_find_push(probes, more, wanted);
    if find(probes, wanted) is None {
        assert forall|k: int| 0 <= k < probes.len() implies (#[trigger] probes[k]).provider_id@
            != provider_id by {
            assert(!wanted(probes[k]));
        }
        lemma_no_probes(probes, provider_id);
    }
}

/// Groups probes by provider.
pub fn group_by_provider(probes: Vec<ProbeConfiguration>) -> (r: Vec<ProbeGroup>)
    ensures
        grouped(r@, probes@),
{
    let ghost all = probes@;
    let mut groups: Vec<ProbeGroup> = Vec::new();
    for probe in it: probes
        invariant
            it.seq() == all,
            grouped(groups@, all.take(it.index() as int)),
    {
        let ghost n = it.index() as int;
        let ghost before = groups@;
        let ghost was = all.take(n);
        let ghost is = all.take(n + 1);
        proof {
            assert(is.drop_last() =~= was);
            assert(is.last() == probe);
            assert(was.push(probe) =~= is);
        }
        let mut g: usize = 0;
        while g < groups.len() && !same_text(
            groups[g].provider_id.as_str(),
            probe.provider_id.as_str(),
        )
            invariant
                g <= groups@.len(),
                groups@ == before,
                forall|k: int|
                    0 <= k < g ==> (#[trigger] groups@[k]).provider_id@ != probe.provider_id@,
            decreases groups@.len() - g,
        {
            g = g + 1;
        }
        let ghost added = probe;
        if g < groups.len() {
            groups[g].probes.push(probe);
            proof {
                assert forall|i: int, j: int| 0 <= i < j < groups@.len() implies (
                #[trigger] groups@[i]).provider_id@ != (#[trigger] groups@[j]).provider_id@
                    && begins_before(is, groups@[i].provider_id@, groups@[j].provider_id@) by {
                    assert(before[i].provider_id@ != before[j].provider_id@);
                    lemma_first_probes(was, added, before[i].provider_id@);
                    lemma_first_probes(was, added, before[j].provider_id@);
                }
                assert forall|i: int| 0 <= i < groups@.len() implies {
                    let group = #[trigger] groups@[i];
                    &&& group.probes@ == probes_of(is, group.provider_id@)
                    &&& group.probes@.len() > 0
                    &&& group.base_url == group.probes@[0].base_url
                    &&& group.api_key == group.probes@[0].api_key
                } by {
                    assert(before[i].probes@ == probes_of(was, before[i].provider_id@));
                    if i != g {
                        assert(groups@[i] == before[i]);
                        if i < g {
                            assert(before[i].provider_id@ != before[g as int].provider_id@);
                        } else {
                            assert(before[g as int].provider_id@ != before[i].provider_id@);
                        }
                    }
                }
                assert forall|k: int| 0 <= k < is.len() implies has_group(
                    groups@,
                    (#[trigger] is[k]).provider_id@,
                ) by {
                    if k < n {
                        assert(is[k] == was[k]);
                        assert(has_group(before, was[k].provider_id@));
                        let i = choose|i: int|
                            0 <= i < before.len() && (#[trigger] before[i]).provider_id@
                                == was[k].provider_id@;
                        assert(groups@[i].provider_id@ == is[k].provider_id@);
                    } else {
                        assert(groups@[g as int].provider_id@ == is[k].provider_id@);
                    }
                }
            }
        } else {
            let provider_id = probe.provider_id.clone();
            let base_url = probe.base_url.clone();
            let api_key = probe.api_key.clone();
            let mut own: Vec<ProbeConfiguration> = Vec::new();
            own.push(probe);
            groups.push(ProbeGroup { provider_id, base_url, api_key, probes: own });
            proof {
                assert forall|k: int| 0 <= k < was.len() implies (#[trigger] was[k]).provider_id@
                    != added.provider_id@ by {
                    assert(has_group(before, was[k].provider_id@));
                    let i = choose|i: int|
                        0 <= i < before.len() && (#[trigger] before[i]).provider_id@
                            == was[k].provider_id@;
                    assert(before[i].provider_id@ != added.provider_id@);
                }
                lemma_no_probes(was, added.provider_id@);
                lemma_found(is, of_provider(added.provider_id@), n);
                assert forall|i: int, j: int| 0 <= i < j < groups@.len() implies (
                #[trigger] groups@[i]).provider_id@ != (#[trigger] groups@[j]).provider_id@
                    && begins_before(is, groups@[i].provider_id@, groups@[j].provider_id@) by {
                    assert(groups@[i] == before[i]);
                    lemma_first_probes(was, added, before[i].provider_id@);
                    if j < before.len() {
                        assert(groups@[j] == before[j]);
                        lemma_first_probes(was, added, before[j].provider_id@);
                    }
                }
                assert forall|i: int| 0 <= i < groups@.len() implies {
                    let group = #[trigger] groups@[i];
                    &&& group.probes@ == probes_of(is, group.provider_id@)
                    &&& group.probes@.len() > 0
                    &&& group.base_url == group.probes@[0].base_url
                    &&& group.api_key == group.probes@[0].api_key
                } by {
                    if i < before.len() {
                        assert(groups@[i] == before[i]);
                        assert(before[i].probes@ == probes_of(was, before[i].provider_id@));
                    } else {
                        assert(groups@[i].probes@ =~= seq![added]);
                        assert(probes_of(is, added.provider_id@) =~= seq![added]);
                    }
                }
                assert forall|k: int| 0 <= k < is.len() implies has_group(
                    groups@,
                    (#[trigger] is[k]).provider_id@,
                ) by {
                    if k < n {
                        assert(is[k] == was[k]);
                        assert(has_group(before, was[k].provider_id@));
                        let i = choose|i: int|
                            0 <= i < before.len() && (#[trigger] before[i]).provider_id@
                                == was[k].provider_id@;
                        assert(groups@[i].provider_id@ == is[k].provider_id@);
                    } else {
                        assert(groups@[before.len() as int].provider_id@ == is[k].provider_id@);
                    }
                }
            }
        }
    }
    proof {
        assert(all.take(all.len() as int) =~= all);
    }
    groups
}

/// The routes with a recovery check under way; at most one runs per route.
#[derive(Debug)]
pub struct InFlight {
    pub route_ids: Vec<String>,
}

/// Whether a text is listed becomes `listed`; of the others it stays.
pub open spec fn only_listing_changes(
    before: Seq<String>,
    after: Seq<String>,
    text: Seq<char>,
    listed: bool,
) -> bool {
    &&& lists_text(after, text) == listed
    &&& forall|other: Seq<char>|
        other != text ==> #[trigger] lists_text(after, other) == lists_text(before, other)
}

impl InFlight {
    /// No check is under way.
    pub fn new() -> (r: Self)
        ensures
            forall|id: Seq<char>| !lists_text(r.route_ids@, id),
    {
        InFlight { route_ids: Vec::new() }
    }

    /// Claims the check of a route; the answer says whether none was under
    /// way.
    pub fn claim(&mut self, route_id: &str) -> (r: bool)
        ensures
            r == !lists_text(old(self).route_ids@, route_id@),
            only_listing_changes(old(self).route_ids@, final(self).route_ids@, route_id@, true),
    {
        if has_text(&self.route_ids, route_id) {
            return false;
        }
        let ghost before = self.route_ids@;
        self.route_ids.push(route_id.to_owned());
        proof {
            let now = self.route_ids@;
            assert(now[before.len() as int]@ == route_id@);
            assert forall|id: Seq<char>| id != route_id@ implies lists_text(now, id) == lists_text(
                before,
                id,
            ) by {
                if lists_text(before, id) {
                    let i = choose|i: int| 0 <= i < before.len() && (#[trigger] before[i])@ == id;
                    assert(now[i] == before[i]);
                }
                if lists_text(now, id) {
                    let i = choose|i: int| 0 <= i < now.len() && (#[trigger] now[i])@ == id;
                    assert(before[i] == now[i]);
                }
            }
        }
        true
    }

    /// Releases the check of a route.
    pub fn release(&mut self, route_id: &str)
        ensures
            only_listing_changes(old(self).route_ids@, final(self).route_ids@, route_id@, false),
    {
        let ghost all = self.route_ids@;
        let mut kept: Vec<String> = Vec::new();
        for i in 0..self.route_ids.len()
            invariant
                self.route_ids@ == all,
                forall|k: int| 0 <= k < kept@.len() ==> (#[trigger] kept@[k])@ != route_id@,
                forall|id: Seq<char>|
                    id != route_id@ ==> lists_text(kept@, id) == lists_text(
                        all.take(i as int),
                        id,
                    ),
        {
            let ghost before = kept@;
            let ghost was = all.take(i as int);
            let ghost is = all.take(i + 1);
            if !same_text(self.route_ids[i].as_str(), route_id) {
                kept.push(self.route_ids[i].clone());
            }
            proof {
                let text = all[i as int]@;
                assert forall|id: Seq<char>| id != route_id@ implies lists_text(kept@, id)
                    == lists_text(is, id) by {
                    assert(lists_text(is, id) == (lists_text(was, id) || text == id)) by {
                        if lists_text(was, id) {
                            let k = choose|k: int|
                                0 <= k < was.len() && (#[trigger] was[k])@ == id;
                            assert(is[k] == was[k]);
                        }
                        if text == id {
                            assert(is[i as int]@ == id);
                        }
                        if lists_text(is, id) {
                            let k = choose|k: int| 0 <= k < is.len() && (#[trigger] is[k])@ == id;
                            if k < i {
                                assert(was[k] == is[k]);
                            }
                        }
                    }
                    assert(lists_text(kept@, id) == (lists_text(before, id) || (text == id && text
                        != route_id@))) by {
                        if lists_text(before, id) {
                            let k = choose|k: int|
                                0 <= k < before.len() && (#[trigger] before[k])@ == id;
                            assert(kept@[k] == before[k]);
                        }
                        if text == id && text != route_id@ {
                            assert(kept@[before.len() as int]@ == id);
                        }
                        if lists_text(kept@, id) {
                            let k = choose|k: int|
                                0 <= k < kept@.len() && (#[trigger] kept@[k])@ == id;
                            if k < before.len() {
                                assert(before[k] == kept@[k]);
                            }
                        }
                    }
                }
            }
        }
        self.route_ids = kept;
        proof {
            assert(all.take(all.len() as int) =~= all);
        }
    }
}

/// A probe of a chat route succeeds with any complete chat completion under a
/// status of success, and with nothing less.
pub proof fn law_chat_probes(status: u16, body: JsonData)
    ensures
        200 <= status <= 299 && complete_answer(StreamProtocol::ChatCompletions, body)
            ==> probe_result("chat_completions"@, status, Some(body)) == (true, Some(
            status as i64,
        )),
        !complete_answer(StreamProtocol::ChatCompletions, body) ==> probe_result(
            "chat_completions"@,
            status,
            Some(body),
        ) == (false, Some(status as i64)),
{
}

/// A probe of a responses route succeeds with a complete response that was
/// completed or cut short, without an error, under a status of success. One that
/// failed or was cancelled, or that carries an error, does not succeed.
pub proof fn law_responses_probes(status: u16, body: JsonData)
    requires
        200 <= status <= 299,
        complete_answer(StreamProtocol::Responses, body),
    ensures
        (body.member("status"@) == Some(JsonData::Text("completed"@)) || body.member("status"@)
            == Some(JsonData::Text("incomplete"@))) && (body.member("error"@) is None
            || body.member("error"@) == Some(JsonData::Null)) ==> probe_result(
            "responses"@,
            status,
            Some(body),
        ) == (true, Some(status as i64)),
        body.member("status"@) == Some(JsonData::Text("failed"@)) || body.member("status"@) == Some(
            JsonData::Text("cancelled"@),
        ) || (body.member("error"@) is Some && body.member("error"@) != Some(JsonData::Null))
            ==> probe_result("responses"@, status, Some(body)) == (false, Some(status as i64)),
{
    law_failed_responses(body);
    lemma_protocol_names();
}

/// No probe succeeds under another status, with a body that is no JSON, with an
/// answer that is not complete, or by a protocol that the relay does not speak.
pub proof fn law_probes_that_fail(protocol: Seq<char>, status: u16, body: JsonData)
    ensures
        status < 200 || status > 299 ==> probe_result(protocol, status, Some(body)) == (
            false,
            Some(status as i64),
        ),
        probe_result(protocol, status, None) == (false, Some(status as i64)),
        !complete_answer(StreamProtocol::Responses, body) ==> !probe_result(
            "responses"@,
            status,
            Some(body),
        ).0,
        protocol != "chat_completions"@ && protocol != "responses"@ ==> !probe_result(
            protocol,
            status,
            Some(body),
        ).0,
{
    lemma_protocol_names();
}

proof fn lemma_protocol_names()
    ensures
        "chat_completions"@ != "responses"@,
{
    reveal_strlit("chat_completions");
    reveal_strlit("responses");
    assert("chat_completions"@.len() == 16 && "responses"@.len() == 9);
}

/// A probe asks the route's own endpoint for its own upstream model, in one
/// short answer that is not streamed; the relay would take the probe itself as a
/// request.
pub proof fn law_probes_ask_for_the_route_model(
    base_url: Seq<char>,
    model: Seq<char>,
    visible: int,
)
    requires
        0 <= visible < model.len(),
        !white_space(model[visible]),
    ensures
        probe_asks("chat_completions"@, base_url, model) matches Some((endpoint, body)) && endpoint
            == base_url + "/chat/completions"@ && body.member("model"@) == Some(
            JsonData::Text(model),
        ) && body.member("stream"@) == Some(JsonData::Bool(false)) && body.member("max_tokens"@)
            == Some(JsonData::Number(NumberData::Unsigned(1))) && (understood(
            StreamProtocol::ChatCompletions,
            body,
        ) matches Ok(taken) && !taken.stream && taken.model == trimmed(model)),
        probe_asks("responses"@, base_url, model) matches Some((endpoint, body)) && endpoint
            == base_url + "/responses"@ && body.member("model"@) == Some(JsonData::Text(model))
            && body.member("stream"@) == Some(JsonData::Bool(false)) && body.member(
            "max_output_tokens"@,
        ) == Some(JsonData::Number(NumberData::Unsigned(1))) && (understood(
            StreamProtocol::Responses,
            body,
        ) matches Ok(taken) && !taken.stream && taken.model == trimmed(model)),
{
    lemma_protocol_names();
    reveal_strlit("model");
    reveal_strlit("messages");
    reveal_strlit("max_tokens");
    reveal_strlit("stream");
    reveal_strlit("input");
    reveal_strlit("max_output_tokens");
    assert("model"@.len() == 5 && "messages"@.len() == 8 && "max_tokens"@.len() == 10
        && "stream"@.len() == 6 && "input"@.len() == 5 && "max_output_tokens"@.len() == 17);
    assert("model"@[0] == 'm' && "input"@[0] == 'i');
    let chat = chat_probe(model);
    let response = response_probe(model);
    lemma_member_of(chat->Object_0, "model"@, 0);
    lemma_member_of(chat->Object_0, "messages"@, 1);
    lemma_member_of(chat->Object_0, "max_tokens"@, 2);
    lemma_member_of(chat->Object_0, "stream"@, 3);
    lemma_member_of(response->Object_0, "model"@, 0);
    lemma_member_of(response->Object_0, "input"@, 1);
    lemma_member_of(response->Object_0, "max_output_tokens"@, 2);
    lemma_member_of(response->Object_0, "stream"@, 3);
    law_well_made_requests_are_taken(
        StreamProtocol::ChatCompletions,
        chat,
        model,
        visible,
        chat->Object_0[1].1->Array_0,
        model,
    );
    law_well_made_requests_are_taken(
        StreamProtocol::Responses,
        response,
        model,
        visible,
        Seq::empty(),
        "ping"@,
    );
}

/// A member that stands at a place, with none of its name before it, is the
/// member of that name.
proof fn lemma_member_of(members: Seq<(Seq<char>, JsonData)>, key: Seq<char>, i: int)
    requires
        0 <= i < members.len(),
        members[i].0 == key,
        forall|k: int| 0 <= k < i ==> (#[trigger] members[k]).0 != key,
    ensures
        JsonData::Object(members).member(key) == Some(members[i].1),
{
    let (before, after) = (members.take(i), members.skip(i + 1));
    assert(members =~= before + seq![(key, members[i].1)] + after);
    law_objects_have_their_members(before, key, members[i].1, after, JsonData::Null);
}

/// A catalog lists the ids that its entries give, and nothing else: whatever
/// other members an entry has, and whichever entries have no id.
pub proof fn law_catalogs_list_the_ids_of_their_entries(
    body: JsonData,
    entries: Seq<JsonData>,
    name: Seq<char>,
)
    ensures
        body.member("data"@) == Some(JsonData::Array(entries)) ==> catalog_entries(body) == entries,
        body.member("data"@) is None ==> catalog_entries(body).len() == 0,
        catalog_ids(entries, entries.len() as int).contains(name) <==> exists|i: int|
            0 <= i < entries.len() && (#[trigger] entries[i]).member("id"@) == Some(
                JsonData::Text(name),
            ),
{
    lemma_catalog_ids(entries, entries.len() as int, name);
}

proof fn lemma_catalog_ids(entries: Seq<JsonData>, n: int, name: Seq<char>)
    requires
        0 <= n <= entries.len(),
    ensures
        catalog_ids(entries, n).contains(name) <==> exists|i: int|
            0 <= i < n && (#[trigger] entries[i]).member("id"@) == Some(JsonData::Text(name)),
    decreases n,
{
    if n > 0 {
        lemma_catalog_ids(entries, n - 1, name);
        let (before, now) = (catalog_ids(entries, n - 1), catalog_ids(entries, n));
        if before.contains(name) {
            let k = choose|k: int| 0 <= k < before.len() && before[k] == name;
            assert(now[k] == name);
        }
        if entries[n - 1].member("id"@) == Some(JsonData::Text(name)) {
            assert(now[before.len() as int] == name);
        }
        if now.contains(name) {
            let k = choose|k: int| 0 <= k < now.len() && now[k] == name;
            if k < before.len() {
                assert(before[k] == name);
            }
        }
    }
}

/// A catalog is asked for below the base URL, however many slashes that ends
/// with.
pub proof fn law_catalogs_stand_below_the_base_url(base_url: Seq<char>)
    requires
        base_url.len() > 0,
        base_url.last() != '/',
    ensures
        catalog_url(base_url) == base_url + "/models"@,
        catalog_url(base_url.push('/')) == base_url + "/models"@,
        catalog_url(base_url.push('/').push('/')) == base_url + "/models"@,
{
    let n = base_url.len() as int;
    lemma_strip_end_at(base_url, '/', n);
    lemma_strip_end_at(base_url.push('/'), '/', n);
    lemma_strip_end_at(base_url.push('/').push('/'), '/', n);
    assert(base_url.take(n) =~= base_url);
    assert(base_url.push('/').take(n) =~= base_url);
    assert(base_url.push('/').push('/').take(n) =~= base_url);
}

/// What a catalog says decides where it can: at the start a model it lists makes
/// a route available; for recovery a model that is gone keeps it unavailable; on
/// a sweep a model it lists leaves it alone. In every other case, and whenever
/// the catalog could not be fetched, the route is probed.
pub proof fn law_catalogs_stand_in_for_probes(list: Seq<String>, model: Seq<char>, i: int)
    ensures
        startup_plan(None, model) == CheckPlan::Probe,
        recovery_plan(None, model) == CheckPlan::Probe,
        freshness_plan(None, model) == CheckPlan::Probe,
        0 <= i < list.len() && list[i]@ == model ==> startup_plan(Some(list), model)
            == CheckPlan::Settled(true, 200) && recovery_plan(Some(list), model) == CheckPlan::Probe
            && freshness_plan(Some(list), model) == CheckPlan::Leave,
        (forall|k: int| 0 <= k < list.len() ==> (#[trigger] list[k])@ != model) ==> startup_plan(
            Some(list),
            model,
        ) == CheckPlan::Probe && recovery_plan(Some(list), model) == CheckPlan::Settled(false, 200)
            && freshness_plan(Some(list), model) == CheckPlan::Probe,
{
}

/// A task is due once its interval has passed since it last ran, and never where
/// it is switched off.
pub proof fn law_tasks_fall_due(interval_ms: int, last_ms: int, now_ms: int)
    ensures
        interval_ms == 0 ==> !task_due(interval_ms, last_ms, now_ms),
        interval_ms > 0 && now_ms < last_ms + interval_ms ==> !task_due(
            interval_ms,
            last_ms,
            now_ms,
        ),
        interval_ms > 0 && now_ms >= last_ms + interval_ms ==> task_due(
            interval_ms,
            last_ms,
            now_ms,
        ),
{
}

/// Every probe of a provider is in the provider's group, whichever it is, and no
/// probe of another is.
pub proof fn law_groups_hold_their_providers_probes(
    groups: Seq<ProbeGroup>,
    probes: Seq<ProbeConfiguration>,
    g: int,
    probe: ProbeConfiguration,
)
    requires
        grouped(groups, probes),
        0 <= g < groups.len(),
    ensures
        groups[g].probes@.contains(probe) <==> probes.contains(probe) && probe.provider_id@
            == groups[g].provider_id@,
        groups[g].base_url == groups[g].probes@[0].base_url,
        groups[g].api_key == groups[g].probes@[0].api_key,
{
    assert(groups[g].probes@ == probes_of(probes, groups[g].provider_id@));
    lemma_probes_of(probes, groups[g].provider_id@, probe);
}

proof fn lemma_probes_of(
    probes: Seq<ProbeConfiguration>,
    provider_id: Seq<char>,
    probe: ProbeConfiguration,
)
    ensures
        probes_of(probes, provider_id).contains(probe) <==> probes.contains(probe)
            && probe.provider_id@ == provider_id,
    decreases probes.len(),
{
    if probes.len() > 0 {
        let (front, last) = (probes.drop_last(), probes.last());
        let (before, now) = (probes_of(front, provider_id), probes_of(probes, provider_id));
        lemma_probes_of(front, provider_id, probe);
        assert(probes[probes.len() - 1] == last);
        if front.contains(probe) {
            let k = choose|k: int| 0 <= k < front.len() && front[k] == probe;
            assert(probes[k] == probe);
        }
        if probes.contains(probe) {
            let k = choose|k: int| 0 <= k < probes.len() && probes[k] == probe;
            if k < front.len() {
                assert(front[k] == probe);
            }
        }
        if before.contains(probe) {
            let k = choose|k: int| 0 <= k < before.len() && before[k] == probe;
            assert(now[k] == probe);
        }
        if now.contains(probe) {
            let k = choose|k: int| 0 <= k < now.len() && now[k] == probe;
            if k < before.len() {
                assert(before[k] == probe);
            }
        }
        if last.provider_id@ == provider_id {
            assert(now[now.len() - 1] == last);
        }
    }
}

/// At most one check of a route is under way: once claimed, a route is listed
/// until it is released, and no other route is touched.
pub proof fn law_checks_are_claimed_and_released(
    before: Seq<String>,
    after: Seq<String>,
    route_id: Seq<char>,
    i: int,
    listed: bool,
)
    requires
        only_listing_changes(before, after, route_id, listed),
        0 <= i < before.len(),
    ensures
        listed ==> exists|k: int| 0 <= k < after.len() && (#[trigger] after[k])@ == route_id,
        !listed ==> forall|k: int| 0 <= k < after.len() ==> (#[trigger] after[k])@ != route_id,
        before[i]@ != route_id ==> exists|k: int|
            0 <= k < after.len() && (#[trigger] after[k])@ == before[i]@,
{
    assert(lists_text(before, before[i]@));
    if before[i]@ != route_id {
        assert(lists_text(after, before[i]@));
    }
}

/// A catalog is read only from a success that is a list; each id of its entries
/// is then listed, each once and in order.
pub proof fn law_catalogs_are_read(
    status: u16,
    body: JsonData,
    r: Result<Vec<String>, String>,
    i: int,
    j: int,
)
    requires
        catalog_read(status, body, r),
    ensures
        !(200 <= status <= 299) ==> r is Err,
        200 <= status <= 299 && body.member("object"@) != Some(JsonData::Text("list"@)) ==> (
        r matches Err(message) && message@ == "upstream did not return a models list"@),
        200 <= status <= 299 && body.member("object"@) == Some(JsonData::Text("list"@)) ==> r is Ok,
        r is Ok && 0 <= i < j < r->Ok_0@.len() ==> r->Ok_0@[i]@ != r->Ok_0@[j]@ && text_le(
            r->Ok_0@[i]@,
            r->Ok_0@[j]@,
        ),
        r is Ok && 0 <= i < r->Ok_0@.len() ==> catalog_ids(
            catalog_entries(body),
            catalog_entries(body).len() as int,
        ).contains(r->Ok_0@[i]@),
{
    if r is Ok && 0 <= i < r->Ok_0@.len() {
        assert(lists_text(r->Ok_0@, r->Ok_0@[i]@));
        if i < j < r->Ok_0@.len() {
            assert(r->Ok_0@[i].rank_le(r->Ok_0@[j]));
        }
    }
}

} // verus!
