use local_api_relay::errors::{relay_idle_error, relay_upstream_transport_error};
use local_api_relay::json::{parse_json, write_json, Json};
use local_api_relay::probe::{
    catalog_endpoint, freshness_check, group_by_provider, is_task_due, judge_probe,
    light_validation_passes, probe_request, read_catalog, recovery_check, startup_check, CheckPlan,
    InFlight,
};
use local_api_relay::protocol::{StreamProtocol, Usage};
use local_api_relay::recorder::{CallRecorder, CommitPhase, ModelRouteAttemptOutcome};
use local_api_relay::recovery::RouteHealth;
use local_api_relay::relay::{
    failure_of, judge_answer, judge_body, not_a_stream, CallStage, HeadStep, RelayCall,
};
use local_api_relay::store::{ModelRouteCandidate, ProbeConfiguration};

fn json(text: &str) -> Json {
    parse_json(text.as_bytes()).expect("valid JSON")
}

fn candidate(id: &str) -> ModelRouteCandidate {
    ModelRouteCandidate {
        route_id: id.to_owned(),
        provider_id: format!("provider-{id}"),
        provider_name: format!("Provider {id}"),
        base_url: format!("http://{id}/v1"),
        api_key: format!("key-{id}"),
        upstream_model_name: format!("model-{id}"),
        health: RouteHealth::Available,
    }
}

fn call(ids: &[&str], stream: bool) -> RelayCall {
    RelayCall::new(
        ids.iter().map(|id| candidate(id)).collect(),
        StreamProtocol::ChatCompletions,
        "house",
        json(r#"{"model":"house","messages":[],"stream":false}"#),
        stream,
        1_000,
        5_000_000,
        "correlation".to_owned(),
    )
}

const ANSWER: &str = r#"{"id":"c1","object":"chat.completion","created":1,"model":"up","choices":[{"index":0,"message":{},"finish_reason":"stop"}],"usage":{"prompt_tokens":10,"completion_tokens":3}}"#;

#[test]
fn a_call_falls_back_and_succeeds() {
    let mut relay = call(&["a", "b"], false);
    let upstream = relay.begin(6_000_000).unwrap();
    assert_eq!(upstream.endpoint, "http://a/v1/chat/completions");
    assert_eq!(upstream.api_key, "key-a");
    assert_eq!(
        write_json(&relay.request),
        r#"{"model":"model-a","messages":[],"stream":false}"#
    );
    let blame = relay.fall_through(failure_of(relay_upstream_transport_error(false), None), 8_000_000);
    assert_eq!(blame.route_id, "a");
    assert_eq!(blame.category, "upstream_connection");
    assert_eq!(blame.http_status, None);
    relay.begin(9_000_000).unwrap();
    assert!(matches!(relay.answered(200, 9_500_000), HeadStep::Proceed(200)));
    let answer = judge_body(StreamProtocol::ChatCompletions, 200, ANSWER.as_bytes()).unwrap();
    let (body, record) = relay.commit_answer(200, answer, 12_000_000);
    assert_eq!(write_json(&body), ANSWER.replace("\"up\"", "\"house\""));
    assert!(record.succeeded);
    assert_eq!(record.protocol, "chat_completions");
    assert_eq!(record.success_provider_id.as_deref(), Some("provider-b"));
    assert_eq!(
        record.usage,
        Some(Usage { input_tokens: 10, cached_input_tokens: 0, output_tokens: 3 })
    );
    assert_eq!(record.completion_ms, Some(7));
    assert_eq!(record.first_token_ms, None);
    assert_eq!(record.attempts.len(), 2);
    let first = &record.attempts[0];
    assert_eq!((first.sequence, first.outcome.as_str()), (0, "fallback"));
    assert_eq!((first.started_at_ms, first.duration_ms), (1_001, 2));
    assert_eq!(first.failure_category.as_deref(), Some("upstream_connection"));
    let second = &record.attempts[1];
    assert_eq!((second.commit_phase.as_str(), second.outcome.as_str()), ("committed", "success"));
    let event = relay.recorder.call_event().unwrap();
    assert_eq!((event.code, event.severity, event.fallback), ("call.fallback", "warning", true));
    assert!(relay.abandon(13_000_000).is_none());
}

#[test]
fn an_exhausted_call_reports_the_last_error() {
    let mut relay = call(&["a", "b"], false);
    relay.begin(1).unwrap();
    match relay.answered(503, 2) {
        HeadStep::Failed(blame) => {
            assert_eq!((blame.category, blame.http_status), ("upstream_http_5xx", Some(503)))
        }
        _ => panic!("expected a failed attempt"),
    }
    relay.begin(3).unwrap();
    match relay.answered(429, 4) {
        HeadStep::Failed(blame) => assert_eq!(blame.route_id, "b"),
        _ => panic!("expected a failed attempt"),
    }
    assert!(relay.begin(5).is_none());
    let (error, record) = relay.exhausted(6);
    assert_eq!((error.status, error.message), (429, "upstream request failed"));
    assert!(!record.succeeded);
    assert_eq!(record.attempts[0].outcome, "fallback");
    assert_eq!(record.attempts[1].outcome, "failed");
    assert_eq!(record.usage, None);
    assert_eq!(relay.stage, CallStage::Over);
    let mut nothing = call(&[], false);
    assert!(nothing.begin(1).is_none());
    let (error, _) = nothing.exhausted(2);
    assert_eq!(error.code, Some("all_upstream_attempts_failed"));
}

#[test]
fn a_refused_request_ends_the_call() {
    let mut relay = call(&["a", "b"], false);
    relay.begin(1).unwrap();
    match relay.answered(400, 2) {
        HeadStep::Refused(error, record) => {
            assert_eq!(error.status, 400);
            assert_eq!(record.attempts.len(), 1);
            assert_eq!(record.attempts[0].outcome, "failed");
            assert_eq!(record.attempts[0].failure_category.as_deref(), Some("upstream_http_4xx"));
        }
        _ => panic!("expected the call to end"),
    }
    assert_eq!(relay.stage, CallStage::Over);
    let mut odd = call(&["a"], false);
    odd.begin(1).unwrap();
    match odd.answered(42, 2) {
        HeadStep::Failed(blame) => assert_eq!(blame.http_status, Some(502)),
        _ => panic!("expected a bad gateway"),
    }
}

#[test]
fn answers_are_judged() {
    let chat = StreamProtocol::ChatCompletions;
    let invalid = judge_body(chat, 200, b"{}").unwrap_err();
    assert_eq!(invalid.category, "invalid_upstream_response");
    assert_eq!(invalid.error.message, "upstream returned an invalid Chat Completions response");
    assert_eq!(invalid.http_status, Some(200));
    assert!(judge_answer(chat, 200, None).is_err());
    let failed = judge_body(
        StreamProtocol::Responses,
        200,
        br#"{"id":"r","object":"response","created_at":1,"model":"m","status":"failed","output":[]}"#,
    )
    .unwrap_err();
    assert_eq!(failed.category, "upstream_semantic_failure");
    assert_eq!(failed.error.code, Some("upstream_semantic_failure"));
    assert_eq!(not_a_stream(200).error.message, "upstream did not return an SSE stream");
}

#[test]
fn streams_resolve_their_attempt() {
    let usage = Some(Usage { input_tokens: 1, cached_input_tokens: 0, output_tokens: 2 });
    let mut relay = call(&["a"], true);
    relay.begin(5_000_000).unwrap();
    relay.commit_stream(200);
    relay.stream_chunk(None, 8_000_000);
    relay.stream_chunk(usage, 9_000_000);
    let (record, blame) = relay.stream_ended(None, false, 200, 10_000_000);
    assert!(blame.is_none());
    assert!(record.succeeded);
    assert_eq!(record.first_token_ms, Some(3));
    assert_eq!(record.usage, usage);
    assert!(relay.recorder.call_event().is_none());

    let mut relay = call(&["a"], true);
    relay.begin(1).unwrap();
    relay.commit_stream(200);
    let (record, blame) = relay.stream_ended(usage, true, 200, 2);
    assert_eq!(blame.unwrap().category, "upstream_semantic_failure");
    assert!(!record.succeeded);
    assert_eq!(record.usage, None);
    assert_eq!(record.attempts[0].outcome, "stream_terminated");

    let mut relay = call(&["a"], true);
    relay.begin(1).unwrap();
    relay.commit_stream(200);
    let (record, blame) = relay.stream_failed(&relay_idle_error(), 200, 2);
    assert!(blame.is_none());
    assert_eq!(record.attempts[0].failure_category.as_deref(), Some("upstream_timeout"));
    assert_eq!(relay.recorder.call_event().unwrap().code, "call.stream_terminated");

    let mut relay = call(&["a"], true);
    relay.begin(1).unwrap();
    relay.commit_stream(200);
    let (_, blame) = relay.stream_failed(&relay_upstream_transport_error(false), 200, 2);
    assert_eq!(blame.unwrap().http_status, Some(200));
}

#[test]
fn abandoned_streams_blame_no_route() {
    let mut relay = call(&["a"], true);
    relay.begin(1).unwrap();
    relay.commit_stream(200);
    let record = relay.abandon(2).unwrap();
    assert!(!record.succeeded);
    assert_eq!(record.attempts[0].outcome, "client_cancelled");
    assert_eq!(relay.recorder.call_event().unwrap().code, "call.cancelled");
    assert_eq!(relay.recorder.attempts.len(), 1);
    assert!(relay.final_error.is_none());
    assert!(relay.abandon(3).is_none());
    assert_eq!(relay.recorder.attempts.len(), 1);
}

#[test]
fn names_of_outcomes() {
    assert_eq!(ModelRouteAttemptOutcome::ClientCancelled.as_str(), "client_cancelled");
    assert_eq!(CommitPhase::PreCommit.as_str(), "pre_commit");
    assert_eq!(StreamProtocol::Responses.as_str(), "responses");
    let mut recorder =
        CallRecorder::new("m", StreamProtocol::Responses, false, 0, 0, "c".to_owned());
    assert!(recorder.call_event().is_none());
    recorder.begin_model_route_attempt(&candidate("a"), 1);
    recorder.finish_model_route_attempt(
        None,
        None,
        CommitPhase::Committed,
        ModelRouteAttemptOutcome::Success,
        2,
    );
    assert!(recorder.call_event().is_none());
    assert_eq!(recorder.committed_route_id().unwrap(), "a");
}

#[test]
fn probes_ask_and_judge() {
    let request = probe_request("chat_completions", "http://u/v1", "m").unwrap();
    assert_eq!(request.endpoint, "http://u/v1/chat/completions");
    assert_eq!(
        write_json(&request.body),
        r#"{"model":"m","messages":[{"role":"user","content":"ping"}],"max_tokens":1,"stream":false}"#
    );
    let request = probe_request("responses", "http://u/v1", "m").unwrap();
    assert_eq!(request.endpoint, "http://u/v1/responses");
    assert_eq!(
        write_json(&request.body),
        r#"{"model":"m","input":"ping","max_output_tokens":1,"stream":false}"#
    );
    assert!(probe_request("grpc", "http://u", "m").is_none());
    assert_eq!(judge_probe("chat_completions", 200, &Some(json(ANSWER))), (true, Some(200)));
    assert_eq!(judge_probe("chat_completions", 500, &Some(json(ANSWER))), (false, Some(500)));
    assert_eq!(judge_probe("chat_completions", 200, &None), (false, Some(200)));
    assert_eq!(judge_probe("responses", 200, &Some(json(ANSWER))), (false, Some(200)));
}

#[test]
fn catalogs() {
    assert_eq!(catalog_endpoint("http://u/v1//"), "http://u/v1/models");
    let body = json(r#"{"object":"list","data":[{"id":"b"},{"id":"a"},{"id":"b"},{"x":1},{"id":5}]}"#);
    assert_eq!(read_catalog(200, &body).unwrap(), ["a", "b"]);
    assert_eq!(read_catalog(404, &body).unwrap_err(), "catalog status 404");
    assert_eq!(
        read_catalog(200, &json(r#"{"data":[]}"#)).unwrap_err(),
        "upstream did not return a models list"
    );
    assert!(read_catalog(200, &json(r#"{"object":"list"}"#)).unwrap().is_empty());
    let names = vec!["a".to_owned()];
    assert!(light_validation_passes(Some(&names), "a"));
    assert!(!light_validation_passes(Some(&names), "b"));
    assert!(!light_validation_passes(None, "a"));
    assert_eq!(startup_check(Some(&names), "a"), CheckPlan::Settled(true, 200));
    assert_eq!(startup_check(Some(&names), "b"), CheckPlan::Probe);
    assert_eq!(recovery_check(Some(&names), "a"), CheckPlan::Probe);
    assert_eq!(recovery_check(Some(&names), "b"), CheckPlan::Settled(false, 200));
    assert_eq!(recovery_check(None, "b"), CheckPlan::Probe);
    assert_eq!(freshness_check(Some(&names), "a"), CheckPlan::Leave);
    assert_eq!(freshness_check(None, "a"), CheckPlan::Probe);
}

#[test]
fn periodic_tasks() {
    assert!(!is_task_due(0, 0, 1_000_000));
    assert!(!is_task_due(600, 0, 599));
    assert!(is_task_due(600, 0, 600));
    assert!(is_task_due(600, i64::MIN, i64::MAX));
}

#[test]
fn probes_are_grouped_and_claimed() {
    let probe = |route: &str, provider: &str| ProbeConfiguration {
        route_id: route.to_owned(),
        provider_id: provider.to_owned(),
        base_url: format!("http://{provider}"),
        api_key: "k".to_owned(),
        upstream_model_name: "m".to_owned(),
        protocol: "responses".to_owned(),
        quarantine_epoch: 0,
    };
    let groups = group_by_provider(vec![probe("1", "x"), probe("2", "y"), probe("3", "x")]);
    assert_eq!(groups.len(), 2);
    assert_eq!(groups[0].provider_id, "x");
    assert_eq!(groups[0].base_url, "http://x");
    let ids: Vec<_> = groups[0].probes.iter().map(|p| p.route_id.as_str()).collect();
    assert_eq!(ids, ["1", "3"]);
    let order: Vec<_> = groups.iter().map(|group| group.provider_id.as_str()).collect();
    assert_eq!(order, ["x", "y"]);
    let mut in_flight = InFlight::new();
    assert!(in_flight.claim("1"));
    assert!(!in_flight.claim("1"));
    assert!(in_flight.claim("2"));
    in_flight.release("1");
    assert!(in_flight.claim("1"));
    assert!(!in_flight.claim("2"));
}
