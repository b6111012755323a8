use local_api_relay::admin::store_error_to_admin;
use local_api_relay::json::write_json;
use local_api_relay::keys::relay_secret;
use local_api_relay::operations::{health_counts, route_status};
use local_api_relay::protocol::StreamProtocol;
use local_api_relay::recovery::{Clocks, RouteHealth, SettingsRequest};
use local_api_relay::routing::{
    effective_candidates, effective_health, listed_models, note_probe_result, note_quarantine,
    HealthOverlay,
};
use local_api_relay::store::{Store, StoreError};

const CLOCKS: Clocks = Clocks { schedule_ms: 1_000_000, epoch_s: 1_000 };

fn refusal(error: StoreError) -> (Option<&'static str>, String) {
    (error.field, error.message)
}

/// Two providers, a model, and three chat routes at the prices 2, 1 and 1.
fn store() -> Store {
    let mut store = Store::fresh(17);
    store
        .create_provider("p1".to_owned(), 1, "Beta", "http://127.0.0.1:1/v1", "k1")
        .unwrap();
    store
        .create_provider("p2".to_owned(), 2, "Alpha", "http://127.0.0.1:2/v1", "k2")
        .unwrap();
    store.create_published_model("house", "1", "2", "0.5").unwrap();
    store
        .create_model_route("r1".to_owned(), 3, "house", "p1", "up-a", "chat_completions", "2")
        .unwrap();
    store
        .create_model_route("r3".to_owned(), 3, "house", "p1", "up-b", "chat_completions", "1")
        .unwrap();
    store
        .create_model_route("r2".to_owned(), 3, "house", "p2", "up-a", "chat_completions", "1")
        .unwrap();
    store
        .create_model_route("r4".to_owned(), 3, "house", "p2", "up-a", "responses", "1")
        .unwrap();
    assert!(store.is_consistent());
    store
}

fn key(store: &mut Store, id: &str, routes: &[&str]) {
    let ids: Vec<String> = routes.iter().map(|r| (*r).to_owned()).collect();
    let secret = relay_secret("0123456789abcdef");
    store
        .create_relay_access_key(id.to_owned(), secret, vec![1, 2, 3], 10, "laptop", &ids)
        .unwrap();
}

#[test]
fn fresh_installations_publish_the_first_models() {
    let store = Store::fresh(17);
    assert!(store.is_consistent());
    let catalog = store.catalog();
    let names: Vec<_> = catalog.iter().map(|m| m.name.as_str()).collect();
    assert_eq!(names, ["deepseek-v4-flash", "gpt-5.6-sol", "gpt-5.6-terra"]);
    assert_eq!(catalog[0].cached_input_price_rmb, "0.02");
    assert_eq!(catalog[1].output_price_rmb, "30");
}

#[test]
fn providers_are_checked_and_listed() {
    let mut store = store();
    assert_eq!(
        refusal(store.create_provider("p3".to_owned(), 1, " ", "http://x", "k").unwrap_err()),
        (
            Some("display_name"),
            "provider name must be between 1 and 128 characters".to_owned()
        )
    );
    assert_eq!(
        refusal(store.create_provider("p3".to_owned(), 1, "n", "x", "k").unwrap_err()),
        (Some("base_url"), "base URL must be a valid HTTP URL".to_owned())
    );
    assert_eq!(
        refusal(store.create_provider("p3".to_owned(), 1, "n", "http://x", "").unwrap_err()).0,
        Some("api_key")
    );
    let names: Vec<_> = store
        .provider_summaries()
        .into_iter()
        .map(|p| (p.display_name, p.api_key_masked))
        .collect();
    assert_eq!(
        names,
        [("Alpha".to_owned(), "********"), ("Beta".to_owned(), "********")]
    );
    assert_eq!(store.provider_configuration("p1").unwrap().base_url, "http://127.0.0.1:1/v1");
    assert_eq!(
        store.provider_configuration("none").unwrap_err().message,
        "upstream provider does not exist"
    );
    assert_eq!(
        store.provider_connection("p2"),
        Some(("http://127.0.0.1:2/v1".to_owned(), "k2".to_owned()))
    );
    store.create_provider("p0".to_owned(), 3, "Gamma", "http://127.0.0.1:3", "k3").unwrap();
    let ids: Vec<_> = store.provider_connections().into_iter().map(|c| (c.0, c.2)).collect();
    assert_eq!(
        ids,
        [("p0", "k3"), ("p1", "k1"), ("p2", "k2")].map(|(id, key)| (id.to_owned(), key.to_owned()))
    );
}

#[test]
fn a_changed_connection_rechecks_the_providers_routes() {
    let mut store = store();
    for route in ["r1", "r2", "r3"] {
        store.record_probe_result(route, 0, true, Some(200), &CLOCKS).unwrap();
    }
    assert!(store.update_provider("p1", "Renamed", "http://127.0.0.1:1/v1/", " k1 ").unwrap().is_empty());
    let probes = store.update_provider("p1", "Renamed", "http://127.0.0.1:9/v1", "k1").unwrap();
    let ids: Vec<_> = probes.iter().map(|p| p.route_id.as_str()).collect();
    assert_eq!(ids, ["r1", "r3"]);
    assert_eq!(probes[0].base_url, "http://127.0.0.1:9/v1");
    let states: Vec<_> = store.routes.iter().map(|r| r.health.state).collect();
    assert_eq!(
        states,
        [
            RouteHealth::Checking,
            RouteHealth::Checking,
            RouteHealth::Available,
            RouteHealth::Checking
        ]
    );
    assert_eq!(
        store.update_provider("none", "n", "http://x", "k").unwrap_err().message,
        "upstream provider does not exist"
    );
    assert!(store.is_consistent());
}

#[test]
fn models_are_published_priced_and_deprecated() {
    let mut store = store();
    assert_eq!(
        refusal(store.create_published_model(" house ", "1", "1", "1").unwrap_err()),
        (None, "a published model with this name already exists".to_owned())
    );
    assert_eq!(
        refusal(store.create_published_model("x", "1", "-1", "1").unwrap_err()),
        (Some("output_price_rmb"), "output price must not be negative".to_owned())
    );
    store.update_published_model_prices("house", "3", "4.5", "0").unwrap();
    let house = &store.models[3];
    assert_eq!(
        (house.input_price_micros, house.output_price_micros, house.cached_input_price_micros),
        (3_000_000, 4_500_000, 0)
    );
    assert_eq!(
        store.update_published_model_prices("nope", "3", "4", "0").unwrap_err().message,
        "published model does not exist"
    );
    store.deprecate_published_model("house", 50).unwrap();
    store.deprecate_published_model("house", 60).unwrap();
    assert_eq!(store.models[3].deprecated_at, Some(50));
    assert_eq!(
        refusal(
            store
                .create_model_route("r9".to_owned(), 1, "house", "p1", "new", "responses", "1")
                .unwrap_err()
        ),
        (
            Some("published_model_id"),
            "selected published model is deprecated; choose an active model".to_owned()
        )
    );
    key(&mut store, "k", &["r1"]);
    store.record_probe_result("r1", 0, true, None, &CLOCKS).unwrap();
    assert_eq!(store.eligible_chat_routes("k", "house").len(), 1);
}

#[test]
fn routes_are_checked() {
    let mut store = store();
    let mut create = |model: &str, provider: &str, upstream: &str, protocol: &str, cost: &str| {
        refusal(
            store
                .create_model_route("r9".to_owned(), 1, model, provider, upstream, protocol, cost)
                .unwrap_err(),
        )
    };
    assert_eq!(create("house", "p1", "", "responses", "1").0, Some("upstream_model_name"));
    assert_eq!(create("house", "p1", "m", "grpc", "1").0, Some("protocol"));
    assert_eq!(
        create("house", "p1", "m", "responses", "0").1,
        "cost multiplier must be greater than zero"
    );
    assert_eq!(
        create("house", "p1", "m", "responses", "x").1,
        "cost multiplier must be a decimal with at most six decimal places"
    );
    assert_eq!(
        create("house", "none", "m", "responses", "1"),
        (Some("provider_id"), "selected upstream provider does not exist".to_owned())
    );
    assert_eq!(
        create("none", "p1", "m", "responses", "1"),
        (Some("published_model_id"), "selected published model does not exist".to_owned())
    );
    assert_eq!(
        create("house", "p1", " up-a ", "chat_completions", "7"),
        (
            None,
            "a model route with this published model, provider, upstream model, and protocol already exists"
                .to_owned()
        )
    );
}

#[test]
fn routes_are_edited() {
    let mut store = store();
    store.record_probe_result("r1", 0, true, Some(200), &CLOCKS).unwrap();
    assert!(store
        .update_model_route("r1", "house", "p1", "up-a", "chat_completions", "3")
        .unwrap()
        .is_none());
    assert_eq!(store.routes[0].health.state, RouteHealth::Available);
    assert_eq!(store.routes[0].cost_multiplier_micros, 3_000_000);
    let probe = store
        .update_model_route("r1", "house", "p1", "up-c", "chat_completions", "3")
        .unwrap()
        .unwrap();
    assert_eq!(probe.upstream_model_name, "up-c");
    assert_eq!(store.routes[0].health.state, RouteHealth::Checking);
    assert_eq!(
        store
            .update_model_route("none", "house", "p1", "up-d", "chat_completions", "3")
            .unwrap_err()
            .message,
        "model route does not exist"
    );
    assert!(store
        .update_model_route("r1", "house", "p1", "up-b", "chat_completions", "3")
        .unwrap_err()
        .message
        .contains("already exists"));
    assert!(store.is_consistent());
}

#[test]
fn keys_are_made_edited_and_revoked() {
    let mut store = store();
    let ids = vec!["r2".to_owned(), "r1".to_owned()];
    let made = store
        .create_relay_access_key(
            "k".to_owned(),
            relay_secret("0123456789abcdef"),
            vec![9, 9],
            10,
            " laptop ",
            &ids,
        )
        .unwrap();
    assert_eq!(made.secret, "lar_0123456789abcdef");
    assert_eq!(made.secret_prefix, "lar_01234567");
    assert_eq!(made.label, "laptop");
    assert_eq!(made.model_route_ids, ["r1", "r2"]);
    let missing = vec!["r1".to_owned(), "nope".to_owned()];
    assert_eq!(
        refusal(
            store
                .create_relay_access_key(
                    "k2".to_owned(),
                    relay_secret("0123456789abcdef"),
                    vec![],
                    10,
                    "x",
                    &missing
                )
                .unwrap_err()
        ),
        (
            Some("model_route_ids"),
            "selected eligible model route does not exist".to_owned()
        )
    );
    assert_eq!(
        store.update_relay_access_key("none", "x", &ids).unwrap_err().message,
        "relay access key does not exist"
    );
    store.update_relay_access_key("k", "desk", &vec!["r3".to_owned()]).unwrap();
    assert!(store.key_allows_route("k", "r3"));
    assert!(!store.key_allows_route("k", "r1"));
    assert_eq!(store.authenticate_relay_access_key(&[9, 9]), Some("k".to_owned()));
    assert_eq!(store.authenticate_relay_access_key(&[9]), None);
    store.revoke_relay_access_key("k", 77).unwrap();
    store.revoke_relay_access_key("k", 88).unwrap();
    assert_eq!(store.keys[0].revoked_at, Some(77));
    assert_eq!(store.authenticate_relay_access_key(&[9, 9]), None);
    assert_eq!(
        store.revoke_relay_access_key("none", 1).unwrap_err().message,
        "relay access key does not exist"
    );
}

#[test]
fn keys_are_searched() {
    let mut store = store();
    let routes = vec!["r1".to_owned()];
    for (id, at, label) in [("a", 5, "Laptop"), ("b", 9, "desk_top"), ("c", 9, "100% phone")] {
        store
            .create_relay_access_key(
                id.to_owned(),
                relay_secret(&format!("{id}bcdefghijklmnop")),
                vec![at as u8],
                at,
                label,
                &routes,
            )
            .unwrap();
    }
    let found = |search: Option<&str>| -> Vec<String> {
        store.relay_access_keys(search).into_iter().map(|k| k.id).collect()
    };
    assert_eq!(found(None), ["b", "c", "a"]);
    assert_eq!(found(Some("  TOP ")), ["b", "a"]);
    assert_eq!(found(Some("k_t")), ["b"]);
    assert_eq!(found(Some("%ph")), ["c"]);
    assert_eq!(found(Some("lar_a")), ["a"]);
    assert!(found(Some("zzz")).is_empty());
    assert_eq!(
        store.relay_access_keys(Some("laptop"))[0].secret.as_deref(),
        Some("lar_abcdefghijklmnop")
    );
    let mut old = Store::fresh(16);
    old.create_provider("p".to_owned(), 1, "n", "http://x", "k").unwrap();
    old.create_published_model("m", "1", "1", "1").unwrap();
    old.create_model_route("r1".to_owned(), 1, "m", "p", "u", "responses", "1").unwrap();
    key(&mut old, "k", &["r1"]);
    assert_eq!(old.relay_access_keys(None)[0].secret, None);
}

#[test]
fn candidates_come_cheapest_first() {
    let mut store = store();
    key(&mut store, "k", &["r1", "r2", "r3", "r4"]);
    for route in ["r1", "r2", "r3"] {
        store.record_probe_result(route, 0, true, Some(200), &CLOCKS).unwrap();
    }
    let order = |store: &Store, overlay: &HealthOverlay| -> Vec<String> {
        effective_candidates(overlay, store.eligible_chat_routes("k", "house"))
            .into_iter()
            .map(|c| c.route_id)
            .collect()
    };
    let mut overlay = HealthOverlay::new();
    assert_eq!(order(&store, &overlay), ["r2", "r3", "r1"]);
    note_quarantine(&mut overlay, "r2", "upstream_timeout", false);
    assert_eq!(order(&store, &overlay), ["r3", "r1"]);
    note_quarantine(&mut overlay, "r2", "upstream_timeout", true);
    assert_eq!(order(&store, &overlay), ["r2", "r3", "r1"]);
    // The other protocol's route is being checked, and never a chat candidate.
    assert!(effective_candidates(&overlay, store.eligible_responses_routes("k", "house")).is_empty());
    assert!(store.has_eligible_responses_route("k", "house"));
    note_probe_result(&mut overlay, "r4", true, false);
    assert_eq!(effective_health(&overlay, "r4", RouteHealth::Checking), RouteHealth::Available);
    assert_eq!(
        effective_candidates(&overlay, store.eligible_responses_routes("k", "house")).len(),
        1
    );
    assert!(!store.has_eligible_chat_route("k", "gpt-5.6-sol"));
    assert!(!store.has_eligible_chat_route("other", "house"));
    // A new route is not authorized.
    store
        .create_model_route("r0".to_owned(), 3, "house", "p2", "up-z", "chat_completions", "0.1")
        .unwrap();
    store.record_probe_result("r0", 0, true, Some(200), &CLOCKS).unwrap();
    assert_eq!(order(&store, &overlay), ["r2", "r3", "r1"]);
}

#[test]
fn calls_without_a_candidate_are_refused() {
    let mut store = store();
    key(&mut store, "k", &["r1", "r2", "r4"]);
    let overlay = HealthOverlay::new();
    let chat = StreamProtocol::ChatCompletions;
    // Set up, but still being checked.
    let refused = store.candidates_or_refusal(&overlay, chat, "k", "house").unwrap_err();
    assert_eq!((refused.status, refused.code), (503, Some("no_available_route")));
    // Not set up for the model, or for the key.
    for (key_id, model) in [("k", "gpt-5.6-sol"), ("other", "house")] {
        let refused = store.candidates_or_refusal(&overlay, chat, key_id, model).unwrap_err();
        assert_eq!((refused.status, refused.code), (404, Some("model_not_found")));
    }
    for route in ["r1", "r2"] {
        store.record_probe_result(route, 0, true, Some(200), &CLOCKS).unwrap();
    }
    let candidates = store.candidates_or_refusal(&overlay, chat, "k", "house").unwrap();
    let ids: Vec<_> = candidates.iter().map(|c| c.route_id.as_str()).collect();
    assert_eq!(ids, ["r2", "r1"]);
    let refused = store
        .candidates_or_refusal(&overlay, StreamProtocol::Responses, "k", "house")
        .unwrap_err();
    assert_eq!(refused.status, 503);
}

#[test]
fn models_are_listed_while_available() {
    let mut store = store();
    key(&mut store, "k", &["r1", "r2", "r4"]);
    let overlay = HealthOverlay::new();
    assert!(listed_models(&overlay, &store.eligible_model_route_health("k")).is_empty());
    store.record_probe_result("r1", 0, true, Some(200), &CLOCKS).unwrap();
    store.record_probe_result("r2", 0, true, Some(200), &CLOCKS).unwrap();
    assert_eq!(listed_models(&overlay, &store.eligible_model_route_health("k")), ["house"]);
    assert!(listed_models(&overlay, &store.eligible_model_route_health("none")).is_empty());
}

#[test]
fn start_discards_recorded_health() {
    let mut store = store();
    key(&mut store, "k", &["r1"]);
    store.record_probe_result("r1", 0, true, Some(200), &CLOCKS).unwrap();
    let probes = store.startup_probe_configurations();
    let ids: Vec<_> = probes.iter().map(|p| p.route_id.as_str()).collect();
    assert_eq!(ids, ["r1", "r2", "r3", "r4"]);
    assert!(effective_candidates(&HealthOverlay::new(), store.eligible_chat_routes("k", "house"))
        .is_empty());
}

#[test]
fn quarantine_and_recovery() {
    let mut store = store();
    store.record_probe_result("r1", 0, true, Some(200), &CLOCKS).unwrap();
    assert!(!store.quarantine_route("r1", "upstream_http_5xx", Some(503), &CLOCKS).unwrap());
    assert_eq!(store.routes[0].health.state, RouteHealth::Available);
    store.clear_route_failure_count("r1");
    assert!(!store.quarantine_route("r1", "upstream_http_5xx", Some(503), &CLOCKS).unwrap());
    assert!(store.quarantine_route("r1", "upstream_timeout", None, &CLOCKS).unwrap());
    let health = &store.routes[0].health;
    assert_eq!(health.state, RouteHealth::Unavailable);
    assert_eq!(health.failure_category.as_deref(), Some("upstream_timeout"));
    assert_eq!(health.next_probe_at_ms, Some(1_030_000));
    assert_eq!(health.quarantine_epoch, 1);
    // A probe from before the quarantine is discarded.
    assert!(!store.record_probe_result("r1", 0, true, Some(200), &CLOCKS).unwrap());
    assert_eq!(store.routes[0].health.state, RouteHealth::Unavailable);
    assert!(store.recovery_due_probes(1_029_999).is_empty());
    assert!(store.recovery_due_probes(i64::MIN).is_empty());
    let due = store.recovery_due_probes(1_030_000);
    assert_eq!((due.len(), due[0].quarantine_epoch), (1, 1));
    // Failed probes double the interval.
    for (k, expected) in [(1, 60_000), (2, 120_000), (3, 240_000), (4, 480_000), (5, 960_000), (6, 960_000)] {
        assert!(store.record_probe_result("r1", 1, false, None, &CLOCKS).unwrap());
        let health = &store.routes[0].health;
        assert_eq!(health.failed_probe_count, k);
        assert_eq!(health.next_probe_at_ms, Some(1_000_000 + expected));
        assert_eq!(health.failure_category.as_deref(), Some("native_check_failed"));
    }
    assert!(store.record_probe_result("r1", 1, true, Some(200), &CLOCKS).unwrap());
    assert_eq!(store.routes[0].health.next_probe_at_ms, None);
    assert_eq!(store.available_route_probe_configurations().len(), 1);
    assert_eq!(
        store.record_probe_result("none", 0, true, None, &CLOCKS).unwrap_err().message,
        "model route does not exist"
    );
    assert_eq!(
        store.quarantine_route("none", "x", None, &CLOCKS).unwrap_err().message,
        "Query returned no rows"
    );
    store.reset_route_checking("r1");
    assert_eq!(store.routes[0].health.state, RouteHealth::Checking);
    assert_eq!(store.model_route_probe("r1").unwrap().quarantine_epoch, 1);
    assert!(store.model_route_probe("none").is_err());
}

#[test]
fn old_schemas_quarantine_at_once() {
    let mut store = store();
    store.schema = 13;
    store.record_probe_result("r1", 55, true, Some(200), &CLOCKS).unwrap();
    assert_eq!(store.routes[0].health.last_http_status, None);
    assert!(store.quarantine_route("r1", "upstream_timeout", Some(1), &CLOCKS).unwrap());
    assert_eq!(store.routes[0].health.state, RouteHealth::Unavailable);
    assert_eq!(store.routes[0].health.quarantine_epoch, 0);
    assert!(!store.quarantine_route("none", "x", None, &CLOCKS).unwrap());
    assert_eq!(store.model_route_probe("r1").unwrap().quarantine_epoch, 0);
}

#[test]
fn settings_are_updated() {
    let mut store = store();
    store.record_probe_result("r1", 0, false, None, &CLOCKS).unwrap();
    let request = |base: i64, doubling: i64| SettingsRequest {
        base_interval_ms: base,
        doubling_limit: doubling,
        first_event_timeout_ms: None,
        stream_idle_timeout_ms: None,
        nonstream_timeout_ms: None,
        freshness_interval_ms: None,
        quarantine_threshold: None,
        upstream_sync_interval_ms: None,
    };
    store.update_recovery_settings(&request(100, 0), &CLOCKS).unwrap();
    assert_eq!(store.settings.base_interval_ms, 100);
    assert_eq!(store.settings.quarantine_threshold, 2);
    assert_eq!(store.routes[0].health.next_probe_at_ms, Some(1_000_100));
    let refused = |request: SettingsRequest| {
        let mut copy = Store::fresh(17);
        copy.update_recovery_settings(&request, &CLOCKS).unwrap_err().message
    };
    assert_eq!(
        refused(request(99, 0)),
        "base recovery interval must be between 100 and 86400000 milliseconds"
    );
    assert_eq!(refused(request(100, 21)), "doubling limit must be between 0 and 20");
    assert_eq!(
        refused(SettingsRequest { freshness_interval_ms: Some(-1), ..request(100, 1) }),
        "freshness interval must be between 0 and 86400000 milliseconds"
    );
    assert_eq!(
        refused(SettingsRequest { quarantine_threshold: Some(6), ..request(100, 1) }),
        "quarantine threshold must be between 1 and 5"
    );
    assert_eq!(
        refused(SettingsRequest { upstream_sync_interval_ms: Some(604_800_001), ..request(100, 1) }),
        "upstream sync interval must be between 0 and 604800000 milliseconds"
    );
    assert_eq!(
        refused(SettingsRequest { first_event_timeout_ms: Some(999), ..request(100, 1) }),
        "first-event timeout must be between 1000 and 3600000 milliseconds"
    );
    assert_eq!(
        refused(SettingsRequest { stream_idle_timeout_ms: Some(0), ..request(100, 1) }),
        "stream idle timeout must be between 1000 and 3600000 milliseconds"
    );
    assert_eq!(
        refused(SettingsRequest { nonstream_timeout_ms: Some(3_600_001), ..request(100, 1) }),
        "non-streaming timeout must be between 1000 and 3600000 milliseconds"
    );
}

#[test]
fn operations_page() {
    let mut store = store();
    store.record_probe_result("r1", 0, true, Some(200), &CLOCKS).unwrap();
    store.record_probe_result("r2", 0, false, None, &CLOCKS).unwrap();
    let snapshot = store.operations_snapshot();
    let ids: Vec<_> = snapshot.routes.iter().map(|r| r.id.as_str()).collect();
    assert_eq!(ids, ["r1", "r2", "r3", "r4"]);
    assert_eq!(snapshot.routes[0].cost_multiplier, "2");
    assert_eq!(snapshot.routes[1].provider_name, "Alpha");
    let mut overlay = HealthOverlay::new();
    note_quarantine(&mut overlay, "r1", "upstream_timeout", false);
    let counts = health_counts(&overlay, &snapshot.routes);
    assert_eq!((counts.available, counts.checking, counts.unavailable), (0, 2, 2));
    let status = route_status(&overlay, &store.settings, 1_060, &snapshot.routes[0]);
    assert_eq!(status.health, RouteHealth::Unavailable);
    assert_eq!(status.failure_category.as_deref(), Some("upstream_timeout"));
    assert_eq!(status.state_age_seconds, Some(60));
    assert_eq!(status.current_interval_ms, Some(30_000));
    let second = route_status(&overlay, &store.settings, 0, &snapshot.routes[1]);
    assert_eq!(second.failure_category.as_deref(), Some("native_check_failed"));
    assert_eq!(second.state_age_seconds, Some(0));
    let third = route_status(&overlay, &store.settings, 0, &snapshot.routes[2]);
    assert_eq!((third.state_age_seconds, third.current_interval_ms), (None, None));
}

#[test]
fn refusals_name_their_field() {
    let mut store = store();
    let error = store.create_published_model("", "1", "1", "1").unwrap_err();
    let answer = store_error_to_admin(error);
    assert_eq!(answer.status, 422);
    assert_eq!(
        write_json(&answer.body()),
        r#"{"error":{"message":"published model name must be between 1 and 128 characters","fields":{"name":"published model name must be between 1 and 128 characters"}}}"#
    );
    let plain = store_error_to_admin(store.deprecate_published_model("none", 1).unwrap_err());
    assert_eq!(
        write_json(&plain.body()),
        r#"{"error":{"message":"published model does not exist"}}"#
    );
}

#[test]
fn inconsistent_configurations_are_noticed() {
    let mut store = store();
    store.routes[0].provider_id = "gone".to_owned();
    assert!(!store.is_consistent());
    let mut twins = Store::fresh(17);
    twins.models[1].id = "gpt-5.6-sol".to_owned();
    assert!(!twins.is_consistent());
    let mut settings = Store::fresh(17);
    settings.settings.quarantine_threshold = 0;
    assert!(!settings.is_consistent());
}
