use local_api_relay::backup::{backup_status, BackupArtifact, BackupState};
use local_api_relay::json::{in_good_form, parse_json, write_json, Json, JsonNumber};
use local_api_relay::keys::{CreatedRelayAccessKey, RelayAccessKeySummary};
use local_api_relay::operations::RouteSummary;
use local_api_relay::pages::{
    counts_page, events_page, integrity_page, listed, made_backup, operations_page, progress_page,
    restored_page, route_page, storage_page, unknown_storage_page, usage_page, OperationalEvent,
    OperationalEventPage, Operations, Page, ProviderListing, Shown,
};
use local_api_relay::recovery::{Clocks, HealthRow, RecoverySettings, RouteHealth};
use local_api_relay::restore::{RestoreOutcome, RestoreProgress, RestoreStage};
use local_api_relay::routing::HealthOverlay;
use local_api_relay::schema::{data_operations_default, ensure_data_operations};
use local_api_relay::storage::StorageHealth;
use local_api_relay::store::{ProviderSummary, Store};
use local_api_relay::usage::{UsageGap, UsageIntegrity};

fn text(page: &Json) -> String {
    assert!(in_good_form(page));
    write_json(page)
}

#[test]
fn names_occur_once_in_a_good_form() {
    let twice = Json::Object(vec![
        ("a".to_owned(), Json::Null),
        ("b".to_owned(), Json::Null),
        ("a".to_owned(), Json::Bool(true)),
    ]);
    assert!(!in_good_form(&twice));
    assert!(!in_good_form(&Json::Array(vec![Json::Null, twice])));
    assert!(!in_good_form(&Json::Number(JsonNumber::Negative(3))));
    assert!(in_good_form(&parse_json(b"[1,-2,2.5,{\"a\":1,\"b\":{\"a\":2}}]").unwrap()));
}

#[test]
fn members_come_in_the_order_written() {
    let mut page = Page::new();
    page.text("z", "\"");
    page.text_if("y", &None);
    page.integer("x", -4);
    page.integer_if("w", Some(5));
    page.count("v", 6);
    page.flag("a", true);
    assert_eq!(text(&page.json()), r#"{"z":"\"","y":null,"x":-4,"w":5,"v":6,"a":true}"#);
    assert_eq!(text(&listed(&vec!["b".to_owned(), "a".to_owned()])), r#"["b","a"]"#);
}

#[test]
fn settings_are_shown() {
    assert_eq!(
        text(&RecoverySettings::default().show()),
        concat_lines(&[
            r#"{"base_interval_ms":30000,"doubling_limit":5,"first_event_timeout_ms":120000,"#,
            r#""stream_idle_timeout_ms":30000,"nonstream_timeout_ms":120000,"#,
            r#""freshness_interval_ms":600000,"quarantine_threshold":2,"#,
            r#""upstream_sync_interval_ms":86400000}"#,
        ])
    );
}

fn concat_lines(lines: &[&str]) -> String {
    lines.concat()
}

fn artifact() -> BackupArtifact {
    BackupArtifact {
        name: "backup-000001-a.sqlite3".to_owned(),
        path: "/b/backup-000001-a.sqlite3".to_owned(),
        sequence: 1,
        created_at: 50,
        trigger: "manual".to_owned(),
        schema_version: 17,
        size: 4096,
    }
}

#[test]
fn backups_are_shown() {
    assert_eq!(
        text(&artifact().show()),
        r#"{"name":"backup-000001-a.sqlite3","created_at":50,"trigger":"manual","schema_version":17,"size":4096}"#
    );
    assert_eq!(
        text(&made_backup(&artifact())),
        r#"{"created_at":50,"trigger":"manual","schema_version":17,"size":4096}"#
    );
    assert_eq!(
        text(&backup_status(&BackupState::default(), &vec![artifact()], 0, 60).show()),
        concat_lines(&[
            r#"{"state":"ok","last_backup_at":50,"last_trigger":"manual","schema_version":17,"#,
            r#""last_size":4096,"next_auto_backup_at":86400,"count":1,"retention":10,"#,
            r#""last_failed_stage":null,"last_failed_reason":null}"#,
        ])
    );
}

#[test]
fn migrations_are_shown() {
    let quiet = text(&data_operations_default(17).show());
    assert!(quiet.contains(r#""pre_backup":null,"last_phase":"none""#));
    let moved = ensure_data_operations(
        None,
        17,
        "migrated",
        Some(12),
        Some(true),
        Some("backup-000001-a.sqlite3".to_owned()),
    );
    assert!(text(&moved.show()).contains(
        r#""pre_backup":{"ok":true,"name":"backup-000001-a.sqlite3","schema_version":12}"#
    ));
}

fn gap(kind: &'static str, ended_at_ms: Option<i64>) -> UsageGap {
    UsageGap {
        kind,
        category: "call_records".to_owned(),
        started_at_ms: 7,
        ended_at_ms,
        lost_records: 2,
    }
}

#[test]
fn storage_is_shown_with_its_open_gaps() {
    let mut health = StorageHealth::healthy(3);
    let integrity = UsageIntegrity {
        complete: false,
        gaps: vec![gap("persistence", Some(9)), gap("persistence", None)],
    };
    health.mark_failed("call_records", "disk full", Some(1), 4);
    assert_eq!(
        text(&storage_page(&health, &integrity)),
        concat_lines(&[
            r#"{"state":"degraded","since":4,"categories":[{"category":"call_records","since":4,"#,
            r#""error":"disk full","lost_records":1}],"accounting_gaps":[{"#,
            r#""category":"call_records","started_at_ms":7,"ended_at_ms":null,"lost_records":2}]}"#,
        ])
    );
    assert_eq!(
        text(&unknown_storage_page(8)),
        r#"{"state":"not_ready","since":8,"categories":[],"accounting_gaps":[]}"#
    );
}

#[test]
fn usage_is_shown_with_its_gaps() {
    let whole = UsageIntegrity { complete: true, gaps: Vec::new() };
    assert_eq!(text(&usage_page(&whole, false)), r#"{"state":"no_data","gaps":[]}"#);
    assert_eq!(text(&usage_page(&whole, true)), r#"{"state":"complete","gaps":[]}"#);
    let broken = UsageIntegrity { complete: false, gaps: vec![gap("persistence", None)] };
    let shown = r#"{"kind":"persistence","category":"call_records","started_at_ms":7,"ended_at_ms":null,"lost_records":2}"#;
    assert_eq!(
        text(&usage_page(&broken, true)),
        format!(r#"{{"state":"incomplete","gaps":[{shown}]}}"#)
    );
    assert_eq!(
        text(&integrity_page(&broken)),
        format!(r#"{{"complete":false,"gaps":[{shown}]}}"#)
    );
}

fn route() -> RouteSummary {
    RouteSummary {
        id: "r".to_owned(),
        published_model_id: "m".to_owned(),
        published_model_name: "gpt-5.6-sol".to_owned(),
        provider_id: "p".to_owned(),
        provider_name: "P".to_owned(),
        upstream_model_name: "up".to_owned(),
        protocol: "responses".to_owned(),
        cost_multiplier: "1.5".to_owned(),
        health: RouteHealth::Available,
        last_checked_at: Some(40),
        failure_category: None,
        last_http_status: Some(200),
        failed_probe_count: 0,
        next_probe_at_ms: None,
    }
}

#[test]
fn routes_are_shown() {
    let overlay = HealthOverlay::new();
    assert_eq!(
        text(&route_page(&overlay, &RecoverySettings::default(), 50, &route())),
        concat_lines(&[
            r#"{"id":"r","published_model_id":"m","published_model_name":"gpt-5.6-sol","#,
            r#""provider_id":"p","provider_name":"P","upstream_model_name":"up","#,
            r#""protocol":"responses","cost_multiplier":"1.5","health":"available","#,
            r#""last_checked_at":40,"failure_category":null,"last_http_status":200,"#,
            r#""state_age_seconds":10,"failed_probe_count":0,"next_probe_at_ms":null,"#,
            r#""current_interval_ms":null}"#,
        ])
    );
    assert_eq!(
        text(&counts_page(&overlay, &vec![route(), route()])),
        r#"{"available":2,"checking":0,"unavailable":0}"#
    );
}

#[test]
fn operations_are_shown() {
    let parts = Operations {
        settings: RecoverySettings::default(),
        backups: backup_status(&BackupState::default(), &Vec::new(), 0, 60),
        migration: data_operations_default(17),
        integrity: UsageIntegrity { complete: true, gaps: Vec::new() },
        has_data: false,
        catalog: Vec::new(),
        providers: vec![ProviderListing {
            summary: ProviderSummary {
                id: "p".to_owned(),
                display_name: "P".to_owned(),
                api_key_masked: "****",
            },
            models: vec!["one".to_owned()],
            fetched_at_ms: Some(9),
        }],
        routes: vec![route()],
    };
    let page = operations_page(&parts, None, &HealthOverlay::new(), 60);
    let names: Vec<&str> = match &page {
        Json::Object(members) => members.iter().map(|member| member.0.as_str()).collect(),
        _ => panic!("expected an object"),
    };
    assert_eq!(
        names,
        [
            "storage",
            "model_routes",
            "recovery",
            "backups",
            "migration",
            "usage",
            "catalog",
            "providers",
            "routes"
        ]
    );
    let written = text(&page);
    assert!(written.starts_with(r#"{"storage":{"state":"not_ready","since":60,"#));
    assert!(written.contains(
        r#""providers":[{"id":"p","display_name":"P","api_key_masked":"****","cached_models":["one"],"catalog_fetched_at_ms":9}]"#
    ));
    let healthy = StorageHealth::healthy(3);
    assert!(text(&operations_page(&parts, Some(&healthy), &HealthOverlay::new(), 60))
        .starts_with(r#"{"storage":{"state":"healthy","since":3,"#));
}

#[test]
fn restores_are_shown() {
    assert_eq!(text(&progress_page(&None, 5)), r#"{"state":"idle"}"#);
    let mut progress = RestoreProgress::begin("b".to_owned(), 5, vec![1]);
    progress.reach(RestoreStage::Verify);
    assert_eq!(
        text(&progress_page(&Some(progress.clone()), 6)),
        r#"{"state":"restoring","candidate":"b","stage":"verify","stages":["verify"],"started_at":5}"#
    );
    progress.finish(20);
    let done = Some(progress);
    assert_eq!(
        text(&progress_page(&done, 30)),
        r#"{"state":"recent","candidate":"b","stages":["verify"],"completed_at":20}"#
    );
    assert_eq!(text(&progress_page(&done, 31)), r#"{"state":"idle"}"#);
    let outcome = RestoreOutcome {
        candidate_name: "b".to_owned(),
        candidate_schema: 12,
        restored_schema: 17,
        pre_restore_backup_name: "before".to_owned(),
        completed_at: 20,
        probe_configurations: Vec::new(),
    };
    assert_eq!(
        text(&restored_page(&outcome)),
        concat_lines(&[
            r#"{"restored_from":"b","candidate_schema":12,"schema_version":17,"#,
            r#""pre_restore_backup":"before","completed_at":20,"routes_reset_to_checking":0}"#,
        ])
    );
}

#[test]
fn keys_are_shown() {
    let created = CreatedRelayAccessKey {
        id: "k".to_owned(),
        secret: "lar_x".to_owned(),
        secret_prefix: "lar_".to_owned(),
        label: "L".to_owned(),
        created_at: 4,
        model_route_ids: vec!["r".to_owned()],
    };
    assert_eq!(
        text(&created.show()),
        r#"{"id":"k","label":"L","prefix":"lar_","created_at":4,"model_route_ids":["r"],"secret":"lar_x"}"#
    );
    let summary = RelayAccessKeySummary {
        id: "k".to_owned(),
        secret_prefix: "lar_".to_owned(),
        secret: None,
        label: "L".to_owned(),
        created_at: 4,
        revoked_at: Some(6),
        model_route_ids: Vec::new(),
    };
    assert_eq!(
        text(&summary.show()),
        r#"{"id":"k","prefix":"lar_","label":"L","created_at":4,"revoked_at":6,"secret":null,"model_route_ids":[]}"#
    );
}

#[test]
fn history_is_shown() {
    let listing = OperationalEventPage {
        events: vec![OperationalEvent {
            id: 3,
            occurred_at_ms: 9,
            section: "backup".to_owned(),
            severity: "info".to_owned(),
            event_code: "backup_created".to_owned(),
            version: "0.1.0".to_owned(),
            correlation_id: None,
            payload: parse_json(b"{\"size\":1}").unwrap(),
        }],
        total: 21,
    };
    assert_eq!(
        text(&events_page(listing, 2, 20)),
        concat_lines(&[
            r#"{"events":[{"id":3,"occurred_at_ms":9,"section":"backup","severity":"info","#,
            r#""event_code":"backup_created","version":"0.1.0","correlation_id":null,"#,
            r#""payload":{"size":1}}],"page":2,"page_size":20,"total":21}"#,
        ])
    );
}

#[test]
fn clocks_and_counters_have_room() {
    let clocks = |schedule_ms| Clocks { schedule_ms, epoch_s: 0 };
    assert!(clocks(i64::MAX - 90_596_966_400_000).fits());
    assert!(!clocks(i64::MAX - 90_596_966_399_999).fits());
    let mut health = HealthRow::unchecked();
    assert!(health.counters_fit());
    health.quarantine_epoch = i64::MAX;
    assert!(!health.counters_fit());
    health.quarantine_epoch = -1;
    assert!(!health.counters_fit());
    assert!(Store::fresh(17).counters_fit());
}
