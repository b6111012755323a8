use local_api_relay::backup::{
    artifact_name, backup_sequence, backup_status, find_artifact, new_artifact_name,
    normalize_backup_error, normalize_directory_error, order_artifacts,
    verify_destination, verify_snapshot, BackupArtifact, BackupEvent, BackupFailure, BackupRun,
    BackupState, BackupStep, SnapshotWrites, TriggerKind,
};
use local_api_relay::catalog::CatalogCache;
use local_api_relay::daily::add_entry;
use local_api_relay::protocol::Usage;
use local_api_relay::recorder::{ModelRouteAttempt, NewCallRecord};
use local_api_relay::restore::{
    LiveFile, Restore, RestoreEvent, RestoreProgress, RestoreStage, RestoreStep, RestoreView, Swap,
    SwapStep,
};
use local_api_relay::schema::{
    data_operations_default, ensure_data_operations, migration_steps, open_plan, refuse_empty,
    supported_schema, OpenPlan,
};
use local_api_relay::storage::{StorageHealth, StorageState};
use local_api_relay::store::Store;
use local_api_relay::usage::{
    accounting_gaps, close_usage_gaps, daily_entry, expiry_cutoff, normalize_usage_window,
    record_usage_gap, usage_integrity, usage_integrity_all, usage_state, usage_totals,
    window_span_ms, CostParts, DailyEntry, UsageRow,
};

fn record(succeeded: bool, usage: Option<Usage>) -> NewCallRecord {
    NewCallRecord {
        created_at_ms: 86_400_000,
        published_model_name: "gpt-5.6-sol".to_owned(),
        protocol: "responses".to_owned(),
        streamed: false,
        succeeded,
        success_provider_id: Some("p".to_owned()),
        success_provider_name: Some("P".to_owned()),
        usage,
        completion_ms: None,
        first_token_ms: None,
        attempts: vec![
            ModelRouteAttempt {
                sequence: 0,
                route_id: "gone".to_owned(),
                provider_id: "q".to_owned(),
                provider_name: "Q".to_owned(),
                started_at_ms: 0,
                duration_ms: 0,
                http_status: None,
                failure_category: None,
                commit_phase: "pre_commit".to_owned(),
                outcome: "fallback".to_owned(),
            },
            ModelRouteAttempt {
                sequence: 1,
                route_id: "r".to_owned(),
                provider_id: "p".to_owned(),
                provider_name: "P".to_owned(),
                started_at_ms: 0,
                duration_ms: 0,
                http_status: None,
                failure_category: None,
                commit_phase: "committed".to_owned(),
                outcome: "success".to_owned(),
            },
        ],
    }
}

#[test]
fn costs_are_made_of_prices_and_tokens() {
    let mut store = Store::fresh(17);
    store.create_provider("p".to_owned(), 1, "P", "http://x", "k").unwrap();
    store
        .create_model_route("r".to_owned(), 1, "gpt-5.6-sol", "p", "m", "responses", "1.5")
        .unwrap();
    let usage = Usage { input_tokens: 10, cached_input_tokens: 4, output_tokens: 3 };
    assert_eq!(
        store.call_cost_parts(&record(true, Some(usage))),
        Some(CostParts {
            uncached_tokens: 6,
            cached_tokens: 4,
            output_tokens: 3,
            input_price_micros: 5_000_000,
            cached_input_price_micros: 500_000,
            output_price_micros: 30_000_000,
            cost_multiplier_micros: 1_500_000,
        })
    );
    let odd = Usage { input_tokens: 1, cached_input_tokens: 4, output_tokens: 0 };
    assert_eq!(
        store.call_cost_parts(&record(true, Some(odd))).unwrap().uncached_tokens,
        0
    );
    assert_eq!(store.call_cost_parts(&record(false, Some(usage))), None);
    assert_eq!(store.call_cost_parts(&record(true, None)), None);
    assert_eq!(Store::fresh(17).call_cost_parts(&record(true, Some(usage))), None);
    let entry = daily_entry(&record(true, Some(usage)), true).unwrap();
    assert_eq!((entry.day.as_str(), entry.provider_id.as_str()), ("1970-01-02", "p"));
    assert!(daily_entry(&record(true, Some(usage)), false).is_none());
    assert!(daily_entry(&record(true, None), true).is_none());
}

#[test]
fn windows() {
    assert_eq!(window_span_ms("1h"), Some(3_600_000));
    assert_eq!(window_span_ms("5h"), Some(18_000_000));
    assert_eq!(window_span_ms("24h"), Some(86_400_000));
    assert_eq!(window_span_ms("7d"), Some(604_800_000));
    assert_eq!(window_span_ms("14d"), Some(1_209_600_000));
    assert_eq!(window_span_ms("all"), None);
    assert_eq!(normalize_usage_window(Some("all")), "all");
    assert_eq!(normalize_usage_window(Some("2h")), "24h");
    assert_eq!(normalize_usage_window(None), "24h");
    assert_eq!(expiry_cutoff(101, 100), 1);
    assert_eq!(expiry_cutoff(i64::MIN, 100), i64::MIN);
    assert_eq!(usage_state(0, false), "no_data");
    assert_eq!(usage_state(0, true), "complete");
    assert_eq!(usage_state(1, false), "incomplete");
}

#[test]
fn gaps_open_widen_and_close() {
    let mut gaps = Vec::new();
    assert!(record_usage_gap(&mut gaps, "call_records", 1_000));
    assert!(!record_usage_gap(&mut gaps, "call_records", 2_000));
    assert_eq!((gaps.len(), gaps[0].lost_records), (1, 2));
    assert_eq!(accounting_gaps(&gaps), [0]);
    assert!(close_usage_gaps(&mut gaps, "call_records", 3_000));
    assert!(!close_usage_gaps(&mut gaps, "call_records", 4_000));
    assert_eq!(gaps[0].ended_at_ms, Some(3_000));
    assert!(accounting_gaps(&gaps).is_empty());
    assert!(record_usage_gap(&mut gaps, "call_records", 5_000));
    assert_eq!(gaps.len(), 2);
    let none = Vec::new();
    let all = usage_integrity_all(&gaps, &none);
    assert!(!all.complete);
    assert_eq!(all.gaps.len(), 2);
    // The closed gap ended before the last hour began.
    let hour = usage_integrity(&gaps, &none, "1h", 3_604_000);
    assert_eq!(hour.gaps.len(), 1);
    assert_eq!(hour.gaps[0].started_at_ms, 5_000);
    assert_eq!(usage_integrity(&gaps, &none, "1h", 3_603_000).gaps.len(), 2);
    let missing = vec![4_000, 6_000];
    let with_calls = usage_integrity(&gaps, &missing, "1h", 3_604_500);
    let kinds: Vec<_> = with_calls.gaps.iter().map(|g| (g.kind, g.started_at_ms)).collect();
    assert_eq!(kinds, [("persistence", 5_000), ("missing_upstream_usage", 6_000)]);
    assert!(usage_integrity(&Vec::new(), &Vec::new(), "24h", 0).complete);
}

#[test]
fn totals_are_divided_by_model() {
    let row = |model: &str, provider: &str, tokens: i64| UsageRow {
        published_model_name: model.to_owned(),
        provider_id: provider.to_owned(),
        provider_name: provider.to_owned(),
        usage: Usage { input_tokens: tokens, cached_input_tokens: 1, output_tokens: i64::MAX },
    };
    let rows = vec![row("b", "x", 1), row("a", "x", 2), row("b", "y", 4)];
    let shares = usage_totals(&rows);
    assert_eq!(shares.tokens.input_tokens, 7);
    assert_eq!(shares.tokens.output_tokens, 3 * i64::MAX as i128);
    assert_eq!(shares.models.len(), 2);
    assert_eq!(shares.models[0].published_model_name, "b");
    assert_eq!(shares.models[0].rows, [0, 2]);
    assert_eq!(shares.models[0].tokens.input_tokens, 5);
    assert_eq!(shares.models[1].tokens.cached_input_tokens, 1);
}

#[test]
fn daily_totals_grow() {
    let entry = |day: &str, provider: &str, tokens: i64| DailyEntry {
        day: day.to_owned(),
        published_model_name: "m".to_owned(),
        provider_id: provider.to_owned(),
        provider_name: "P".to_owned(),
        usage: Usage { input_tokens: tokens, cached_input_tokens: 1, output_tokens: 2 },
    };
    let mut totals = Vec::new();
    assert!(add_entry(&mut totals, entry("1970-01-01", "p", 5)));
    assert!(add_entry(&mut totals, entry("1970-01-02", "p", 7)));
    assert!(add_entry(&mut totals, entry("1970-01-01", "q", 9)));
    assert!(add_entry(&mut totals, entry("1970-01-01", "p", 3)));
    let inputs: Vec<_> = totals.iter().map(|total| total.usage.input_tokens).collect();
    assert_eq!(inputs, [8, 7, 9]);
    assert_eq!(
        totals[0].usage,
        Usage { input_tokens: 8, cached_input_tokens: 2, output_tokens: 4 }
    );
    assert!(!add_entry(&mut totals, entry("1970-01-01", "p", i64::MAX)));
    assert_eq!(totals[0].usage.input_tokens, 8);
}

fn artifact(sequence: i64, name: &str) -> BackupArtifact {
    BackupArtifact {
        name: name.to_owned(),
        path: format!("/b/{name}"),
        sequence,
        created_at: sequence * 10,
        trigger: "auto".to_owned(),
        schema_version: 17,
        size: 5,
    }
}

#[test]
fn backup_names() {
    assert_eq!(artifact_name(7, 255), "backup-000007-00000000000000ff.sqlite3");
    assert_eq!(artifact_name(-3, u64::MAX), "backup--00003-ffffffffffffffff.sqlite3");
    assert_eq!(backup_sequence("backup-000007-00000000000000ff.sqlite3"), Some(7));
    assert_eq!(backup_sequence("backup-12.sqlite3"), Some(12));
    for name in [
        "backup-.sqlite3",
        "backup-x-1.sqlite3",
        "backup-1-2.sqlite",
        "Backup-1.sqlite3",
        "backup-99999999999999999999-a.sqlite3",
    ] {
        assert_eq!(backup_sequence(name), None, "{name}");
    }
    let one = new_artifact_name(41);
    let two = new_artifact_name(41);
    assert_eq!(backup_sequence(&one), Some(41));
    assert_eq!(one.len(), "backup-000041-0000000000000000.sqlite3".len());
    assert_ne!(one, two);
}

#[test]
fn backups_are_ordered_and_rotated() {
    let ordered = order_artifacts(vec![artifact(1, "a"), artifact(3, "b"), artifact(3, "c")]);
    let names: Vec<_> = ordered.iter().map(|a| a.name.as_str()).collect();
    assert_eq!(names, ["c", "b", "a"]);
    assert_eq!(find_artifact(&ordered, "a"), Some(2));
    assert_eq!(find_artifact(&ordered, "z"), None);
}

#[test]
fn backups_are_made_step_by_step() {
    let counted = SnapshotWrites::Counted(5);
    let mut run = BackupRun::begin(BackupState::default(), TriggerKind::Auto, 1_000, counted);
    let first = run.state.next_sequence;
    assert_eq!(backup_sequence(&run.name), Some(first));
    assert_eq!(run.step, BackupStep::Snapshot);
    assert!(run.advance(BackupEvent::Done).is_none());
    assert_eq!(run.step, BackupStep::Record);
    assert_eq!(run.state.next_sequence, first + 1);
    assert_eq!(run.state.last_auto_backup_at, Some(1_000));
    assert_eq!(run.state.last_snapshot_writes, Some(5));
    assert!(run.advance(BackupEvent::Done).is_none());
    assert_eq!(run.step, BackupStep::List);
    let listed = order_artifacts((1..=12).map(|n| artifact(n, &format!("b{n}"))).collect());
    assert!(run.advance(BackupEvent::Listed(listed)).is_none());
    for name in ["b2", "b1"] {
        assert_eq!(run.step, BackupStep::Remove);
        assert_eq!(run.outdated().name, name);
        assert!(run.advance(BackupEvent::Done).is_none());
    }
    assert_eq!((run.step, run.gone), (BackupStep::Stop, 2));
    assert_eq!(run.state.last_failure_at, None);
    assert!(!run.state.is_auto_backup_due(6, 1_001));
}

#[test]
fn few_backups_are_all_kept() {
    let mut run =
        BackupRun::begin(BackupState::default(), TriggerKind::Manual, 9, SnapshotWrites::Kept);
    run.advance(BackupEvent::Done);
    run.advance(BackupEvent::Done);
    let listed = order_artifacts((1..=10).map(|n| artifact(n, &format!("b{n}"))).collect());
    assert!(run.advance(BackupEvent::Listed(listed)).is_none());
    assert_eq!((run.step, run.gone), (BackupStep::Stop, 0));
}

fn failed(stage: &'static str, reason: &str) -> BackupEvent {
    BackupEvent::Failed(BackupFailure { stage, reason: reason.to_owned() })
}

#[test]
fn failed_backups_remove_only_themselves() {
    let kinds = [SnapshotWrites::Counted(5), SnapshotWrites::Kept, SnapshotWrites::Unknown];
    for writes in kinds {
        let begin = || BackupRun::begin(BackupState::default(), TriggerKind::Manual, 9, writes);

        let mut run = begin();
        let first = run.state.next_sequence;
        let end = run.advance(failed("create", "no room")).unwrap();
        assert_eq!((end.removed == run.name, end.recorded), (true, true));
        assert_eq!(run.step, BackupStep::Stop);
        assert_eq!(run.state.next_sequence, first);
        assert_eq!(run.state.last_failure_stage.as_deref(), Some("create"));
        assert_eq!(run.state.last_failure_reason.as_deref(), Some("no room"));
        assert_eq!(run.state.last_failure_at, Some(9));

        let mut run = begin();
        run.advance(BackupEvent::Done);
        let end = run.advance(BackupEvent::Unwritten).unwrap();
        assert!(end.removed == run.name);
        assert_eq!(
            end.failure.describe(),
            "backup failed at verify: could not record backup state"
        );
        let known = writes != SnapshotWrites::Unknown;
        assert_eq!(end.recorded, known);
        assert_eq!(run.state.last_failure_at.is_some(), known);

        let mut run = begin();
        run.advance(BackupEvent::Done);
        run.advance(BackupEvent::Done);
        let end = run.advance(failed("rotate", "could not list backups")).unwrap();
        assert_eq!((end.removed == run.name, end.recorded), (true, true));
        assert_eq!(run.step, BackupStep::Stop);
        assert_eq!(run.state.next_sequence, first + 1);
        assert_eq!(run.state.last_failure_stage.as_deref(), Some("rotate"));

        let mut run = begin();
        run.advance(BackupEvent::Done);
        run.advance(BackupEvent::Done);
        let listed = order_artifacts((1..=12).map(|n| artifact(n, &format!("b{n}"))).collect());
        run.advance(BackupEvent::Listed(listed));
        run.advance(BackupEvent::Done);
        let end = run
            .advance(failed("rotate", "could not remove an outdated backup"))
            .unwrap();
        assert_eq!((end.removed == run.name, run.gone), (true, 1));
        assert_eq!(run.step, BackupStep::Stop);
    }
}

#[test]
fn failed_backups_do_not_count() {
    let mut state = BackupState::default();
    state.record_backup(TriggerKind::Auto, 1_000, SnapshotWrites::Counted(5));
    let day = 86_400;
    let now = 1_000 + day;
    assert!(state.is_auto_backup_due(6, now));
    let sequence = state.next_sequence;
    let mut run = BackupRun::begin(state, TriggerKind::Auto, now, SnapshotWrites::Counted(6));
    run.advance(BackupEvent::Done);
    assert!(!run.state.is_auto_backup_due(7, now + 3_600));
    run.advance(BackupEvent::Done);
    run.advance(failed("rotate", "could not list backups")).unwrap();
    assert_eq!(run.state.last_auto_backup_at, Some(1_000));
    assert_eq!(run.state.last_snapshot_writes, Some(5));
    assert_eq!(run.state.next_sequence, sequence + 1);
    assert!(run.state.is_auto_backup_due(6, now + 3_600));
    assert!(!run.state.is_auto_backup_due(5, now + 3_600));

    let mut state = BackupState::default();
    state.record_backup(TriggerKind::Auto, 1_000, SnapshotWrites::Counted(5));
    let mut run = BackupRun::begin(state, TriggerKind::Manual, now, SnapshotWrites::Unknown);
    run.advance(BackupEvent::Done);
    assert_eq!(run.state.last_snapshot_writes, None);
    run.advance(BackupEvent::Unwritten).unwrap();
    assert_eq!(run.state.last_snapshot_writes, Some(5));
}

#[test]
fn backup_bookkeeping() {
    let mut state = BackupState::default();
    assert!(state.is_auto_backup_due(5, 1_000));
    state.record_backup(TriggerKind::Auto, 1_000, SnapshotWrites::Counted(5));
    assert_eq!(state.next_sequence, 1);
    assert!(!state.is_auto_backup_due(5, 1_000_000));
    assert!(!state.is_auto_backup_due(6, 87_399));
    assert!(state.is_auto_backup_due(6, 87_400));
    let artifacts = vec![artifact(1, "a")];
    let status = backup_status(&state, &artifacts, 6, 2_000);
    assert_eq!(status.state, "ok");
    assert_eq!(status.next_auto_backup_at, Some(87_400));
    assert_eq!((status.count, status.retention), (1, 10));
    assert_eq!(backup_status(&state, &artifacts, 5, 2_000).next_auto_backup_at, None);
    state.record_backup_failure("verify", "backup integrity check failed", 10);
    let failed = backup_status(&state, &artifacts, 6, 2_000);
    assert_eq!(failed.state, "degraded");
    assert_eq!(failed.last_failed_stage.as_deref(), Some("verify"));
    assert_eq!(backup_status(&state, &Vec::new(), 6, 100_000).state, "degraded");
    state.record_backup(TriggerKind::Migration, 2_000, SnapshotWrites::Kept);
    assert_eq!((state.last_snapshot_writes, state.last_auto_backup_at), (Some(5), Some(1_000)));
    assert_eq!(state.last_failure_at, None);
    state.record_backup(TriggerKind::Manual, 2_000, SnapshotWrites::Unknown);
    assert_eq!(state.last_snapshot_writes, None);
    state.record_backup(TriggerKind::Auto, 3_000, SnapshotWrites::Unknown);
    assert_eq!(state.last_auto_backup_at, Some(1_000));
    assert_eq!(backup_status(&BackupState::default(), &Vec::new(), 0, 5).state, "none");
}

#[test]
fn backups_are_verified() {
    let text = |t: &str| Some(t.to_owned());
    let app = text("local-api-relay");
    let ok = text("ok");
    assert_eq!(verify_destination(&ok, &app, Some(17), Some(17), 17), Ok(()));
    assert_eq!(verify_snapshot(&None, &app), Err("backup integrity check failed"));
    assert_eq!(verify_snapshot(&text("page 3"), &app), Err("backup integrity check failed"));
    assert_eq!(verify_snapshot(&ok, &text("other")), Err("backup identity check failed"));
    assert_eq!(
        verify_destination(&ok, &app, None, Some(17), 17),
        Err("backup identity check failed")
    );
    assert_eq!(
        verify_destination(&ok, &app, Some(16), Some(17), 17),
        Err("backup schema is inconsistent")
    );
    assert_eq!(
        verify_destination(&ok, &app, Some(18), Some(18), 17),
        Err("backup schema is unsupported")
    );
    assert_eq!(
        normalize_backup_error("x: backup schema is unsupported!"),
        "backup schema is unsupported"
    );
    assert_eq!(normalize_backup_error("?"), "backup verification failed");
    assert_eq!(
        normalize_directory_error("could not create /b: denied"),
        "could not create the backup directory"
    );
    assert_eq!(
        normalize_directory_error("could not secure /b"),
        "could not secure the backup directory"
    );
    assert_eq!(normalize_directory_error("?"), "could not prepare the backup directory");
    let failure = BackupFailure { stage: "rotate", reason: "could not list backups".to_owned() };
    assert_eq!(failure.describe(), "backup failed at rotate: could not list backups");
}

#[test]
fn databases_are_opened() {
    assert_eq!(supported_schema(None), 17);
    assert_eq!(supported_schema(Some("12")), 12);
    assert_eq!(supported_schema(Some("18")), 17);
    assert_eq!(supported_schema(Some("0")), 17);
    assert!(refuse_empty("/d", true, true).unwrap().starts_with("SQLite database at /d exists but is empty;"));
    assert!(refuse_empty("/d", false, true).is_none());
    assert!(matches!(open_plan("/d", false, None, 17), OpenPlan::Fresh));
    assert!(matches!(open_plan("/d", true, Some(17), 17), OpenPlan::Current));
    assert!(matches!(open_plan("/d", true, Some(3), 17), OpenPlan::Migrate(3)));
    let refused = |plan| match plan {
        OpenPlan::Refuse(message) => message,
        _ => panic!("expected a refusal"),
    };
    assert!(refused(open_plan("/d", true, None, 17)).contains("has no local-api-relay schema"));
    assert_eq!(
        refused(open_plan("/d", true, Some(18), 17)),
        "SQLite schema version 18 is newer than this binary supports; the database was left untouched — use a newer local-api-relay binary"
    );
    assert_eq!(
        refused(open_plan("/d", true, Some(-1), 17)),
        "SQLite schema version -1 cannot be migrated by this binary; the database was left untouched"
    );
    assert_eq!(migration_steps(14, 17).unwrap(), [14, 15, 16]);
    assert!(migration_steps(17, 17).unwrap().is_empty());
    assert_eq!(
        migration_steps(0, 17).unwrap_err(),
        "SQLite schema version 0 cannot be migrated by this binary"
    );
    assert_eq!(
        migration_steps(16, 19).unwrap_err(),
        "SQLite schema version 17 cannot be migrated by this binary"
    );
}

#[test]
fn operations_are_recorded() {
    let mut status = ensure_data_operations(None, 17, "fresh", None, None, None);
    assert_eq!((status.last_phase.as_str(), status.running_schema), ("none", 17));
    status.record_operation("restore", "ok", 9, None, None, Some("b".to_owned()));
    let again = ensure_data_operations(Some(status), 17, "current", None, None, None);
    assert_eq!((again.migration_state.as_str(), again.last_phase.as_str()), ("current", "restore"));
    assert_eq!(again.restore_source.as_deref(), Some("b"));
    assert_eq!(data_operations_default(12).migration_state, "current");
}

#[test]
fn restores_go_step_by_step() {
    let mut restore = Restore::begin("b".to_owned(), 17);
    assert!(restore.preserved.is_none() && restore.candidate_schema.is_none() && !restore.ready);
    assert_eq!(restore.step.stage(), Some(RestoreStage::Verify));
    assert!(restore.advance(RestoreEvent::Found(true)).is_none());
    assert!(restore.advance(RestoreEvent::Preserved("pre".to_owned())).is_none());
    assert!(restore.advance(RestoreEvent::Found(true)).is_none());
    assert!(restore.advance(RestoreEvent::Done).is_none());
    assert!(restore.advance(RestoreEvent::Checked(12)).is_none());
    assert_eq!(restore.step, RestoreStep::Migrate);
    assert_eq!(restore.step.stage(), Some(RestoreStage::Verify));
    assert!(restore.advance(RestoreEvent::Done).is_none());
    assert!(restore.advance(RestoreEvent::Done).is_none());
    assert_eq!(restore.step, RestoreStep::Switch);
    assert_eq!(restore.step.stage(), Some(RestoreStage::Switch));
    assert!(restore.advance(RestoreEvent::Done).is_none());
    assert_eq!(restore.step, RestoreStep::Recheck);
    assert_eq!(restore.step.stage(), Some(RestoreStage::Recheck));
    assert_eq!(RestoreStep::Stop.stage(), None);
    assert_eq!(restore.restored_state(), ("migrated", Some(12)));
    assert_eq!(restore.preserved.as_deref(), Some("pre"));
}

fn fails(offline: bool, good: Vec<RestoreEvent>, bad: RestoreEvent) -> (&'static str, String, Option<String>) {
    let mut restore = if offline {
        Restore::begin_offline("b".to_owned(), 17)
    } else {
        Restore::begin("b".to_owned(), 17)
    };
    for event in good {
        assert!(restore.advance(event).is_none());
    }
    let failure = restore.advance(bad).unwrap();
    assert_eq!(restore.step, RestoreStep::Stop);
    (failure.stage, failure.reason, failure.source)
}

#[test]
fn failed_restores_are_recorded() {
    let preserved = || RestoreEvent::Preserved("pre".to_owned());
    let source = Some("b".to_owned());
    assert_eq!(
        fails(false, vec![], RestoreEvent::Found(false)),
        ("select", "backup b is not in the managed backup set".to_owned(), None)
    );
    assert_eq!(
        fails(
            true,
            vec![],
            RestoreEvent::PreserveFailed(BackupFailure {
                stage: "create",
                reason: "disk full".to_owned()
            })
        ),
        (
            "backup_current",
            "could not preserve the current database: backup failed at create: disk full".to_owned(),
            source.clone()
        )
    );
    assert_eq!(
        fails(true, vec![preserved()], RestoreEvent::ListFailed).1,
        "could not list the managed backups"
    );
    let staged = || vec![preserved(), RestoreEvent::Found(true)];
    assert_eq!(
        fails(true, staged(), RestoreEvent::Failed("denied".to_owned())),
        (
            "verify_candidate",
            "could not stage the candidate backup: denied".to_owned(),
            source.clone()
        )
    );
    let copied = || vec![preserved(), RestoreEvent::Found(true), RestoreEvent::Done];
    assert_eq!(
        fails(true, copied(), RestoreEvent::Checked(18)).1,
        "backup b has schema v18, newer than this binary supports"
    );
    assert_eq!(
        fails(true, copied(), RestoreEvent::Checked(0)).1,
        "backup b has an unsupported schema version 0"
    );
    assert_eq!(
        fails(
            true,
            copied(),
            RestoreEvent::CheckFailed(BackupFailure {
                stage: "verify",
                reason: "backup identity check failed".to_owned()
            })
        )
        .1,
        "candidate failed verification: backup failed at verify: backup identity check failed"
    );
    let checked = |schema| {
        vec![
            preserved(),
            RestoreEvent::Found(true),
            RestoreEvent::Done,
            RestoreEvent::Checked(schema),
        ]
    };
    assert_eq!(
        fails(true, checked(3), RestoreEvent::Failed("bad".to_owned())),
        ("migrate_candidate", "candidate migration failed: bad".to_owned(), source.clone())
    );
    assert_eq!(
        fails(true, checked(17), RestoreEvent::Failed("busy".to_owned())),
        ("switch", "candidate could not be closed cleanly: busy".to_owned(), source.clone())
    );
    let mut closed = checked(17);
    closed.push(RestoreEvent::Done);
    assert_eq!(
        fails(true, closed, RestoreEvent::Failed("locked".to_owned())),
        ("switch", "could not switch to the candidate: locked".to_owned(), source)
    );
}

#[test]
fn failed_switches_keep_the_database() {
    for good in 0..4 {
        let mut swap = Swap::begin(true);
        for _ in 0..good {
            assert!(swap.advance(true).is_none());
        }
        let undo = swap.advance(false).unwrap();
        assert_eq!(swap.live, LiveFile::Current, "after {good} steps");
        assert_eq!(undo.put_back, good >= 2);
        assert!(undo.reopen);
    }
    let mut swap = Swap::begin(false);
    for step in [SwapStep::MoveAside, SwapStep::MoveIn, SwapStep::Finish, SwapStep::Confirm] {
        assert_eq!(swap.step, step);
        assert!(swap.advance(true).is_none());
    }
    assert_eq!((swap.step, swap.live), (SwapStep::Stop, LiveFile::Candidate));
}

#[test]
fn restore_progress_is_shown() {
    let mut progress = RestoreProgress::begin("b".to_owned(), 5, vec![1]);
    progress.reach(RestoreStage::Verify);
    progress.reach(RestoreStage::Verify);
    progress.reach(RestoreStage::Switch);
    let stages: Vec<_> = progress.stages.iter().map(|s| s.as_str()).collect();
    assert_eq!(stages, ["verify", "switch"]);
    assert_eq!(progress.view_at(9), RestoreView::Restoring);
    progress.finish(100);
    assert_eq!(progress.view_at(110), RestoreView::Recent);
    assert_eq!(progress.view_at(111), RestoreView::Idle);
    assert!(progress.is_visible_to(&Some(vec![1])));
    assert!(!progress.is_visible_to(&Some(vec![2])));
    assert!(!progress.is_visible_to(&None));
}

#[test]
fn storage_degrades_and_recovers() {
    let mut health = StorageHealth::healthy(1);
    assert!(health.mark_failed("route_health", "disk full", Some(1), 5));
    assert!(!health.mark_failed("call_records", "disk full", Some(1), 6));
    assert!(!health.mark_failed("route_health", "still full", Some(2), 7));
    assert_eq!((health.state.as_str(), health.since), ("degraded", 5));
    let names: Vec<_> = health.categories.iter().map(|c| c.category.as_str()).collect();
    assert_eq!(names, ["call_records", "route_health"]);
    assert_eq!(health.categories[1].lost_records, Some(3));
    assert_eq!((health.categories[1].since, health.categories[1].error.as_str()), (5, "still full"));
    assert!(!health.mark_persisted("route_health"));
    assert!(!health.mark_persisted("route_health"));
    assert_eq!(health.settle(true, 8), None);
    health.mark_failed("call_records", "x", None, 9);
    assert_eq!(health.categories[0].lost_records, None);
    assert!(health.mark_persisted("call_records"));
    assert_eq!(health.settle(false, 10), Some(StorageState::NotReady));
    assert_eq!(health.settle(true, 11), Some(StorageState::Healthy));
    assert_eq!(health.since, 11);
}

#[test]
fn catalogs_are_cached() {
    let mut cache = CatalogCache { entries: Vec::new() };
    assert!(cache.cached_upstream_models("p").is_empty());
    cache.cache_upstream_models("p", vec!["b".to_owned(), "a".to_owned()], 5);
    cache.cache_upstream_models("q", vec!["z".to_owned()], 6);
    assert_eq!(cache.cached_upstream_models("p"), ["a", "b"]);
    assert_eq!(cache.cached_upstream_models_fetched_at("q"), Some(6));
    assert!(!cache.cache_upstream_models("q", vec!["y".to_owned(), "y".to_owned()], 7));
    assert_eq!(cache.cached_upstream_models("q"), ["z"]);
    cache.cache_upstream_models("p", Vec::new(), 7);
    assert_eq!(cache.cached_upstream_models_fetched_at("p"), None);
    assert_eq!(cache.cached_upstream_models("q"), ["z"]);
}
