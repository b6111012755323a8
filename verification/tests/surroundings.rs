use local_api_relay::schema::{corrupted_message, unprotected_message, ROLLED_BACK_MESSAGE};
use local_api_relay::faults::{
    fail_check_if_requested, fail_if_requested, fail_migration_if_requested,
    fail_operational_write_if_requested, operational_write_injection_matches,
};
use local_api_relay::admin::{
    check_section, decimal_request_value, page_offset, page_request, password_change_error,
    require_active_session, session_status, AdminError,
};
use local_api_relay::backup::TriggerKind;
use local_api_relay::cli::{
    check_refusal, check_report, displayed_version, parse_port, parse_trigger, upgrade_block,
};
use local_api_relay::json::parse_json;
use local_api_relay::log::{
    is_valid_date, limit_or, needs_rotation, next_rotated_name, parse_date, read_rotated_file,
    sweep, RotatedFile, ROTATION_SIZE_BYTES, TOTAL_CAP_BYTES,
};
use local_api_relay::paths::{
    join, settings_in_use, validate_port, AppPaths, BaseVariables, Platform, ServiceSettings,
};
use local_api_relay::recovery::{recovery_settings, RecoverySettings, RouteHealth};
use local_api_relay::session::{
    bearer_secret, expired_cookie, read_cookie, session_cookie, session_expiry, Administration,
    Session, SessionKind,
};

#[test]
fn ports_and_triggers() {
    assert!(validate_port(1).is_ok());
    assert_eq!(validate_port(0), Err("port must be between 1 and 65535"));
    assert_eq!(parse_port("8787"), Ok(8787));
    assert_eq!(parse_port("0"), Err("port must be between 1 and 65535".to_owned()));
    assert_eq!(parse_port("65536"), Err("port must be a number".to_owned()));
    assert_eq!(parse_port("x"), Err("port must be a number".to_owned()));
    for trigger in [
        TriggerKind::Auto,
        TriggerKind::Manual,
        TriggerKind::Migration,
        TriggerKind::Restore,
    ] {
        assert_eq!(parse_trigger(trigger.as_str()), Ok(trigger));
    }
    assert_eq!(
        parse_trigger("daily").unwrap_err(),
        "trigger must be one of auto, manual, migration, restore"
    );
}

#[test]
fn upgrade_checks() {
    assert_eq!(
        check_report("1.2", 17, 8787, Some(16)),
        [
            "version=1.2",
            "supported_schema=17",
            "port=8787",
            "database_schema=16",
            "migration_needed=true"
        ]
    );
    assert_eq!(check_report("1.2", 17, 8787, None)[3], "database_schema=none");
    assert_eq!(check_report("1.2", 17, 8787, None)[4], "migration_needed=false");
    assert_eq!(
        upgrade_block(Some(18), 17).unwrap(),
        "database schema 18 is newer than this binary supports (17); the upgrade is blocked and the database was left untouched"
    );
    assert!(upgrade_block(Some(17), 17).is_none());
    assert!(upgrade_block(None, 17).is_none());
    assert_eq!(
        check_refusal("/d", true, None).unwrap(),
        "SQLite database at /d exists but has no local-api-relay schema; it was left untouched"
    );
    assert!(check_refusal("/d", false, None).is_none());
    assert_eq!(displayed_version(Some(""), "0.1.0"), "0.1.0");
    assert_eq!(displayed_version(Some("9"), "0.1.0"), "9");
}

#[test]
fn directories() {
    assert_eq!(join(Platform::Unix, "/a", "b"), "/a/b");
    assert_eq!(join(Platform::Unix, "/a/", "b"), "/a/b");
    assert_eq!(join(Platform::Unix, "", "b"), "b");
    let mut variables = BaseVariables {
        platform: Platform::Unix,
        data_home: Some("/data".to_owned()),
        config_home: None,
        state_home: None,
        home: Some("/home/me".to_owned()),
        local_app_data: None,
        app_data: None,
    };
    let paths = AppPaths::discover(&variables).unwrap();
    assert_eq!(paths.database_path(), "/data/local-api-relay/relay.sqlite3");
    assert_eq!(paths.backup_dir(), "/data/local-api-relay/backups");
    assert_eq!(paths.settings_path(), "/home/me/.config/local-api-relay/service.json");
    assert_eq!(paths.log_dir(), "/home/me/.local/state/local-api-relay/logs");
    assert_eq!(
        paths.prepare(),
        [
            "/data/local-api-relay",
            "/home/me/.config/local-api-relay",
            "/home/me/.local/state/local-api-relay"
        ]
    );
    variables.data_home = Some("data".to_owned());
    assert_eq!(
        AppPaths::discover(&variables).unwrap_err(),
        "XDG_DATA_HOME must be an absolute path"
    );
    variables.data_home = None;
    variables.home = None;
    assert_eq!(
        AppPaths::discover(&variables).unwrap_err(),
        "HOME is required when XDG directories are unset"
    );
    assert_eq!(settings_in_use(None), Ok(ServiceSettings { port: 8787 }));
    assert!(settings_in_use(Some(ServiceSettings { port: 0 })).is_err());
    assert_eq!(
        settings_in_use(Some(ServiceSettings { port: 9 })),
        Ok(ServiceSettings { port: 9 })
    );
}

#[test]
fn directories_on_windows() {
    assert_eq!(join(Platform::Windows, "C:\\a", "b"), "C:\\a\\b");
    assert_eq!(join(Platform::Windows, "C:\\", "b"), "C:\\b");
    assert_eq!(join(Platform::Windows, "C:/", "b"), "C:/b");
    assert_eq!(join(Platform::Unix, "a\\", "b"), "a\\/b");
    // What the XDG variables say does not count.
    let mut variables = BaseVariables {
        platform: Platform::Windows,
        data_home: Some("relative".to_owned()),
        config_home: None,
        state_home: None,
        home: None,
        local_app_data: Some("C:\\Users\\me\\AppData\\Local".to_owned()),
        app_data: Some("C:\\Users\\me\\AppData\\Roaming".to_owned()),
    };
    let paths = AppPaths::discover(&variables).unwrap();
    assert_eq!(paths.data_dir, "C:\\Users\\me\\AppData\\Local\\local-api-relay");
    assert_eq!(paths.state_dir, paths.data_dir);
    assert_eq!(paths.config_dir, "C:\\Users\\me\\AppData\\Roaming\\local-api-relay");
    assert_eq!(
        paths.database_path(),
        "C:\\Users\\me\\AppData\\Local\\local-api-relay\\relay.sqlite3"
    );
    assert_eq!(
        paths.settings_path(),
        "C:\\Users\\me\\AppData\\Roaming\\local-api-relay\\service.json"
    );
    variables.app_data = None;
    assert_eq!(
        AppPaths::discover(&variables).unwrap_err(),
        "APPDATA is required on Windows"
    );
    variables.local_app_data = None;
    assert_eq!(
        AppPaths::discover(&variables).unwrap_err(),
        "LOCALAPPDATA is required on Windows"
    );
}

#[test]
fn log_rotation() {
    assert_eq!((ROTATION_SIZE_BYTES, TOTAL_CAP_BYTES), (20 * 1024 * 1024, 200 * 1024 * 1024));
    assert!(!needs_rotation(None, 99, "2026-01-01", 5, 10));
    assert!(needs_rotation(Some("2025-12-31"), 0, "2026-01-01", 5, 10));
    assert!(!needs_rotation(Some("2026-01-01"), 4, "2026-01-01", 5, 10));
    assert!(needs_rotation(Some("2026-01-01"), 5, "2026-01-01", 5, 10));
    assert_eq!(limit_or(Some("77"), 5), 77);
    assert_eq!(limit_or(Some("x"), 5), 5);
    let mut taken = vec!["relay.log".to_owned()];
    assert_eq!(next_rotated_name("2026-01-01", &taken), "relay.log.2026-01-01");
    taken.push("relay.log.2026-01-01".to_owned());
    taken.push("relay.log.2026-01-01.2".to_owned());
    assert_eq!(next_rotated_name("2026-01-01", &taken), "relay.log.2026-01-01.1");
    taken.push("relay.log.2026-01-01.1".to_owned());
    assert_eq!(next_rotated_name("2026-01-01", &taken), "relay.log.2026-01-01.3");
}

#[test]
fn log_names() {
    assert!(is_valid_date("2026-01-31"));
    assert!(is_valid_date("9999-99-99"));
    assert!(!is_valid_date("2026-1-31"));
    assert!(!is_valid_date("2026/01/31"));
    assert_eq!(parse_date("2026-01-31"), (2026, 1, 31));
    let file = read_rotated_file("relay.log.1970-01-02.7", 3, 11).unwrap();
    assert_eq!((file.place, file.size, file.day_number, file.suffix_index), (3, 11, 1, 7));
    assert_eq!(read_rotated_file("relay.log.1970-01-02", 0, 1).unwrap().suffix_index, 0);
    assert_eq!(read_rotated_file("relay.log.1970-01-02.x", 0, 1).unwrap().suffix_index, 0);
    assert!(read_rotated_file("relay.log", 0, 1).is_none());
    assert!(read_rotated_file("relay.log.today", 0, 1).is_none());
    assert!(read_rotated_file("other.1970-01-02", 0, 1).is_none());
}

#[test]
fn log_sweeps() {
    let file = |place: usize, size: u64, day_number: i64, suffix_index: usize| RotatedFile {
        place,
        size,
        day_number,
        suffix_index,
    };
    // Older than 14 days goes first, whatever the size.
    assert_eq!(sweep(vec![file(0, 1, 5, 0), file(1, 1, 6, 0)], 0, 20, 1_000), [0]);
    // Then the oldest until the cap holds.
    let files = vec![file(0, 40, 19, 1), file(1, 40, 19, 0), file(2, 40, 18, 5), file(3, 1, 1, 0)];
    assert_eq!(sweep(files, 10, 20, 60), [3, 2, 1]);
    assert!(sweep(vec![file(0, 40, 19, 0)], 10, 20, 50).is_empty());
    assert_eq!(sweep(vec![file(0, 40, 19, 0)], 100, 20, 50), [0]);
}

#[test]
fn sessions() {
    let mut admin = Administration { credentials: None, sessions: Vec::new() };
    assert_eq!(admin.login(true, vec![1], 100, 0), None);
    admin.initialize_administrator("hash".to_owned(), 1).unwrap();
    assert_eq!(
        admin.initialize_administrator("other".to_owned(), 1).unwrap_err(),
        "administrator has already been initialized"
    );
    assert_eq!(admin.login(false, vec![1], 100, 0), None);
    assert_eq!(admin.login(true, vec![1], 100, 0), Some(SessionKind::Bootstrap));
    assert_eq!(admin.session(&[1], 99), Some(Session { kind: SessionKind::Bootstrap }));
    assert_eq!(admin.session(&[2], 99), None);
    assert_eq!(
        admin.change_password(&[2], "new".to_owned(), vec![3], 200, 50).unwrap_err(),
        "administrator password change requires the bootstrap session"
    );
    // A bootstrap session that has ended sets no password.
    assert!(admin.change_password(&[1], "late".to_owned(), vec![3], 200, 100).is_err());
    assert_eq!(admin.credentials.as_ref().unwrap().password_hash, "hash");
    assert_eq!(admin.login(true, vec![9], 100, 0), Some(SessionKind::Bootstrap));
    admin.change_password(&[1], "new".to_owned(), vec![3], 200, 50).unwrap();
    let credentials = admin.credentials.as_ref().unwrap();
    assert_eq!((credentials.password_hash.as_str(), credentials.must_change), ("new", false));
    assert_eq!(admin.session(&[1], 60), None);
    assert_eq!(admin.session(&[9], 60), None);
    assert_eq!(admin.session(&[3], 60), Some(Session { kind: SessionKind::Active }));
    assert!(admin.change_password(&[3], "x".to_owned(), vec![4], 200, 50).is_err());
    assert_eq!(admin.login(true, vec![5], 300, 0), Some(SessionKind::Active));
    admin.logout(&[3]);
    assert_eq!(admin.session(&[3], 60), None);
    assert_eq!(admin.session(&[5], 300), None);
    assert!(admin.sessions.is_empty());
    assert_eq!(session_expiry(100), 28_900);
    assert_eq!(SessionKind::from_persisted("active"), Some(SessionKind::Active));
    assert_eq!(SessionKind::from_persisted("x"), None);
    assert_eq!(SessionKind::Bootstrap.as_str(), "bootstrap");
}

#[test]
fn cookies() {
    assert_eq!(
        session_cookie("tok"),
        "local_api_relay_admin=tok; HttpOnly; SameSite=Strict; Path=/; Max-Age=28800"
    );
    assert!(expired_cookie().ends_with("Max-Age=0"));
    assert_eq!(read_cookie("local_api_relay_admin=tok").as_deref(), Some("tok"));
    assert_eq!(
        read_cookie("a=b; local_api_relay_admin=; local_api_relay_admin=t=1 ;x").as_deref(),
        Some("t=1")
    );
    assert_eq!(read_cookie("local_api_relay_admin"), None);
    assert_eq!(read_cookie(""), None);
    assert_eq!(bearer_secret("Bearer lar_x").as_deref(), Some("lar_x"));
    assert_eq!(bearer_secret("Bearer "), None);
    assert_eq!(bearer_secret("bearer x"), None);
}

#[test]
fn administrators_are_let_in() {
    assert!(require_active_session(Some(Session { kind: SessionKind::Active })).is_ok());
    let none = require_active_session(None).unwrap_err();
    assert_eq!((none.status, none.message.as_str()), (401, "administrator session is required"));
    let first = require_active_session(Some(Session { kind: SessionKind::Bootstrap })).unwrap_err();
    assert_eq!(
        (first.status, first.message.as_str()),
        (403, "administrator password change is required")
    );
    assert_eq!(session_status(None), (false, false));
    assert_eq!(session_status(Some(Session { kind: SessionKind::Bootstrap })), (true, true));
    let status = |message: &str| password_change_error(message, "detail").status;
    assert_eq!(status("password must be at least 12 characters"), 422);
    assert_eq!(status("administrator password change requires the bootstrap session"), 403);
    let internal = password_change_error("disk", "disk: full");
    assert_eq!(internal.message, "local state is unavailable: disk: full");
    assert_eq!(AdminError::unavailable().status, 500);
}

#[test]
fn requests_are_paged_and_read() {
    assert_eq!(page_request(None, None, 50, 200), (0, 50));
    assert_eq!(page_request(Some(-3), Some(0), 50, 200), (0, 1));
    assert_eq!(page_request(Some(3), Some(999), 50, 200), (3, 200));
    assert_eq!(page_offset(3, 200), 600);
    assert_eq!(page_offset(i64::MAX, 200), i64::MAX);
    assert!(check_section(Some("routes")).is_ok());
    assert!(check_section(None).is_ok());
    assert_eq!(check_section(Some("secrets")).unwrap_err().status, 422);
    let value = |text: &str| parse_json(text.as_bytes()).unwrap();
    assert_eq!(decimal_request_value(&value("\" 1.5\""), "x", "f").unwrap(), " 1.5");
    assert_eq!(decimal_request_value(&value("0.5"), "x", "f").unwrap(), "0.5");
    assert_eq!(decimal_request_value(&value("-7"), "x", "f").unwrap(), "-7");
    let error = decimal_request_value(&value("true"), "cost multiplier", "cost_multiplier").unwrap_err();
    assert_eq!(error.message, "cost multiplier must be a decimal");
    assert_eq!(error.field, Some("cost_multiplier"));
}

#[test]
fn settings_follow_the_schema() {
    let mut stored = RecoverySettings::default();
    stored.base_interval_ms = 500;
    stored.nonstream_timeout_ms = 5_000;
    stored.freshness_interval_ms = 7;
    stored.quarantine_threshold = 4;
    stored.upstream_sync_interval_ms = 9;
    let old = recovery_settings(11, &stored, None);
    assert_eq!((old.base_interval_ms, old.nonstream_timeout_ms), (500, 120_000));
    let current = recovery_settings(17, &stored, None);
    assert_eq!(current, stored);
    assert_eq!(recovery_settings(13, &stored, None).quarantine_threshold, 2);
    assert_eq!(recovery_settings(17, &stored, Some(1)).quarantine_threshold, 1);
    assert_eq!(recovery_settings(17, &stored, Some(9)).quarantine_threshold, 4);
    assert_eq!((current.head_deadline_ms(), current.body_deadline_ms()), (120_000, 5_000));
    stored.stream_idle_timeout_ms = -1;
    assert_eq!(stored.idle_deadline_ms(), 1);
    assert_eq!(RecoverySettings::default().interval_for(99), 30_000 * 32);
    assert_eq!(RecoverySettings::default().interval_for(-1), 30_000);
    assert_eq!(RouteHealth::from_persisted("available").as_str(), "available");
    assert_eq!(RouteHealth::from_persisted("?"), RouteHealth::Checking);
}

#[test]
fn faults_come_when_asked_for() {
    assert!(fail_if_requested(None, "verify").is_ok());
    assert!(fail_if_requested(Some("create"), "verify").is_ok());
    let failure = fail_if_requested(Some("verify"), "verify").unwrap_err();
    assert_eq!((failure.stage, failure.reason.as_str()), ("verify", "injected verify failure"));
    assert!(fail_check_if_requested(Some("yes")).is_ok());
    assert_eq!(fail_check_if_requested(Some("1")), Err("injected preflight check failure"));
    assert!(fail_migration_if_requested(None).is_ok());
    assert_eq!(fail_migration_if_requested(Some("1")), Err("injected migration failure"));
    assert!(operational_write_injection_matches(Some("all"), "route_health"));
    assert!(!operational_write_injection_matches(Some("call_records"), "route_health"));
    let mut failed = false;
    let mut write = |always, once| {
        fail_operational_write_if_requested(always, once, &mut failed, "call_records")
    };
    assert_eq!(
        write(Some("call_records"), Some("all")).unwrap_err(),
        "injected operational write failure: call_records"
    );
    assert_eq!(
        write(None, Some("all")).unwrap_err(),
        "injected one-time operational write failure: call_records"
    );
    assert!(write(None, Some("all")).is_ok());
    assert!(write(None, None).is_ok());
}

#[test]
fn failed_openings_are_explained() {
    assert_eq!(
        corrupted_message("/d"),
        "SQLite database at /d is corrupted or not a valid local-api-relay database; it was left untouched for evidence — restore from a verified backup"
    );
    assert_eq!(
        unprotected_message("disk full"),
        "migration pre-backup failed: disk full; the database was left untouched — restore from a verified backup"
    );
    assert!(ROLLED_BACK_MESSAGE.starts_with("the migration failed and was rolled back;"));
}
