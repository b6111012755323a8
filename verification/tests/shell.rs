use local_api_relay::shell::{
    autostart_command, base_url_from_ready_url, is_enabled, parse_relay_snapshot, sidecar_step,
    SidecarEvent, SidecarStep,
};

#[test]
fn parses_relay_snapshot() {
    let snapshot = parse_relay_snapshot(
        br#"{"version":"0.1.0","port":8787,"ready_url":"http://127.0.0.1:8787/ready"}"#,
    )
    .unwrap();
    assert_eq!(snapshot.port, 8787);
    assert_eq!(snapshot.ready_url, "http://127.0.0.1:8787/ready");
}

#[test]
fn rejects_snapshot_without_ready_url() {
    let error = parse_relay_snapshot(br#"{"port":8787}"#).unwrap_err();
    assert!(error.to_string().contains("ready_url"));
}

#[test]
fn derives_base_url_from_ready_url() {
    let ready = "http://127.0.0.1:8787/ready";
    assert_eq!(base_url_from_ready_url(ready).unwrap(), "http://127.0.0.1:8787/");
}

#[test]
fn rejects_other_snapshots() {
    assert!(parse_relay_snapshot(b"nonsense").unwrap_err().contains("invalid JSON"));
    assert!(parse_relay_snapshot(br#"{"port":70000,"ready_url":"x"}"#)
        .unwrap_err()
        .contains("valid port"));
    assert!(parse_relay_snapshot(br#"{"port":8787.5,"ready_url":"x"}"#)
        .unwrap_err()
        .contains("valid port"));
    assert!(parse_relay_snapshot(br#"{"port":-1,"ready_url":"x"}"#)
        .unwrap_err()
        .contains("valid port"));
    assert!(base_url_from_ready_url("http://127.0.0.1:8787/health").is_none());
}

#[test]
fn waits_for_the_sidecar() {
    let url = "http://127.0.0.1:8787/ready";
    assert!(matches!(
        sidecar_step(url, 0, &SidecarEvent::Answered(true)),
        SidecarStep::Ready
    ));
    assert!(matches!(
        sidecar_step(url, 198, &SidecarEvent::Answered(false)),
        SidecarStep::Wait
    ));
    match sidecar_step(url, 199, &SidecarEvent::Other) {
        SidecarStep::GiveUp(reason) => {
            assert_eq!(reason, "relay sidecar did not become ready at http://127.0.0.1:8787/ready")
        }
        _ => panic!("expected to give up"),
    }
    match sidecar_step(url, 0, &SidecarEvent::Error("no such file".to_owned())) {
        SidecarStep::GiveUp(reason) => assert_eq!(reason, "relay sidecar error: no such file"),
        _ => panic!("expected to give up"),
    }
}

#[test]
fn autostart_values() {
    assert!(is_enabled(Some("\"relay.exe\"")));
    assert!(!is_enabled(None));
    assert_eq!(autostart_command("C:\\relay.exe"), "\"C:\\relay.exe\"");
}
