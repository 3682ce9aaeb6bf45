use opencli_rs::bridge::{
    BrowserBridge, ConnectStep, ExtensionWait, WaitNotice, DEFAULT_PORT, EXTENSION_TIMEOUT_SECS,
};
use opencli_rs::error::CliError;

#[test]
fn test_bridge_construction() {
    let bridge = BrowserBridge::new(19825);
    assert_eq!(bridge.port, 19825);
}

#[test]
fn test_bridge_default_port() {
    let bridge = BrowserBridge::default_port();
    assert_eq!(bridge.port, DEFAULT_PORT);
}

#[test]
fn running_daemon_is_reused() {
    let bridge = BrowserBridge::new(1);
    assert!(matches!(bridge.step_after_probe(true), ConnectStep::WaitForExtension));
    assert!(matches!(bridge.step_after_probe(false), ConnectStep::SpawnDaemon));
}

#[test]
fn daemon_not_ready_is_a_timeout() {
    let bridge = BrowserBridge::default_port();
    assert!(matches!(bridge.step_after_ready(true), ConnectStep::WaitForExtension));
    match bridge.step_after_ready(false) {
        ConnectStep::Fail(CliError::Timeout { message }) => {
            assert_eq!(message, "Daemon did not become ready within 10s")
        }
        other => panic!("unexpected step {:?}", other),
    }
}

#[test]
fn missing_extension_names_the_port() {
    let bridge = BrowserBridge::new(4242);
    assert!(matches!(bridge.step_after_extension(true), ConnectStep::OpenPage));
    match bridge.step_after_extension(false) {
        ConnectStep::Fail(CliError::BrowserConnect { message, suggestions }) => {
            assert_eq!(message, "Chrome extension not connected");
            assert_eq!(
                suggestions,
                vec![
                    "Install the OpenCLI Chrome extension".to_string(),
                    "Make sure Chrome is running with the extension enabled".to_string(),
                    "The daemon is listening on port 4242".to_string(),
                ]
            );
        }
        other => panic!("unexpected step {:?}", other),
    }
}

#[test]
fn daemon_args_carry_the_port() {
    let bridge = BrowserBridge::new(65535);
    assert_eq!(bridge.daemon_args(), vec!["--daemon", "--port", "65535"]);
}

#[test]
fn extension_wait_prints_banner_then_dots() {
    let mut w = ExtensionWait::new();
    assert!(!w.needs_newline());
    assert_eq!(w.on_pending(0), WaitNotice::Nothing);
    assert_eq!(w.on_pending(1), WaitNotice::Nothing);
    assert_eq!(w.on_pending(2), WaitNotice::Banner);
    assert!(w.needs_newline());
    assert_eq!(w.on_pending(2), WaitNotice::Nothing);
    assert_eq!(w.on_pending(3), WaitNotice::Dot);
    assert_eq!(w.on_pending(4), WaitNotice::Nothing);
    assert_eq!(w.on_pending(6), WaitNotice::Dot);
}

#[test]
fn extension_wait_deadline() {
    assert!(ExtensionWait::within_deadline(0));
    assert!(ExtensionWait::within_deadline(EXTENSION_TIMEOUT_SECS - 1));
    assert!(!ExtensionWait::within_deadline(30));
}

#[test]
fn ready_deadline() {
    assert!(BrowserBridge::within_ready_deadline(9));
    assert!(!BrowserBridge::within_ready_deadline(10));
}
