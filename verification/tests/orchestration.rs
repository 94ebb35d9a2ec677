use george_ai::daemon::Daemon;
use george_ai::daemon::DaemonSettings;
use george_ai::daemon_output::DaemonOutput;
use george_ai::daemon_output::DaemonOutputEntry;
use george_ai::errors::DaemonError;
use george_ai::errors::VirtualMachineError;
use george_ai::retry::budget_exhausted;
use george_ai::retry::click_attempt_flow;
use george_ai::retry::poll_gate;
use george_ai::retry::visibility_poll_flow;
use george_ai::retry::ClickFlow;
use george_ai::retry::PollGate;
use george_ai::retry::VisibilityFlow;
use george_ai::retry::RETRY_SLEEP_MS;
use george_ai::retry::SELECTOR_BUDGET_MS;
use george_ai::retry::VISIBILITY_BUDGET_MS;
use george_ai::session::George;
use george_ai::session::SessionState;
use george_ai::session::StopAction;
use george_ai::session::chrome_command;
use george_ai::session::close_chrome_command;
use george_ai::virtual_machine::concat_chunks;
use george_ai::virtual_machine::execute_precheck;
use george_ai::virtual_machine::port_from_resolution;
use george_ai::virtual_machine::teardown_outcome;
use george_ai::virtual_machine::VirtualMachine;

fn parse_failure() -> DaemonError {
    DaemonError::FailedToParseCoordinates("no candidates".to_string())
}

#[test]
fn fill_in_retries_transient_failures_then_types_once() {
    // a resolver failing with the transient parse error twice, then
    // succeeding: exactly three attempts, then exactly one type call
    let mut outcomes = vec![Err(parse_failure()), Err(parse_failure()), Ok(())].into_iter();
    let mut elapsed: u64 = 0;
    let mut attempts: u32 = 0;
    let mut type_calls: u32 = 0;
    loop {
        match poll_gate(elapsed, SELECTOR_BUDGET_MS) {
            PollGate::Expired => panic!("budget must not expire here"),
            PollGate::Attempt => {}
        }
        attempts += 1;
        match click_attempt_flow(outcomes.next().unwrap()) {
            ClickFlow::Succeeded => {
                type_calls += 1;
                break;
            }
            ClickFlow::RetryAfterSleep => {
                elapsed += RETRY_SLEEP_MS;
            }
            ClickFlow::Propagate(e) => panic!("unexpected propagation: {:?}", e),
        }
    }
    assert_eq!(attempts, 3);
    assert_eq!(type_calls, 1);
}

#[test]
fn non_transient_failure_propagates_with_zero_retries() {
    let boom = DaemonError::Unexpected("Failed to send click: Status: 502, Body: x".to_string());
    let mut attempts: u32 = 0;
    let outcome: Result<(), DaemonError> = Err(boom);
    attempts += 1;
    match click_attempt_flow(outcome) {
        ClickFlow::Propagate(e) => {
            assert!(matches!(e, DaemonError::Unexpected(_)));
        }
        _ => panic!("a status error must propagate immediately"),
    }
    assert_eq!(attempts, 1);
}

#[test]
fn wait_until_text_is_visible_succeeds_on_the_third_poll() {
    let mut polls = vec![Ok(false), Ok(false), Ok(true)].into_iter();
    let mut elapsed: u64 = 0;
    let mut count: u32 = 0;
    loop {
        match poll_gate(elapsed, VISIBILITY_BUDGET_MS) {
            PollGate::Expired => panic!("budget must not expire here"),
            PollGate::Attempt => {}
        }
        count += 1;
        match visibility_poll_flow(polls.next().unwrap()) {
            VisibilityFlow::Visible => break,
            VisibilityFlow::KeepPolling => {
                elapsed += RETRY_SLEEP_MS;
            }
            VisibilityFlow::Propagate(e) => panic!("unexpected propagation: {:?}", e),
        }
    }
    assert_eq!(count, 3);
}

#[test]
fn visibility_polling_tolerates_the_transient_error_only() {
    let transient: Result<bool, DaemonError> =
        Err(DaemonError::FailedToParseExistence("raw".to_string()));
    assert!(matches!(
        visibility_poll_flow(transient),
        VisibilityFlow::KeepPolling
    ));
    let fatal: Result<bool, DaemonError> = Err(DaemonError::NotStarted);
    assert!(matches!(
        visibility_poll_flow(fatal),
        VisibilityFlow::Propagate(DaemonError::NotStarted)
    ));
}

#[test]
fn budget_expiry_names_the_selector() {
    assert_eq!(poll_gate(SELECTOR_BUDGET_MS, SELECTOR_BUDGET_MS), PollGate::Expired);
    match budget_exhausted("blue submit button") {
        DaemonError::SelectorTimeout(s) => assert_eq!(s, "blue submit button"),
        _ => panic!("expected SelectorTimeout"),
    }
}

#[test]
fn stop_before_start_and_stop_twice_are_no_op_successes() {
    let mut george = George::new("https://llm.example");
    assert!(matches!(george.state, SessionState::Uninitialized));
    assert!(matches!(george.on_stop(), StopAction::NoTeardown));
    assert!(matches!(george.state, SessionState::Stopped));
    assert!(matches!(george.on_stop(), StopAction::NoTeardown));
    assert!(matches!(george.state, SessionState::Stopped));
}

#[test]
fn stop_after_start_tears_down_exactly_once() {
    let mut george = George::new("https://llm.example");
    george.mark_provisioning();
    george.mark_ready("8080".to_string());
    assert!(matches!(george.state, SessionState::Ready));
    assert_eq!(george.daemon.port.as_deref(), Some("8080"));
    assert!(matches!(george.on_stop(), StopAction::Teardown));
    assert!(matches!(george.on_stop(), StopAction::NoTeardown));
}

#[test]
fn session_identity_and_settings() {
    let mut george = George::new("https://llm.example");
    assert_eq!(george.id.len(), 36);
    assert_eq!(george.daemon.settings.vision_llm_url, "https://llm.example");
    assert_eq!(george.daemon.settings.vision_llm_auth_token, "");
    george.set_vision_llm_auth_token("token-123");
    assert_eq!(george.daemon.settings.vision_llm_auth_token, "token-123");
    assert_eq!(george.daemon.settings.vision_llm_url, "https://llm.example");
}

#[test]
fn sandbox_names_derive_from_the_session_id() {
    let vm = VirtualMachine::new();
    assert_eq!(vm.id.len(), 36);
    assert_eq!(vm.container_name, format!("george-daemon-container-{}", vm.id));
    assert_eq!(vm.network_name, format!("george-network-{}", vm.id));
    assert_eq!(vm.image_name(), format!("george-daemon-image-{}", vm.id));
    assert!(vm.port.is_none());
}

#[test]
fn port_resolution_and_execute_precheck() {
    assert_eq!(port_from_resolution(Some("33001".to_string())).unwrap(), "33001");
    assert!(matches!(
        port_from_resolution(None),
        Err(VirtualMachineError::Port)
    ));
    assert!(execute_precheck(true).is_ok());
    assert!(matches!(
        execute_precheck(false),
        Err(VirtualMachineError::NotRunning)
    ));
}

#[test]
fn teardown_fails_only_on_container_removal() {
    assert!(teardown_outcome(Ok(())).is_ok());
    match teardown_outcome(Err("no such container".to_string())) {
        Err(VirtualMachineError::Docker(m)) => assert_eq!(m, "no such container"),
        _ => panic!("expected Docker error"),
    }
}

#[test]
fn command_output_chunks_concatenate_in_order() {
    let chunks = vec!["one ".to_string(), "two ".to_string(), "three".to_string()];
    assert_eq!(concat_chunks(&chunks), "one two three");
    assert_eq!(concat_chunks(&Vec::new()), "");
}

#[test]
fn browser_commands_are_exact() {
    assert_eq!(
        chrome_command("http://host.docker.internal:3001"),
        "google-chrome http://host.docker.internal:3001 --no-sandbox --no-first-run --no-default-browser-check"
    );
    assert_eq!(close_chrome_command(), "pkill google-chrome");
}

fn entry(id: &str, prompt: &str) -> DaemonOutputEntry {
    DaemonOutputEntry {
        id: id.to_string(),
        prompt: Some(prompt.to_string()),
        request_body: None,
        response_body: None,
        coordinates: None,
        screenshot: None,
        error: None,
    }
}

#[test]
fn audit_log_upserts_by_id() {
    let output = DaemonOutput::new("session-1".to_string());
    let mut entries: Vec<DaemonOutputEntry> = Vec::new();
    output.upsert(&mut entries, &entry("a", "first"));
    output.upsert(&mut entries, &entry("b", "second"));
    assert_eq!(entries.len(), 2);
    // re-logging id "a" overwrites, never duplicates
    output.upsert(&mut entries, &entry("a", "updated"));
    assert_eq!(entries.len(), 2);
    assert_eq!(entries[0].prompt.as_deref(), Some("updated"));
    assert_eq!(entries[1].prompt.as_deref(), Some("second"));
}

#[test]
fn daemon_settings_builders_replace_one_field_each() {
    let s = DaemonSettings::new("https://llm.example");
    let s = s.set_vision_coordinate_prompt("find the center of ".to_string());
    let s = s.set_is_text_visible_prompt("list all text".to_string());
    let s = s.set_vision_llm_auth_token("tok".to_string());
    assert_eq!(s.vision_coordinate_prompt, "find the center of ");
    assert_eq!(s.is_text_visible_prompt, "list all text");
    assert_eq!(s.vision_llm_auth_token, "tok");
    assert_eq!(s.vision_llm_url, "https://llm.example");

    let daemon = Daemon::with_settings(s);
    assert!(daemon.port.is_none());
    let george = George::with_daemon_settings(daemon.settings);
    assert_eq!(george.daemon.settings.vision_coordinate_prompt, "find the center of ");
}

#[test]
fn audit_log_file_names() {
    let output = DaemonOutput::new("abc".to_string());
    assert_eq!(output.get_file_path(), "daemon-abc.json");
    assert_eq!(output.screenshot_file_name("e1"), "screenshot-e1.png");
}
