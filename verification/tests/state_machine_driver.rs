//! End-to-end tests of the driver: scripted account operations drive
//! `process_event` through multi-step transitions.

use std::cell::RefCell;
use std::collections::VecDeque;
use std::rc::Rc;

use fxa_client::machine::{FirefoxAccount, FxaStateMachine};
use fxa_client::types::{
    CallErrorKind, DeviceConfig, Error, FxaEvent, FxaRustAuthState, FxaState,
};

/// One scripted account-operation outcome.
#[derive(Clone, Debug)]
enum Step {
    AuthState(FxaRustAuthState),
    EnsureCapabilities(Result<(), CallErrorKind>),
    BeginOAuth(Result<String, CallErrorKind>),
    BeginPairing(Result<String, CallErrorKind>),
    CompleteOAuth(Result<(), CallErrorKind>),
    InitializeDevice(Result<(), CallErrorKind>),
    CheckAuth(Result<bool, CallErrorKind>),
    Disconnect(Result<(), CallErrorKind>),
}

/// An account whose operations replay a fixed script; the number of
/// operations invoked is visible through a shared counter.
struct ScriptedAccount {
    steps: VecDeque<Step>,
    calls: Rc<RefCell<usize>>,
}

impl ScriptedAccount {
    fn new(steps: Vec<Step>, calls: Rc<RefCell<usize>>) -> Self {
        ScriptedAccount {
            steps: steps.into_iter().collect(),
            calls,
        }
    }

    fn next_step(&mut self) -> Step {
        *self.calls.borrow_mut() += 1;
        self.steps.pop_front().expect("account called more often than scripted")
    }
}

impl FirefoxAccount for ScriptedAccount {
    fn get_auth_state(&mut self) -> FxaRustAuthState {
        match self.next_step() {
            Step::AuthState(s) => s,
            step => panic!("unexpected operation, script says {step:?}"),
        }
    }

    fn ensure_capabilities(&mut self, _capabilities: &Vec<String>) -> Result<(), CallErrorKind> {
        match self.next_step() {
            Step::EnsureCapabilities(r) => r,
            step => panic!("unexpected operation, script says {step:?}"),
        }
    }

    fn begin_oauth_flow(
        &mut self,
        _scopes: &Vec<String>,
        _entrypoint: &str,
    ) -> Result<String, CallErrorKind> {
        match self.next_step() {
            Step::BeginOAuth(r) => r,
            step => panic!("unexpected operation, script says {step:?}"),
        }
    }

    fn begin_pairing_flow(
        &mut self,
        _pairing_url: &str,
        _scopes: &Vec<String>,
        _entrypoint: &str,
    ) -> Result<String, CallErrorKind> {
        match self.next_step() {
            Step::BeginPairing(r) => r,
            step => panic!("unexpected operation, script says {step:?}"),
        }
    }

    fn complete_oauth_flow(&mut self, _code: &str, _state: &str) -> Result<(), CallErrorKind> {
        match self.next_step() {
            Step::CompleteOAuth(r) => r,
            step => panic!("unexpected operation, script says {step:?}"),
        }
    }

    fn initialize_device(
        &mut self,
        _name: &str,
        _device_type: &str,
        _capabilities: &Vec<String>,
    ) -> Result<(), CallErrorKind> {
        match self.next_step() {
            Step::InitializeDevice(r) => r,
            step => panic!("unexpected operation, script says {step:?}"),
        }
    }

    fn check_authorization_status(&mut self) -> Result<bool, CallErrorKind> {
        match self.next_step() {
            Step::CheckAuth(r) => r,
            step => panic!("unexpected operation, script says {step:?}"),
        }
    }

    fn disconnect(&mut self) -> Result<(), CallErrorKind> {
        match self.next_step() {
            Step::Disconnect(r) => r,
            step => panic!("unexpected operation, script says {step:?}"),
        }
    }
}

fn device_config() -> DeviceConfig {
    DeviceConfig {
        name: "test-device".to_owned(),
        device_type: "desktop".to_owned(),
        capabilities: vec!["send-tab".to_owned()],
    }
}

fn machine_with_script(
    steps: Vec<Step>,
) -> (FxaStateMachine<ScriptedAccount>, Rc<RefCell<usize>>) {
    let calls = Rc::new(RefCell::new(0));
    let account = ScriptedAccount::new(steps, Rc::clone(&calls));
    (FxaStateMachine::new(account, device_config()), calls)
}

fn begin_oauth_event() -> FxaEvent {
    FxaEvent::BeginOAuthFlow {
        scopes: vec!["profile".to_owned()],
        entrypoint: "test".to_owned(),
    }
}

/// Initialize with a connected auth state, then a capability registration
/// failure classified as an auth error, then an inactive authorization check:
/// the machine lands in `AuthIssues`.
#[test]
fn initialize_capability_failure_lands_in_auth_issues() {
    let (mut machine, _calls) = machine_with_script(vec![
        Step::AuthState(FxaRustAuthState::Connected),
        Step::EnsureCapabilities(Err(CallErrorKind::Auth)),
        Step::CheckAuth(Ok(false)),
    ]);
    assert_eq!(machine.process_event(FxaEvent::Initialize), Ok(FxaState::AuthIssues));
    assert_eq!(machine.state(), FxaState::AuthIssues);
}

/// Initialize with a disconnected auth state: a single account call, no
/// further operations.
#[test]
fn initialize_disconnected_is_single_step() {
    let (mut machine, calls) = machine_with_script(vec![
        Step::AuthState(FxaRustAuthState::Disconnected),
    ]);
    assert_eq!(machine.process_event(FxaEvent::Initialize), Ok(FxaState::Disconnected));
    assert_eq!(machine.state(), FxaState::Disconnected);
    assert_eq!(*calls.borrow(), 1);
}

/// A failing OAuth start is not an error: the event returns the unchanged
/// `Disconnected` state, whichever way the failure is classified.
#[test]
fn failed_oauth_flow_keeps_disconnected_state() {
    for kind in [CallErrorKind::Auth, CallErrorKind::Other] {
        let (mut machine, _calls) = machine_with_script(vec![
            Step::AuthState(FxaRustAuthState::Disconnected),
            Step::BeginOAuth(Err(kind)),
        ]);
        assert_eq!(machine.process_event(FxaEvent::Initialize), Ok(FxaState::Disconnected));
        assert_eq!(machine.process_event(begin_oauth_event()), Ok(FxaState::Disconnected));
        assert_eq!(machine.state(), FxaState::Disconnected);
    }
}

/// Completing an OAuth flow and registering the device lands in `Connected`.
#[test]
fn complete_oauth_flow_lands_in_connected() {
    let (mut machine, _calls) = machine_with_script(vec![
        Step::AuthState(FxaRustAuthState::Disconnected),
        Step::BeginOAuth(Ok("http://example.com/oauth-start".to_owned())),
        Step::CompleteOAuth(Ok(())),
        Step::InitializeDevice(Ok(())),
    ]);
    assert_eq!(machine.process_event(FxaEvent::Initialize), Ok(FxaState::Disconnected));
    assert_eq!(
        machine.process_event(begin_oauth_event()),
        Ok(FxaState::Authenticating {
            oauth_url: "http://example.com/oauth-start".to_owned()
        })
    );
    assert_eq!(
        machine.process_event(FxaEvent::CompleteOAuthFlow {
            code: "test-code".to_owned(),
            state: "test-state".to_owned(),
        }),
        Ok(FxaState::Connected)
    );
    assert_eq!(machine.state(), FxaState::Connected);
}

/// A failing disconnect operation does not block the transition to
/// `Disconnected`.
#[test]
fn failed_disconnect_still_disconnects() {
    let (mut machine, _calls) = machine_with_script(vec![
        Step::AuthState(FxaRustAuthState::Connected),
        Step::EnsureCapabilities(Ok(())),
        Step::Disconnect(Err(CallErrorKind::Other)),
    ]);
    assert_eq!(machine.process_event(FxaEvent::Initialize), Ok(FxaState::Connected));
    assert_eq!(machine.process_event(FxaEvent::Disconnect), Ok(FxaState::Disconnected));
    assert_eq!(machine.state(), FxaState::Disconnected);
}

/// An event outside the transition table is rejected with
/// `InvalidStateTransition` and leaves the state untouched.
#[test]
fn invalid_event_is_rejected_and_state_kept() {
    let (mut machine, calls) = machine_with_script(vec![]);
    let result = machine.process_event(FxaEvent::Disconnect);
    match result {
        Err(Error::InvalidStateTransition(msg)) => {
            assert_eq!(msg, "Uninitialized -> FxaEvent::Disconnect");
        }
        other => panic!("expected InvalidStateTransition, got {other:?}"),
    }
    assert_eq!(machine.state(), FxaState::Uninitialized);
    assert_eq!(*calls.borrow(), 0);

    let result = machine.process_event(FxaEvent::CompleteOAuthFlow {
        code: "c".to_owned(),
        state: "s".to_owned(),
    });
    assert!(matches!(result, Err(Error::InvalidStateTransition(_))));
    assert_eq!(machine.state(), FxaState::Uninitialized);
}

/// Reading the state never changes it, no matter how often it is read.
#[test]
fn state_reads_are_idempotent() {
    let (mut machine, _calls) = machine_with_script(vec![
        Step::AuthState(FxaRustAuthState::Disconnected),
    ]);
    for _ in 0..5 {
        assert_eq!(machine.state(), FxaState::Uninitialized);
    }
    assert_eq!(machine.process_event(FxaEvent::Initialize), Ok(FxaState::Disconnected));
    for _ in 0..5 {
        assert_eq!(machine.state(), FxaState::Disconnected);
    }
}

/// Auth issues observed during the very first auth-state check fold into
/// `Connected`, matching legacy client behavior.
#[test]
fn boot_auth_issues_fold_into_connected() {
    let (mut machine, calls) = machine_with_script(vec![
        Step::AuthState(FxaRustAuthState::AuthIssues),
    ]);
    assert_eq!(machine.process_event(FxaEvent::Initialize), Ok(FxaState::Connected));
    assert_eq!(*calls.borrow(), 1);
}

/// A pairing flow reaches `Authenticating` through its own success event.
#[test]
fn pairing_flow_reaches_authenticating() {
    let (mut machine, _calls) = machine_with_script(vec![
        Step::AuthState(FxaRustAuthState::Disconnected),
        Step::BeginPairing(Ok("http://example.com/pairing-oauth".to_owned())),
    ]);
    assert_eq!(machine.process_event(FxaEvent::Initialize), Ok(FxaState::Disconnected));
    assert_eq!(
        machine.process_event(FxaEvent::BeginPairingFlow {
            pairing_url: "https://example.com/pairing-url".to_owned(),
            scopes: vec!["profile".to_owned()],
            entrypoint: "test".to_owned(),
        }),
        Ok(FxaState::Authenticating {
            oauth_url: "http://example.com/pairing-oauth".to_owned()
        })
    );
}

/// Cancelling an OAuth flow returns to `Disconnected` without invoking any
/// account operation.
#[test]
fn cancel_oauth_flow_needs_no_account_call() {
    let (mut machine, calls) = machine_with_script(vec![
        Step::AuthState(FxaRustAuthState::Disconnected),
        Step::BeginOAuth(Ok("http://example.com/oauth-start".to_owned())),
    ]);
    assert_eq!(machine.process_event(FxaEvent::Initialize), Ok(FxaState::Disconnected));
    assert_eq!(
        machine.process_event(begin_oauth_event()),
        Ok(FxaState::Authenticating {
            oauth_url: "http://example.com/oauth-start".to_owned()
        })
    );
    let calls_before = *calls.borrow();
    assert_eq!(machine.process_event(FxaEvent::CancelOAuthFlow), Ok(FxaState::Disconnected));
    assert_eq!(*calls.borrow(), calls_before);
    assert_eq!(machine.state(), FxaState::Disconnected);
}

/// An active authorization check keeps the connection; an inactive one
/// disconnects.
#[test]
fn authorization_check_decides_connectedness() {
    let (mut machine, _calls) = machine_with_script(vec![
        Step::AuthState(FxaRustAuthState::Connected),
        Step::EnsureCapabilities(Ok(())),
        Step::CheckAuth(Ok(true)),
        Step::CheckAuth(Ok(false)),
    ]);
    assert_eq!(machine.process_event(FxaEvent::Initialize), Ok(FxaState::Connected));
    assert_eq!(
        machine.process_event(FxaEvent::CheckAuthorizationStatus),
        Ok(FxaState::Connected)
    );
    assert_eq!(
        machine.process_event(FxaEvent::CheckAuthorizationStatus),
        Ok(FxaState::Disconnected)
    );
}

/// The diagnostic labels name the variant and nothing else.
#[test]
fn labels_name_the_variant() {
    assert_eq!(FxaState::Uninitialized.label(), "Uninitialized");
    assert_eq!(
        FxaState::Authenticating { oauth_url: "http://example.com/x".to_owned() }.label(),
        "Authenticating"
    );
    assert_eq!(FxaEvent::CancelOAuthFlow.label(), "FxaEvent::CancelOAuthFlow");
    assert_eq!(FxaEvent::Disconnect.label(), "FxaEvent::Disconnect");
}
