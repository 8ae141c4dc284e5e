//! Tests for the pure transition logic, one sub-machine at a time.

use fxa_client::logic::{InternalStateLogic, InternalStateTransition};
use fxa_client::types::{
    AuthIssuesState, AuthenticatingState, CallErrorKind, ConnectedState, DisconnectedState,
    FxaEvent, FxaRustAuthState, FxaState, InternalEvent, InternalState, UninitializedState,
};

#[derive(Clone)]
struct StateMachineTester<T> {
    state: T,
}

impl<T: InternalStateLogic + std::fmt::Debug + Clone + Eq> StateMachineTester<T> {
    fn new(public_state: FxaState, event: FxaEvent) -> Self {
        match T::start_transition(&public_state, event) {
            InternalStateTransition::Process(state) => Self { state },
            transition => panic!("start_transition returned {transition:?}"),
        }
    }

    /// Transition to a new state based on an event.
    ///
    /// Only use this when the event should result in a transition to another
    /// internal state.  Any other transition will panic.
    fn transition(&mut self, event: InternalEvent) {
        match T::transition(self.state.clone(), event) {
            InternalStateTransition::Process(state) => self.state = state,
            transition => panic!("transition returned {transition:?}"),
        }
    }

    /// Get what transition would be returned for an event.
    ///
    /// Good for testing the final transition to a public state.
    fn get_transition(&self, event: InternalEvent) -> InternalStateTransition<T> {
        T::transition(self.state.clone(), event)
    }

    /// Get what transition would be returned for error events.
    ///
    /// Like `get_transition`, but it passes `transition` all possible error
    /// kinds.  Panics if they don't all result in the same transition.
    fn get_transition_for_error(&self) -> InternalStateTransition<T> {
        let error_kinds = [CallErrorKind::Other, CallErrorKind::Auth];
        let mut transitions: Vec<_> = error_kinds
            .into_iter()
            .map(|kind| self.get_transition(InternalEvent::CallError { kind }))
            .collect();

        let transition = transitions.pop().unwrap();
        for other in transitions {
            assert_eq!(
                transition, other,
                "Not all error kinds result in the same transition ({transition:?} vs {other:?})"
            );
        }
        transition
    }
}

#[test]
fn test_initialize() {
    let mut tester = StateMachineTester::<UninitializedState>::new(
        FxaState::Uninitialized,
        FxaEvent::Initialize,
    );
    assert_eq!(tester.state, UninitializedState::GetAuthState);
    assert_eq!(
        tester.get_transition(InternalEvent::GetAuthStateSuccess {
            auth_state: FxaRustAuthState::Disconnected
        }),
        InternalStateTransition::Complete(FxaState::Disconnected)
    );
    assert_eq!(
        tester.get_transition(InternalEvent::GetAuthStateSuccess {
            auth_state: FxaRustAuthState::AuthIssues
        }),
        InternalStateTransition::Complete(FxaState::Connected)
    );

    tester.transition(InternalEvent::GetAuthStateSuccess {
        auth_state: FxaRustAuthState::Connected,
    });
    assert_eq!(tester.state, UninitializedState::EnsureDeviceCapabilities);
    assert_eq!(
        tester.get_transition(InternalEvent::CallError {
            kind: CallErrorKind::Other
        }),
        InternalStateTransition::Complete(FxaState::Disconnected),
    );
    assert_eq!(
        tester.get_transition(InternalEvent::EnsureDeviceCapabilitiesSuccess),
        InternalStateTransition::Complete(FxaState::Connected),
    );

    tester.transition(InternalEvent::CallError {
        kind: CallErrorKind::Auth,
    });
    assert_eq!(tester.state, UninitializedState::CheckAuthorizationStatus);
    assert_eq!(
        tester.get_transition_for_error(),
        InternalStateTransition::Complete(FxaState::AuthIssues)
    );
    assert_eq!(
        tester.get_transition(InternalEvent::CheckAuthorizationStatusSuccess { active: false }),
        InternalStateTransition::Complete(FxaState::AuthIssues)
    );
    assert_eq!(
        tester.get_transition(InternalEvent::CheckAuthorizationStatusSuccess { active: true }),
        InternalStateTransition::Complete(FxaState::Connected)
    );
}

#[test]
fn test_oauth_flow() {
    let tester = StateMachineTester::<DisconnectedState>::new(
        FxaState::Disconnected,
        FxaEvent::BeginOAuthFlow {
            scopes: vec!["profile".to_owned()],
            entrypoint: "test-entrypoint".to_owned(),
        },
    );
    assert_eq!(
        tester.state,
        DisconnectedState::BeginOAuthFlow {
            scopes: vec!["profile".to_owned()],
            entrypoint: "test-entrypoint".to_owned(),
        }
    );
    assert_eq!(
        tester.get_transition_for_error(),
        InternalStateTransition::Cancel
    );
    assert_eq!(
        tester.get_transition(InternalEvent::BeginOAuthFlowSuccess {
            oauth_url: "http://example.com/oauth-start".to_owned()
        }),
        InternalStateTransition::Complete(FxaState::Authenticating {
            oauth_url: "http://example.com/oauth-start".to_owned(),
        })
    );
}

#[test]
fn test_pairing_flow() {
    let tester = StateMachineTester::<DisconnectedState>::new(
        FxaState::Disconnected,
        FxaEvent::BeginPairingFlow {
            pairing_url: "https://example.com/pairing-url".to_owned(),
            scopes: vec!["profile".to_owned()],
            entrypoint: "test-entrypoint".to_owned(),
        },
    );
    assert_eq!(
        tester.state,
        DisconnectedState::BeginPairingFlow {
            pairing_url: "https://example.com/pairing-url".to_owned(),
            scopes: vec!["profile".to_owned()],
            entrypoint: "test-entrypoint".to_owned(),
        }
    );
    assert_eq!(
        tester.get_transition_for_error(),
        InternalStateTransition::Cancel
    );
    assert_eq!(
        tester.get_transition(InternalEvent::BeginPairingFlowSuccess {
            oauth_url: "http://example.com/oauth-start".to_owned()
        }),
        InternalStateTransition::Complete(FxaState::Authenticating {
            oauth_url: "http://example.com/oauth-start".to_owned(),
        })
    );
}

#[test]
fn test_complete_oauth_flow() {
    let mut tester = StateMachineTester::<AuthenticatingState>::new(
        FxaState::Authenticating {
            oauth_url: "http://example.com/oauth-start".to_owned(),
        },
        FxaEvent::CompleteOAuthFlow {
            code: "test-code".to_owned(),
            state: "test-state".to_owned(),
        },
    );
    assert_eq!(
        tester.state,
        AuthenticatingState::CompleteOAuthFlow {
            code: "test-code".to_owned(),
            state: "test-state".to_owned(),
        }
    );
    assert_eq!(
        tester.get_transition_for_error(),
        InternalStateTransition::Cancel
    );

    tester.transition(InternalEvent::CompleteOAuthFlowSuccess);
    assert_eq!(tester.state, AuthenticatingState::InitializeDevice);
    assert_eq!(
        tester.get_transition_for_error(),
        InternalStateTransition::Cancel
    );
    assert_eq!(
        tester.get_transition(InternalEvent::InitializeDeviceSuccess),
        InternalStateTransition::Complete(FxaState::Connected)
    );
}

#[test]
fn test_cancel_oauth_flow() {
    assert_eq!(
        InternalState::start_transition(
            &FxaState::Authenticating {
                oauth_url: "http://example.com/oauth-start".to_owned(),
            },
            FxaEvent::CancelOAuthFlow,
        ),
        InternalStateTransition::Complete(FxaState::Disconnected)
    );
}

#[test]
fn test_disconnect() {
    let tester =
        StateMachineTester::<ConnectedState>::new(FxaState::Connected, FxaEvent::Disconnect);
    assert_eq!(tester.state, ConnectedState::Disconnect);

    assert_eq!(
        tester.get_transition_for_error(),
        InternalStateTransition::Complete(FxaState::Disconnected)
    );
    assert_eq!(
        tester.get_transition(InternalEvent::DisconnectSuccess),
        InternalStateTransition::Complete(FxaState::Disconnected)
    );
}

#[test]
fn test_check_authorization() {
    let tester = StateMachineTester::<ConnectedState>::new(
        FxaState::Connected,
        FxaEvent::CheckAuthorizationStatus,
    );
    assert_eq!(tester.state, ConnectedState::CheckAuthorizationStatus);
    assert_eq!(
        tester.get_transition_for_error(),
        InternalStateTransition::Complete(FxaState::Disconnected)
    );
    assert_eq!(
        tester.get_transition(InternalEvent::CheckAuthorizationStatusSuccess { active: true }),
        InternalStateTransition::Complete(FxaState::Connected),
    );
    assert_eq!(
        tester.get_transition(InternalEvent::CheckAuthorizationStatusSuccess { active: false }),
        InternalStateTransition::Complete(FxaState::Disconnected)
    );
}

#[test]
fn test_reauthenticate() {
    let tester = StateMachineTester::<AuthIssuesState>::new(
        FxaState::AuthIssues,
        FxaEvent::BeginOAuthFlow {
            scopes: vec!["profile".to_owned()],
            entrypoint: "test-entrypoint".to_owned(),
        },
    );

    assert_eq!(
        tester.state,
        AuthIssuesState::BeginOAuthFlow {
            scopes: vec!["profile".to_owned()],
            entrypoint: "test-entrypoint".to_owned()
        }
    );
    assert_eq!(
        tester.get_transition_for_error(),
        InternalStateTransition::Cancel
    );
    assert_eq!(
        tester.get_transition(InternalEvent::BeginOAuthFlowSuccess {
            oauth_url: "http://example.com/oauth-start".to_owned()
        }),
        InternalStateTransition::Complete(FxaState::Authenticating {
            oauth_url: "http://example.com/oauth-start".to_owned(),
        })
    );
}
