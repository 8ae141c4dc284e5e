//! Pure transition logic for the hierarchical state machine.
//!
//! Two operations, both free of side effects: `start_transition` decides the
//! first internal sub-step for an externally submitted event, and `transition`
//! decides the next step from a sub-step's outcome.  Each public state owns
//! its own sub-machine; any (state, event) pair outside the transition table
//! is folded into `Cancel`, never a crash.
//!
//! Every executable operation is pinned to a `spec` twin (`start_spec`,
//! `step_spec`) that writes the transition table down as a mathematical
//! function; the driver's contracts are stated over those twins.

use vstd::prelude::*;

use crate::types::{
    AuthIssuesState, AuthenticatingState, CallErrorKind, ConnectedState, DisconnectedState,
    FxaEvent, FxaRustAuthState, FxaState, InternalEvent, InternalState, UninitializedState,
};

verus! {

/// Internal state transition.
///
/// This represents what the driver should do after calling the account
/// operation that corresponds to an internal state.
#[derive(Debug, PartialEq, Eq)]
pub enum InternalStateTransition<T> {
    /// Process a new internal state.
    Process(T),
    /// Complete the process by transitioning to a new public state.
    Complete(FxaState),
    /// Complete the process by transitioning back to the last public state.
    Cancel,
}

/// Conversion from a per-public-state sub-state into the top-level
/// [`InternalState`].
pub trait IntoInternalState: Sized {
    /// Which [`InternalState`] variant wraps this sub-state.
    spec fn into_internal_spec(self) -> InternalState;

    /// Wrap this sub-state in its [`InternalState`] variant.
    fn into_internal(self) -> (r: InternalState)
        ensures
            r == self.into_internal_spec(),
    ;
}

impl IntoInternalState for UninitializedState {
    open spec fn into_internal_spec(self) -> InternalState {
        InternalState::Uninitialized(self)
    }

    fn into_internal(self) -> (r: InternalState)
        ensures
            r == self.into_internal_spec(),
    {
        InternalState::Uninitialized(self)
    }
}

impl IntoInternalState for DisconnectedState {
    open spec fn into_internal_spec(self) -> InternalState {
        InternalState::Disconnected(self)
    }

    fn into_internal(self) -> (r: InternalState)
        ensures
            r == self.into_internal_spec(),
    {
        InternalState::Disconnected(self)
    }
}

impl IntoInternalState for AuthenticatingState {
    open spec fn into_internal_spec(self) -> InternalState {
        InternalState::Authenticating(self)
    }

    fn into_internal(self) -> (r: InternalState)
        ensures
            r == self.into_internal_spec(),
    {
        InternalState::Authenticating(self)
    }
}

impl IntoInternalState for ConnectedState {
    open spec fn into_internal_spec(self) -> InternalState {
        InternalState::Connected(self)
    }

    fn into_internal(self) -> (r: InternalState)
        ensures
            r == self.into_internal_spec(),
    {
        InternalState::Connected(self)
    }
}

impl IntoInternalState for AuthIssuesState {
    open spec fn into_internal_spec(self) -> InternalState {
        InternalState::AuthIssues(self)
    }

    fn into_internal(self) -> (r: InternalState)
        ensures
            r == self.into_internal_spec(),
    {
        InternalState::AuthIssues(self)
    }
}

impl<T: IntoInternalState> InternalStateTransition<T> {
    /// The same transition, with a `Process` sub-state wrapped in its
    /// [`InternalState`] variant.
    pub open spec fn convert_spec(self) -> InternalStateTransition<InternalState> {
        match self {
            InternalStateTransition::Process(state) => InternalStateTransition::Process(
                state.into_internal_spec(),
            ),
            InternalStateTransition::Complete(fxa_state) => InternalStateTransition::Complete(
                fxa_state,
            ),
            InternalStateTransition::Cancel => InternalStateTransition::Cancel,
        }
    }

    /// Lift a sub-machine transition to a top-level transition.
    pub fn convert(self) -> (r: InternalStateTransition<InternalState>)
        ensures
            r == self.convert_spec(),
    {
        match self {
            InternalStateTransition::Process(state) => InternalStateTransition::Process(
                state.into_internal(),
            ),
            InternalStateTransition::Complete(fxa_state) => InternalStateTransition::Complete(
                fxa_state,
            ),
            InternalStateTransition::Cancel => InternalStateTransition::Cancel,
        }
    }
}

/// Trait for internal state logic.
///
/// This is what the driver uses to implement `process_event`.  Each
/// implementation carries its transition table twice: as `spec` functions
/// that state the table, and as executable functions proved to match them.
pub trait InternalStateLogic: Sized {
    /// The transition table entry for an externally submitted event.
    spec fn start_spec(state: FxaState, event: FxaEvent) -> InternalStateTransition<Self>;

    /// The transition table entry for an internal sub-step's outcome.
    spec fn step_spec(self, event: InternalEvent) -> InternalStateTransition<Self>;

    /// Initial internal state to start handling a public event.
    fn start_transition(public_state: &FxaState, event: FxaEvent) -> (r: InternalStateTransition<
        Self,
    >)
        ensures
            r == Self::start_spec(*public_state, event),
    ;

    /// Transition from an internal state based on the result of an account
    /// operation.
    fn transition(self, event: InternalEvent) -> (r: InternalStateTransition<Self>)
        ensures
            r == self.step_spec(event),
    ;
}

/// Table entry for a (state, event) pair that the transition table does not
/// list.  Such a pair is a caller error or a logic defect, never a crash:
/// the step is cancelled and the previous public state kept.  The `Cancel`
/// result is the anomaly's only trace: this logic is pure, and reporting the
/// defect to telemetry is the embedding application's concern.
fn invalid_transition<T>() -> (r: InternalStateTransition<T>)
    ensures
        r == InternalStateTransition::<T>::Cancel,
{
    InternalStateTransition::Cancel
}

impl InternalStateLogic for InternalState {
    open spec fn start_spec(state: FxaState, event: FxaEvent) -> InternalStateTransition<
        InternalState,
    > {
        match state {
            FxaState::Uninitialized => UninitializedState::start_spec(state, event).convert_spec(),
            FxaState::Disconnected => DisconnectedState::start_spec(state, event).convert_spec(),
            FxaState::Authenticating { .. } => AuthenticatingState::start_spec(
                state,
                event,
            ).convert_spec(),
            FxaState::Connected => ConnectedState::start_spec(state, event).convert_spec(),
            FxaState::AuthIssues => AuthIssuesState::start_spec(state, event).convert_spec(),
        }
    }

    open spec fn step_spec(self, event: InternalEvent) -> InternalStateTransition<InternalState> {
        match self {
            InternalState::Uninitialized(inner) => inner.step_spec(event).convert_spec(),
            InternalState::Disconnected(inner) => inner.step_spec(event).convert_spec(),
            InternalState::Authenticating(inner) => inner.step_spec(event).convert_spec(),
            InternalState::Connected(inner) => inner.step_spec(event).convert_spec(),
            InternalState::AuthIssues(inner) => inner.step_spec(event).convert_spec(),
        }
    }

    fn start_transition(public_state: &FxaState, event: FxaEvent) -> (r: InternalStateTransition<
        Self,
    >)
        ensures
            r == Self::start_spec(*public_state, event),
    {
        match public_state {
            FxaState::Uninitialized => UninitializedState::start_transition(
                public_state,
                event,
            ).convert(),
            FxaState::Disconnected => DisconnectedState::start_transition(
                public_state,
                event,
            ).convert(),
            FxaState::Authenticating { .. } => AuthenticatingState::start_transition(
                public_state,
                event,
            ).convert(),
            FxaState::Connected => ConnectedState::start_transition(public_state, event).convert(),
            FxaState::AuthIssues => AuthIssuesState::start_transition(
                public_state,
                event,
            ).convert(),
        }
    }

    fn transition(self, event: InternalEvent) -> (r: InternalStateTransition<Self>)
        ensures
            r == self.step_spec(event),
    {
        match self {
            InternalState::Uninitialized(inner) => inner.transition(event).convert(),
            InternalState::Disconnected(inner) => inner.transition(event).convert(),
            InternalState::Authenticating(inner) => inner.transition(event).convert(),
            InternalState::Connected(inner) => inner.transition(event).convert(),
            InternalState::AuthIssues(inner) => inner.transition(event).convert(),
        }
    }
}

impl InternalStateLogic for UninitializedState {
    open spec fn start_spec(state: FxaState, event: FxaEvent) -> InternalStateTransition<
        UninitializedState,
    > {
        match event {
            FxaEvent::Initialize => InternalStateTransition::Process(
                UninitializedState::GetAuthState,
            ),
            _ => InternalStateTransition::Cancel,
        }
    }

    open spec fn step_spec(self, event: InternalEvent) -> InternalStateTransition<
        UninitializedState,
    > {
        match (self, event) {
            (
                UninitializedState::GetAuthState,
                InternalEvent::GetAuthStateSuccess { auth_state },
            ) => match auth_state {
                FxaRustAuthState::Disconnected => InternalStateTransition::Complete(
                    FxaState::Disconnected,
                ),
                // Completing to `Connected` rather than `AuthIssues` here is
                // deliberate: auth issues detected at boot are treated as a
                // connected account, to match legacy client behavior.
                FxaRustAuthState::AuthIssues => InternalStateTransition::Complete(
                    FxaState::Connected,
                ),
                FxaRustAuthState::Connected => InternalStateTransition::Process(
                    UninitializedState::EnsureDeviceCapabilities,
                ),
            },
            (
                UninitializedState::EnsureDeviceCapabilities,
                InternalEvent::EnsureDeviceCapabilitiesSuccess,
            ) => InternalStateTransition::Complete(FxaState::Connected),
            (
                UninitializedState::EnsureDeviceCapabilities,
                InternalEvent::CallError { kind },
            ) => match kind {
                CallErrorKind::Auth => InternalStateTransition::Process(
                    UninitializedState::CheckAuthorizationStatus,
                ),
                CallErrorKind::Other => InternalStateTransition::Complete(FxaState::Disconnected),
            },
            (
                UninitializedState::CheckAuthorizationStatus,
                InternalEvent::CheckAuthorizationStatusSuccess { active },
            ) => if active {
                InternalStateTransition::Complete(FxaState::Connected)
            } else {
                InternalStateTransition::Complete(FxaState::AuthIssues)
            },
            (
                UninitializedState::CheckAuthorizationStatus,
                InternalEvent::CallError { .. },
            ) => InternalStateTransition::Complete(FxaState::AuthIssues),
            _ => InternalStateTransition::Cancel,
        }
    }

    fn start_transition(public_state: &FxaState, event: FxaEvent) -> (r: InternalStateTransition<
        Self,
    >)
        ensures
            r == Self::start_spec(*public_state, event),
    {
        match event {
            FxaEvent::Initialize => InternalStateTransition::Process(
                UninitializedState::GetAuthState,
            ),
            _ => invalid_transition(),
        }
    }

    fn transition(self, event: InternalEvent) -> (r: InternalStateTransition<Self>)
        ensures
            r == self.step_spec(event),
    {
        match (self, event) {
            (
                UninitializedState::GetAuthState,
                InternalEvent::GetAuthStateSuccess { auth_state },
            ) => match auth_state {
                FxaRustAuthState::Disconnected => InternalStateTransition::Complete(
                    FxaState::Disconnected,
                ),
                // Deliberate quirk, kept to match legacy client behavior: auth
                // issues observed during the very first auth-state check fold
                // into `Connected`, not `AuthIssues`.
                FxaRustAuthState::AuthIssues => InternalStateTransition::Complete(
                    FxaState::Connected,
                ),
                FxaRustAuthState::Connected => InternalStateTransition::Process(
                    UninitializedState::EnsureDeviceCapabilities,
                ),
            },
            (
                UninitializedState::EnsureDeviceCapabilities,
                InternalEvent::EnsureDeviceCapabilitiesSuccess,
            ) => InternalStateTransition::Complete(FxaState::Connected),
            (
                UninitializedState::EnsureDeviceCapabilities,
                InternalEvent::CallError { kind },
            ) => match kind {
                CallErrorKind::Auth => InternalStateTransition::Process(
                    UninitializedState::CheckAuthorizationStatus,
                ),
                CallErrorKind::Other => InternalStateTransition::Complete(FxaState::Disconnected),
            },
            (
                UninitializedState::CheckAuthorizationStatus,
                InternalEvent::CheckAuthorizationStatusSuccess { active },
            ) => if active {
                InternalStateTransition::Complete(FxaState::Connected)
            } else {
                InternalStateTransition::Complete(FxaState::AuthIssues)
            },
            (
                UninitializedState::CheckAuthorizationStatus,
                InternalEvent::CallError { .. },
            ) => InternalStateTransition::Complete(FxaState::AuthIssues),
            (_, _) => invalid_transition(),
        }
    }
}

impl InternalStateLogic for DisconnectedState {
    open spec fn start_spec(state: FxaState, event: FxaEvent) -> InternalStateTransition<
        DisconnectedState,
    > {
        match event {
            FxaEvent::BeginOAuthFlow { scopes, entrypoint } => InternalStateTransition::Process(
                DisconnectedState::BeginOAuthFlow { scopes, entrypoint },
            ),
            FxaEvent::BeginPairingFlow { pairing_url, scopes, entrypoint } => {
                InternalStateTransition::Process(
                    DisconnectedState::BeginPairingFlow { pairing_url, scopes, entrypoint },
                )
            },
            _ => InternalStateTransition::Cancel,
        }
    }

    open spec fn step_spec(self, event: InternalEvent) -> InternalStateTransition<
        DisconnectedState,
    > {
        match (self, event) {
            (
                DisconnectedState::BeginOAuthFlow { .. },
                InternalEvent::BeginOAuthFlowSuccess { oauth_url },
            ) => InternalStateTransition::Complete(FxaState::Authenticating { oauth_url }),
            (
                DisconnectedState::BeginPairingFlow { .. },
                InternalEvent::BeginPairingFlowSuccess { oauth_url },
            ) => InternalStateTransition::Complete(FxaState::Authenticating { oauth_url }),
            (DisconnectedState::BeginOAuthFlow { .. }, InternalEvent::CallError { .. }) => {
                InternalStateTransition::Cancel
            },
            (DisconnectedState::BeginPairingFlow { .. }, InternalEvent::CallError { .. }) => {
                InternalStateTransition::Cancel
            },
            _ => InternalStateTransition::Cancel,
        }
    }

    fn start_transition(public_state: &FxaState, event: FxaEvent) -> (r: InternalStateTransition<
        Self,
    >)
        ensures
            r == Self::start_spec(*public_state, event),
    {
        match event {
            FxaEvent::BeginOAuthFlow { scopes, entrypoint } => InternalStateTransition::Process(
                DisconnectedState::BeginOAuthFlow { scopes, entrypoint },
            ),
            FxaEvent::BeginPairingFlow { pairing_url, scopes, entrypoint } => {
                InternalStateTransition::Process(
                    DisconnectedState::BeginPairingFlow { pairing_url, scopes, entrypoint },
                )
            },
            _ => invalid_transition(),
        }
    }

    fn transition(self, event: InternalEvent) -> (r: InternalStateTransition<Self>)
        ensures
            r == self.step_spec(event),
    {
        match (self, event) {
            (
                DisconnectedState::BeginOAuthFlow { .. },
                InternalEvent::BeginOAuthFlowSuccess { oauth_url },
            ) => InternalStateTransition::Complete(FxaState::Authenticating { oauth_url }),
            (
                DisconnectedState::BeginPairingFlow { .. },
                InternalEvent::BeginPairingFlowSuccess { oauth_url },
            ) => InternalStateTransition::Complete(FxaState::Authenticating { oauth_url }),
            (DisconnectedState::BeginOAuthFlow { .. }, InternalEvent::CallError { .. }) => {
                InternalStateTransition::Cancel
            },
            (DisconnectedState::BeginPairingFlow { .. }, InternalEvent::CallError { .. }) => {
                InternalStateTransition::Cancel
            },
            (_, _) => invalid_transition(),
        }
    }
}

impl InternalStateLogic for AuthenticatingState {
    open spec fn start_spec(state: FxaState, event: FxaEvent) -> InternalStateTransition<
        AuthenticatingState,
    > {
        match event {
            FxaEvent::CompleteOAuthFlow { code, state } => InternalStateTransition::Process(
                AuthenticatingState::CompleteOAuthFlow { code, state },
            ),
            FxaEvent::CancelOAuthFlow => InternalStateTransition::Complete(FxaState::Disconnected),
            _ => InternalStateTransition::Cancel,
        }
    }

    open spec fn step_spec(self, event: InternalEvent) -> InternalStateTransition<
        AuthenticatingState,
    > {
        match (self, event) {
            (
                AuthenticatingState::CompleteOAuthFlow { .. },
                InternalEvent::CompleteOAuthFlowSuccess,
            ) => InternalStateTransition::Process(AuthenticatingState::InitializeDevice),
            (AuthenticatingState::CompleteOAuthFlow { .. }, InternalEvent::CallError { .. }) => {
                InternalStateTransition::Cancel
            },
            (AuthenticatingState::InitializeDevice, InternalEvent::InitializeDeviceSuccess) => {
                InternalStateTransition::Complete(FxaState::Connected)
            },
            (AuthenticatingState::InitializeDevice, InternalEvent::CallError { .. }) => {
                InternalStateTransition::Cancel
            },
            _ => InternalStateTransition::Cancel,
        }
    }

    fn start_transition(public_state: &FxaState, event: FxaEvent) -> (r: InternalStateTransition<
        Self,
    >)
        ensures
            r == Self::start_spec(*public_state, event),
    {
        match event {
            FxaEvent::CompleteOAuthFlow { code, state } => InternalStateTransition::Process(
                AuthenticatingState::CompleteOAuthFlow { code, state },
            ),
            FxaEvent::CancelOAuthFlow => InternalStateTransition::Complete(FxaState::Disconnected),
            _ => invalid_transition(),
        }
    }

    fn transition(self, event: InternalEvent) -> (r: InternalStateTransition<Self>)
        ensures
            r == self.step_spec(event),
    {
        match (self, event) {
            (
                AuthenticatingState::CompleteOAuthFlow { .. },
                InternalEvent::CompleteOAuthFlowSuccess,
            ) => InternalStateTransition::Process(AuthenticatingState::InitializeDevice),
            (AuthenticatingState::CompleteOAuthFlow { .. }, InternalEvent::CallError { .. }) => {
                InternalStateTransition::Cancel
            },
            (AuthenticatingState::InitializeDevice, InternalEvent::InitializeDeviceSuccess) => {
                InternalStateTransition::Complete(FxaState::Connected)
            },
            (AuthenticatingState::InitializeDevice, InternalEvent::CallError { .. }) => {
                InternalStateTransition::Cancel
            },
            (_, _) => invalid_transition(),
        }
    }
}

impl InternalStateLogic for ConnectedState {
    open spec fn start_spec(state: FxaState, event: FxaEvent) -> InternalStateTransition<
        ConnectedState,
    > {
        match event {
            FxaEvent::Disconnect => InternalStateTransition::Process(ConnectedState::Disconnect),
            FxaEvent::CheckAuthorizationStatus => InternalStateTransition::Process(
                ConnectedState::CheckAuthorizationStatus,
            ),
            _ => InternalStateTransition::Cancel,
        }
    }

    open spec fn step_spec(self, event: InternalEvent) -> InternalStateTransition<ConnectedState> {
        match (self, event) {
            (ConnectedState::Disconnect, InternalEvent::DisconnectSuccess) => {
                InternalStateTransition::Complete(FxaState::Disconnected)
            },
            // Disconnecting is treated as always eventually successful: a
            // failure is reported but does not block the transition.
            (ConnectedState::Disconnect, InternalEvent::CallError { .. }) => {
                InternalStateTransition::Complete(FxaState::Disconnected)
            },
            (
                ConnectedState::CheckAuthorizationStatus,
                InternalEvent::CheckAuthorizationStatusSuccess { active },
            ) => if active {
                InternalStateTransition::Complete(FxaState::Connected)
            } else {
                InternalStateTransition::Complete(FxaState::Disconnected)
            },
            (ConnectedState::CheckAuthorizationStatus, InternalEvent::CallError { .. }) => {
                InternalStateTransition::Complete(FxaState::Disconnected)
            },
            _ => InternalStateTransition::Cancel,
        }
    }

    fn start_transition(public_state: &FxaState, event: FxaEvent) -> (r: InternalStateTransition<
        Self,
    >)
        ensures
            r == Self::start_spec(*public_state, event),
    {
        match event {
            FxaEvent::Disconnect => InternalStateTransition::Process(ConnectedState::Disconnect),
            FxaEvent::CheckAuthorizationStatus => InternalStateTransition::Process(
                ConnectedState::CheckAuthorizationStatus,
            ),
            _ => invalid_transition(),
        }
    }

    fn transition(self, event: InternalEvent) -> (r: InternalStateTransition<Self>)
        ensures
            r == self.step_spec(event),
    {
        match (self, event) {
            (ConnectedState::Disconnect, InternalEvent::DisconnectSuccess) => {
                InternalStateTransition::Complete(FxaState::Disconnected)
            },
            // Disconnecting is currently infallible, but handle errors anyway
            // in case it is refactored to fail: the transition goes through.
            (ConnectedState::Disconnect, InternalEvent::CallError { .. }) => {
                InternalStateTransition::Complete(FxaState::Disconnected)
            },
            (
                ConnectedState::CheckAuthorizationStatus,
                InternalEvent::CheckAuthorizationStatusSuccess { active },
            ) => if active {
                InternalStateTransition::Complete(FxaState::Connected)
            } else {
                InternalStateTransition::Complete(FxaState::Disconnected)
            },
            (ConnectedState::CheckAuthorizationStatus, InternalEvent::CallError { .. }) => {
                InternalStateTransition::Complete(FxaState::Disconnected)
            },
            (_, _) => invalid_transition(),
        }
    }
}

impl InternalStateLogic for AuthIssuesState {
    open spec fn start_spec(state: FxaState, event: FxaEvent) -> InternalStateTransition<
        AuthIssuesState,
    > {
        match event {
            FxaEvent::BeginOAuthFlow { scopes, entrypoint } => InternalStateTransition::Process(
                AuthIssuesState::BeginOAuthFlow { scopes, entrypoint },
            ),
            // A pairing flow is intended for connecting new devices only and
            // is not valid for re-authentication from the auth-issues state.
            _ => InternalStateTransition::Cancel,
        }
    }

    open spec fn step_spec(self, event: InternalEvent) -> InternalStateTransition<AuthIssuesState> {
        match (self, event) {
            (
                AuthIssuesState::BeginOAuthFlow { .. },
                InternalEvent::BeginOAuthFlowSuccess { oauth_url },
            ) => InternalStateTransition::Complete(FxaState::Authenticating { oauth_url }),
            (AuthIssuesState::BeginOAuthFlow { .. }, InternalEvent::CallError { .. }) => {
                InternalStateTransition::Cancel
            },
            _ => InternalStateTransition::Cancel,
        }
    }

    fn start_transition(public_state: &FxaState, event: FxaEvent) -> (r: InternalStateTransition<
        Self,
    >)
        ensures
            r == Self::start_spec(*public_state, event),
    {
        match event {
            FxaEvent::BeginOAuthFlow { scopes, entrypoint } => InternalStateTransition::Process(
                AuthIssuesState::BeginOAuthFlow { scopes, entrypoint },
            ),
            _ => invalid_transition(),
        }
    }

    fn transition(self, event: InternalEvent) -> (r: InternalStateTransition<Self>)
        ensures
            r == self.step_spec(event),
    {
        match (self, event) {
            (
                AuthIssuesState::BeginOAuthFlow { .. },
                InternalEvent::BeginOAuthFlowSuccess { oauth_url },
            ) => InternalStateTransition::Complete(FxaState::Authenticating { oauth_url }),
            (AuthIssuesState::BeginOAuthFlow { .. }, InternalEvent::CallError { .. }) => {
                InternalStateTransition::Cancel
            },
            (_, _) => invalid_transition(),
        }
    }
}

} // verus!
