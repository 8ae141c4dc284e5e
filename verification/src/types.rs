//! Public and internal state-machine types.
//!
//! `FxaState` and `FxaEvent` are the states consumers observe and the events
//! they send.  `InternalState` tags each public state with the sub-step (one
//! account operation) currently in flight, and `InternalEvent` is the outcome
//! of such an operation.

use vstd::prelude::*;

verus! {

/// Auth classification that the account collaborator reports when the state
/// machine boots.
#[derive(Clone, Copy, Debug, PartialEq, Eq)]
pub enum FxaRustAuthState {
    Disconnected,
    Connected,
    AuthIssues,
}

/// Fxa state
///
/// These are the states of the state machine that consumers observe.
#[derive(Debug, PartialEq, Eq)]
pub enum FxaState {
    /// The state machine needs to be initialized via [`FxaEvent::Initialize`].
    Uninitialized,
    /// User has not connected to FxA or has logged out.
    Disconnected,
    /// User is currently performing an OAuth flow.
    Authenticating { oauth_url: String },
    /// User is currently connected to FxA.
    Connected,
    /// User was connected to FxA, but we observed issues with the auth tokens.
    /// The user needs to reauthenticate before the account can be used.
    AuthIssues,
}

impl Clone for FxaState {
    /// Cloning a public state yields an equal value.
    fn clone(&self) -> (r: Self)
        ensures
            r == *self,
    {
        match self {
            FxaState::Uninitialized => FxaState::Uninitialized,
            FxaState::Disconnected => FxaState::Disconnected,
            FxaState::Authenticating { oauth_url } => FxaState::Authenticating {
                oauth_url: oauth_url.clone(),
            },
            FxaState::Connected => FxaState::Connected,
            FxaState::AuthIssues => FxaState::AuthIssues,
        }
    }
}

/// Fxa event
///
/// These are the events that consumers send to the driver's `process_event`.
#[derive(Clone, Debug, PartialEq, Eq)]
pub enum FxaEvent {
    /// Initialize the state machine.  This must be the first event sent.
    Initialize,
    /// Begin an oauth flow.
    ///
    /// If successful, the state machine will transition to
    /// [`FxaState::Authenticating`].  The next step is to navigate the user to
    /// the `oauth_url` and let them sign in and authorize the client.
    BeginOAuthFlow { scopes: Vec<String>, entrypoint: String },
    /// Begin an oauth flow using a URL from a pairing code.
    ///
    /// If successful, the state machine will transition to
    /// [`FxaState::Authenticating`].
    BeginPairingFlow { pairing_url: String, scopes: Vec<String>, entrypoint: String },
    /// Complete an OAuth flow.
    ///
    /// Send this event after the user has navigated through the OAuth flow and
    /// has reached the redirect URI.  Extract `code` and `state` from the query
    /// parameters.  If successful the state machine will transition to
    /// [`FxaState::Connected`].
    CompleteOAuthFlow { code: String, state: String },
    /// Cancel an OAuth flow.
    ///
    /// Use this to cancel an in-progress OAuth, returning to
    /// [`FxaState::Disconnected`] so the process can begin again.
    CancelOAuthFlow,
    /// Check the authorization status for a connected account.
    ///
    /// Send this when issues are detected with the auth tokens for a connected
    /// account.  If issues are confirmed, the state machine will transition to
    /// [`FxaState::AuthIssues`].
    CheckAuthorizationStatus,
    /// Disconnect the user.
    ///
    /// Send this when the user is asking to be logged out.  The state machine
    /// will transition to [`FxaState::Disconnected`].
    Disconnect,
}

/// Internal state-machine states.
///
/// These states represent the account operations made when transitioning from
/// one [`FxaState`] to another.  This enum has the same variants as
/// [`FxaState`], but each variant stores an enum that represents the internal
/// states for that public state.  This forms a kind of hierarchical state
/// machine: picture `FxaState::Disconnected` as containing each of the
/// [`DisconnectedState`] variants as child states.
#[derive(Clone, Debug, PartialEq, Eq)]
pub enum InternalState {
    Uninitialized(UninitializedState),
    Disconnected(DisconnectedState),
    Authenticating(AuthenticatingState),
    Connected(ConnectedState),
    AuthIssues(AuthIssuesState),
}

#[derive(Clone, Debug, PartialEq, Eq)]
pub enum UninitializedState {
    GetAuthState,
    EnsureDeviceCapabilities,
    CheckAuthorizationStatus,
}

#[derive(Clone, Debug, PartialEq, Eq)]
pub enum DisconnectedState {
    BeginOAuthFlow { scopes: Vec<String>, entrypoint: String },
    BeginPairingFlow { pairing_url: String, scopes: Vec<String>, entrypoint: String },
}

#[derive(Clone, Debug, PartialEq, Eq)]
pub enum AuthenticatingState {
    CompleteOAuthFlow { code: String, state: String },
    InitializeDevice,
}

#[derive(Clone, Debug, PartialEq, Eq)]
pub enum ConnectedState {
    CheckAuthorizationStatus,
    Disconnect,
}

#[derive(Clone, Debug, PartialEq, Eq)]
pub enum AuthIssuesState {
    BeginOAuthFlow { scopes: Vec<String>, entrypoint: String },
}

/// Internal state-machine events.
///
/// These represent the results of the account operation for each internal
/// state.
#[derive(Debug)]
pub enum InternalEvent {
    GetAuthStateSuccess { auth_state: FxaRustAuthState },
    BeginOAuthFlowSuccess { oauth_url: String },
    BeginPairingFlowSuccess { oauth_url: String },
    CompleteOAuthFlowSuccess,
    InitializeDeviceSuccess,
    EnsureDeviceCapabilitiesSuccess,
    CheckAuthorizationStatusSuccess { active: bool },
    DisconnectSuccess,
    CallError { kind: CallErrorKind },
}

/// Classification of a failed account operation: an authentication problem, or
/// anything else.
#[derive(Clone, Copy, Debug, PartialEq, Eq)]
pub enum CallErrorKind {
    Auth,
    Other,
}

/// Device information supplied once at driver construction and immutable
/// thereafter; consumed by the device registration operations.
#[derive(Clone, Debug, PartialEq, Eq)]
pub struct DeviceConfig {
    pub name: String,
    pub device_type: String,
    pub capabilities: Vec<String>,
}

/// Errors surfaced to callers of the driver.
///
/// Account-operation failures are never passed through: they are absorbed by
/// the event-processing loop and folded into a state transition.
#[derive(Debug, PartialEq, Eq)]
pub enum Error {
    /// The submitted event is not valid for the current public state; the
    /// state is unchanged.
    InvalidStateTransition(String),
    /// The internal loop bound was exceeded, indicating a defect in the
    /// transition table itself; the state is unchanged.
    StateMachineLogicError(String),
}

// ==================== Diagnostic labels ====================
//
// These return only the variant name, to avoid leaking any PII.

impl FxaState {
    pub open spec fn label_spec(&self) -> Seq<char> {
        match self {
            FxaState::Uninitialized => "Uninitialized"@,
            FxaState::Disconnected => "Disconnected"@,
            FxaState::Authenticating { .. } => "Authenticating"@,
            FxaState::Connected => "Connected"@,
            FxaState::AuthIssues => "AuthIssues"@,
        }
    }

    /// The variant's name, with any payload omitted.
    pub fn label(&self) -> (r: &'static str)
        ensures
            r@ == self.label_spec(),
    {
        match self {
            FxaState::Uninitialized => "Uninitialized",
            FxaState::Disconnected => "Disconnected",
            FxaState::Authenticating { .. } => "Authenticating",
            FxaState::Connected => "Connected",
            FxaState::AuthIssues => "AuthIssues",
        }
    }
}

impl FxaEvent {
    pub open spec fn label_spec(&self) -> Seq<char> {
        match self {
            FxaEvent::Initialize => "FxaEvent::Initialize"@,
            FxaEvent::BeginOAuthFlow { .. } => "FxaEvent::BeginOAuthFlow"@,
            FxaEvent::BeginPairingFlow { .. } => "FxaEvent::BeginPairingFlow"@,
            FxaEvent::CompleteOAuthFlow { .. } => "FxaEvent::CompleteOAuthFlow"@,
            FxaEvent::CancelOAuthFlow => "FxaEvent::CancelOAuthFlow"@,
            FxaEvent::CheckAuthorizationStatus => "FxaEvent::CheckAuthorizationStatus"@,
            FxaEvent::Disconnect => "FxaEvent::Disconnect"@,
        }
    }

    /// The variant's name, with any payload omitted.
    pub fn label(&self) -> (r: &'static str)
        ensures
            r@ == self.label_spec(),
    {
        match self {
            FxaEvent::Initialize => "FxaEvent::Initialize",
            FxaEvent::BeginOAuthFlow { .. } => "FxaEvent::BeginOAuthFlow",
            FxaEvent::BeginPairingFlow { .. } => "FxaEvent::BeginPairingFlow",
            FxaEvent::CompleteOAuthFlow { .. } => "FxaEvent::CompleteOAuthFlow",
            FxaEvent::CancelOAuthFlow => "FxaEvent::CancelOAuthFlow",
            FxaEvent::CheckAuthorizationStatus => "FxaEvent::CheckAuthorizationStatus",
            FxaEvent::Disconnect => "FxaEvent::Disconnect",
        }
    }
}

impl UninitializedState {
    pub open spec fn label_spec(&self) -> Seq<char> {
        match self {
            UninitializedState::GetAuthState => "Uninitialized(GetAuthState)"@,
            UninitializedState::EnsureDeviceCapabilities => "Uninitialized(EnsureDeviceCapabilities)"@,
            UninitializedState::CheckAuthorizationStatus => "Uninitialized(CheckAuthorizationStatus)"@,
        }
    }

    /// The variant's name, with any payload omitted.
    pub fn label(&self) -> (r: &'static str)
        ensures
            r@ == self.label_spec(),
    {
        match self {
            UninitializedState::GetAuthState => "Uninitialized(GetAuthState)",
            UninitializedState::EnsureDeviceCapabilities => "Uninitialized(EnsureDeviceCapabilities)",
            UninitializedState::CheckAuthorizationStatus => "Uninitialized(CheckAuthorizationStatus)",
        }
    }
}

impl DisconnectedState {
    pub open spec fn label_spec(&self) -> Seq<char> {
        match self {
            DisconnectedState::BeginOAuthFlow { .. } => "Disconnected(BeginOAuthFlow)"@,
            DisconnectedState::BeginPairingFlow { .. } => "Disconnected(BeginPairingFlow)"@,
        }
    }

    /// The variant's name, with any payload omitted.
    pub fn label(&self) -> (r: &'static str)
        ensures
            r@ == self.label_spec(),
    {
        match self {
            DisconnectedState::BeginOAuthFlow { .. } => "Disconnected(BeginOAuthFlow)",
            DisconnectedState::BeginPairingFlow { .. } => "Disconnected(BeginPairingFlow)",
        }
    }
}

impl AuthenticatingState {
    pub open spec fn label_spec(&self) -> Seq<char> {
        match self {
            AuthenticatingState::CompleteOAuthFlow { .. } => "Authenticating(CompleteOAuthFlow)"@,
            AuthenticatingState::InitializeDevice => "Authenticating(InitializeDevice)"@,
        }
    }

    /// The variant's name, with any payload omitted.
    pub fn label(&self) -> (r: &'static str)
        ensures
            r@ == self.label_spec(),
    {
        match self {
            AuthenticatingState::CompleteOAuthFlow { .. } => "Authenticating(CompleteOAuthFlow)",
            AuthenticatingState::InitializeDevice => "Authenticating(InitializeDevice)",
        }
    }
}

impl ConnectedState {
    pub open spec fn label_spec(&self) -> Seq<char> {
        match self {
            ConnectedState::CheckAuthorizationStatus => "Connected(CheckAuthorizationStatus)"@,
            ConnectedState::Disconnect => "Connected(Disconnect)"@,
        }
    }

    /// The variant's name, with any payload omitted.
    pub fn label(&self) -> (r: &'static str)
        ensures
            r@ == self.label_spec(),
    {
        match self {
            ConnectedState::CheckAuthorizationStatus => "Connected(CheckAuthorizationStatus)",
            ConnectedState::Disconnect => "Connected(Disconnect)",
        }
    }
}

impl AuthIssuesState {
    pub open spec fn label_spec(&self) -> Seq<char> {
        match self {
            AuthIssuesState::BeginOAuthFlow { .. } => "AuthIssues::BeginOAuthFlow"@,
        }
    }

    /// The variant's name, with any payload omitted.
    pub fn label(&self) -> (r: &'static str)
        ensures
            r@ == self.label_spec(),
    {
        match self {
            AuthIssuesState::BeginOAuthFlow { .. } => "AuthIssues::BeginOAuthFlow",
        }
    }
}

impl InternalEvent {
    pub open spec fn label_spec(&self) -> Seq<char> {
        match self {
            InternalEvent::GetAuthStateSuccess { .. } => "Event::GetAuthStateSuccess"@,
            InternalEvent::BeginOAuthFlowSuccess { .. } => "Event::BeginOAuthFlowSuccess"@,
            InternalEvent::BeginPairingFlowSuccess { .. } => "Event::BeginPairingFlowSuccess"@,
            InternalEvent::CompleteOAuthFlowSuccess => "Event::CompleteOAuthFlowSuccess"@,
            InternalEvent::InitializeDeviceSuccess => "Event::InitializeDeviceSuccess"@,
            InternalEvent::EnsureDeviceCapabilitiesSuccess => "Event::EnsureDeviceCapabilitiesSuccess"@,
            InternalEvent::CheckAuthorizationStatusSuccess { .. } => "Event::CheckAuthorizationStatusSuccess"@,
            InternalEvent::DisconnectSuccess => "Event::DisconnectSuccess"@,
            InternalEvent::CallError { .. } => "Event::CallError"@,
        }
    }

    /// The variant's name, with any payload omitted.
    pub fn label(&self) -> (r: &'static str)
        ensures
            r@ == self.label_spec(),
    {
        match self {
            InternalEvent::GetAuthStateSuccess { .. } => "Event::GetAuthStateSuccess",
            InternalEvent::BeginOAuthFlowSuccess { .. } => "Event::BeginOAuthFlowSuccess",
            InternalEvent::BeginPairingFlowSuccess { .. } => "Event::BeginPairingFlowSuccess",
            InternalEvent::CompleteOAuthFlowSuccess => "Event::CompleteOAuthFlowSuccess",
            InternalEvent::InitializeDeviceSuccess => "Event::InitializeDeviceSuccess",
            InternalEvent::EnsureDeviceCapabilitiesSuccess => "Event::EnsureDeviceCapabilitiesSuccess",
            InternalEvent::CheckAuthorizationStatusSuccess { .. } => "Event::CheckAuthorizationStatusSuccess",
            InternalEvent::DisconnectSuccess => "Event::DisconnectSuccess",
            InternalEvent::CallError { .. } => "Event::CallError",
        }
    }
}

} // verus!
