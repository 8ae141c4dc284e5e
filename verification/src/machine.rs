//! The stateful driver of the hierarchical state machine.
//!
//! [`FxaStateMachine`] owns the current public state and the account
//! collaborator.  `process_event` is the only mutator: it asks the transition
//! logic for the first internal step, invokes the matching account operation,
//! folds the outcome back into the transition logic, and loops until a
//! terminal transition is reached, bounded by
//! [`MAX_INTERNAL_TRANSITIONS`] steps.
//!
//! The contract of `process_event` is stated over [`run_machine`], a spec
//! function that replays the loop on a sequence of operation outcomes.
//! Account-operation failures are never surfaced to callers: every failure is
//! classified and folded into a state transition.

use vstd::prelude::*;
use vstd::string::StringExecFns;

use crate::logic::{InternalStateLogic, InternalStateTransition};
use crate::types::{
    AuthIssuesState, AuthenticatingState, CallErrorKind, ConnectedState, DeviceConfig,
    DisconnectedState, Error, FxaEvent, FxaRustAuthState, FxaState, InternalEvent, InternalState,
    UninitializedState,
};

verus! {

/// Number of internal state transitions to perform before giving up and
/// assuming the transition table is stuck in an infinite loop.
pub const MAX_INTERNAL_TRANSITIONS: usize = 20;

/// The account collaborator: one operation per internal sub-step.
///
/// Each operation may perform blocking network I/O and either returns its
/// typed success payload or a failure already classified as
/// [`CallErrorKind::Auth`] or [`CallErrorKind::Other`].  Nothing is promised
/// of the outcomes: the driver is verified to handle every possible answer.
pub trait FirefoxAccount {
    /// Get the current auth classification.
    fn get_auth_state(&mut self) -> FxaRustAuthState;

    /// Register the locally supported capability set.
    fn ensure_capabilities(&mut self, capabilities: &Vec<String>) -> Result<(), CallErrorKind>;

    /// Start an OAuth authorization; returns the URL to present to the user.
    fn begin_oauth_flow(&mut self, scopes: &Vec<String>, entrypoint: &str) -> Result<
        String,
        CallErrorKind,
    >;

    /// Start an OAuth authorization via a pairing code URL.
    fn begin_pairing_flow(
        &mut self,
        pairing_url: &str,
        scopes: &Vec<String>,
        entrypoint: &str,
    ) -> Result<String, CallErrorKind>;

    /// Finish OAuth with the redirect `code`/`state` pair.
    fn complete_oauth_flow(&mut self, code: &str, state: &str) -> Result<(), CallErrorKind>;

    /// Register this device (name, type, capabilities).
    fn initialize_device(
        &mut self,
        name: &str,
        device_type: &str,
        capabilities: &Vec<String>,
    ) -> Result<(), CallErrorKind>;

    /// Verify server-side token validity.
    fn check_authorization_status(&mut self) -> Result<bool, CallErrorKind>;

    /// Revoke local credentials.
    fn disconnect(&mut self) -> Result<(), CallErrorKind>;
}

/// Terminal outcome of one replay of the driver loop.
#[derive(Debug, PartialEq, Eq)]
pub enum DriverOutcome {
    /// A `Complete` transition was reached: adopt the new public state.
    Completed(FxaState),
    /// A `Cancel` transition was reached after at least one step: keep the
    /// previous public state and report success.
    Canceled,
    /// The very first transition was `Cancel`: the submitted event is invalid
    /// for the current public state.
    Invalid,
    /// The iteration bound was exceeded: the transition table has a cycle.
    LogicError,
}

/// The transition table of the real machine, as a value that can be handed to
/// [`run_with`].
pub open spec fn machine_table() -> spec_fn(InternalState, InternalEvent) -> InternalStateTransition<
    InternalState,
> {
    |state: InternalState, event: InternalEvent| state.step_spec(event)
}

/// Replay the driver loop on a given transition table.
///
/// `transition` is the pending transition, `outcomes` the account-operation
/// outcomes still to be consumed, and `count` the number of internal steps
/// already taken.  Returns `None` when `outcomes` runs out before a terminal
/// transition is reached.
pub open spec fn run_with(
    table: spec_fn(InternalState, InternalEvent) -> InternalStateTransition<InternalState>,
    transition: InternalStateTransition<InternalState>,
    outcomes: Seq<InternalEvent>,
    count: int,
) -> Option<DriverOutcome>
    decreases outcomes.len(),
{
    match transition {
        InternalStateTransition::Complete(state) => Some(DriverOutcome::Completed(state)),
        InternalStateTransition::Cancel => if count == 0 {
            Some(DriverOutcome::Invalid)
        } else {
            Some(DriverOutcome::Canceled)
        },
        InternalStateTransition::Process(state) => {
            if count + 1 > MAX_INTERNAL_TRANSITIONS as int {
                Some(DriverOutcome::LogicError)
            } else if outcomes.len() == 0 {
                None
            } else {
                run_with(table, table(state, outcomes[0]), outcomes.drop_first(), count + 1)
            }
        },
    }
}

/// Replay the driver loop on the real transition table.
pub open spec fn run_machine(
    transition: InternalStateTransition<InternalState>,
    outcomes: Seq<InternalEvent>,
    count: int,
) -> Option<DriverOutcome> {
    run_with(machine_table(), transition, outcomes, count)
}

/// How `process_event`'s result and the stored public state relate to a
/// replay outcome.
pub open spec fn outcome_corresponds(
    outcome: DriverOutcome,
    r: Result<FxaState, Error>,
    old_state: FxaState,
    new_state: FxaState,
) -> bool {
    match outcome {
        DriverOutcome::Completed(state) => r == Result::<FxaState, Error>::Ok(state) && new_state
            == state,
        DriverOutcome::Canceled => r == Result::<FxaState, Error>::Ok(old_state) && new_state
            == old_state,
        DriverOutcome::Invalid => (r matches Err(e) && e is InvalidStateTransition) && new_state
            == old_state,
        DriverOutcome::LogicError => (r matches Err(e) && e is StateMachineLogicError) && new_state
            == old_state,
    }
}

/// The result `r` and state change of `process_event` match what replaying
/// the real transition table on `outcomes` yields.
pub open spec fn replay_corresponds(
    start: InternalStateTransition<InternalState>,
    outcomes: Seq<InternalEvent>,
    r: Result<FxaState, Error>,
    old_state: FxaState,
    new_state: FxaState,
) -> bool {
    match run_machine(start, outcomes, 0) {
        Some(outcome) => outcome_corresponds(outcome, r, old_state, new_state),
        None => false,
    }
}

/// Which internal events an account operation for `state` can produce.
pub open spec fn outcome_matches(state: InternalState, event: InternalEvent) -> bool {
    match state {
        InternalState::Uninitialized(UninitializedState::GetAuthState) => {
            event is GetAuthStateSuccess
        },
        InternalState::Uninitialized(UninitializedState::EnsureDeviceCapabilities) => {
            event is EnsureDeviceCapabilitiesSuccess || event is CallError
        },
        InternalState::Uninitialized(UninitializedState::CheckAuthorizationStatus)
        | InternalState::Connected(ConnectedState::CheckAuthorizationStatus) => {
            event is CheckAuthorizationStatusSuccess || event is CallError
        },
        InternalState::Disconnected(DisconnectedState::BeginOAuthFlow { .. })
        | InternalState::AuthIssues(AuthIssuesState::BeginOAuthFlow { .. }) => {
            event is BeginOAuthFlowSuccess || event is CallError
        },
        InternalState::Disconnected(DisconnectedState::BeginPairingFlow { .. }) => {
            event is BeginPairingFlowSuccess || event is CallError
        },
        InternalState::Authenticating(AuthenticatingState::CompleteOAuthFlow { .. }) => {
            event is CompleteOAuthFlowSuccess || event is CallError
        },
        InternalState::Authenticating(AuthenticatingState::InitializeDevice) => {
            event is InitializeDeviceSuccess || event is CallError
        },
        InternalState::Connected(ConnectedState::Disconnect) => {
            event is DisconnectSuccess || event is CallError
        },
    }
}

/// Whether `outcomes` is a sequence the account operations could actually
/// have produced when replayed from `transition`: each outcome is one that
/// the pending internal state's operation can return
/// ([`outcome_matches`]), and the sequence is exactly consumed when a
/// terminal transition is reached.
pub open spec fn matched_from(
    transition: InternalStateTransition<InternalState>,
    outcomes: Seq<InternalEvent>,
) -> bool
    decreases outcomes.len(),
{
    match transition {
        InternalStateTransition::Process(state) => outcomes.len() > 0 && outcome_matches(
            state,
            outcomes[0],
        ) && matched_from(state.step_spec(outcomes[0]), outcomes.drop_first()),
        _ => outcomes.len() == 0,
    }
}

/// Upper bound on how many further internal steps the real transition table
/// can take from `state` before reaching a terminal transition.
pub open spec fn remaining_steps(state: InternalState) -> int {
    match state {
        InternalState::Uninitialized(UninitializedState::GetAuthState) => 3,
        InternalState::Uninitialized(UninitializedState::EnsureDeviceCapabilities) => 2,
        InternalState::Authenticating(AuthenticatingState::CompleteOAuthFlow { .. }) => 2,
        _ => 1,
    }
}

/// Every step of the real transition table strictly decreases
/// [`remaining_steps`]: the table is acyclic.
pub proof fn lemma_step_decreases(state: InternalState, event: InternalEvent)
    ensures
        state.step_spec(event) matches InternalStateTransition::Process(next) ==> remaining_steps(
            next,
        ) < remaining_steps(state),
{
}

/// The first transition for any public event starts within the step budget.
pub proof fn lemma_start_bounded(state: FxaState, event: FxaEvent)
    ensures
        InternalState::start_spec(state, event) matches InternalStateTransition::Process(s)
            ==> remaining_steps(s) <= 3,
{
}

/// Replaying the real transition table never exhausts the iteration bound,
/// whatever outcomes the account operations produce: the table is acyclic and
/// each chain is far shorter than the bound.
pub proof fn lemma_table_bounded(
    transition: InternalStateTransition<InternalState>,
    outcomes: Seq<InternalEvent>,
    count: int,
)
    requires
        0 <= count,
        transition matches InternalStateTransition::Process(s) ==> count + remaining_steps(s)
            <= MAX_INTERNAL_TRANSITIONS as int,
    ensures
        run_machine(transition, outcomes, count) != Some(DriverOutcome::LogicError),
    decreases outcomes.len(),
{
    match transition {
        InternalStateTransition::Process(state) => {
            if count + 1 <= MAX_INTERNAL_TRANSITIONS as int && outcomes.len() > 0 {
                lemma_step_decreases(state, outcomes[0]);
                lemma_table_bounded(
                    state.step_spec(outcomes[0]),
                    outcomes.drop_first(),
                    count + 1,
                );
            }
        },
        _ => {},
    }
}

/// The driver loop never hits the iteration bound with the real transition
/// table: `process_event` cannot return `StateMachineLogicError`.
pub proof fn lemma_no_logic_error(state: FxaState, event: FxaEvent, outcomes: Seq<InternalEvent>)
    ensures
        run_machine(InternalState::start_spec(state, event), outcomes, 0) != Some(
            DriverOutcome::LogicError,
        ),
{
    lemma_start_bounded(state, event);
    lemma_table_bounded(InternalState::start_spec(state, event), outcomes, 0);
}

/// The replay reaches a terminal transition before it runs out of outcomes,
/// as long as at least [`remaining_steps`] outcomes are supplied.
pub proof fn lemma_run_completes(
    transition: InternalStateTransition<InternalState>,
    outcomes: Seq<InternalEvent>,
    count: int,
)
    requires
        transition matches InternalStateTransition::Process(s) ==> remaining_steps(s)
            <= outcomes.len(),
    ensures
        run_machine(transition, outcomes, count) is Some,
    decreases outcomes.len(),
{
    match transition {
        InternalStateTransition::Process(state) => {
            if count + 1 <= MAX_INTERNAL_TRANSITIONS as int {
                lemma_step_decreases(state, outcomes[0]);
                lemma_run_completes(
                    state.step_spec(outcomes[0]),
                    outcomes.drop_first(),
                    count + 1,
                );
            }
        },
        _ => {},
    }
}

/// Every public event settles within three account operations: replaying the
/// transition table on any three outcomes reaches a terminal transition.
pub proof fn lemma_event_settles(state: FxaState, event: FxaEvent, outcomes: Seq<InternalEvent>)
    requires
        outcomes.len() >= 3,
    ensures
        run_machine(InternalState::start_spec(state, event), outcomes, 0) is Some,
        run_machine(InternalState::start_spec(state, event), outcomes, 0) != Some(
            DriverOutcome::LogicError,
        ),
{
    lemma_start_bounded(state, event);
    lemma_run_completes(InternalState::start_spec(state, event), outcomes, 0);
    lemma_no_logic_error(state, event, outcomes);
}

/// Loop guard: with an injected transition table that never terminates (a
/// cycle longer than the bound), the replay reports `LogicError` rather than
/// running forever, as soon as enough outcomes are supplied.
pub proof fn lemma_loop_guard(
    table: spec_fn(InternalState, InternalEvent) -> InternalStateTransition<InternalState>,
    transition: InternalStateTransition<InternalState>,
    outcomes: Seq<InternalEvent>,
    count: int,
)
    requires
        forall|s: InternalState, e: InternalEvent| #[trigger] table(s, e) is Process,
        transition is Process,
        0 <= count <= MAX_INTERNAL_TRANSITIONS as int,
        outcomes.len() >= MAX_INTERNAL_TRANSITIONS as int + 1 - count,
    ensures
        run_with(table, transition, outcomes, count) == Some(DriverOutcome::LogicError),
    decreases MAX_INTERNAL_TRANSITIONS as int - count,
{
    if count + 1 <= MAX_INTERNAL_TRANSITIONS as int {
        let state = transition->Process_0;
        lemma_loop_guard(table, table(state, outcomes[0]), outcomes.drop_first(), count + 1);
    }
}

/// Disconnecting always disconnects: any result of `process_event` that its
/// contract admits for a `Disconnect` event while `Connected` is
/// `Ok(Disconnected)` with the stored state `Disconnected`, whether the
/// revocation operation succeeded or failed.
pub proof fn lemma_disconnect_forces_disconnected(
    outcomes: Seq<InternalEvent>,
    r: Result<FxaState, Error>,
    new_state: FxaState,
)
    requires
        matched_from(
            InternalState::start_spec(FxaState::Connected, FxaEvent::Disconnect),
            outcomes,
        ),
        replay_corresponds(
            InternalState::start_spec(FxaState::Connected, FxaEvent::Disconnect),
            outcomes,
            r,
            FxaState::Connected,
            new_state,
        ),
    ensures
        r == Result::<FxaState, Error>::Ok(FxaState::Disconnected),
        new_state == FxaState::Disconnected,
{
    let start = InternalState::start_spec(FxaState::Connected, FxaEvent::Disconnect);
    let table = machine_table();
    let s0 = InternalState::Connected(ConnectedState::Disconnect);
    assert(start == InternalStateTransition::<InternalState>::Process(s0));
    assert(outcome_matches(s0, outcomes[0]));
    assert(table(s0, outcomes[0]) == s0.step_spec(outcomes[0]));
    assert(s0.step_spec(outcomes[0]) == InternalStateTransition::<InternalState>::Complete(
        FxaState::Disconnected,
    ));
    assert(run_machine(start, outcomes, 0) == run_machine(
        s0.step_spec(outcomes[0]),
        outcomes.drop_first(),
        1,
    ));
    assert(run_machine(start, outcomes, 0) == Some(
        DriverOutcome::Completed(FxaState::Disconnected),
    ));
}

/// Initializing always settles: any result of `process_event` that its
/// contract admits for an `Initialize` event while `Uninitialized` is `Ok` of
/// `Disconnected`, `Connected` or `AuthIssues` -- never the unchanged
/// `Uninitialized` state.
pub proof fn lemma_initialize_settles(
    outcomes: Seq<InternalEvent>,
    r: Result<FxaState, Error>,
    new_state: FxaState,
)
    requires
        matched_from(
            InternalState::start_spec(FxaState::Uninitialized, FxaEvent::Initialize),
            outcomes,
        ),
        replay_corresponds(
            InternalState::start_spec(FxaState::Uninitialized, FxaEvent::Initialize),
            outcomes,
            r,
            FxaState::Uninitialized,
            new_state,
        ),
    ensures
        r == Result::<FxaState, Error>::Ok(new_state),
        new_state == FxaState::Disconnected || new_state == FxaState::Connected || new_state
            == FxaState::AuthIssues,
{
    let start = InternalState::start_spec(FxaState::Uninitialized, FxaEvent::Initialize);
    let table = machine_table();
    let s0 = InternalState::Uninitialized(UninitializedState::GetAuthState);
    assert(start == InternalStateTransition::<InternalState>::Process(s0));
    assert(outcome_matches(s0, outcomes[0]));
    assert(table(s0, outcomes[0]) == s0.step_spec(outcomes[0]));
    let t1 = s0.step_spec(outcomes[0]);
    let rest1 = outcomes.drop_first();
    assert(matched_from(t1, rest1));
    assert(run_machine(start, outcomes, 0) == run_machine(t1, rest1, 1));
    let auth_state = outcomes[0]->GetAuthStateSuccess_auth_state;
    if auth_state == FxaRustAuthState::Connected {
        let s1 = InternalState::Uninitialized(UninitializedState::EnsureDeviceCapabilities);
        assert(t1 == InternalStateTransition::<InternalState>::Process(s1));
        assert(outcome_matches(s1, rest1[0]));
        assert(table(s1, rest1[0]) == s1.step_spec(rest1[0]));
        let t2 = s1.step_spec(rest1[0]);
        let rest2 = rest1.drop_first();
        assert(matched_from(t2, rest2));
        assert(run_machine(t1, rest1, 1) == run_machine(t2, rest2, 2));
        if t2 is Process {
            let s2 = t2->Process_0;
            assert(s2 == InternalState::Uninitialized(
                UninitializedState::CheckAuthorizationStatus,
            ));
            assert(outcome_matches(s2, rest2[0]));
            assert(table(s2, rest2[0]) == s2.step_spec(rest2[0]));
            let t3 = s2.step_spec(rest2[0]);
            assert(run_machine(t2, rest2, 2) == run_machine(t3, rest2.drop_first(), 3));
            assert(t3 matches InternalStateTransition::Complete(s) && (s == FxaState::Connected
                || s == FxaState::AuthIssues));
        } else {
            assert(t2 matches InternalStateTransition::Complete(s) && (s == FxaState::Connected
                || s == FxaState::Disconnected));
        }
    } else {
        assert(t1 matches InternalStateTransition::Complete(s) && (s == FxaState::Disconnected
            || s == FxaState::Connected));
    }
}

/// FxA state machine driver.
///
/// This provides a high-level interface for using an account: login, logout,
/// checking auth status, etc.  The driver exclusively owns the current public
/// state; callers must serialize access to it (one `process_event` call in
/// flight at a time), which `&mut self` enforces.
pub struct FxaStateMachine<A: FirefoxAccount> {
    account: A,
    state: FxaState,
    device_config: DeviceConfig,
}

impl<A: FirefoxAccount> FxaStateMachine<A> {
    /// The stored public state.
    pub closed spec fn state_spec(&self) -> FxaState {
        self.state
    }

    /// The device configuration supplied at construction.
    pub closed spec fn device_config_spec(&self) -> DeviceConfig {
        self.device_config
    }

    /// The account collaborator.
    pub closed spec fn account_spec(&self) -> A {
        self.account
    }

    /// Create an FxaStateMachine.
    ///
    /// Note: when restoring a connected account, only
    /// `device_config.capabilities` will be used.  The device type and device
    /// name stored on the server take precedence.
    pub fn new(account: A, device_config: DeviceConfig) -> (r: Self)
        ensures
            r.state_spec() == FxaState::Uninitialized,
            r.device_config_spec() == device_config,
            r.account_spec() == account,
    {
        FxaStateMachine { account, state: FxaState::Uninitialized, device_config }
    }

    /// Get the current state.
    ///
    /// Takes `&self` and returns exactly the stored state: calling this any
    /// number of times without a `process_event` in between always returns
    /// the same value.
    pub fn state(&self) -> (r: FxaState)
        ensures
            r == self.state_spec(),
    {
        self.state.clone()
    }

    /// Process an event (login, logout, etc).
    ///
    /// On success, returns the new state.  On error, the state remains the
    /// same.  The contract ties the result to a replay of the transition
    /// table ([`run_machine`]) on a sequence of outcomes that the invoked
    /// account operations can actually produce ([`matched_from`]), and pins
    /// the two error cases: an event outside the transition table is
    /// rejected as `InvalidStateTransition` with the state unchanged, and
    /// `StateMachineLogicError` is never returned because the table is
    /// acyclic.  See [`lemma_disconnect_forces_disconnected`] and
    /// [`lemma_initialize_settles`] for what this forces of two events.
    pub fn process_event(&mut self, event: FxaEvent) -> (r: Result<FxaState, Error>)
        ensures
            final(self).device_config_spec() == old(self).device_config_spec(),
            r is Err <==> InternalState::start_spec(old(self).state_spec(), event)
                is Cancel,
            r matches Err(e) ==> e is InvalidStateTransition && final(self).state_spec() == old(
                self,
            ).state_spec(),
            r matches Err(e) ==> (e matches Error::InvalidStateTransition(m) && m@ == old(
                self,
            ).state_spec().label_spec() + " -> "@ + event.label_spec()),
            r matches Ok(s) ==> final(self).state_spec() == s,
            exists|outcomes: Seq<InternalEvent>|
                #[trigger] replay_corresponds(
                    InternalState::start_spec(old(self).state_spec(), event),
                    outcomes,
                    r,
                    old(self).state_spec(),
                    final(self).state_spec(),
                ) && matched_from(
                    InternalState::start_spec(old(self).state_spec(), event),
                    outcomes,
                ),
    {
        let state_label = self.state.label();
        let event_label = event.label();
        let ghost ev = event;
        let ghost old_state = self.state;
        let mut count: usize = 0;
        let mut transition = InternalState::start_transition(&self.state, event);
        let ghost start_t = transition;
        let ghost mut outcomes: Seq<InternalEvent> = Seq::empty();

        proof {
            lemma_start_bounded(old_state, ev);
        }

        loop
            invariant
                self.state == old(self).state,
                self.device_config == old(self).device_config,
                old_state == old(self).state,
                start_t == InternalState::start_spec(old_state, ev),
                ev == event,
                state_label@ == old_state.label_spec(),
                event_label@ == ev.label_spec(),
                count <= MAX_INTERNAL_TRANSITIONS,
                count == 0 ==> transition == start_t,
                count > 0 ==> !(start_t is Cancel),
                transition matches InternalStateTransition::Process(s) ==> count as int
                    + remaining_steps(s) <= MAX_INTERNAL_TRANSITIONS as int,
                forall|future: Seq<InternalEvent>|
                    #[trigger] run_machine(start_t, outcomes + future, 0) == run_machine(
                        transition,
                        future,
                        count as int,
                    ),
                forall|future: Seq<InternalEvent>|
                    #[trigger] matched_from(start_t, outcomes + future) == matched_from(
                        transition,
                        future,
                    ),
            decreases MAX_INTERNAL_TRANSITIONS - count,
        {
            let ghost t_entry = transition;
            let internal_state = match transition {
                InternalStateTransition::Process(internal_state) => internal_state,
                InternalStateTransition::Complete(public_state) => {
                    let ghost ps = public_state;
                    proof {
                        assert(run_machine(start_t, outcomes + Seq::<InternalEvent>::empty(), 0)
                            == run_machine(t_entry, Seq::<InternalEvent>::empty(), count as int));
                        assert(matched_from(start_t, outcomes + Seq::<InternalEvent>::empty())
                            == matched_from(t_entry, Seq::<InternalEvent>::empty()));
                        assert(outcomes + Seq::<InternalEvent>::empty() =~= outcomes);
                        assert(run_machine(start_t, outcomes, 0) == Some(
                            DriverOutcome::Completed(ps),
                        ));
                        assert(matched_from(start_t, outcomes));
                    }
                    self.state = public_state;
                    let result = Ok(self.state.clone());
                    proof {
                        assert(replay_corresponds(start_t, outcomes, result, old_state, self.state));
                    }
                    return result;
                },
                InternalStateTransition::Cancel => {
                    proof {
                        assert(run_machine(start_t, outcomes + Seq::<InternalEvent>::empty(), 0)
                            == run_machine(t_entry, Seq::<InternalEvent>::empty(), count as int));
                        assert(matched_from(start_t, outcomes + Seq::<InternalEvent>::empty())
                            == matched_from(t_entry, Seq::<InternalEvent>::empty()));
                        assert(outcomes + Seq::<InternalEvent>::empty() =~= outcomes);
                        assert(matched_from(start_t, outcomes));
                    }
                    if count == 0 {
                        // `start_transition` returned `Cancel`: the
                        // application sent an invalid event for this state.
                        let msg = String::from_str(state_label).concat(" -> ").concat(event_label);
                        proof {
                            assert(msg@ =~= old_state.label_spec() + " -> "@ + ev.label_spec());
                        }
                        let result = Err(Error::InvalidStateTransition(msg));
                        proof {
                            assert(run_machine(start_t, outcomes, 0) == Some(
                                DriverOutcome::Invalid,
                            ));
                            assert(replay_corresponds(
                                start_t,
                                outcomes,
                                result,
                                old_state,
                                self.state,
                            ));
                        }
                        return result;
                    } else {
                        let result = Ok(self.state.clone());
                        proof {
                            assert(run_machine(start_t, outcomes, 0) == Some(
                                DriverOutcome::Canceled,
                            ));
                            assert(replay_corresponds(
                                start_t,
                                outcomes,
                                result,
                                old_state,
                                self.state,
                            ));
                        }
                        return result;
                    }
                },
            };
            count = count + 1;
            if count > MAX_INTERNAL_TRANSITIONS {
                // Unreachable with the real transition table (the step budget
                // in the loop invariant rules it out), but kept as a
                // defensive guard against a cycle introduced by a future
                // table change.
                proof {
                    assert(remaining_steps(internal_state) >= 1);
                    assert(false);
                }
                return Err(
                    Error::StateMachineLogicError(String::from_str("infinite loop detected")),
                );
            }
            let internal_event = self.process_internal_state(&internal_state);
            let ghost ie = internal_event;
            let ghost prev_outcomes = outcomes;
            let ghost prev_count: int = count as int - 1;
            proof {
                outcomes = outcomes.push(ie);
                lemma_step_decreases(internal_state, ie);
                assert forall|future: Seq<InternalEvent>|
                    #[trigger] run_machine(start_t, outcomes + future, 0) == run_machine(
                        internal_state.step_spec(ie),
                        future,
                        count as int,
                    ) by {
                    let chained = seq![ie] + future;
                    let table = machine_table();
                    assert(run_machine(start_t, prev_outcomes + chained, 0) == run_machine(
                        t_entry,
                        chained,
                        prev_count,
                    ));
                    assert(chained[0] == ie);
                    assert(chained.drop_first() =~= future);
                    assert(table(internal_state, ie) == internal_state.step_spec(ie));
                    assert(prev_outcomes + chained =~= outcomes + future);
                }
                assert forall|future: Seq<InternalEvent>|
                    #[trigger] matched_from(start_t, outcomes + future) == matched_from(
                        internal_state.step_spec(ie),
                        future,
                    ) by {
                    let chained = seq![ie] + future;
                    assert(matched_from(start_t, prev_outcomes + chained) == matched_from(
                        t_entry,
                        chained,
                    ));
                    assert(chained[0] == ie);
                    assert(chained.drop_first() =~= future);
                    assert(prev_outcomes + chained =~= outcomes + future);
                }
            }
            transition = internal_state.transition(internal_event);
        }
    }

    /// Process an internal state.
    ///
    /// This invokes the account operation that corresponds to the internal
    /// state and returns the internal event that corresponds to the result.
    /// The stored public state and device configuration are untouched; the
    /// returned event is always one that the given state can produce.
    pub fn process_internal_state(&mut self, state: &InternalState) -> (r: InternalEvent)
        ensures
            final(self).state_spec() == old(self).state_spec(),
            final(self).device_config_spec() == old(self).device_config_spec(),
            outcome_matches(*state, r),
    {
        match state {
            InternalState::Uninitialized(UninitializedState::GetAuthState) => {
                InternalEvent::GetAuthStateSuccess { auth_state: self.account.get_auth_state() }
            },
            InternalState::Uninitialized(UninitializedState::EnsureDeviceCapabilities) => {
                match self.account.ensure_capabilities(&self.device_config.capabilities) {
                    Ok(_) => InternalEvent::EnsureDeviceCapabilitiesSuccess,
                    Err(kind) => InternalEvent::CallError { kind },
                }
            },
            InternalState::Disconnected(DisconnectedState::BeginOAuthFlow { scopes, entrypoint })
            | InternalState::AuthIssues(
                AuthIssuesState::BeginOAuthFlow { scopes, entrypoint },
            ) => {
                match self.account.begin_oauth_flow(scopes, entrypoint.as_str()) {
                    Ok(oauth_url) => InternalEvent::BeginOAuthFlowSuccess { oauth_url },
                    Err(kind) => InternalEvent::CallError { kind },
                }
            },
            InternalState::Disconnected(
                DisconnectedState::BeginPairingFlow { pairing_url, scopes, entrypoint },
            ) => {
                match self.account.begin_pairing_flow(
                    pairing_url.as_str(),
                    scopes,
                    entrypoint.as_str(),
                ) {
                    Ok(oauth_url) => InternalEvent::BeginPairingFlowSuccess { oauth_url },
                    Err(kind) => InternalEvent::CallError { kind },
                }
            },
            InternalState::Authenticating(
                AuthenticatingState::CompleteOAuthFlow { code, state },
            ) => {
                match self.account.complete_oauth_flow(code.as_str(), state.as_str()) {
                    Ok(_) => InternalEvent::CompleteOAuthFlowSuccess,
                    Err(kind) => InternalEvent::CallError { kind },
                }
            },
            InternalState::Authenticating(AuthenticatingState::InitializeDevice) => {
                match self.account.initialize_device(
                    self.device_config.name.as_str(),
                    self.device_config.device_type.as_str(),
                    &self.device_config.capabilities,
                ) {
                    Ok(_) => InternalEvent::InitializeDeviceSuccess,
                    Err(kind) => InternalEvent::CallError { kind },
                }
            },
            InternalState::Connected(ConnectedState::CheckAuthorizationStatus)
            | InternalState::Uninitialized(UninitializedState::CheckAuthorizationStatus) => {
                match self.account.check_authorization_status() {
                    Ok(active) => InternalEvent::CheckAuthorizationStatusSuccess { active },
                    Err(kind) => InternalEvent::CallError { kind },
                }
            },
            InternalState::Connected(ConnectedState::Disconnect) => {
                match self.account.disconnect() {
                    Ok(_) => InternalEvent::DisconnectSuccess,
                    Err(kind) => InternalEvent::CallError { kind },
                }
            },
        }
    }
}

} // verus!
