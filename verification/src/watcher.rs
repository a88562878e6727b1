//! The per-site mailbox watcher's connection state machine. The decisions —
//! which state follows which outcome, how long to back off, and when the
//! watcher is to stop — are pure functions here; the runner that owns the
//! mailbox session performs each state's entry action and feeds the outcome
//! back as an event.
//!
//! Transient connectivity failures back off and reconnect forever; only a
//! rejection of the credentials is fatal to the one watcher.

use vstd::prelude::*;

verus! {

/// Connection state of one site's watcher. `Fetching` carries the mailbox
/// sequence numbers of the unseen messages still to process.
pub enum WatcherState {
    Disconnected,
    Connected,
    Authenticated,
    MailboxSelected,
    Fetching { pending: Vec<u32> },
    Idling,
}

/// The mathematical value of a [`WatcherState`].
pub enum StateV {
    Disconnected,
    Connected,
    Authenticated,
    MailboxSelected,
    Fetching { pending: Seq<u32> },
    Idling,
}

impl View for WatcherState {
    type V = StateV;

    open spec fn view(&self) -> StateV {
        match self {
            WatcherState::Disconnected => StateV::Disconnected,
            WatcherState::Connected => StateV::Connected,
            WatcherState::Authenticated => StateV::Authenticated,
            WatcherState::MailboxSelected => StateV::MailboxSelected,
            WatcherState::Fetching { pending } => StateV::Fetching { pending: pending@ },
            WatcherState::Idling => StateV::Idling,
        }
    }
}

/// Outcome of one entry action, as the runner reports it back.
pub enum WatcherEvent {
    ConnectOk,
    ConnectFailed,
    AuthOk,
    /// The server rejected the credentials: the one fatal condition.
    AuthRejected,
    /// The transport failed while authenticating: transient, like any other
    /// connectivity loss.
    AuthTransportFailed,
    SelectOk,
    SelectFailed,
    /// The unseen-message query returned these sequence numbers.
    SearchOk { unseen: Vec<u32> },
    SearchFailed,
    /// The first pending message was processed and marked seen, or its
    /// processing failed; either way it is done and must not stop the batch.
    MessageHandled,
    IdleEngageFailed,
    /// The idle wait ended; `changed` tells a server push from a timeout,
    /// and either way the fetch loop is re-entered.
    IdleWaitOk { changed: bool },
    IdleWaitFailed,
}

/// The mathematical value of a [`WatcherEvent`].
pub enum EventV {
    ConnectOk,
    ConnectFailed,
    AuthOk,
    AuthRejected,
    AuthTransportFailed,
    SelectOk,
    SelectFailed,
    SearchOk { unseen: Seq<u32> },
    SearchFailed,
    MessageHandled,
    IdleEngageFailed,
    IdleWaitOk { changed: bool },
    IdleWaitFailed,
}

impl View for WatcherEvent {
    type V = EventV;

    open spec fn view(&self) -> EventV {
        match self {
            WatcherEvent::ConnectOk => EventV::ConnectOk,
            WatcherEvent::ConnectFailed => EventV::ConnectFailed,
            WatcherEvent::AuthOk => EventV::AuthOk,
            WatcherEvent::AuthRejected => EventV::AuthRejected,
            WatcherEvent::AuthTransportFailed => EventV::AuthTransportFailed,
            WatcherEvent::SelectOk => EventV::SelectOk,
            WatcherEvent::SelectFailed => EventV::SelectFailed,
            WatcherEvent::SearchOk { unseen } => EventV::SearchOk { unseen: unseen@ },
            WatcherEvent::SearchFailed => EventV::SearchFailed,
            WatcherEvent::MessageHandled => EventV::MessageHandled,
            WatcherEvent::IdleEngageFailed => EventV::IdleEngageFailed,
            WatcherEvent::IdleWaitOk { changed } => EventV::IdleWaitOk { changed: *changed },
            WatcherEvent::IdleWaitFailed => EventV::IdleWaitFailed,
        }
    }
}

/// What the runner is to do on entering a state.
#[derive(PartialEq, Eq, Structural, Clone, Copy, Debug)]
pub enum WatcherAction {
    /// Open the encrypted transport to the site's host and port.
    Connect,
    /// Log in with the site's user and password.
    Authenticate,
    /// Select the inbox folder.
    SelectInbox,
    /// Query for unseen message sequence numbers.
    SearchUnseen,
    /// Fetch this message, extract and forward its record, mark it seen.
    ProcessMessage(u32),
    /// Engage idle and wait, bounded, for a server push.
    EngageIdleAndWait,
}

/// One decision of the state machine: the state entered next, the seconds
/// to back off before its entry action, and whether the watcher stops for
/// good instead.
pub struct Step {
    pub next: WatcherState,
    pub backoff_secs: u32,
    pub fatal: bool,
}

/// The mathematical value of a [`Step`].
pub struct StepV {
    pub next: StateV,
    pub backoff_secs: u32,
    pub fatal: bool,
}

impl View for Step {
    type V = StepV;

    open spec fn view(&self) -> StepV {
        StepV { next: self.next@, backoff_secs: self.backoff_secs, fatal: self.fatal }
    }
}

/// A state is well formed when a fetch state still has work pending.
pub open spec fn spec_wf(s: StateV) -> bool {
    match s {
        StateV::Fetching { pending } => pending.len() > 0,
        _ => true,
    }
}

/// The entry action of each state, as the transition table gives it.
pub open spec fn spec_entry_action(s: StateV) -> WatcherAction {
    match s {
        StateV::Disconnected => WatcherAction::Connect,
        StateV::Connected => WatcherAction::Authenticate,
        StateV::Authenticated => WatcherAction::SelectInbox,
        StateV::MailboxSelected => WatcherAction::SearchUnseen,
        StateV::Fetching { pending } => WatcherAction::ProcessMessage(pending[0]),
        StateV::Idling => WatcherAction::EngageIdleAndWait,
    }
}

/// The transition table: for every state and entry-action outcome, the next
/// state, the backoff, and whether the failure is fatal. An event that its
/// state's entry action cannot produce changes nothing.
pub open spec fn spec_step(s: StateV, e: EventV) -> StepV {
    let stay = StepV { next: s, backoff_secs: 0u32, fatal: false };
    match s {
        StateV::Disconnected => match e {
            EventV::ConnectOk => StepV { next: StateV::Connected, backoff_secs: 0u32, fatal: false },
            EventV::ConnectFailed => StepV {
                next: StateV::Disconnected,
                backoff_secs: 30u32,
                fatal: false,
            },
            _ => stay,
        },
        StateV::Connected => match e {
            EventV::AuthOk => StepV {
                next: StateV::Authenticated,
                backoff_secs: 0u32,
                fatal: false,
            },
            EventV::AuthRejected => StepV {
                next: StateV::Disconnected,
                backoff_secs: 0u32,
                fatal: true,
            },
            EventV::AuthTransportFailed => StepV {
                next: StateV::Disconnected,
                backoff_secs: 10u32,
                fatal: false,
            },
            _ => stay,
        },
        StateV::Authenticated => match e {
            EventV::SelectOk => StepV {
                next: StateV::MailboxSelected,
                backoff_secs: 0u32,
                fatal: false,
            },
            EventV::SelectFailed => StepV {
                next: StateV::Disconnected,
                backoff_secs: 10u32,
                fatal: false,
            },
            _ => stay,
        },
        StateV::MailboxSelected => match e {
            EventV::SearchOk { unseen } => if unseen.len() == 0 {
                StepV { next: StateV::Idling, backoff_secs: 0u32, fatal: false }
            } else {
                StepV {
                    next: StateV::Fetching { pending: unseen },
                    backoff_secs: 0u32,
                    fatal: false,
                }
            },
            EventV::SearchFailed => StepV {
                next: StateV::Disconnected,
                backoff_secs: 10u32,
                fatal: false,
            },
            _ => stay,
        },
        StateV::Fetching { pending } => match e {
            EventV::MessageHandled => if pending.len() <= 1 {
                StepV { next: StateV::Idling, backoff_secs: 0u32, fatal: false }
            } else {
                StepV {
                    next: StateV::Fetching { pending: pending.drop_first() },
                    backoff_secs: 0u32,
                    fatal: false,
                }
            },
            _ => stay,
        },
        StateV::Idling => match e {
            EventV::IdleEngageFailed => StepV {
                next: StateV::Idling,
                backoff_secs: 60u32,
                fatal: false,
            },
            EventV::IdleWaitOk { changed: _ } => StepV {
                next: StateV::MailboxSelected,
                backoff_secs: 0u32,
                fatal: false,
            },
            EventV::IdleWaitFailed => StepV {
                next: StateV::Disconnected,
                backoff_secs: 10u32,
                fatal: false,
            },
            _ => stay,
        },
    }
}

/// Reconnect after failure: a transport-level failure while authenticating
/// is not fatal — the watcher backs off and returns to `Disconnected`, and
/// the next successful connect, authenticate and select walk it back to
/// `MailboxSelected`, whose entry action queries for unseen messages again.
/// The machine touches only the one site's state, so no other watcher is
/// affected.
pub proof fn lemma_reconnect_after_auth_failure()
    ensures
        spec_step(StateV::Connected, EventV::AuthTransportFailed) == (StepV {
            next: StateV::Disconnected,
            backoff_secs: 10u32,
            fatal: false,
        }),
        spec_step(StateV::Disconnected, EventV::ConnectOk).next == StateV::Connected,
        spec_step(StateV::Disconnected, EventV::ConnectOk).fatal == false,
        spec_step(StateV::Connected, EventV::AuthOk).next == StateV::Authenticated,
        spec_step(StateV::Connected, EventV::AuthOk).fatal == false,
        spec_step(StateV::Authenticated, EventV::SelectOk).next == StateV::MailboxSelected,
        spec_step(StateV::Authenticated, EventV::SelectOk).fatal == false,
        spec_entry_action(StateV::MailboxSelected) == WatcherAction::SearchUnseen,
{
}

/// The entry action the runner is to perform in `state`.
pub fn entry_action(state: &WatcherState) -> (r: WatcherAction)
    requires
        spec_wf(state@),
    ensures
        r == spec_entry_action(state@),
{
    match state {
        WatcherState::Disconnected => WatcherAction::Connect,
        WatcherState::Connected => WatcherAction::Authenticate,
        WatcherState::Authenticated => WatcherAction::SelectInbox,
        WatcherState::MailboxSelected => WatcherAction::SearchUnseen,
        WatcherState::Fetching { pending } => WatcherAction::ProcessMessage(pending[0]),
        WatcherState::Idling => WatcherAction::EngageIdleAndWait,
    }
}

/// Applies the transition table to one outcome.
pub fn step(state: WatcherState, event: WatcherEvent) -> (r: Step)
    ensures
        r@ == spec_step(state@, event@),
        spec_wf(state@) ==> spec_wf(r@.next),
{
    match state {
        WatcherState::Disconnected => match event {
            WatcherEvent::ConnectOk => Step {
                next: WatcherState::Connected,
                backoff_secs: 0,
                fatal: false,
            },
            WatcherEvent::ConnectFailed => Step {
                next: WatcherState::Disconnected,
                backoff_secs: 30,
                fatal: false,
            },
            _ => Step { next: WatcherState::Disconnected, backoff_secs: 0, fatal: false },
        },
        WatcherState::Connected => match event {
            WatcherEvent::AuthOk => Step {
                next: WatcherState::Authenticated,
                backoff_secs: 0,
                fatal: false,
            },
            WatcherEvent::AuthRejected => Step {
                next: WatcherState::Disconnected,
                backoff_secs: 0,
                fatal: true,
            },
            WatcherEvent::AuthTransportFailed => Step {
                next: WatcherState::Disconnected,
                backoff_secs: 10,
                fatal: false,
            },
            _ => Step { next: WatcherState::Connected, backoff_secs: 0, fatal: false },
        },
        WatcherState::Authenticated => match event {
            WatcherEvent::SelectOk => Step {
                next: WatcherState::MailboxSelected,
                backoff_secs: 0,
                fatal: false,
            },
            WatcherEvent::SelectFailed => Step {
                next: WatcherState::Disconnected,
                backoff_secs: 10,
                fatal: false,
            },
            _ => Step { next: WatcherState::Authenticated, backoff_secs: 0, fatal: false },
        },
        WatcherState::MailboxSelected => match event {
            WatcherEvent::SearchOk { unseen } => {
                if unseen.len() == 0 {
                    Step { next: WatcherState::Idling, backoff_secs: 0, fatal: false }
                } else {
                    Step {
                        next: WatcherState::Fetching { pending: unseen },
                        backoff_secs: 0,
                        fatal: false,
                    }
                }
            },
            WatcherEvent::SearchFailed => Step {
                next: WatcherState::Disconnected,
                backoff_secs: 10,
                fatal: false,
            },
            _ => Step { next: WatcherState::MailboxSelected, backoff_secs: 0, fatal: false },
        },
        WatcherState::Fetching { pending } => match event {
            WatcherEvent::MessageHandled => {
                if pending.len() <= 1 {
                    Step { next: WatcherState::Idling, backoff_secs: 0, fatal: false }
                } else {
                    let mut rest = pending;
                    rest.remove(0);
                    proof {
                        assert(rest@ =~= pending@.drop_first());
                    }
                    Step {
                        next: WatcherState::Fetching { pending: rest },
                        backoff_secs: 0,
                        fatal: false,
                    }
                }
            },
            _ => Step {
                next: WatcherState::Fetching { pending },
                backoff_secs: 0,
                fatal: false,
            },
        },
        WatcherState::Idling => match event {
            WatcherEvent::IdleEngageFailed => Step {
                next: WatcherState::Idling,
                backoff_secs: 60,
                fatal: false,
            },
            WatcherEvent::IdleWaitOk { changed: _ } => Step {
                next: WatcherState::MailboxSelected,
                backoff_secs: 0,
                fatal: false,
            },
            WatcherEvent::IdleWaitFailed => Step {
                next: WatcherState::Disconnected,
                backoff_secs: 10,
                fatal: false,
            },
            _ => Step { next: WatcherState::Idling, backoff_secs: 0, fatal: false },
        },
    }
}

} // verus!
