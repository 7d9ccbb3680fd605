//! The per-connection state machine. It decides; the caller performs the
//! actions of each transition (authenticate, join the pool, release the
//! pool entry, send, close) and hands back what happened as the next event.
use vstd::prelude::*;
use crate::model::{Match, PlayerId};

verus! {

/// How a client asks to leave the search.
#[derive(Clone, Copy, Debug, PartialEq, Eq, Structural)]
pub enum CancelRequest {
    /// Leave the pool and pick a mode again.
    SearchAgain,
    /// Leave the pool and end the session.
    Leave,
}

/// An inbound message, as interpreted by the transport.
#[derive(Clone, Copy, Debug, PartialEq, Eq, Structural)]
pub enum Inbound {
    AuthCredential,
    MatchmakingRequest,
    MatchmakingCancel(CancelRequest),
    /// A message that cannot be interpreted.
    Unrecognized,
    /// The client's message stream ended.
    EndOfStream,
}

/// What the authentication provider answered.
#[derive(Clone, Copy, Debug, PartialEq, Eq, Structural)]
pub enum AuthOutcome {
    ProviderError,
    Rejected,
    Accepted(PlayerId),
}

/// The events a session reacts to. `Ready` holds everything that became
/// ready in one wait: a committed match, a client message, the shutdown
/// signal.
#[derive(Clone, Copy, Debug, PartialEq, Eq, Structural)]
pub enum SessionEvent {
    Ready { resolved: Option<Match>, client: Option<Inbound>, shutdown: bool },
    Authenticated(AuthOutcome),
    /// Result of joining the pool: `false` when the player was already queued.
    Joined(bool),
    /// The session's pool entry was removed without being matched.
    Dequeued,
}

#[derive(Clone, Copy, Debug, PartialEq, Eq, Structural)]
pub enum CancelReason {
    UserCancelled,
    ServerShuttingDown,
}

#[derive(Clone, Copy, Debug, PartialEq, Eq, Structural)]
pub enum SessionError {
    ProtocolError,
    AuthError,
    Unauthenticated,
    AlreadyQueued,
    Disconnected,
    /// The pool entry was removed from outside the session.
    Dequeued,
}

#[derive(Clone, Copy, Debug, PartialEq, Eq, Structural)]
pub enum SessionState {
    Connecting,
    Authenticating,
    /// Authenticated; `joining` once the pool entry has been requested.
    Queued { player: PlayerId, joining: bool },
    /// In the pool, waiting for a match.
    Resolving { player: PlayerId },
    Resolved(Match),
    Cancelled(CancelReason),
    Failed(SessionError),
}

/// Outbound messages.
#[derive(Clone, Copy, Debug, PartialEq, Eq, Structural)]
pub enum Outbound {
    AvailableModes,
    MatchFound(Match),
    Rejected(SessionEnd),
}

/// Why the server ends a session it tells the client about.
#[derive(Clone, Copy, Debug, PartialEq, Eq, Structural)]
pub enum SessionEnd {
    ShuttingDown,
    AlreadyQueued,
}

/// A next state and the actions that lead to it, in this order: release
/// the pool entry, authenticate, join the pool, send, close.
#[derive(Clone, Copy, Debug, PartialEq, Eq, Structural)]
pub struct Transition {
    pub next: SessionState,
    pub release: bool,
    pub authenticate: bool,
    pub join_pool: bool,
    pub send: Option<Outbound>,
    pub close: bool,
}

pub open spec fn is_terminal(s: SessionState) -> bool {
    s is Resolved || s is Cancelled || s is Failed
}

/// The session owns a pool entry exactly while it is resolving.
pub open spec fn holds_entry(s: SessionState) -> bool {
    s is Resolving
}

pub open spec fn stay(s: SessionState) -> Transition {
    Transition { next: s, release: false, authenticate: false, join_pool: false, send: None, close: false }
}

pub open spec fn end(s: SessionState, release: bool, send: Option<Outbound>) -> Transition {
    Transition { next: s, release, authenticate: false, join_pool: false, send, close: true }
}

/// Ending on a client message before authentication has succeeded: only a
/// credential is expected there.
pub open spec fn before_auth(m: Inbound) -> Transition {
    match m {
        Inbound::EndOfStream => end(SessionState::Failed(SessionError::Disconnected), false, None),
        _ => end(SessionState::Failed(SessionError::ProtocolError), false, None),
    }
}

/// Ending on a client message outside the resolving wait.
pub open spec fn on_message(s: SessionState, m: Inbound, release: bool) -> Transition {
    match m {
        Inbound::EndOfStream => end(SessionState::Failed(SessionError::Disconnected), release, None),
        Inbound::MatchmakingCancel(CancelRequest::Leave) => end(
            SessionState::Cancelled(CancelReason::UserCancelled),
            release,
            None,
        ),
        _ => end(SessionState::Failed(SessionError::ProtocolError), release, None),
    }
}

pub open spec fn shut_down(release: bool) -> Transition {
    end(
        SessionState::Cancelled(CancelReason::ServerShuttingDown),
        release,
        Some(Outbound::Rejected(SessionEnd::ShuttingDown)),
    )
}

/// The transition table.
pub open spec fn transition(s: SessionState, e: SessionEvent) -> Transition {
    match s {
        SessionState::Connecting => match e {
            SessionEvent::Ready { client: Some(Inbound::AuthCredential), .. } => Transition {
                next: SessionState::Authenticating,
                authenticate: true,
                ..stay(s)
            },
            SessionEvent::Ready { client: Some(m), .. } => before_auth(m),
            SessionEvent::Ready { client: None, shutdown: true, .. } => shut_down(false),
            _ => stay(s),
        },
        SessionState::Authenticating => match e {
            SessionEvent::Authenticated(AuthOutcome::Accepted(id)) => Transition {
                next: SessionState::Queued { player: id, joining: false },
                send: Some(Outbound::AvailableModes),
                ..stay(s)
            },
            SessionEvent::Authenticated(AuthOutcome::Rejected) => end(
                SessionState::Failed(SessionError::Unauthenticated),
                false,
                None,
            ),
            SessionEvent::Authenticated(AuthOutcome::ProviderError) => end(
                SessionState::Failed(SessionError::AuthError),
                false,
                None,
            ),
            SessionEvent::Ready { client: Some(m), .. } => before_auth(m),
            SessionEvent::Ready { client: None, shutdown: true, .. } => shut_down(false),
            _ => stay(s),
        },
        SessionState::Queued { player, joining } => match e {
            SessionEvent::Joined(ok) => if !joining {
                stay(s)
            } else if ok {
                Transition { next: SessionState::Resolving { player }, ..stay(s) }
            } else {
                end(
                    SessionState::Failed(SessionError::AlreadyQueued),
                    false,
                    Some(Outbound::Rejected(SessionEnd::AlreadyQueued)),
                )
            },
            SessionEvent::Ready { client: Some(Inbound::MatchmakingRequest), .. } => if joining {
                on_message(s, Inbound::MatchmakingRequest, false)
            } else {
                Transition {
                    next: SessionState::Queued { player, joining: true },
                    join_pool: true,
                    ..stay(s)
                }
            },
            SessionEvent::Ready { client: Some(m), .. } => on_message(s, m, false),
            SessionEvent::Ready { client: None, shutdown: true, .. } => shut_down(false),
            _ => stay(s),
        },
        SessionState::Resolving { player } => match e {
            SessionEvent::Ready { resolved: Some(m), .. } => end(
                SessionState::Resolved(m),
                true,
                Some(Outbound::MatchFound(m)),
            ),
            SessionEvent::Ready {
                client: Some(Inbound::MatchmakingCancel(CancelRequest::SearchAgain)),
                ..
            } => Transition {
                next: SessionState::Queued { player, joining: false },
                release: true,
                send: Some(Outbound::AvailableModes),
                ..stay(s)
            },
            SessionEvent::Ready { client: Some(m), .. } => on_message(s, m, true),
            SessionEvent::Ready { client: None, shutdown: true, .. } => shut_down(true),
            SessionEvent::Dequeued => end(SessionState::Failed(SessionError::Dequeued), true, None),
            _ => stay(s),
        },
        _ => stay(s),
    }
}

/// Decides the transition of state `s` on event `e`.
pub fn step(s: SessionState, e: SessionEvent) -> (t: Transition)
    ensures
        t == transition(s, e),
        t.release == (holds_entry(s) && !holds_entry(t.next)),
        is_terminal(t.next) && !is_terminal(s) ==> t.close,
        is_terminal(s) ==> t.next == s && !t.release && !t.close && t.send is None,
{
    let keep = Transition {
        next: s,
        release: false,
        authenticate: false,
        join_pool: false,
        send: None,
        close: false,
    };
    let shutdown_end = Transition {
        next: SessionState::Cancelled(CancelReason::ServerShuttingDown),
        close: true,
        send: Some(Outbound::Rejected(SessionEnd::ShuttingDown)),
        ..keep
    };
    match s {
        SessionState::Connecting => match e {
            SessionEvent::Ready { client: Some(Inbound::AuthCredential), .. } => Transition {
                next: SessionState::Authenticating,
                authenticate: true,
                ..keep
            },
            SessionEvent::Ready { client: Some(m), .. } => auth_message_end(m),
            SessionEvent::Ready { client: None, shutdown: true, .. } => shutdown_end,
            _ => keep,
        },
        SessionState::Authenticating => match e {
            SessionEvent::Authenticated(AuthOutcome::Accepted(id)) => Transition {
                next: SessionState::Queued { player: id, joining: false },
                send: Some(Outbound::AvailableModes),
                ..keep
            },
            SessionEvent::Authenticated(AuthOutcome::Rejected) => Transition {
                next: SessionState::Failed(SessionError::Unauthenticated),
                close: true,
                ..keep
            },
            SessionEvent::Authenticated(AuthOutcome::ProviderError) => Transition {
                next: SessionState::Failed(SessionError::AuthError),
                close: true,
                ..keep
            },
            SessionEvent::Ready { client: Some(m), .. } => auth_message_end(m),
            SessionEvent::Ready { client: None, shutdown: true, .. } => shutdown_end,
            _ => keep,
        },
        SessionState::Queued { player, joining } => match e {
            SessionEvent::Joined(ok) => {
                if !joining {
                    keep
                } else if ok {
                    Transition { next: SessionState::Resolving { player }, ..keep }
                } else {
                    Transition {
                        next: SessionState::Failed(SessionError::AlreadyQueued),
                        close: true,
                        send: Some(Outbound::Rejected(SessionEnd::AlreadyQueued)),
                        ..keep
                    }
                }
            },
            SessionEvent::Ready { client: Some(Inbound::MatchmakingRequest), .. } => {
                if joining {
                    message_end(Inbound::MatchmakingRequest, false)
                } else {
                    Transition {
                        next: SessionState::Queued { player, joining: true },
                        join_pool: true,
                        ..keep
                    }
                }
            },
            SessionEvent::Ready { client: Some(m), .. } => message_end(m, false),
            SessionEvent::Ready { client: None, shutdown: true, .. } => shutdown_end,
            _ => keep,
        },
        SessionState::Resolving { player } => match e {
            SessionEvent::Ready { resolved: Some(m), .. } => Transition {
                next: SessionState::Resolved(m),
                release: true,
                send: Some(Outbound::MatchFound(m)),
                close: true,
                ..keep
            },
            SessionEvent::Ready {
                client: Some(Inbound::MatchmakingCancel(CancelRequest::SearchAgain)),
                ..
            } => Transition {
                next: SessionState::Queued { player, joining: false },
                release: true,
                send: Some(Outbound::AvailableModes),
                ..keep
            },
            SessionEvent::Ready { client: Some(m), .. } => message_end(m, true),
            SessionEvent::Ready { client: None, shutdown: true, .. } => Transition {
                release: true,
                ..shutdown_end
            },
            SessionEvent::Dequeued => Transition {
                next: SessionState::Failed(SessionError::Dequeued),
                release: true,
                close: true,
                ..keep
            },
            _ => keep,
        },
        _ => keep,
    }
}

fn auth_message_end(m: Inbound) -> (t: Transition)
    ensures
        t == before_auth(m),
{
    let next = match m {
        Inbound::EndOfStream => SessionState::Failed(SessionError::Disconnected),
        _ => SessionState::Failed(SessionError::ProtocolError),
    };
    Transition { next, release: false, authenticate: false, join_pool: false, send: None, close: true }
}

fn message_end(m: Inbound, release: bool) -> (t: Transition)
    ensures
        forall|s: SessionState| #![auto] t == on_message(s, m, release),
{
    let next = match m {
        Inbound::EndOfStream => SessionState::Failed(SessionError::Disconnected),
        Inbound::MatchmakingCancel(CancelRequest::Leave) => SessionState::Cancelled(
            CancelReason::UserCancelled,
        ),
        _ => SessionState::Failed(SessionError::ProtocolError),
    };
    Transition { next, release, authenticate: false, join_pool: false, send: None, close: true }
}

/// Runs `events` from `s`: the final state, how many pool entries were
/// acquired and how many were released on the way.
pub open spec fn run(s: SessionState, events: Seq<SessionEvent>) -> (SessionState, nat, nat)
    decreases events.len(),
{
    if events.len() == 0 {
        (s, 0, 0)
    } else {
        let t = transition(s, events[0]);
        let (f, acquired, released) = run(t.next, events.drop_first());
        let a: nat = if !holds_entry(s) && holds_entry(t.next) { 1 } else { 0 };
        let r: nat = if t.release { 1 } else { 0 };
        (f, acquired + a, released + r)
    }
}

/// Every pool entry a session acquires is released exactly once: on any run
/// the releases trail the acquisitions by one while an entry is held and
/// match them otherwise, so every terminal state (resolved, cancelled by the
/// user or by shutdown, or failed) has released each entry once.
pub proof fn lemma_release_exactly_once(s: SessionState, events: Seq<SessionEvent>)
    ensures
        ({
            let (f, acquired, released) = run(s, events);
            &&& acquired + (if holds_entry(s) { 1nat } else { 0nat }) == released + (if holds_entry(f) {
                1nat
            } else {
                0nat
            })
            &&& s == SessionState::Connecting && is_terminal(f) ==> acquired == released
        }),
    decreases events.len(),
{
    if events.len() > 0 {
        let t = transition(s, events[0]);
        lemma_release_exactly_once(t.next, events.drop_first());
    }
}

/// A session acquires at most one pool entry at a time: it never joins the
/// pool while it holds an entry, and never releases one it does not hold.
pub proof fn lemma_one_entry_at_a_time(s: SessionState, e: SessionEvent)
    ensures
        transition(s, e).join_pool ==> !holds_entry(s),
        transition(s, e).release ==> holds_entry(s),
        is_terminal(s) ==> transition(s, e) == stay(s),
{
}

} // verus!
