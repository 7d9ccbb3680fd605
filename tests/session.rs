use matchmaking::auth::{auth_outcome, AuthenticationProvider, DummyAuthenticationProvider, DummyError};
use matchmaking::model::Match;
use matchmaking::session::{
    step, AuthOutcome, CancelReason, CancelRequest, Inbound, Outbound, SessionEnd, SessionError,
    SessionEvent, SessionState,
};

fn msg(m: Inbound) -> SessionEvent {
    SessionEvent::Ready { resolved: None, client: Some(m), shutdown: false }
}

fn shutdown() -> SessionEvent {
    SessionEvent::Ready { resolved: None, client: None, shutdown: true }
}

const MATCH: Match = Match { player: 5, opponent: 6, server: 1 };

/// Runs events from `Connecting`; returns the final state and the number of
/// joins that succeeded and of releases.
fn drive(events: &[SessionEvent]) -> (SessionState, usize, usize, bool) {
    let mut s = SessionState::Connecting;
    let (mut joined, mut released, mut closed) = (0, 0, false);
    for e in events {
        let t = step(s, *e);
        if matches!(s, SessionState::Queued { joining: true, .. })
            && matches!(t.next, SessionState::Resolving { .. })
        {
            joined += 1;
        }
        if t.release {
            released += 1;
        }
        closed |= t.close;
        s = t.next;
    }
    (s, joined, released, closed)
}

fn queued_events() -> Vec<SessionEvent> {
    vec![
        msg(Inbound::AuthCredential),
        SessionEvent::Authenticated(AuthOutcome::Accepted(5)),
        msg(Inbound::MatchmakingRequest),
        SessionEvent::Joined(true),
    ]
}

fn ends_with(last: SessionEvent) -> (SessionState, usize, usize, bool) {
    let mut events = queued_events();
    events.push(SessionEvent::Ready { resolved: None, client: None, shutdown: false });
    events.push(last);
    drive(&events)
}

#[test]
fn resolved_path_releases_once() {
    let r = ends_with(SessionEvent::Ready { resolved: Some(MATCH), client: None, shutdown: false });
    assert_eq!(r, (SessionState::Resolved(MATCH), 1, 1, true));
}

#[test]
fn user_cancel_path_releases_once() {
    let r = ends_with(msg(Inbound::MatchmakingCancel(CancelRequest::Leave)));
    assert_eq!(r, (SessionState::Cancelled(CancelReason::UserCancelled), 1, 1, true));
}

#[test]
fn shutdown_path_releases_once_and_tells_client() {
    let mut s = SessionState::Resolving { player: 5 };
    let t = step(s, shutdown());
    assert_eq!(t.send, Some(Outbound::Rejected(SessionEnd::ShuttingDown)));
    s = t.next;
    assert_eq!(s, SessionState::Cancelled(CancelReason::ServerShuttingDown));
    let r = ends_with(shutdown());
    assert_eq!(r, (SessionState::Cancelled(CancelReason::ServerShuttingDown), 1, 1, true));
}

#[test]
fn disconnect_path_releases_once() {
    let r = ends_with(msg(Inbound::EndOfStream));
    assert_eq!(r, (SessionState::Failed(SessionError::Disconnected), 1, 1, true));
}

#[test]
fn protocol_error_while_resolving_releases_once() {
    let r = ends_with(msg(Inbound::AuthCredential));
    assert_eq!(r, (SessionState::Failed(SessionError::ProtocolError), 1, 1, true));
}

#[test]
fn failures_before_joining_release_nothing() {
    let r = drive(&[msg(Inbound::Unrecognized)]);
    assert_eq!(r, (SessionState::Failed(SessionError::ProtocolError), 0, 0, true));
    let r = drive(&[
        msg(Inbound::AuthCredential),
        SessionEvent::Authenticated(AuthOutcome::ProviderError),
    ]);
    assert_eq!(r, (SessionState::Failed(SessionError::AuthError), 0, 0, true));
    let r = drive(&[msg(Inbound::AuthCredential), SessionEvent::Authenticated(AuthOutcome::Rejected)]);
    assert_eq!(r, (SessionState::Failed(SessionError::Unauthenticated), 0, 0, true));
    let r = drive(&[
        msg(Inbound::AuthCredential),
        SessionEvent::Authenticated(AuthOutcome::Accepted(5)),
        msg(Inbound::MatchmakingRequest),
        SessionEvent::Joined(false),
    ]);
    assert_eq!(r, (SessionState::Failed(SessionError::AlreadyQueued), 0, 0, true));
}

#[test]
fn dequeued_entry_ends_the_session() {
    let r = ends_with(SessionEvent::Dequeued);
    assert_eq!(r, (SessionState::Failed(SessionError::Dequeued), 1, 1, true));
    let t = step(SessionState::Connecting, SessionEvent::Dequeued);
    assert_eq!(t.next, SessionState::Connecting);
}

#[test]
fn only_a_credential_is_accepted_before_authentication() {
    let r = drive(&[msg(Inbound::MatchmakingCancel(CancelRequest::Leave))]);
    assert_eq!(r, (SessionState::Failed(SessionError::ProtocolError), 0, 0, true));
    let r = drive(&[msg(Inbound::MatchmakingRequest)]);
    assert_eq!(r, (SessionState::Failed(SessionError::ProtocolError), 0, 0, true));
    let r = drive(&[msg(Inbound::AuthCredential), msg(Inbound::MatchmakingCancel(CancelRequest::Leave))]);
    assert_eq!(r, (SessionState::Failed(SessionError::ProtocolError), 0, 0, true));
    let r = drive(&[msg(Inbound::EndOfStream)]);
    assert_eq!(r, (SessionState::Failed(SessionError::Disconnected), 0, 0, true));
}

#[test]
fn search_again_then_match_releases_each_entry_once() {
    let mut events = queued_events();
    events.push(msg(Inbound::MatchmakingCancel(CancelRequest::SearchAgain)));
    events.push(msg(Inbound::MatchmakingRequest));
    events.push(SessionEvent::Joined(true));
    events.push(SessionEvent::Ready { resolved: Some(MATCH), client: None, shutdown: false });
    assert_eq!(drive(&events), (SessionState::Resolved(MATCH), 2, 2, true));
}

#[test]
fn match_takes_precedence_over_cancel_and_shutdown() {
    let s = SessionState::Resolving { player: 5 };
    let all = SessionEvent::Ready {
        resolved: Some(MATCH),
        client: Some(Inbound::MatchmakingCancel(CancelRequest::Leave)),
        shutdown: true,
    };
    let t = step(s, all);
    assert_eq!(t.next, SessionState::Resolved(MATCH));
    assert_eq!(t.send, Some(Outbound::MatchFound(MATCH)));
    assert!(t.release);
    let cancel_and_shutdown = SessionEvent::Ready {
        resolved: None,
        client: Some(Inbound::MatchmakingCancel(CancelRequest::Leave)),
        shutdown: true,
    };
    assert_eq!(step(s, cancel_and_shutdown).next, SessionState::Cancelled(CancelReason::UserCancelled));
}

#[test]
fn authentication_flow_sends_modes_and_joins() {
    let t = step(SessionState::Connecting, msg(Inbound::AuthCredential));
    assert!(t.authenticate);
    assert_eq!(t.next, SessionState::Authenticating);
    let t = step(t.next, SessionEvent::Authenticated(AuthOutcome::Accepted(5)));
    assert_eq!(t.send, Some(Outbound::AvailableModes));
    let t = step(t.next, msg(Inbound::MatchmakingRequest));
    assert!(t.join_pool);
    assert_eq!(t.next, SessionState::Queued { player: 5, joining: true });
}

#[test]
fn terminal_states_ignore_events() {
    let s = SessionState::Resolved(MATCH);
    let t = step(s, shutdown());
    assert_eq!(t.next, s);
    assert!(!t.release && !t.close && t.send.is_none());
}

#[test]
fn dummy_provider_accepts_the_credential() {
    let p: DummyAuthenticationProvider<u64> = DummyAuthenticationProvider::new();
    assert_eq!(p.authenticate(&42), Ok(Some(42)));
    assert_eq!(p.authenticate_player(7), AuthOutcome::Accepted(7));
    assert_eq!(auth_outcome::<DummyError>(&Err(DummyError)), AuthOutcome::ProviderError);
    assert_eq!(auth_outcome::<DummyError>(&Ok(None)), AuthOutcome::Rejected);
}
