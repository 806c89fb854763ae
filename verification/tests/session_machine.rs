use gix_fetch::session::{CleanupAction, FetchSession, SessionEvent, SessionPhase};

#[test]
fn the_straight_path_reaches_done() {
    let mut s = FetchSession::new(false);
    assert_eq!(s.phase, SessionPhase::Created);
    assert_eq!(s.step(SessionEvent::BeginNegotiation), CleanupAction::Nothing);
    assert_eq!(s.phase, SessionPhase::Negotiating);
    assert_eq!(s.step(SessionEvent::NegotiationRound), CleanupAction::Nothing);
    assert_eq!(s.phase, SessionPhase::Negotiating, "negotiation may run several rounds");
    assert_eq!(s.step(SessionEvent::NegotiationComplete), CleanupAction::Nothing);
    assert_eq!(s.phase, SessionPhase::Planning);
    assert_eq!(s.step(SessionEvent::PlanReady), CleanupAction::Nothing);
    assert_eq!(s.phase, SessionPhase::Committing);
    assert_eq!(s.step(SessionEvent::CommitSucceeded), CleanupAction::Nothing);
    assert_eq!(s.phase, SessionPhase::Done);
}

#[test]
fn cancelling_a_done_session_changes_nothing() {
    let mut s = FetchSession::new(false);
    s.step(SessionEvent::BeginNegotiation);
    s.step(SessionEvent::NegotiationComplete);
    s.step(SessionEvent::PlanReady);
    s.step(SessionEvent::CommitSucceeded);
    assert_eq!(s.abort(), CleanupAction::Nothing);
    assert_eq!(s.phase, SessionPhase::Done);
}

#[test]
fn an_abandoned_new_repository_is_removed_exactly_once() {
    let mut s = FetchSession::new(true);
    s.step(SessionEvent::BeginNegotiation);
    s.note_artifacts();
    assert_eq!(s.abort(), CleanupAction::RemoveRepository);
    assert_eq!(s.phase, SessionPhase::Aborted);
    assert_eq!(s.abort(), CleanupAction::Nothing, "cleanup never runs twice");
}

#[test]
fn an_existing_repository_is_only_rolled_back() {
    let mut s = FetchSession::new(false);
    s.step(SessionEvent::BeginNegotiation);
    s.step(SessionEvent::NegotiationComplete);
    s.step(SessionEvent::PlanReady);
    s.note_artifacts();
    assert_eq!(s.step(SessionEvent::CommitFailed), CleanupAction::RollbackOnly);
    assert_eq!(s.phase, SessionPhase::Aborted);
}

#[test]
fn aborting_before_any_artifact_needs_no_cleanup() {
    let mut s = FetchSession::new(true);
    s.step(SessionEvent::BeginNegotiation);
    assert_eq!(s.abort(), CleanupAction::Nothing);
    assert_eq!(s.phase, SessionPhase::Aborted);
}

#[test]
fn out_of_order_events_are_ignored() {
    let mut s = FetchSession::new(false);
    assert_eq!(s.step(SessionEvent::CommitSucceeded), CleanupAction::Nothing);
    assert_eq!(s.phase, SessionPhase::Created);
}
