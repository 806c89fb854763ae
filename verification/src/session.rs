//! The fetch session: the state machine that sequences negotiation, planning
//! and committing, with an explicit abort transition whose cleanup runs
//! exactly once, and the outcome record callers receive.

use vstd::prelude::*;

use crate::matcher::{match_specs, MatchError, MatchOutcome, TagPolicy};
use crate::plan::{plan, LocalRef, UpdateRefs};
use crate::refspec::{Mapping, RefSpec};

verus! {

/// Where a session stands.
#[derive(Copy, Clone, PartialEq, Eq, Structural, Debug)]
pub enum SessionPhase {
    /// The session exists but has not contacted the remote.
    Created,
    /// Request/response rounds are running: capability discovery, want/have,
    /// shallow rounds.
    Negotiating,
    /// The mappings are being turned into edits.
    Planning,
    /// The applier is writing pack, refs and boundary.
    Committing,
    /// The session committed.
    Done,
    /// The session was cancelled or a collaborator failed.
    Aborted,
}

/// What the session is told happened.
#[derive(Copy, Clone, PartialEq, Eq, Structural, Debug)]
pub enum SessionEvent {
    /// The first round is about to start.
    BeginNegotiation,
    /// One more request/response round completed, with more to come.
    NegotiationRound,
    /// Negotiation settled: the advertisement and the shallow reply are in.
    NegotiationComplete,
    /// The edits are planned.
    PlanReady,
    /// The applier committed everything.
    CommitSucceeded,
    /// The applier failed.
    CommitFailed,
    /// The caller cancelled the session.
    Cancel,
}

/// What an abort must clean up.
#[derive(Copy, Clone, PartialEq, Eq, Structural, Debug)]
pub enum CleanupAction {
    /// Remove the directories and files created solely to host the new
    /// repository: a partially-initialized repository must never be left
    /// discoverable.
    RemoveRepository,
    /// The destination pre-existed: roll back only this session's artifacts,
    /// never caller-owned directories.
    RollbackOnly,
    /// Nothing durable was created, or cleanup already ran.
    Nothing,
}

/// A phase from which no event moves the session.
pub open spec fn terminal(p: SessionPhase) -> bool {
    p is Done || p is Aborted
}

/// The phase an event leads to: the straight path through negotiation,
/// planning and committing, with cancellation and commit failure routing any
/// non-terminal phase to `Aborted`, and anything else ignored.
pub open spec fn next_phase(p: SessionPhase, ev: SessionEvent) -> SessionPhase {
    match (p, ev) {
        (SessionPhase::Created, SessionEvent::BeginNegotiation) => SessionPhase::Negotiating,
        (SessionPhase::Negotiating, SessionEvent::NegotiationRound) => SessionPhase::Negotiating,
        (SessionPhase::Negotiating, SessionEvent::NegotiationComplete) => SessionPhase::Planning,
        (SessionPhase::Planning, SessionEvent::PlanReady) => SessionPhase::Committing,
        (SessionPhase::Committing, SessionEvent::CommitSucceeded) => SessionPhase::Done,
        (SessionPhase::Committing, SessionEvent::CommitFailed) => SessionPhase::Aborted,
        (_, SessionEvent::Cancel) => if terminal(p) {
            p
        } else {
            SessionPhase::Aborted
        },
        _ => p,
    }
}

/// The cleanup an abort owes, given what the session created so far.
pub open spec fn owed_cleanup(
    created_repository: bool,
    artifacts_created: bool,
    cleanup_done: bool,
) -> CleanupAction {
    if cleanup_done || !artifacts_created {
        CleanupAction::Nothing
    } else if created_repository {
        CleanupAction::RemoveRepository
    } else {
        CleanupAction::RollbackOnly
    }
}

/// One fetch or clone session.
pub struct FetchSession {
    /// Where the session stands.
    pub phase: SessionPhase,
    /// The session initialized a new repository (clone into a fresh
    /// directory) rather than fetching into an existing one.
    pub created_repository: bool,
    /// Something durable exists on disk for this session.
    pub artifacts_created: bool,
    /// Abort cleanup already ran.
    pub cleanup_done: bool,
}

impl FetchSession {
    /// Start a session.
    pub fn new(created_repository: bool) -> (s: FetchSession)
        ensures
            s.phase == SessionPhase::Created,
            s.created_repository == created_repository,
            !s.artifacts_created,
            !s.cleanup_done,
    {
        FetchSession {
            phase: SessionPhase::Created,
            created_repository,
            artifacts_created: false,
            cleanup_done: false,
        }
    }

    /// Record that something durable now exists on disk.
    pub fn note_artifacts(&mut self)
        ensures
            *final(self) == (FetchSession { artifacts_created: true, ..*old(self) }),
    {
        self.artifacts_created = true;
    }

    /// Advance by one event.
    ///
    /// The returned action is what the caller must clean up now: anything but
    /// `Nothing` is returned only on the step that enters `Aborted`, and
    /// `cleanup_done` is set on that step, so cleanup is owed at most once.
    pub fn step(&mut self, ev: SessionEvent) -> (action: CleanupAction)
        ensures
            final(self).phase == next_phase(old(self).phase, ev),
            final(self).created_repository == old(self).created_repository,
            final(self).artifacts_created == old(self).artifacts_created,
            ({
                let enters_aborted = !(old(self).phase is Aborted) && next_phase(
                    old(self).phase,
                    ev,
                ) is Aborted;
                &&& action == (if enters_aborted {
                    owed_cleanup(
                        old(self).created_repository,
                        old(self).artifacts_created,
                        old(self).cleanup_done,
                    )
                } else {
                    CleanupAction::Nothing
                })
                &&& final(self).cleanup_done == (old(self).cleanup_done || enters_aborted)
            }),
    {
        let before = self.phase;
        let next: SessionPhase = match (before, ev) {
            (SessionPhase::Created, SessionEvent::BeginNegotiation) => SessionPhase::Negotiating,
            (SessionPhase::Negotiating, SessionEvent::NegotiationRound) => {
                SessionPhase::Negotiating
            },
            (SessionPhase::Negotiating, SessionEvent::NegotiationComplete) => {
                SessionPhase::Planning
            },
            (SessionPhase::Planning, SessionEvent::PlanReady) => SessionPhase::Committing,
            (SessionPhase::Committing, SessionEvent::CommitSucceeded) => SessionPhase::Done,
            (SessionPhase::Committing, SessionEvent::CommitFailed) => SessionPhase::Aborted,
            (_, SessionEvent::Cancel) => {
                match before {
                    SessionPhase::Done => SessionPhase::Done,
                    SessionPhase::Aborted => SessionPhase::Aborted,
                    _ => SessionPhase::Aborted,
                }
            },
            _ => before,
        };
        self.phase = next;
        let entered_aborted = match (before, next) {
            (SessionPhase::Aborted, _) => false,
            (_, SessionPhase::Aborted) => true,
            _ => false,
        };
        if entered_aborted {
            let action = if self.cleanup_done || !self.artifacts_created {
                CleanupAction::Nothing
            } else if self.created_repository {
                CleanupAction::RemoveRepository
            } else {
                CleanupAction::RollbackOnly
            };
            self.cleanup_done = true;
            action
        } else {
            CleanupAction::Nothing
        }
    }

    /// Cancel the session explicitly.
    pub fn abort(&mut self) -> (action: CleanupAction)
        ensures
            final(self).phase == next_phase(old(self).phase, SessionEvent::Cancel),
            final(self).created_repository == old(self).created_repository,
            final(self).artifacts_created == old(self).artifacts_created,
            ({
                let enters_aborted = !(old(self).phase is Aborted) && next_phase(
                    old(self).phase,
                    SessionEvent::Cancel,
                ) is Aborted;
                &&& action == (if enters_aborted {
                    owed_cleanup(
                        old(self).created_repository,
                        old(self).artifacts_created,
                        old(self).cleanup_done,
                    )
                } else {
                    CleanupAction::Nothing
                })
                &&& final(self).cleanup_done == (old(self).cleanup_done || enters_aborted)
            }),
    {
        self.step(SessionEvent::Cancel)
    }
}

/// The mappings and synthesized specs of one negotiation round, with the
/// capabilities the handshake settled on.
pub struct RefMap {
    /// The mappings the matcher produced.
    pub mappings: Vec<Mapping>,
    /// The synthesized implicit refspecs.
    pub extra_refspecs: Vec<RefSpec>,
    /// The capability names the handshake settled on.
    pub capabilities: Vec<Vec<u8>>,
}

/// Whether and how the session changed the repository.
pub enum SessionStatus {
    /// Nothing needed changing.
    NoChange,
    /// The session wrote a pack and refs.
    Change {
        /// The planned and applied ref updates.
        update_refs: UpdateRefs,
        /// Where the pack bundle was written.
        pack_path: Vec<u8>,
        /// The keep marker's path while it is retained: present exactly when
        /// refs were not fully written.
        keep_path: Option<Vec<u8>>,
    },
}

/// What the caller of a session receives.
pub struct Outcome {
    /// The mappings and synthesized specs of the round.
    pub ref_map: RefMap,
    /// Whether and how the repository changed.
    pub status: SessionStatus,
}

/// Assemble the outcome record: the status is `NoChange` exactly when the
/// plan holds no edit, and the keep marker's path is reported exactly when it
/// was retained.
pub fn build_outcome(
    match_outcome: MatchOutcome,
    capabilities: Vec<Vec<u8>>,
    update_refs: UpdateRefs,
    pack_path: Vec<u8>,
    keep_retained: bool,
    keep_path: Vec<u8>,
) -> (r: Outcome)
    ensures
        r.ref_map.mappings@ == match_outcome.mappings@,
        r.ref_map.extra_refspecs@ == match_outcome.extra_refspecs@,
        r.ref_map.capabilities@ == capabilities@,
        update_refs.edits@.len() == 0 <==> r.status is NoChange,
        r.status matches SessionStatus::Change { update_refs: u, pack_path: p, keep_path: kp } ==> (
        u.edits@ == update_refs.edits@ && u.updates@ == update_refs.updates@ && p@ == pack_path@
            && (keep_retained <==> kp is Some) && (kp matches Some(k) ==> k@ == keep_path@)),
{
    let ref_map = RefMap {
        mappings: match_outcome.mappings,
        extra_refspecs: match_outcome.extra_refspecs,
        capabilities,
    };
    if update_refs.edits.len() == 0 {
        Outcome { ref_map, status: SessionStatus::NoChange }
    } else {
        let keep = if keep_retained {
            Some(keep_path)
        } else {
            None
        };
        Outcome {
            ref_map,
            status: SessionStatus::Change { update_refs, pack_path, keep_path: keep },
        }
    }
}


/// Run the pure core of one negotiation round: expand the refspecs against the
/// advertisement, then plan the local edits the mappings imply.
///
/// Matching fails exactly as `match_specs` says; on success the mappings are
/// `expected_models` of the inputs and the plan is classified and collapsed as
/// `plan` says, so the whole round is a pure function of the advertisement,
/// the configuration and the collaborators' answers.
pub fn run_round(
    advertised: &Vec<crate::refspec::RemoteRef>,
    explicit_specs: &Vec<RefSpec>,
    tag_policy: TagPolicy,
    local_refs: &Vec<LocalRef>,
    ancestry: &Vec<(u64, u64)>,
    unborn_head: &Option<Vec<u8>>,
) -> (r: Result<(MatchOutcome, UpdateRefs), MatchError>)
    ensures
        r is Ok <==> crate::matcher::all_well_formed(explicit_specs@)
            && !crate::matcher::has_ambiguity(advertised@, explicit_specs@),
        r matches Ok((out, update_refs)) ==> {
            &&& crate::refspec::mapping_models(out.mappings@) == crate::matcher::expected_models(
                advertised@,
                explicit_specs@,
                tag_policy,
            )
            &&& update_refs.updates@.len() == out.mappings@.len()
            &&& crate::plan::edits_models(update_refs.edits@) == crate::plan::planned_edits(
                crate::plan::plan_inputs(
                    advertised@,
                    explicit_specs@,
                    out.extra_refspecs@,
                    local_refs@,
                    ancestry@,
                    *unborn_head,
                    out.mappings@,
                ),
            )
        },
{
    let out = match match_specs(advertised, explicit_specs, tag_policy) {
        Ok(out) => out,
        Err(e) => {
            return Err(e);
        },
    };
    let update_refs = plan(
        advertised,
        explicit_specs,
        &out.extra_refspecs,
        &out.mappings,
        local_refs,
        ancestry,
        unborn_head,
    );
    Ok((out, update_refs))
}

} // verus!
