//! Collaboration events: desk activity announced to every participant.

use vstd::prelude::*;
use crate::operator_session::OperatorSession;
use crate::operator_confirmation::ConfirmationRequest;
use crate::operator_cycle::OperatorDecision;
use crate::clock::now_rfc3339;

verus! {

/// An event announced to all connected participants, stamped with the time
/// it was made (RFC 3339).
#[derive(Debug, Clone)]
pub enum CollaborationEvent {
    /// A new session joined the desk.
    SessionJoined {
        /// The session that joined.
        session: OperatorSession,
        /// Timestamp.
        timestamp: String,
    },
    /// A session left the desk.
    SessionLeft {
        /// Session id.
        session_id: String,
        /// Display name.
        display_name: String,
        /// Timestamp.
        timestamp: String,
    },
    /// A session sent a heartbeat.
    Heartbeat {
        /// Session id.
        session_id: String,
        /// Timestamp.
        timestamp: String,
    },
    /// The operator loop started.
    LoopStarted {
        /// Timestamp.
        timestamp: String,
    },
    /// The operator loop stopped.
    LoopStopped {
        /// Timestamp.
        timestamp: String,
    },
    /// The operator loop paused.
    LoopPaused {
        /// Timestamp.
        timestamp: String,
    },
    /// A cycle completed: proposals were generated and evaluated.
    CycleCompleted {
        /// Cycle number.
        cycle: u64,
        /// Number of proposals allowed.
        allowed_count: usize,
        /// Number of proposals denied.
        denied_count: usize,
        /// Number of proposals sent to the confirmation queue.
        pending_confirmation_count: usize,
        /// Timestamp.
        timestamp: String,
    },
    /// A proposal was submitted for human confirmation.
    ConfirmationRequested {
        /// The confirmation request.
        request: ConfirmationRequest,
        /// Timestamp.
        timestamp: String,
    },
    /// A confirmation request was resolved (confirmed or denied).
    ConfirmationResolved {
        /// The resolved request.
        request: ConfirmationRequest,
        /// Timestamp.
        timestamp: String,
    },
    /// An operator decision was made (allowed or denied by the guard).
    OperatorDecision {
        /// Cycle number.
        cycle: u64,
        /// The decision.
        decision: OperatorDecision,
        /// Timestamp.
        timestamp: String,
    },
    /// The operator config was changed.
    ConfigChanged {
        /// Timestamp.
        timestamp: String,
    },
    /// A session was pruned (disconnected timeout).
    SessionPruned {
        /// Session id.
        session_id: String,
        /// Display name.
        display_name: String,
        /// Timestamp.
        timestamp: String,
    },
}

impl CollaborationEvent {
    /// The `SessionJoined` event for the given payload, stamped now.
    pub fn session_joined(session: OperatorSession) -> (e: Self)
        ensures
            e matches CollaborationEvent::SessionJoined { session: x_session, .. } && x_session == session,
    {
        CollaborationEvent::SessionJoined { session, timestamp: now_rfc3339() }
    }

    /// The `SessionLeft` event for the given payload, stamped now.
    pub fn session_left(session_id: String, display_name: String) -> (e: Self)
        ensures
            e matches CollaborationEvent::SessionLeft { session_id: x_session_id, display_name: x_display_name, .. } && x_session_id == session_id && x_display_name == display_name,
    {
        CollaborationEvent::SessionLeft { session_id, display_name, timestamp: now_rfc3339() }
    }

    /// The `Heartbeat` event for the given payload, stamped now.
    pub fn heartbeat(session_id: String) -> (e: Self)
        ensures
            e matches CollaborationEvent::Heartbeat { session_id: x_session_id, .. } && x_session_id == session_id,
    {
        CollaborationEvent::Heartbeat { session_id, timestamp: now_rfc3339() }
    }

    /// The `LoopStarted` event, stamped now.
    pub fn loop_started() -> (e: Self)
        ensures
            e is LoopStarted,
    {
        CollaborationEvent::LoopStarted { timestamp: now_rfc3339() }
    }

    /// The `LoopStopped` event, stamped now.
    pub fn loop_stopped() -> (e: Self)
        ensures
            e is LoopStopped,
    {
        CollaborationEvent::LoopStopped { timestamp: now_rfc3339() }
    }

    /// The `LoopPaused` event, stamped now.
    pub fn loop_paused() -> (e: Self)
        ensures
            e is LoopPaused,
    {
        CollaborationEvent::LoopPaused { timestamp: now_rfc3339() }
    }

    /// The `CycleCompleted` event for the given payload, stamped now.
    pub fn cycle_completed(cycle: u64, allowed_count: usize, denied_count: usize, pending_confirmation_count: usize) -> (e: Self)
        ensures
            e matches CollaborationEvent::CycleCompleted { cycle: x_cycle, allowed_count: x_allowed_count, denied_count: x_denied_count, pending_confirmation_count: x_pending_confirmation_count, .. } && x_cycle == cycle && x_allowed_count == allowed_count && x_denied_count == denied_count && x_pending_confirmation_count == pending_confirmation_count,
    {
        CollaborationEvent::CycleCompleted { cycle, allowed_count, denied_count, pending_confirmation_count, timestamp: now_rfc3339() }
    }

    /// The `ConfirmationRequested` event for the given payload, stamped now.
    pub fn confirmation_requested(request: ConfirmationRequest) -> (e: Self)
        ensures
            e matches CollaborationEvent::ConfirmationRequested { request: x_request, .. } && x_request == request,
    {
        CollaborationEvent::ConfirmationRequested { request, timestamp: now_rfc3339() }
    }

    /// The `ConfirmationResolved` event for the given payload, stamped now.
    pub fn confirmation_resolved(request: ConfirmationRequest) -> (e: Self)
        ensures
            e matches CollaborationEvent::ConfirmationResolved { request: x_request, .. } && x_request == request,
    {
        CollaborationEvent::ConfirmationResolved { request, timestamp: now_rfc3339() }
    }

    /// The `OperatorDecision` event for the given payload, stamped now.
    pub fn operator_decision(cycle: u64, decision: OperatorDecision) -> (e: Self)
        ensures
            e matches CollaborationEvent::OperatorDecision { cycle: x_cycle, decision: x_decision, .. } && x_cycle == cycle && x_decision == decision,
    {
        CollaborationEvent::OperatorDecision { cycle, decision, timestamp: now_rfc3339() }
    }

    /// The `ConfigChanged` event, stamped now.
    pub fn config_changed() -> (e: Self)
        ensures
            e is ConfigChanged,
    {
        CollaborationEvent::ConfigChanged { timestamp: now_rfc3339() }
    }

    /// The `SessionPruned` event for the given payload, stamped now.
    pub fn session_pruned(session_id: String, display_name: String) -> (e: Self)
        ensures
            e matches CollaborationEvent::SessionPruned { session_id: x_session_id, display_name: x_display_name, .. } && x_session_id == session_id && x_display_name == display_name,
    {
        CollaborationEvent::SessionPruned { session_id, display_name, timestamp: now_rfc3339() }
    }
}

} // verus!
