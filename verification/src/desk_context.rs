//! Desk context: the structured snapshot of the desk state the operator sees.

use vstd::prelude::*;

verus! {

/// A summary of a case for the LLM context.
#[derive(Debug, Clone)]
pub struct DeskContextSummary {
    /// Case id.
    pub id: String,
    /// Case title.
    pub title: String,
    /// Case status.
    pub status: String,
    /// Watchlist id.
    pub watchlist_id: String,
    /// Primary entity (if any).
    pub primary_entity: Option<String>,
    /// Number of evidence items.
    pub evidence_count: usize,
    /// Number of claims.
    pub claim_count: usize,
    /// Latest reason / briefing.
    pub latest_reason: String,
    /// Priority total (higher = more urgent).
    pub priority_total: u64,
}

/// A structured snapshot of the desk state for the LLM operator.
#[derive(Debug, Clone)]
pub struct DeskContextSnapshot {
    /// Number of sources.
    pub source_count: usize,
    /// Number of watchlists.
    pub watchlist_count: usize,
    /// Total evidence.
    pub evidence_count: usize,
    /// Total claims.
    pub claim_count: usize,
    /// Open cases.
    pub open_case_count: usize,
    /// Escalated cases.
    pub escalated_case_count: usize,
    /// Top cases by priority (limited to max_context_items).
    pub top_cases: Vec<DeskContextSummary>,
    /// Recent evidence (limited to max_context_items).
    pub recent_evidence: Vec<EvidenceSummary>,
    /// Active watchlists.
    pub active_watchlists: Vec<WatchlistSummary>,
    /// Recent operator decisions (last N).
    pub recent_decisions: Vec<RecentDecisionSummary>,
}

/// Summary of an evidence item.
#[derive(Debug, Clone)]
pub struct EvidenceSummary {
    /// Evidence id.
    pub id: String,
    /// Title.
    pub title: String,
    /// Source id.
    pub source_id: String,
    /// Trust score of the source.
    pub trust_score: u8,
    /// Observed at timestamp.
    pub observed_at: String,
    /// Entity labels.
    pub entity_labels: Vec<String>,
    /// Tags.
    pub tags: Vec<String>,
}

/// Summary of a watchlist.
#[derive(Debug, Clone)]
pub struct WatchlistSummary {
    /// Watchlist id.
    pub id: String,
    /// Name.
    pub name: String,
    /// Severity.
    pub severity: String,
    /// Keywords.
    pub keywords: Vec<String>,
    /// Whether it's enabled.
    pub enabled: bool,
}

/// Summary of a recent operator decision.
#[derive(Debug, Clone)]
pub struct RecentDecisionSummary {
    /// Action type proposed.
    pub action_type: String,
    /// Whether it was allowed or denied.
    pub decision: String,
    /// Denial reason (if denied).
    pub denial_reason: Option<String>,
    /// Rationale given by the LLM.
    pub rationale: String,
    /// Timestamp.
    pub timestamp: String,
}

/// A source of desk state the operator can observe.
pub trait DeskContext {
    /// Assembles a context snapshot with at most `max_items` items per category.
    fn snapshot(&self, max_items: usize) -> DeskContextSnapshot;
}

} // verus!
