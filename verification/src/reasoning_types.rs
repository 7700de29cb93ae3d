//! Inputs and outputs of the reasoning kernels.

use vstd::prelude::*;
use vstd::utf8::encode_utf8;
use crate::order::Keyed;

verus! {

/// Supported reasoning backends.
#[derive(Debug, Clone, Copy, PartialEq, Eq, Structural)]
pub enum ReasoningBackend {
    /// Knowledge triples with symbolic forward chaining.
    KrrSymbolic,
    /// Weighted expert-rule voting.
    ExpertSystem,
    /// Linear-model scoring.
    Neuro,
    /// Symbolic guard fused with a neural confidence.
    NeuroSymbolic,
}

/// Final verdict of a reasoning backend.
#[derive(Debug, Clone, Copy, PartialEq, Eq, Structural)]
pub enum ReasoningVerdict {
    /// Permit execution.
    Allow,
    /// Require further review.
    Review,
    /// Deny execution (fail closed).
    Deny,
}

/// Which contradictions block a symbolic decision.
#[derive(Debug, Clone, Copy, PartialEq, Eq, Structural)]
pub enum ReasoningConsistencyScope {
    /// Any contradiction in the closure blocks the decision.
    Global,
    /// Only contradictions touching the query's support block the decision.
    QuerySupport,
}

impl Default for ReasoningConsistencyScope {
    fn default() -> (s: Self)
        ensures
            s == ReasoningConsistencyScope::Global,
    {
        ReasoningConsistencyScope::Global
    }
}

/// An implication rule: when every antecedent holds, the consequent holds.
#[derive(Debug, Clone, PartialEq, Eq)]
pub struct SymbolicRule {
    /// Stable rule identifier.
    pub id: String,
    /// Facts that must all hold.
    pub antecedents: Vec<String>,
    /// Fact inferred when the antecedents hold.
    pub consequent: String,
}

/// A knowledge-graph relation `predicate(subject, object)`.
#[derive(Debug, Clone, PartialEq, Eq)]
pub struct KrrTriple {
    /// Subject node.
    pub subject: String,
    /// Relation name.
    pub predicate: String,
    /// Object node.
    pub object: String,
}

/// A rule with its texts taken as character sequences.
pub struct RuleView {
    pub id: Seq<char>,
    pub antecedents: Seq<Seq<char>>,
    pub consequent: Seq<char>,
}

/// A triple with its texts taken as character sequences.
pub struct TripleView {
    pub subject: Seq<char>,
    pub predicate: Seq<char>,
    pub object: Seq<char>,
}

impl View for SymbolicRule {
    type V = RuleView;

    open spec fn view(&self) -> RuleView {
        RuleView {
            id: self.id@,
            antecedents: self.antecedents@.map_values(|s: String| s@),
            consequent: self.consequent@,
        }
    }
}

impl View for KrrTriple {
    type V = TripleView;

    open spec fn view(&self) -> TripleView {
        TripleView { subject: self.subject@, predicate: self.predicate@, object: self.object@ }
    }
}

/// Whether a closure fact was asserted or derived.
#[derive(Debug, Clone, Copy, PartialEq, Eq, Structural)]
pub enum ReasoningSupportKind {
    /// Asserted by the input facts or triples.
    Seed,
    /// Produced by a rule firing.
    Derived,
}

/// One fact of a symbolic closure with what justified it.
#[derive(Debug, Clone, PartialEq, Eq)]
pub struct ReasoningSupportNode {
    /// Canonical fact.
    pub fact: String,
    /// Seed or derived.
    pub kind: ReasoningSupportKind,
    /// The rule that produced the fact, when derived.
    pub rule_id: Option<String>,
    /// The antecedents that justified the derivation.
    pub supports: Vec<String>,
}

/// A literal and its negation, both in one closure.
#[derive(Debug, Clone, PartialEq, Eq)]
pub struct ReasoningContradiction {
    /// The positive literal.
    pub positive: String,
    /// The negative literal.
    pub negative: String,
}

/// Whether a symbolic closure reached its fixed point.
#[derive(Debug, Clone, Copy, PartialEq, Eq, Structural)]
pub enum ReasoningSymbolicStatus {
    /// A fixed point was reached within the round bound.
    Saturated,
    /// The round bound was hit first.
    Truncated,
}

/// Symbolic forward chaining over triples and rules.
pub struct SymbolicReasoningKernel;

/// Weighted expert-rule voting.
pub struct ExpertSystemKernel;

/// Linear-model scoring.
pub struct NeuroRiskKernel;

/// Symbolic gate fused with a neural confidence.
pub struct NeuroSymbolicFusionKernel;


/// A support node with its texts taken as character sequences.
pub struct SupportNodeView {
    pub fact: Seq<char>,
    pub derived: bool,
    pub rule_id: Option<Seq<char>>,
    pub supports: Seq<Seq<char>>,
}

impl View for ReasoningSupportNode {
    type V = SupportNodeView;

    open spec fn view(&self) -> SupportNodeView {
        SupportNodeView {
            fact: self.fact@,
            derived: self.kind is Derived,
            rule_id: match self.rule_id {
                Some(r) => Some(r@),
                None => None,
            },
            supports: self.supports@.map_values(|s: String| s@),
        }
    }
}

impl Keyed for ReasoningSupportNode {
    open spec fn key1(&self) -> Seq<u8> {
        encode_utf8(self.fact@)
    }

    open spec fn key2(&self) -> Seq<u8> {
        Seq::empty()
    }

    fn key1_bytes(&self) -> (r: &[u8]) {
        self.fact.as_str().as_bytes()
    }

    fn key2_bytes(&self) -> (r: &[u8]) {
        let e: &[u8] = &[];
        assert(e@ =~= Seq::<u8>::empty());
        e
    }
}

impl Keyed for ReasoningContradiction {
    open spec fn key1(&self) -> Seq<u8> {
        encode_utf8(self.positive@)
    }

    open spec fn key2(&self) -> Seq<u8> {
        Seq::empty()
    }

    fn key1_bytes(&self) -> (r: &[u8]) {
        self.positive.as_str().as_bytes()
    }

    fn key2_bytes(&self) -> (r: &[u8]) {
        let e: &[u8] = &[];
        assert(e@ =~= Seq::<u8>::empty());
        e
    }
}

} // verus!
