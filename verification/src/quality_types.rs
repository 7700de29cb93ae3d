//! Quality-analysis findings: critical issues, their severity, and how an
//! issue is prioritised and categorised for the improvement plan.

use vstd::prelude::*;
use crate::text::chars_of;

verus! {

/// Severity levels for issues.
#[derive(Debug, Clone, Copy, PartialEq, Eq, PartialOrd, Ord, Structural)]
pub enum IssueSeverity {
    /// Security vulnerability or critical bug.
    Critical,
    /// Major functionality issue.
    High,
    /// Performance or maintainability issue.
    Medium,
    /// Minor improvement opportunity.
    Low,
}

/// Code location information.
#[derive(Debug, Clone)]
pub struct CodeLocation {
    /// File path.
    pub file: String,
    /// Line number.
    pub line: usize,
    /// Column number (optional).
    pub column: Option<usize>,
    /// Function or method name.
    pub function: Option<String>,
}

/// Critical issue that needs immediate attention.
#[derive(Debug, Clone)]
pub struct CriticalIssue {
    /// Module where the issue was found.
    pub module: String,
    /// Severity level.
    pub severity: IssueSeverity,
    /// Description of the issue.
    pub description: String,
    /// Specific location in code.
    pub location: CodeLocation,
    /// Recommended fix.
    pub recommended_fix: String,
    /// Estimated effort to fix (hours).
    pub effort_estimate: u32,
}

/// Priority levels for improvement actions.
#[derive(Debug, Clone, Copy, PartialEq, Eq, PartialOrd, Ord, Structural)]
pub enum ActionPriority {
    /// Must be done immediately.
    Immediate,
    /// Should be done this sprint.
    High,
    /// Should be done this quarter.
    Medium,
    /// Nice to have.
    Low,
}

/// Categories of improvements.
#[derive(Debug, Clone, Copy, PartialEq, Eq, Structural)]
pub enum ImprovementCategory {
    /// Add missing tests.
    TestCoverage,
    /// Improve assertion quality.
    TestQuality,
    /// Reduce code complexity.
    Complexity,
    /// Fix security issues.
    Security,
    /// Improve performance.
    Performance,
    /// Enhance maintainability.
    Maintainability,
    /// Remove code duplication.
    Duplication,
}

/// The priority of the improvement action for an issue of this severity.
pub open spec fn priority_spec(s: IssueSeverity) -> ActionPriority {
    match s {
        IssueSeverity::Critical => ActionPriority::Immediate,
        IssueSeverity::High => ActionPriority::High,
        IssueSeverity::Medium => ActionPriority::Medium,
        IssueSeverity::Low => ActionPriority::Low,
    }
}

/// The priority of the improvement action for an issue of this severity.
pub fn priority_for(severity: IssueSeverity) -> (p: ActionPriority)
    ensures
        p == priority_spec(severity),
{
    match severity {
        IssueSeverity::Critical => ActionPriority::Immediate,
        IssueSeverity::High => ActionPriority::High,
        IssueSeverity::Medium => ActionPriority::Medium,
        IssueSeverity::Low => ActionPriority::Low,
    }
}

/// Whether `t` occurs in `s`.
pub open spec fn occurs_in(s: Seq<char>, t: Seq<char>) -> bool {
    exists|i: int| 0 <= i && i + t.len() <= s.len() && #[trigger] s.subrange(i, i + t.len()) == t
}

/// Whether `needle` occurs in `hay`.
pub fn contains_text(hay: &str, needle: &str) -> (b: bool)
    ensures
        b == occurs_in(hay@, needle@),
{
    let h = chars_of(hay);
    let n = chars_of(needle);
    let hl = h.len();
    let nl = n.len();
    if nl > hl {
        return false;
    }
    let mut i: usize = 0;
    while i <= hl - nl
        invariant
            h@ == hay@,
            n@ == needle@,
            hl == h@.len(),
            nl == n@.len(),
            nl <= hl,
            i <= hl - nl + 1,
            forall|j: int| 0 <= j < i ==> #[trigger] h@.subrange(j, j + nl) != n@,
        decreases hl - i,
    {
        let mut k: usize = 0;
        let mut same = true;
        while k < nl
            invariant
                hl == h@.len(),
                nl == n@.len(),
                i + nl <= hl,
                k <= nl,
                same == (forall|m: int| 0 <= m < k ==> h@[i + m] == n@[m]),
            decreases nl - k,
        {
            if h[i + k] != n[k] {
                same = false;
            }
            k = k + 1;
        }
        if same {
            assert(h@.subrange(i as int, i + nl) =~= n@);
            return true;
        }
        assert(h@.subrange(i as int, i + nl) != n@) by {
            let m = choose|m: int| 0 <= m < nl && h@[i + m] != n@[m];
            assert(h@.subrange(i as int, i + nl)[m] == h@[i + m]);
        }
        i = i + 1;
    }
    assert forall|j: int| 0 <= j && j + needle@.len() <= hay@.len() implies #[trigger] hay@.subrange(
        j,
        j + needle@.len(),
    ) != needle@ by {
        assert(h@.subrange(j, j + nl) != n@);
    }
    false
}

/// The improvement category of an issue, from the words in its description.
pub open spec fn category_spec(description: Seq<char>) -> ImprovementCategory {
    if occurs_in(description, "weak spot"@) {
        ImprovementCategory::TestCoverage
    } else if occurs_in(description, "TES"@) || occurs_in(description, "Test Effectiveness"@) {
        ImprovementCategory::TestQuality
    } else if occurs_in(description, "complexity"@) {
        ImprovementCategory::Complexity
    } else if occurs_in(description, "security"@) {
        ImprovementCategory::Security
    } else {
        ImprovementCategory::Maintainability
    }
}

/// Categorises an issue into an improvement category.
pub fn categorize_issue(issue: &CriticalIssue) -> (c: ImprovementCategory)
    ensures
        c == category_spec(issue.description@),
{
    let d = issue.description.as_str();
    if contains_text(d, "weak spot") {
        ImprovementCategory::TestCoverage
    } else if contains_text(d, "TES") || contains_text(d, "Test Effectiveness") {
        ImprovementCategory::TestQuality
    } else if contains_text(d, "complexity") {
        ImprovementCategory::Complexity
    } else if contains_text(d, "security") {
        ImprovementCategory::Security
    } else {
        ImprovementCategory::Maintainability
    }
}

} // verus!
