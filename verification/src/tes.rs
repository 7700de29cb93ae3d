//! Bookkeeping for the Test Effectiveness Score: the assertions and
//! behaviour scenarios a test records, and its mutation results. The score
//! itself is a floating-point formula over the counts kept here.

use vstd::prelude::*;
use crate::quality_types::{contains_text, occurs_in};
use crate::symbolic_program::str_eq;

verus! {

/// A single recorded assertion with its context.
#[derive(Debug, Clone)]
pub struct Assertion {
    /// What was asserted.
    pub description: String,
    /// Whether the two sides rendered the same.
    pub passed: bool,
    /// The actual value, rendered with `{:?}`.
    pub actual: String,
    /// The expected value, rendered with `{:?}`.
    pub expected: String,
}

/// A behaviour scenario: given, when, then.
#[derive(Debug, Clone)]
pub struct BehaviorTest {
    /// Scenario name, such as "happy_path" or "edge_case".
    pub scenario: String,
    /// The precondition.
    pub given: String,
    /// The action.
    pub when: String,
    /// The expected outcome.
    pub then: String,
    /// Whether the scenario passed.
    pub passed: bool,
}

/// An instant of the monotonic clock.
#[verifier::external_type_specification]
#[verifier::external_body]
pub struct ExInstant(std::time::Instant);

/// Reads the monotonic clock.
///
/// Trusted for nothing: calls `std::time::Instant::now`.
#[verifier::external_body]
fn instant_now() -> std::time::Instant {
    std::time::Instant::now()
}

/// The scenario names whose coverage the score counts.
pub open spec fn behavior_patterns() -> Seq<Seq<char>> {
    seq!["happy_path"@, "error"@, "edge_case"@, "boundary"@, "concurrent"@]
}

/// Whether some recorded scenario name contains `pattern`.
pub open spec fn pattern_covered(behaviors: Seq<BehaviorTest>, pattern: Seq<char>) -> bool {
    exists|i: int| 0 <= i < behaviors.len() && occurs_in((#[trigger] behaviors[i]).scenario@, pattern)
}

/// How many of the first `n` patterns some scenario covers.
pub open spec fn covered_count(behaviors: Seq<BehaviorTest>, n: int) -> nat
    decreases n,
{
    if n <= 0 {
        0
    } else {
        covered_count(behaviors, n - 1) + if pattern_covered(behaviors, behavior_patterns()[n - 1]) {
            1nat
        } else {
            0nat
        }
    }
}

/// How many assertions failed.
pub open spec fn failed_count(a: Seq<Assertion>) -> nat
    decreases a.len(),
{
    if a.len() == 0 {
        0
    } else {
        failed_count(a.drop_last()) + if a.last().passed {
            0nat
        } else {
            1nat
        }
    }
}

/// What a test records for its effectiveness score.
pub struct TesTracker {
    test_name: String,
    assertions: Vec<Assertion>,
    behaviors: Vec<BehaviorTest>,
    start_time: std::time::Instant,
    mutations_caught: usize,
    total_mutations: usize,
}

impl TesTracker {
    /// The test's name.
    pub closed spec fn name(&self) -> Seq<char> {
        self.test_name@
    }

    /// The assertions recorded, in order.
    pub closed spec fn recorded_assertions(&self) -> Seq<Assertion> {
        self.assertions@
    }

    /// The behaviour scenarios recorded, in order.
    pub closed spec fn recorded_behaviors(&self) -> Seq<BehaviorTest> {
        self.behaviors@
    }

    /// Mutants caught and mutants in all.
    pub closed spec fn mutations(&self) -> (usize, usize) {
        (self.mutations_caught, self.total_mutations)
    }

    /// A tracker for `test_name`, started now, with nothing recorded.
    pub fn new(test_name: String) -> (t: Self)
        ensures
            t.name() == test_name@,
            t.recorded_assertions().len() == 0,
            t.recorded_behaviors().len() == 0,
            t.mutations() == (0usize, 0usize),
    {
        TesTracker {
            test_name,
            assertions: Vec::new(),
            behaviors: Vec::new(),
            start_time: instant_now(),
            mutations_caught: 0,
            total_mutations: 0,
        }
    }

    /// Records an assertion on two values rendered with `{:?}`: it passes
    /// when the renderings are equal. Returns whether it passed.
    pub fn assert_eq(&mut self, actual: String, expected: String, description: &str) -> (passed: bool)
        ensures
            passed == (actual@ == expected@),
            final(self).recorded_assertions().len() == old(self).recorded_assertions().len() + 1,
            final(self).recorded_assertions().drop_last() == old(self).recorded_assertions(),
            final(self).recorded_assertions().last().passed == passed,
            final(self).recorded_assertions().last().actual == actual,
            final(self).recorded_assertions().last().expected == expected,
            final(self).recorded_assertions().last().description@ == description@,
            final(self).recorded_behaviors() == old(self).recorded_behaviors(),
            final(self).mutations() == old(self).mutations(),
            final(self).name() == old(self).name(),
    {
        let passed = str_eq(actual.as_str(), expected.as_str());
        self.assertions.push(Assertion { description: String::from_str(description), passed, actual, expected });
        passed
    }

    /// Records a behaviour scenario.
    pub fn test_behavior(&mut self, behavior: BehaviorTest)
        ensures
            final(self).recorded_behaviors() == old(self).recorded_behaviors().push(behavior),
            final(self).recorded_assertions() == old(self).recorded_assertions(),
            final(self).mutations() == old(self).mutations(),
            final(self).name() == old(self).name(),
    {
        self.behaviors.push(behavior);
    }

    /// Records mutation testing results: mutants caught out of all mutants.
    pub fn record_mutations(&mut self, caught: usize, total: usize)
        ensures
            final(self).mutations() == (caught, total),
            final(self).recorded_assertions() == old(self).recorded_assertions(),
            final(self).recorded_behaviors() == old(self).recorded_behaviors(),
            final(self).name() == old(self).name(),
    {
        self.mutations_caught = caught;
        self.total_mutations = total;
    }

    /// The test's name.
    pub fn test_name(&self) -> (s: &str)
        ensures
            s@ == self.name(),
    {
        self.test_name.as_str()
    }

    /// When the tracker was started.
    pub fn start_time(&self) -> std::time::Instant {
        self.start_time
    }

    /// Mutants caught and mutants in all.
    pub fn mutation_counts(&self) -> (r: (usize, usize))
        ensures
            r == self.mutations(),
    {
        (self.mutations_caught, self.total_mutations)
    }

    /// How many assertions were recorded.
    pub fn assertion_count(&self) -> (n: usize)
        ensures
            n == self.recorded_assertions().len(),
    {
        self.assertions.len()
    }

    /// How many recorded assertions failed.
    pub fn failed_assertion_count(&self) -> (n: usize)
        ensures
            n == failed_count(self.recorded_assertions()),
    {
        let mut n: usize = 0;
        let mut i: usize = 0;
        while i < self.assertions.len()
            invariant
                i <= self.assertions@.len(),
                n == failed_count(self.assertions@.subrange(0, i as int)),
                n <= i,
            decreases self.assertions@.len() - i,
        {
            assert(self.assertions@.subrange(0, i + 1).drop_last() =~= self.assertions@.subrange(0, i as int));
            if !self.assertions[i].passed {
                n = n + 1;
            }
            i = i + 1;
        }
        assert(self.assertions@.subrange(0, self.assertions@.len() as int) =~= self.assertions@);
        n
    }

    /// How many of the five behaviour patterns ("happy_path", "error",
    /// "edge_case", "boundary", "concurrent") some recorded scenario name
    /// contains.
    pub fn covered_behavior_patterns(&self) -> (n: usize)
        ensures
            n == covered_count(self.recorded_behaviors(), 5),
    {
        let patterns: [&str; 5] = ["happy_path", "error", "edge_case", "boundary", "concurrent"];
        proof {
            reveal_strlit("happy_path");
            reveal_strlit("error");
            reveal_strlit("edge_case");
            reveal_strlit("boundary");
            reveal_strlit("concurrent");
        }
        let mut n: usize = 0;
        let mut k: usize = 0;
        while k < 5
            invariant
                k <= 5,
                n <= k,
                patterns@.len() == 5,
                forall|j: int| 0 <= j < 5 ==> (#[trigger] patterns@[j])@ == behavior_patterns()[j],
                n == covered_count(self.behaviors@, k as int),
            decreases 5 - k,
        {
            let pattern = patterns[k];
            let mut found = false;
            let mut i: usize = 0;
            while i < self.behaviors.len()
                invariant
                    i <= self.behaviors@.len(),
                    found == exists|j: int| 0 <= j < i && occurs_in((#[trigger] self.behaviors@[j]).scenario@, pattern@),
                decreases self.behaviors@.len() - i,
            {
                if contains_text(self.behaviors[i].scenario.as_str(), pattern) {
                    found = true;
                }
                i = i + 1;
            }
            assert(pattern@ == behavior_patterns()[k as int]);
            if found {
                n = n + 1;
            }
            k = k + 1;
        }
        n
    }
}

/// A builder holding a value to be adjusted and then taken.
pub struct TestDataBuilder<T> {
    data: T,
}

impl<T> TestDataBuilder<T> {
    /// The value the builder holds.
    pub closed spec fn value(&self) -> T {
        self.data
    }

    /// A builder holding `data`.
    pub fn new(data: T) -> (b: Self)
        ensures
            b.value() == data,
    {
        TestDataBuilder { data }
    }

    /// Applies `f` to the value held.
    pub fn with<F: FnOnce(&mut T)>(self, f: F) -> (b: Self)
        requires
            forall|t: &mut T| #[trigger] f.requires((t,)),
        ensures
            exists|t: &mut T|
                mut_ref_current(t) == self.value() && mut_ref_future(t) == b.value() && #[trigger] f.ensures((t,), ()),
    {
        let mut b = self;
        let r = &mut b.data;
        f(r);
        b
    }

    /// The value, after every adjustment.
    pub fn build(self) -> (t: T)
        ensures
            t == self.value(),
    {
        self.data
    }
}

} // verus!
