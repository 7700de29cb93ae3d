//! A compiled symbolic program: interned literals, base facts from triples and
//! implication rules, with the fingerprint of its canonical form.

use vstd::prelude::*;
use crate::errors::{HelixError, HelixFault};
use crate::reasoning_types::{KrrTriple, RuleView, SymbolicRule, TripleView};
use crate::symbolic_fingerprint::{
    canon_facts, descriptor_fingerprint, fingerprint_symbolic_program, program_descriptor,
    rule_canon, rules_canon, rules_view, triples_canon, triples_view, CanonRule,
};
use crate::symbolic_parse::{
    fact_parse, literal_canon, normalize_non_empty, normalized, parse_fact, parse_triple_fact,
    strings_view, triple_parse, AtomView, LiteralView, SymbolicAtom, SymbolicLiteral,
};
use crate::text::copy_string;

verus! {

/// A rule with its id trimmed and its facts parsed.
pub struct ParsedRule {
    pub id: Seq<char>,
    pub antecedents: Seq<LiteralView>,
    pub consequent: LiteralView,
}

/// The facts of `v` parsed in order; the first failure wins.
pub open spec fn facts_parse(v: Seq<Seq<char>>, ctx: Seq<char>, field: Seq<char>) -> Result<
    Seq<LiteralView>,
    HelixFault,
>
    decreases v.len(),
{
    if v.len() == 0 {
        Ok(Seq::empty())
    } else {
        match facts_parse(v.drop_last(), ctx, field) {
            Err(e) => Err(e),
            Ok(p) => match fact_parse(v.last(), ctx, field) {
                Err(e) => Err(e),
                Ok(l) => Ok(p.push(l)),
            },
        }
    }
}

/// A rule parsed: its id, then its antecedents, then its consequent.
pub open spec fn rule_parse(r: RuleView) -> Result<ParsedRule, HelixFault> {
    let ctx = "reasoning.rules"@;
    match normalized(r.id, ctx, "rule id"@) {
        Err(e) => Err(e),
        Ok(id) => match facts_parse(r.antecedents, ctx, "rule antecedent"@) {
            Err(e) => Err(e),
            Ok(a) => match fact_parse(r.consequent, ctx, "rule consequent"@) {
                Err(e) => Err(e),
                Ok(c) => Ok(ParsedRule { id, antecedents: a, consequent: c }),
            },
        },
    }
}

/// The rules parsed in order; the first failure wins.
pub open spec fn rules_parse(rs: Seq<RuleView>) -> Result<Seq<ParsedRule>, HelixFault>
    decreases rs.len(),
{
    if rs.len() == 0 {
        Ok(Seq::empty())
    } else {
        match rules_parse(rs.drop_last()) {
            Err(e) => Err(e),
            Ok(p) => match rule_parse(rs.last()) {
                Err(e) => Err(e),
                Ok(c) => Ok(p.push(c)),
            },
        }
    }
}

/// The triples parsed in order; the first failure wins.
pub open spec fn triples_parse(ts: Seq<TripleView>) -> Result<Seq<LiteralView>, HelixFault>
    decreases ts.len(),
{
    if ts.len() == 0 {
        Ok(Seq::empty())
    } else {
        match triples_parse(ts.drop_last()) {
            Err(e) => Err(e),
            Ok(p) => match triple_parse(ts.last()) {
                Err(e) => Err(e),
                Ok(l) => Ok(p.push(l)),
            },
        }
    }
}

/// A program parsed: rules first, then triples.
pub open spec fn program_parse(rs: Seq<RuleView>, ts: Seq<TripleView>) -> Result<
    (Seq<ParsedRule>, Seq<LiteralView>),
    HelixFault,
> {
    match rules_parse(rs) {
        Err(e) => Err(e),
        Ok(r) => match triples_parse(ts) {
            Err(e) => Err(e),
            Ok(t) => Ok((r, t)),
        },
    }
}

pub open spec fn canon_seq(v: Seq<LiteralView>) -> Seq<Seq<char>> {
    v.map_values(|l: LiteralView| literal_canon(l))
}

/// A parsed rule in canonical form.
pub open spec fn canon_of_rule(r: ParsedRule) -> CanonRule {
    CanonRule { id: r.id, antecedents: canon_seq(r.antecedents), consequent: literal_canon(r.consequent) }
}

pub open spec fn canon_rules(v: Seq<ParsedRule>) -> Seq<CanonRule> {
    v.map_values(|r: ParsedRule| canon_of_rule(r))
}

/// The fingerprint of a parsed program.
pub open spec fn parsed_fingerprint(d: (Seq<ParsedRule>, Seq<LiteralView>)) -> Seq<char> {
    descriptor_fingerprint(canon_rules(d.0), canon_seq(d.1))
}

proof fn lemma_facts_parse_canon(v: Seq<Seq<char>>, ctx: Seq<char>, field: Seq<char>)
    ensures
        match facts_parse(v, ctx, field) {
            Ok(ls) => canon_facts(v, ctx, field) == Ok::<Seq<Seq<char>>, HelixFault>(canon_seq(ls)),
            Err(e) => canon_facts(v, ctx, field) == Err::<Seq<Seq<char>>, HelixFault>(e),
        },
    decreases v.len(),
{
    if v.len() > 0 {
        lemma_facts_parse_canon(v.drop_last(), ctx, field);
        match facts_parse(v.drop_last(), ctx, field) {
            Ok(p) => {
                match fact_parse(v.last(), ctx, field) {
                    Ok(l) => {
                        assert(canon_seq(p.push(l)) =~= canon_seq(p).push(literal_canon(l)));
                    },
                    Err(e) => {},
                }
            },
            Err(e) => {},
        }
    } else {
        assert(canon_seq(Seq::<LiteralView>::empty()) =~= Seq::<Seq<char>>::empty());
    }
}

proof fn lemma_rules_parse_canon(rs: Seq<RuleView>)
    ensures
        match rules_parse(rs) {
            Ok(ps) => rules_canon(rs) == Ok::<Seq<CanonRule>, HelixFault>(canon_rules(ps)),
            Err(e) => rules_canon(rs) == Err::<Seq<CanonRule>, HelixFault>(e),
        },
    decreases rs.len(),
{
    if rs.len() > 0 {
        lemma_rules_parse_canon(rs.drop_last());
        let r = rs.last();
        lemma_facts_parse_canon(r.antecedents, "reasoning.rules"@, "rule antecedent"@);
        match rules_parse(rs.drop_last()) {
            Ok(p) => {
                match rule_parse(r) {
                    Ok(c) => {
                        assert(canon_rules(p.push(c)) =~= canon_rules(p).push(canon_of_rule(c)));
                        assert(rule_canon(r) == Ok::<CanonRule, HelixFault>(canon_of_rule(c)));
                    },
                    Err(e) => {},
                }
            },
            Err(e) => {},
        }
    } else {
        assert(canon_rules(Seq::<ParsedRule>::empty()) =~= Seq::<CanonRule>::empty());
    }
}

proof fn lemma_triples_parse_canon(ts: Seq<TripleView>)
    ensures
        match triples_parse(ts) {
            Ok(ls) => triples_canon(ts) == Ok::<Seq<Seq<char>>, HelixFault>(canon_seq(ls)),
            Err(e) => triples_canon(ts) == Err::<Seq<Seq<char>>, HelixFault>(e),
        },
    decreases ts.len(),
{
    if ts.len() > 0 {
        lemma_triples_parse_canon(ts.drop_last());
        match triples_parse(ts.drop_last()) {
            Ok(p) => {
                match triple_parse(ts.last()) {
                    Ok(l) => {
                        assert(canon_seq(p.push(l)) =~= canon_seq(p).push(literal_canon(l)));
                    },
                    Err(e) => {},
                }
            },
            Err(e) => {},
        }
    } else {
        assert(canon_seq(Seq::<LiteralView>::empty()) =~= Seq::<Seq<char>>::empty());
    }
}

/// Parsing a program and writing it canonically agree: same failure, or the
/// canonical descriptor of what was parsed.
pub proof fn lemma_program_parse_descriptor(rs: Seq<RuleView>, ts: Seq<TripleView>)
    ensures
        match program_parse(rs, ts) {
            Ok(d) => program_descriptor(rs, ts) == Ok::<(Seq<CanonRule>, Seq<Seq<char>>), HelixFault>(
                (canon_rules(d.0), canon_seq(d.1)),
            ),
            Err(e) => program_descriptor(rs, ts) == Err::<(Seq<CanonRule>, Seq<Seq<char>>), HelixFault>(e),
        },
{
    lemma_rules_parse_canon(rs);
    lemma_triples_parse_canon(ts);
}


proof fn lemma_facts_parse_err(v: Seq<Seq<char>>, k: int, ctx: Seq<char>, field: Seq<char>)
    requires
        0 <= k <= v.len(),
        facts_parse(v.subrange(0, k), ctx, field) is Err,
    ensures
        facts_parse(v, ctx, field) == facts_parse(v.subrange(0, k), ctx, field),
    decreases v.len(),
{
    if k == v.len() {
        assert(v.subrange(0, k) =~= v);
    } else {
        assert(v.drop_last().subrange(0, k) =~= v.subrange(0, k));
        lemma_facts_parse_err(v.drop_last(), k, ctx, field);
    }
}

proof fn lemma_rules_parse_err(v: Seq<RuleView>, k: int)
    requires
        0 <= k <= v.len(),
        rules_parse(v.subrange(0, k)) is Err,
    ensures
        rules_parse(v) == rules_parse(v.subrange(0, k)),
    decreases v.len(),
{
    if k == v.len() {
        assert(v.subrange(0, k) =~= v);
    } else {
        assert(v.drop_last().subrange(0, k) =~= v.subrange(0, k));
        lemma_rules_parse_err(v.drop_last(), k);
    }
}

proof fn lemma_triples_parse_err(v: Seq<TripleView>, k: int)
    requires
        0 <= k <= v.len(),
        triples_parse(v.subrange(0, k)) is Err,
    ensures
        triples_parse(v) == triples_parse(v.subrange(0, k)),
    decreases v.len(),
{
    if k == v.len() {
        assert(v.subrange(0, k) =~= v);
    } else {
        assert(v.drop_last().subrange(0, k) =~= v.subrange(0, k));
        lemma_triples_parse_err(v.drop_last(), k);
    }
}

pub open spec fn lits_view(v: Seq<SymbolicLiteral>) -> Seq<LiteralView> {
    v.map_values(|l: SymbolicLiteral| l@)
}

pub open spec fn strs(v: Seq<String>) -> Seq<Seq<char>> {
    v.map_values(|s: String| s@)
}

/// A rule with its facts parsed, held in executable form.
pub struct ParsedRuleEntry {
    pub id: String,
    pub antecedents: Vec<SymbolicLiteral>,
    pub consequent: SymbolicLiteral,
}

impl View for ParsedRuleEntry {
    type V = ParsedRule;

    open spec fn view(&self) -> ParsedRule {
        ParsedRule {
            id: self.id@,
            antecedents: lits_view(self.antecedents@),
            consequent: self.consequent@,
        }
    }
}

pub open spec fn parsed_rules_view(v: Seq<ParsedRuleEntry>) -> Seq<ParsedRule> {
    v.map_values(|r: ParsedRuleEntry| r@)
}

/// Parses each of `v` as a fact, in order.
pub fn parse_fact_list(v: &Vec<String>, ctx: &str, field: &str) -> (r: Result<
    Vec<SymbolicLiteral>,
    HelixError,
>)
    ensures
        match r {
            Ok(c) => facts_parse(strs(v@), ctx@, field@) == Ok::<Seq<LiteralView>, HelixFault>(
                lits_view(c@),
            ),
            Err(e) => facts_parse(strs(v@), ctx@, field@) == Err::<Seq<LiteralView>, HelixFault>(e@),
        },
{
    let mut out: Vec<SymbolicLiteral> = Vec::new();
    let mut i: usize = 0;
    assert(strs(v@).subrange(0, 0) =~= Seq::<Seq<char>>::empty());
    assert(lits_view(out@) =~= Seq::<LiteralView>::empty());
    while i < v.len()
        invariant
            i <= v@.len(),
            facts_parse(strs(v@).subrange(0, i as int), ctx@, field@) == Ok::<
                Seq<LiteralView>,
                HelixFault,
            >(lits_view(out@)),
        decreases v@.len() - i,
    {
        let ghost pre = strs(v@).subrange(0, i as int);
        let ghost post = strs(v@).subrange(0, i as int + 1);
        proof {
            assert(post.drop_last() =~= pre);
            assert(post.last() == v@[i as int]@);
        }
        match parse_fact(v[i].as_str(), ctx, field) {
            Ok(l) => {
                let ghost lv = l@;
                let ghost before = lits_view(out@);
                out.push(l);
                assert(lits_view(out@) =~= before.push(lv));
            },
            Err(e) => {
                proof {
                    lemma_facts_parse_err(strs(v@), i as int + 1, ctx@, field@);
                }
                return Err(e);
            },
        }
        i = i + 1;
    }
    assert(strs(v@).subrange(0, v@.len() as int) =~= strs(v@));
    Ok(out)
}

fn parse_rule(rule: &SymbolicRule) -> (r: Result<ParsedRuleEntry, HelixError>)
    ensures
        match r {
            Ok(c) => rule_parse(rule@) == Ok::<ParsedRule, HelixFault>(c@),
            Err(e) => rule_parse(rule@) == Err::<ParsedRule, HelixFault>(e@),
        },
{
    let id = match normalize_non_empty(rule.id.as_str(), "reasoning.rules", "rule id") {
        Ok(v) => v,
        Err(e) => {
            return Err(e);
        },
    };
    let antecedents = match parse_fact_list(&rule.antecedents, "reasoning.rules", "rule antecedent") {
        Ok(v) => v,
        Err(e) => {
            return Err(e);
        },
    };
    let consequent = match parse_fact(rule.consequent.as_str(), "reasoning.rules", "rule consequent") {
        Ok(l) => l,
        Err(e) => {
            return Err(e);
        },
    };
    Ok(ParsedRuleEntry { id, antecedents, consequent })
}

/// Parses every rule, then every triple (see `program_parse`).
#[verifier::loop_isolation(false)]
pub fn parse_program(rules: &Vec<SymbolicRule>, triples: &Vec<KrrTriple>) -> (r: Result<
    (Vec<ParsedRuleEntry>, Vec<SymbolicLiteral>),
    HelixError,
>)
    ensures
        match r {
            Ok(d) => program_parse(rules_view(rules@), triples_view(triples@)) == Ok::<
                (Seq<ParsedRule>, Seq<LiteralView>),
                HelixFault,
            >((parsed_rules_view(d.0@), lits_view(d.1@))),
            Err(e) => program_parse(rules_view(rules@), triples_view(triples@)) == Err::<
                (Seq<ParsedRule>, Seq<LiteralView>),
                HelixFault,
            >(e@),
        },
{
    let mut rs: Vec<ParsedRuleEntry> = Vec::new();
    let mut i: usize = 0;
    assert(rules_view(rules@).subrange(0, 0) =~= Seq::<RuleView>::empty());
    assert(parsed_rules_view(rs@) =~= Seq::<ParsedRule>::empty());
    while i < rules.len()
        invariant
            i <= rules@.len(),
            rules_parse(rules_view(rules@).subrange(0, i as int)) == Ok::<Seq<ParsedRule>, HelixFault>(
                parsed_rules_view(rs@),
            ),
        decreases rules@.len() - i,
    {
        let ghost pre = rules_view(rules@).subrange(0, i as int);
        let ghost post = rules_view(rules@).subrange(0, i as int + 1);
        proof {
            assert(post.drop_last() =~= pre);
            assert(post.last() == rules@[i as int]@);
        }
        match parse_rule(&rules[i]) {
            Ok(c) => {
                let ghost cv = c@;
                let ghost before = parsed_rules_view(rs@);
                rs.push(c);
                assert(parsed_rules_view(rs@) =~= before.push(cv));
            },
            Err(e) => {
                proof {
                    lemma_rules_parse_err(rules_view(rules@), i as int + 1);
                }
                return Err(e);
            },
        }
        i = i + 1;
    }
    assert(rules_view(rules@).subrange(0, rules@.len() as int) =~= rules_view(rules@));
    let mut ts: Vec<SymbolicLiteral> = Vec::new();
    let mut j: usize = 0;
    assert(triples_view(triples@).subrange(0, 0) =~= Seq::<TripleView>::empty());
    assert(lits_view(ts@) =~= Seq::<LiteralView>::empty());
    while j < triples.len()
        invariant
            j <= triples@.len(),
            triples_parse(triples_view(triples@).subrange(0, j as int)) == Ok::<
                Seq<LiteralView>,
                HelixFault,
            >(lits_view(ts@)),
        decreases triples@.len() - j,
    {
        let ghost pre = triples_view(triples@).subrange(0, j as int);
        let ghost post = triples_view(triples@).subrange(0, j as int + 1);
        proof {
            assert(post.drop_last() =~= pre);
            assert(post.last() == triples@[j as int]@);
        }
        match parse_triple_fact(&triples[j]) {
            Ok(l) => {
                let ghost lv = l@;
                let ghost before = lits_view(ts@);
                ts.push(l);
                assert(lits_view(ts@) =~= before.push(lv));
            },
            Err(e) => {
                proof {
                    lemma_triples_parse_err(triples_view(triples@), j as int + 1);
                }
                return Err(e);
            },
        }
        j = j + 1;
    }
    assert(triples_view(triples@).subrange(0, triples@.len() as int) =~= triples_view(triples@));
    Ok((rs, ts))
}

/// Whether two texts are equal.
pub fn str_eq(a: &str, b: &str) -> (r: bool)
    ensures
        r == (a@ == b@),
{
    let n = a.unicode_len();
    if n != b.unicode_len() {
        return false;
    }
    let mut i: usize = 0;
    while i < n
        invariant
            n == a@.len(),
            n == b@.len(),
            i <= n,
            forall|k: int| 0 <= k < i ==> a@[k] == b@[k],
        decreases n - i,
    {
        if a.get_char(i) != b.get_char(i) {
            return false;
        }
        i = i + 1;
    }
    assert(a@ =~= b@);
    true
}

fn strings_eq(a: &Vec<String>, b: &Vec<String>) -> (r: bool)
    ensures
        r == (strings_view(a@) == strings_view(b@)),
{
    if a.len() != b.len() {
        assert(strings_view(a@).len() != strings_view(b@).len());
        return false;
    }
    let mut i: usize = 0;
    while i < a.len()
        invariant
            a@.len() == b@.len(),
            i <= a@.len(),
            forall|k: int| 0 <= k < i ==> a@[k]@ == b@[k]@,
        decreases a@.len() - i,
    {
        if !str_eq(a[i].as_str(), b[i].as_str()) {
            assert(strings_view(a@)[i as int] != strings_view(b@)[i as int]);
            return false;
        }
        i = i + 1;
    }
    assert(strings_view(a@) =~= strings_view(b@));
    true
}

/// Whether two literals are the same: same polarity and the same atom.
pub fn literal_eq(a: &SymbolicLiteral, b: &SymbolicLiteral) -> (r: bool)
    ensures
        r == (a@ == b@),
{
    if a.negative != b.negative {
        return false;
    }
    match (&a.atom, &b.atom) {
        (SymbolicAtom::Atom(x), SymbolicAtom::Atom(y)) => str_eq(x.as_str(), y.as_str()),
        (SymbolicAtom::Predicate { name: n1, args: a1 }, SymbolicAtom::Predicate { name: n2, args: a2 }) => {
            str_eq(n1.as_str(), n2.as_str()) && strings_eq(a1, a2)
        },
        _ => false,
    }
}

/// A copy of a literal.
pub fn copy_literal(l: &SymbolicLiteral) -> (r: SymbolicLiteral)
    ensures
        r@ == l@,
{
    let atom = match &l.atom {
        SymbolicAtom::Atom(x) => SymbolicAtom::Atom(copy_string(x)),
        SymbolicAtom::Predicate { name, args } => {
            let mut v: Vec<String> = Vec::new();
            let mut i: usize = 0;
            while i < args.len()
                invariant
                    i <= args@.len(),
                    v@.len() == i,
                    forall|k: int| 0 <= k < i ==> (#[trigger] v@[k])@ == args@[k]@,
                decreases args@.len() - i,
            {
                v.push(copy_string(&args[i]));
                i = i + 1;
            }
            assert(strings_view(v@) =~= strings_view(args@));
            SymbolicAtom::Predicate { name: copy_string(name), args: v }
        },
    };
    SymbolicLiteral { negative: l.negative, atom }
}

/// The position of `l` in `syms`, adding it at the end when absent.
pub fn intern(syms: &mut Vec<SymbolicLiteral>, l: &SymbolicLiteral) -> (id: usize)
    requires
        lits_view(old(syms)@).no_duplicates(),
    ensures
        lits_view(final(syms)@).no_duplicates(),
        lits_view(old(syms)@).contains(l@) ==> lits_view(final(syms)@) == lits_view(old(syms)@),
        !lits_view(old(syms)@).contains(l@) ==> lits_view(final(syms)@) == lits_view(old(syms)@).push(
            l@,
        ),
        id < final(syms)@.len(),
        final(syms)@[id as int]@ == l@,
{
    let mut i: usize = 0;
    while i < syms.len()
        invariant
            i <= syms@.len(),
            syms@ == old(syms)@,
            lits_view(old(syms)@).no_duplicates(),
            forall|k: int| 0 <= k < i ==> syms@[k]@ != l@,
        decreases syms@.len() - i,
    {
        if literal_eq(&syms[i], l) {
            assert(lits_view(syms@)[i as int] == l@);
            return i;
        }
        i = i + 1;
    }
    proof {
        assert forall|k: int| 0 <= k < lits_view(syms@).len() implies lits_view(syms@)[k] != l@ by {}
    }
    let ghost before = lits_view(syms@);
    syms.push(copy_literal(l));
    assert(lits_view(syms@) =~= before.push(l@));
    syms.len() - 1
}


/// `s` with later repeats dropped: each item at its first position.
pub open spec fn dedup(s: Seq<LiteralView>) -> Seq<LiteralView>
    decreases s.len(),
{
    if s.len() == 0 {
        s
    } else {
        let p = dedup(s.drop_last());
        if p.contains(s.last()) {
            p
        } else {
            p.push(s.last())
        }
    }
}

/// A rule over interned facts.
pub struct CompiledSymbolicRule {
    id: String,
    antecedents: Vec<usize>,
    consequent: usize,
}

/// A symbolic program compiled for evaluation.
pub struct CompiledSymbolicProgram {
    symbols: Vec<SymbolicLiteral>,
    base_facts: Vec<bool>,
    rules: Vec<CompiledSymbolicRule>,
    fingerprint: String,
}

pub open spec fn ids_to_lits(ids: Seq<usize>, syms: Seq<LiteralView>) -> Seq<LiteralView> {
    ids.map_values(|i: usize| syms[i as int])
}

impl CompiledSymbolicProgram {
    /// The interned literals.
    pub closed spec fn syms(&self) -> Seq<LiteralView> {
        lits_view(self.symbols@)
    }

    /// Whether literal `i` is a base fact (from a triple).
    pub closed spec fn is_base(&self, i: int) -> bool {
        self.base_facts@[i]
    }

    pub closed spec fn rule_count(&self) -> nat {
        self.rules@.len()
    }

    pub closed spec fn rule_id(&self, r: int) -> Seq<char> {
        self.rules@[r].id@
    }

    /// The interned antecedents of rule `r`.
    pub closed spec fn rule_ants(&self, r: int) -> Seq<usize> {
        self.rules@[r].antecedents@
    }

    /// The interned consequent of rule `r`.
    pub closed spec fn rule_cons(&self, r: int) -> usize {
        self.rules@[r].consequent
    }

    pub closed spec fn fingerprint_view(&self) -> Seq<char> {
        self.fingerprint@
    }

    /// Literals are interned once; rules refer to interned literals, each antecedent once.
    pub closed spec fn wf(&self) -> bool {
        &&& lits_view(self.symbols@).no_duplicates()
        &&& self.base_facts@.len() == self.symbols@.len()
        &&& forall|r: int|
            0 <= r < self.rules@.len() ==> {
                &&& (#[trigger] self.rules@[r]).consequent < self.symbols@.len()
                &&& self.rules@[r].antecedents@.no_duplicates()
                &&& forall|j: int|
                    0 <= j < self.rules@[r].antecedents@.len() ==> self.rules@[r].antecedents@[j]
                        < self.symbols@.len()
            }
    }

    /// The program holds the parsed rules in order (antecedents without
    /// repeats) and marks exactly the triples' literals as base facts.
    pub closed spec fn models(&self, d: (Seq<ParsedRule>, Seq<LiteralView>)) -> bool {
        &&& self.rules@.len() == d.0.len()
        &&& forall|r: int|
            0 <= r < d.0.len() ==> {
                &&& (#[trigger] self.rules@[r]).id@ == d.0[r].id
                &&& lits_view(self.symbols@)[self.rules@[r].consequent as int] == d.0[r].consequent
                &&& ids_to_lits(self.rules@[r].antecedents@, lits_view(self.symbols@)) == dedup(
                    d.0[r].antecedents,
                )
            }
        &&& forall|i: int|
            0 <= i < self.symbols@.len() ==> (#[trigger] self.base_facts@[i] <==> d.1.contains(
                lits_view(self.symbols@)[i],
            ))
    }

    /// The stable fingerprint of the program's canonical form.
    pub fn fingerprint(&self) -> (s: &str)
        ensures
            s@ == self.fingerprint_view(),
    {
        self.fingerprint.as_str()
    }
}

proof fn lemma_ids_lits_contains(ids: Seq<usize>, syms: Seq<LiteralView>, id: usize)
    requires
        syms.no_duplicates(),
        id < syms.len(),
        forall|j: int| 0 <= j < ids.len() ==> ids[j] < syms.len(),
    ensures
        ids.contains(id) <==> ids_to_lits(ids, syms).contains(syms[id as int]),
{
    let ls = ids_to_lits(ids, syms);
    if ls.contains(syms[id as int]) {
        let j = choose|j: int| 0 <= j < ls.len() && ls[j] == syms[id as int];
        assert(syms[ids[j] as int] == syms[id as int]);
        assert(ids[j] == id);
    }
    if ids.contains(id) {
        let j = choose|j: int| 0 <= j < ids.len() && ids[j] == id;
        assert(ls[j] == syms[id as int]);
    }
}

fn contains_id(v: &Vec<usize>, x: usize) -> (r: bool)
    ensures
        r == v@.contains(x),
{
    let mut i: usize = 0;
    while i < v.len()
        invariant
            i <= v@.len(),
            forall|k: int| 0 <= k < i ==> v@[k] != x,
        decreases v@.len() - i,
    {
        if v[i] == x {
            assert(v@[i as int] == x);
            return true;
        }
        i = i + 1;
    }
    false
}

/// Interns a literal and keeps one base flag per interned literal.
fn intern_flagged(syms: &mut Vec<SymbolicLiteral>, flags: &mut Vec<bool>, l: &SymbolicLiteral) -> (id: usize)
    requires
        lits_view(old(syms)@).no_duplicates(),
        old(flags)@.len() == old(syms)@.len(),
    ensures
        lits_view(final(syms)@).no_duplicates(),
        final(flags)@.len() == final(syms)@.len(),
        lits_view(old(syms)@).contains(l@) ==> lits_view(final(syms)@) == lits_view(old(syms)@)
            && final(flags)@ == old(flags)@,
        !lits_view(old(syms)@).contains(l@) ==> lits_view(final(syms)@) == lits_view(old(syms)@).push(
            l@,
        ) && final(flags)@ == old(flags)@.push(false),
        id < final(syms)@.len(),
        final(syms)@[id as int]@ == l@,
{
    let n = syms.len();
    let id = intern(syms, l);
    if syms.len() > n {
        flags.push(false);
    } else {
        proof {
            assert(lits_view(syms@).len() == lits_view(old(syms)@).len());
        }
    }
    proof {
        if !lits_view(old(syms)@).contains(l@) {
            assert(lits_view(syms@).len() == n + 1);
        }
    }
    id
}

proof fn lemma_base_after_intern(
    sb: Seq<LiteralView>,
    ls: Seq<LiteralView>,
    bb: Seq<bool>,
    b: Seq<bool>,
    trip: Seq<LiteralView>,
    l: LiteralView,
)
    requires
        sb.contains(l) ==> ls == sb && b == bb,
        !sb.contains(l) ==> ls == sb.push(l) && b == bb.push(false),
        bb.len() == sb.len(),
        forall|i: int| 0 <= i < sb.len() ==> (#[trigger] bb[i] <==> trip.contains(sb[i])),
        forall|t: int| 0 <= t < trip.len() ==> sb.contains(#[trigger] trip[t]),
    ensures
        b.len() == ls.len(),
        sb.len() <= ls.len(),
        forall|i: int| 0 <= i < sb.len() ==> ls[i] == sb[i],
        forall|i: int| 0 <= i < ls.len() ==> (#[trigger] b[i] <==> trip.contains(ls[i])),
        forall|t: int| 0 <= t < trip.len() ==> ls.contains(#[trigger] trip[t]),
{
    if !sb.contains(l) {
        assert forall|i: int| 0 <= i < ls.len() implies (#[trigger] b[i] <==> trip.contains(ls[i])) by {
            if i == sb.len() {
                if trip.contains(l) {
                    let w = choose|w: int| 0 <= w < trip.len() && trip[w] == l;
                    assert(sb.contains(trip[w]));
                }
            } else {
                assert(b[i] == bb[i]);
                assert(ls[i] == sb[i]);
            }
        }
        assert forall|t: int| 0 <= t < trip.len() implies ls.contains(#[trigger] trip[t]) by {
            assert(sb.contains(trip[t]));
            let w = choose|w: int| 0 <= w < sb.len() && sb[w] == trip[t];
            assert(ls[w] == sb[w]);
        }
    }
}

impl CompiledSymbolicProgram {
    /// Compiles rules and triples: parses and interns every literal, marks the
    /// triples as base facts and drops repeated antecedents within a rule. Fails
    /// with the first parse failure (see `program_parse`).
    #[verifier::loop_isolation(false)]
    pub fn compile(rules: Vec<SymbolicRule>, triples: Vec<KrrTriple>) -> (r: Result<Self, HelixError>)
        ensures
            match program_parse(rules_view(rules@), triples_view(triples@)) {
                Err(e) => r matches Err(x) && x@ == e,
                Ok(d) => r matches Ok(p) && p.wf() && p.models(d) && p.fingerprint_view() == parsed_fingerprint(d),
            },
    {
        proof {
            lemma_program_parse_descriptor(rules_view(rules@), triples_view(triples@));
        }
        let fingerprint = match fingerprint_symbolic_program(&rules, &triples) {
            Ok(f) => f,
            Err(e) => {
                return Err(e);
            },
        };
        let (parsed_rules, parsed_triples) = match parse_program(&rules, &triples) {
            Ok(d) => d,
            Err(e) => {
                return Err(e);
            },
        };
        let ghost d = (parsed_rules_view(parsed_rules@), lits_view(parsed_triples@));
        let mut symbols: Vec<SymbolicLiteral> = Vec::new();
        let mut base: Vec<bool> = Vec::new();
        let mut k: usize = 0;
        assert(lits_view(symbols@) =~= Seq::<LiteralView>::empty());
        while k < parsed_triples.len()
            invariant
                k <= parsed_triples@.len(),
                lits_view(symbols@).no_duplicates(),
                base@.len() == symbols@.len(),
                forall|i: int|
                    0 <= i < symbols@.len() ==> (#[trigger] base@[i] <==> lits_view(parsed_triples@).subrange(
                        0,
                        k as int,
                    ).contains(lits_view(symbols@)[i])),
                forall|t: int|
                    0 <= t < k ==> lits_view(symbols@).contains(#[trigger] lits_view(parsed_triples@)[t]),
            decreases parsed_triples@.len() - k,
        {
            let ghost before = lits_view(symbols@);
            let ghost bbefore = base@;
            let ghost tk = lits_view(parsed_triples@).subrange(0, k as int);
            let ghost tk1 = lits_view(parsed_triples@).subrange(0, k as int + 1);
            let ghost lk = parsed_triples@[k as int]@;
            let id = intern_flagged(&mut symbols, &mut base, &parsed_triples[k]);
            proof {
                assert(tk1 =~= tk.push(lk));
                assert forall|t: int| 0 <= t < tk.len() implies before.contains(#[trigger] tk[t]) by {
                    assert(tk[t] == lits_view(parsed_triples@)[t]);
                }
                lemma_base_after_intern(before, lits_view(symbols@), bbefore, base@, tk, lk);
            }
            let ghost bmid = base@;
            base.set(id, true);
            proof {
                let ls = lits_view(symbols@);
                assert forall|i: int| 0 <= i < symbols@.len() implies (#[trigger] base@[i]
                    <==> tk1.contains(ls[i])) by {
                    if i == id {
                        assert(tk1[k as int] == ls[i]);
                    } else {
                        assert(base@[i] == bmid[i]);
                        assert(ls[i] != lk);
                        if tk1.contains(ls[i]) {
                            let w = choose|w: int| 0 <= w < tk1.len() && tk1[w] == ls[i];
                            assert(tk[w] == ls[i]);
                        }
                        if tk.contains(ls[i]) {
                            let w = choose|w: int| 0 <= w < tk.len() && tk[w] == ls[i];
                            assert(tk1[w] == ls[i]);
                        }
                    }
                }
                assert forall|t: int| 0 <= t < k + 1 implies ls.contains(
                    #[trigger] lits_view(parsed_triples@)[t],
                ) by {
                    if t == k {
                        assert(ls[id as int] == lk);
                    } else {
                        assert(tk[t] == lits_view(parsed_triples@)[t]);
                    }
                }
            }
            k = k + 1;
        }
        assert(lits_view(parsed_triples@).subrange(0, parsed_triples@.len() as int) =~= lits_view(
            parsed_triples@,
        ));
        let mut compiled: Vec<CompiledSymbolicRule> = Vec::new();
        let mut ri: usize = 0;
        while ri < parsed_rules.len()
            invariant
                ri <= parsed_rules@.len(),
                compiled@.len() == ri,
                lits_view(symbols@).no_duplicates(),
                base@.len() == symbols@.len(),
                forall|i: int|
                    0 <= i < symbols@.len() ==> (#[trigger] base@[i] <==> lits_view(parsed_triples@).contains(
                        lits_view(symbols@)[i],
                    )),
                forall|t: int|
                    0 <= t < parsed_triples@.len() ==> lits_view(symbols@).contains(
                        #[trigger] lits_view(parsed_triples@)[t],
                    ),
                forall|r: int|
                    0 <= r < ri ==> {
                        &&& (#[trigger] compiled@[r]).consequent < symbols@.len()
                        &&& compiled@[r].antecedents@.no_duplicates()
                        &&& (forall|j: int|
                            0 <= j < compiled@[r].antecedents@.len() ==> compiled@[r].antecedents@[j]
                                < symbols@.len())
                        &&& compiled@[r].id@ == d.0[r].id
                        &&& lits_view(symbols@)[compiled@[r].consequent as int] == d.0[r].consequent
                        &&& ids_to_lits(compiled@[r].antecedents@, lits_view(symbols@)) == dedup(
                            d.0[r].antecedents,
                        )
                    },
            decreases parsed_rules@.len() - ri,
        {
            let ghost s0 = lits_view(symbols@);
            let ghost b0 = base@;
            let rule = &parsed_rules[ri];
            let cid = intern_flagged(&mut symbols, &mut base, &rule.consequent);
            proof {
                lemma_base_after_intern(s0, lits_view(symbols@), b0, base@, lits_view(parsed_triples@), rule.consequent@);
            }
            let mut ants: Vec<usize> = Vec::new();
            let mut j: usize = 0;
            assert(rule.antecedents@.len() == d.0[ri as int].antecedents.len());
            assert(lits_view(rule.antecedents@).subrange(0, 0) =~= Seq::<LiteralView>::empty());
            assert(ids_to_lits(ants@, lits_view(symbols@)) =~= Seq::<LiteralView>::empty());
            while j < rule.antecedents.len()
                invariant
                    j <= rule.antecedents@.len(),
                    lits_view(symbols@).no_duplicates(),
                    base@.len() == symbols@.len(),
                    s0.len() <= symbols@.len(),
                    forall|i: int| 0 <= i < s0.len() ==> lits_view(symbols@)[i] == s0[i],
                    cid < symbols@.len(),
                    lits_view(symbols@)[cid as int] == rule.consequent@,
                    ants@.no_duplicates(),
                    forall|q: int| 0 <= q < ants@.len() ==> ants@[q] < symbols@.len(),
                    ids_to_lits(ants@, lits_view(symbols@)) == dedup(
                        lits_view(rule.antecedents@).subrange(0, j as int),
                    ),
                    forall|i: int|
                        0 <= i < symbols@.len() ==> (#[trigger] base@[i] <==> lits_view(parsed_triples@).contains(
                            lits_view(symbols@)[i],
                        )),
                    forall|t: int|
                        0 <= t < parsed_triples@.len() ==> lits_view(symbols@).contains(
                            #[trigger] lits_view(parsed_triples@)[t],
                        ),
                decreases rule.antecedents@.len() - j,
            {
                let ghost sb = lits_view(symbols@);
                let ghost bb = base@;
                let ghost ab = ants@;
                let aid = intern_flagged(&mut symbols, &mut base, &rule.antecedents[j]);
                let seen = contains_id(&ants, aid);
                proof {
                    let ls = lits_view(symbols@);
                    assert(forall|q: int| 0 <= q < ab.len() ==> ls[ab[q] as int] == sb[ab[q] as int]);
                    assert(ids_to_lits(ab, ls) =~= ids_to_lits(ab, sb));
                    lemma_ids_lits_contains(ab, ls, aid);
                    let pre = lits_view(rule.antecedents@).subrange(0, j as int);
                    let post = lits_view(rule.antecedents@).subrange(0, j as int + 1);
                    assert(post.drop_last() =~= pre);
                    assert(post.last() == rule.antecedents@[j as int]@);
                    lemma_base_after_intern(sb, ls, bb, base@, lits_view(parsed_triples@), rule.antecedents@[j as int]@);
                }
                if !seen {
                    ants.push(aid);
                    proof {
                        let ls = lits_view(symbols@);
                        assert(ids_to_lits(ants@, ls) =~= ids_to_lits(ab, ls).push(ls[aid as int]));
                    }
                }
                j = j + 1;
            }
            assert(lits_view(rule.antecedents@).subrange(0, rule.antecedents@.len() as int) =~= lits_view(
                rule.antecedents@,
            ));
            let ghost cb = compiled@;
            compiled.push(CompiledSymbolicRule { id: copy_string(&rule.id), antecedents: ants, consequent: cid });
            proof {
                let ls = lits_view(symbols@);
                assert forall|r: int| 0 <= r < ri + 1 implies {
                    &&& (#[trigger] compiled@[r]).consequent < symbols@.len()
                    &&& compiled@[r].antecedents@.no_duplicates()
                    &&& (forall|j: int|
                        0 <= j < compiled@[r].antecedents@.len() ==> compiled@[r].antecedents@[j]
                            < symbols@.len())
                    &&& compiled@[r].id@ == d.0[r].id
                    &&& ls[compiled@[r].consequent as int] == d.0[r].consequent
                    &&& ids_to_lits(compiled@[r].antecedents@, ls) == dedup(d.0[r].antecedents)
                } by {
                    if r < ri {
                        assert(compiled@[r] == cb[r]);
                        let a = compiled@[r].antecedents@;
                        assert(forall|q: int| 0 <= q < a.len() ==> ls[a[q] as int] == s0[a[q] as int]);
                        assert(ids_to_lits(a, ls) =~= ids_to_lits(a, s0));
                    }
                }
            }
            ri = ri + 1;
        }
        let p = CompiledSymbolicProgram { symbols, base_facts: base, rules: compiled, fingerprint };
        proof {
            assert forall|i: int| 0 <= i < p.symbols@.len() implies (#[trigger] p.base_facts@[i]
                <==> d.1.contains(p.symbols@[i]@)) by {}
        }
        Ok(p)
    }
}


impl CompiledSymbolicProgram {
    /// The interned literals.
    pub fn symbols(&self) -> (r: &Vec<SymbolicLiteral>)
        ensures
            lits_view(r@) == self.syms(),
    {
        &self.symbols
    }

    /// One flag per interned literal: whether it is a base fact.
    pub fn base_flags(&self) -> (r: &Vec<bool>)
        ensures
            forall|i: int| 0 <= i < r@.len() ==> r@[i] == self.is_base(i),
            self.wf() ==> r@.len() == self.syms().len(),
    {
        &self.base_facts
    }

    pub fn rule_total(&self) -> (n: usize)
        ensures
            n == self.rule_count(),
    {
        self.rules.len()
    }

    pub fn rule_id_at(&self, r: usize) -> (s: &String)
        requires
            r < self.rule_count(),
        ensures
            s@ == self.rule_id(r as int),
    {
        &self.rules[r].id
    }

    pub fn rule_antecedents_at(&self, r: usize) -> (a: &Vec<usize>)
        requires
            r < self.rule_count(),
        ensures
            a@ == self.rule_ants(r as int),
    {
        &self.rules[r].antecedents
    }

    pub fn rule_consequent_at(&self, r: usize) -> (c: usize)
        requires
            r < self.rule_count(),
        ensures
            c == self.rule_cons(r as int),
    {
        self.rules[r].consequent
    }

    /// What well-formedness gives.
    pub proof fn lemma_wf(&self)
        requires
            self.wf(),
        ensures
            self.syms().no_duplicates(),
            forall|r: int|
                0 <= r < self.rule_count() ==> {
                    &&& self.rule_cons(r) < self.syms().len()
                    &&& self.rule_ants(r).no_duplicates()
                    &&& forall|j: int|
                        0 <= j < self.rule_ants(r).len() ==> #[trigger] self.rule_ants(r)[j] < self.syms().len()
                },
    {
        assert forall|r: int| 0 <= r < self.rule_count() implies {
            &&& self.rule_cons(r) < self.syms().len()
            &&& self.rule_ants(r).no_duplicates()
            &&& forall|j: int|
                0 <= j < self.rule_ants(r).len() ==> #[trigger] self.rule_ants(r)[j] < self.syms().len()
        } by {
            assert(self.rules@[r].consequent < self.symbols@.len());
        }
    }
}

} // verus!
