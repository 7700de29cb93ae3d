//! The stable fingerprint of a symbolic program: SHA-256 over the compact JSON
//! of its canonical rules and triples.

use vstd::prelude::*;
use crate::errors::{HelixError, HelixFault};
use crate::hashing::{hex_chars, hex_string, sha256, sha256_spec};
use crate::reasoning_types::{KrrTriple, RuleView, SymbolicRule, TripleView};
use crate::sandbox_hash::{put_byte, put_bytes};
use crate::symbolic_parse::{
    fact_parse, literal_canon, normalize_non_empty, normalized, parse_fact, parse_triple_fact,
    triple_parse,
};

verus! {

/// A lower-case hexadecimal digit.
pub open spec fn hex_digit_lower(d: u8) -> u8 {
    if d < 10 {
        (0x30 + d) as u8
    } else {
        (0x61 + d - 10) as u8
    }
}

/// How `serde_json` writes one byte of a string's UTF-8: `\"`, `\\`, `\b`,
/// `\t`, `\n`, `\f` and `\r` for those characters, `\u00` and two lower-case
/// hex digits for the other bytes below 0x20, and every other byte as it is.
pub open spec fn json_escape_byte(b: u8) -> Seq<u8> {
    if b == 0x22 {
        seq![0x5cu8, 0x22u8]
    } else if b == 0x5c {
        seq![0x5cu8, 0x5cu8]
    } else if b == 0x08 {
        seq![0x5cu8, 0x62u8]
    } else if b == 0x09 {
        seq![0x5cu8, 0x74u8]
    } else if b == 0x0a {
        seq![0x5cu8, 0x6eu8]
    } else if b == 0x0c {
        seq![0x5cu8, 0x66u8]
    } else if b == 0x0d {
        seq![0x5cu8, 0x72u8]
    } else if b < 0x20 {
        seq![0x5cu8, 0x75u8, 0x30u8, 0x30u8, hex_digit_lower(b / 16), hex_digit_lower(b % 16)]
    } else {
        seq![b]
    }
}

/// The escaped form of a string's UTF-8 bytes, byte by byte.
pub open spec fn json_escape(bs: Seq<u8>) -> Seq<u8>
    decreases bs.len(),
{
    if bs.len() == 0 {
        Seq::empty()
    } else {
        json_escape(bs.drop_last()) + json_escape_byte(bs.last())
    }
}

/// The bytes that `serde_json` writes for a string: a quote, the escaped
/// UTF-8 bytes, a quote.
pub open spec fn json_string_bytes(s: Seq<char>) -> Seq<u8> {
    seq![0x22u8] + json_escape(vstd::utf8::encode_utf8(s)) + seq![0x22u8]
}

/// Calls `serde_json::to_vec` on a string.
///
/// Trusted: the bytes are the JSON string literal of `s` as
/// `json_string_bytes` states it: `to_vec` uses the compact formatter, which
/// writes a quote, then each byte through `format_escaped_str_contents` and
/// its `ESCAPE` table (with `\u00XX` in lower-case hex for the other control
/// bytes), then a quote. The call succeeds: the only errors on this path are
/// the writer's, which a `Vec<u8>` never returns.
#[verifier::external_body]
fn json_quote(s: &str) -> (r: Result<Vec<u8>, String>)
    ensures
        r is Ok,
        r matches Ok(b) ==> b@ == json_string_bytes(s@),
{
    match serde_json::to_vec(s) {
        Ok(b) => Ok(b),
        Err(e) => Err(e.to_string()),
    }
}

/// A rule in canonical form: trimmed id, canonical antecedents and consequent.
pub struct CanonRule {
    pub id: Seq<char>,
    pub antecedents: Seq<Seq<char>>,
    pub consequent: Seq<char>,
}

/// The canonical texts of `v`, parsed as facts in order; the first failure wins.
pub open spec fn canon_facts(v: Seq<Seq<char>>, ctx: Seq<char>, field: Seq<char>) -> Result<
    Seq<Seq<char>>,
    HelixFault,
>
    decreases v.len(),
{
    if v.len() == 0 {
        Ok(Seq::empty())
    } else {
        match canon_facts(v.drop_last(), ctx, field) {
            Err(e) => Err(e),
            Ok(p) => match fact_parse(v.last(), ctx, field) {
                Err(e) => Err(e),
                Ok(l) => Ok(p.push(literal_canon(l))),
            },
        }
    }
}

/// A rule in canonical form: its id, then its antecedents, then its consequent.
pub open spec fn rule_canon(r: RuleView) -> Result<CanonRule, HelixFault> {
    let ctx = "reasoning.rules"@;
    match normalized(r.id, ctx, "rule id"@) {
        Err(e) => Err(e),
        Ok(id) => match canon_facts(r.antecedents, ctx, "rule antecedent"@) {
            Err(e) => Err(e),
            Ok(a) => match fact_parse(r.consequent, ctx, "rule consequent"@) {
                Err(e) => Err(e),
                Ok(c) => Ok(CanonRule { id, antecedents: a, consequent: literal_canon(c) }),
            },
        },
    }
}

/// The rules in canonical form, in order; the first failure wins.
pub open spec fn rules_canon(rs: Seq<RuleView>) -> Result<Seq<CanonRule>, HelixFault>
    decreases rs.len(),
{
    if rs.len() == 0 {
        Ok(Seq::empty())
    } else {
        match rules_canon(rs.drop_last()) {
            Err(e) => Err(e),
            Ok(p) => match rule_canon(rs.last()) {
                Err(e) => Err(e),
                Ok(c) => Ok(p.push(c)),
            },
        }
    }
}

/// The triples as canonical facts, in order; the first failure wins.
pub open spec fn triples_canon(ts: Seq<TripleView>) -> Result<Seq<Seq<char>>, HelixFault>
    decreases ts.len(),
{
    if ts.len() == 0 {
        Ok(Seq::empty())
    } else {
        match triples_canon(ts.drop_last()) {
            Err(e) => Err(e),
            Ok(p) => match triple_parse(ts.last()) {
                Err(e) => Err(e),
                Ok(l) => Ok(p.push(literal_canon(l))),
            },
        }
    }
}

/// The canonical descriptor of a program: rules first, then triples.
pub open spec fn program_descriptor(rs: Seq<RuleView>, ts: Seq<TripleView>) -> Result<
    (Seq<CanonRule>, Seq<Seq<char>>),
    HelixFault,
> {
    match rules_canon(rs) {
        Err(e) => Err(e),
        Ok(r) => match triples_canon(ts) {
            Err(e) => Err(e),
            Ok(t) => Ok((r, t)),
        },
    }
}

/// JSON array items `[a,b,...]` without the brackets: string literals joined by commas.
pub open spec fn json_str_items(v: Seq<Seq<char>>) -> Seq<u8>
    decreases v.len(),
{
    if v.len() == 0 {
        Seq::empty()
    } else if v.len() == 1 {
        json_string_bytes(v[0])
    } else {
        json_str_items(v.drop_last()) + seq![44u8] + json_string_bytes(v.last())
    }
}

/// `{"id":`
pub open spec fn rule_open_bytes() -> Seq<u8> {
    seq![123u8, 34, 105, 100, 34, 58]
}

/// `,"antecedents":[`
pub open spec fn rule_ants_bytes() -> Seq<u8> {
    seq![44u8, 34, 97, 110, 116, 101, 99, 101, 100, 101, 110, 116, 115, 34, 58, 91]
}

/// `],"consequent":`
pub open spec fn rule_cons_bytes() -> Seq<u8> {
    seq![93u8, 44, 34, 99, 111, 110, 115, 101, 113, 117, 101, 110, 116, 34, 58]
}

/// `{"rules":[`
pub open spec fn program_open_bytes() -> Seq<u8> {
    seq![123u8, 34, 114, 117, 108, 101, 115, 34, 58, 91]
}

/// `],"triples":[`
pub open spec fn program_mid_bytes() -> Seq<u8> {
    seq![93u8, 44, 34, 116, 114, 105, 112, 108, 101, 115, 34, 58, 91]
}

/// `]}`
pub open spec fn program_close_bytes() -> Seq<u8> {
    seq![93u8, 125]
}

/// Compact JSON of one canonical rule, fields in declaration order.
pub open spec fn rule_json(r: CanonRule) -> Seq<u8> {
    rule_open_bytes() + json_string_bytes(r.id) + rule_ants_bytes() + json_str_items(r.antecedents)
        + rule_cons_bytes() + json_string_bytes(r.consequent) + seq![125u8]
}

/// The rule objects joined by commas.
pub open spec fn rule_items(rs: Seq<CanonRule>) -> Seq<u8>
    decreases rs.len(),
{
    if rs.len() == 0 {
        Seq::empty()
    } else if rs.len() == 1 {
        rule_json(rs[0])
    } else {
        rule_items(rs.drop_last()) + seq![44u8] + rule_json(rs.last())
    }
}

/// Compact JSON of a canonical descriptor: `{"rules":[...],"triples":[...]}`.
pub open spec fn program_json(rs: Seq<CanonRule>, ts: Seq<Seq<char>>) -> Seq<u8> {
    program_open_bytes() + rule_items(rs) + program_mid_bytes() + json_str_items(ts)
        + program_close_bytes()
}

/// The fingerprint of a canonical descriptor: lowercase hex of its SHA-256.
pub open spec fn descriptor_fingerprint(rs: Seq<CanonRule>, ts: Seq<Seq<char>>) -> Seq<char> {
    hex_chars(sha256_spec(program_json(rs, ts)))
}

/// The views of a list of rules.
pub open spec fn rules_view(rules: Seq<SymbolicRule>) -> Seq<RuleView> {
    rules.map_values(|r: SymbolicRule| r@)
}

/// The views of a list of triples.
pub open spec fn triples_view(triples: Seq<KrrTriple>) -> Seq<TripleView> {
    triples.map_values(|t: KrrTriple| t@)
}

/// A canonical rule, held in executable form.
pub struct CanonicalRuleFingerprint {
    pub id: String,
    pub antecedents: Vec<String>,
    pub consequent: String,
}

impl View for CanonicalRuleFingerprint {
    type V = CanonRule;

    open spec fn view(&self) -> CanonRule {
        CanonRule {
            id: self.id@,
            antecedents: self.antecedents@.map_values(|s: String| s@),
            consequent: self.consequent@,
        }
    }
}

pub open spec fn canon_rules_view(v: Seq<CanonicalRuleFingerprint>) -> Seq<CanonRule> {
    v.map_values(|r: CanonicalRuleFingerprint| r@)
}

pub open spec fn strings_of(v: Seq<String>) -> Seq<Seq<char>> {
    v.map_values(|s: String| s@)
}

proof fn lemma_canon_facts_err(v: Seq<Seq<char>>, k: int, ctx: Seq<char>, field: Seq<char>)
    requires
        0 <= k <= v.len(),
        canon_facts(v.subrange(0, k), ctx, field) is Err,
    ensures
        canon_facts(v, ctx, field) == canon_facts(v.subrange(0, k), ctx, field),
    decreases v.len(),
{
    if k == v.len() {
        assert(v.subrange(0, k) =~= v);
    } else {
        assert(v.drop_last().subrange(0, k) =~= v.subrange(0, k));
        lemma_canon_facts_err(v.drop_last(), k, ctx, field);
    }
}

proof fn lemma_rules_canon_err(v: Seq<RuleView>, k: int)
    requires
        0 <= k <= v.len(),
        rules_canon(v.subrange(0, k)) is Err,
    ensures
        rules_canon(v) == rules_canon(v.subrange(0, k)),
    decreases v.len(),
{
    if k == v.len() {
        assert(v.subrange(0, k) =~= v);
    } else {
        assert(v.drop_last().subrange(0, k) =~= v.subrange(0, k));
        lemma_rules_canon_err(v.drop_last(), k);
    }
}

proof fn lemma_triples_canon_err(v: Seq<TripleView>, k: int)
    requires
        0 <= k <= v.len(),
        triples_canon(v.subrange(0, k)) is Err,
    ensures
        triples_canon(v) == triples_canon(v.subrange(0, k)),
    decreases v.len(),
{
    if k == v.len() {
        assert(v.subrange(0, k) =~= v);
    } else {
        assert(v.drop_last().subrange(0, k) =~= v.subrange(0, k));
        lemma_triples_canon_err(v.drop_last(), k);
    }
}

fn canon_fact_list(v: &Vec<String>, ctx: &str, field: &str) -> (r: Result<Vec<String>, HelixError>)
    ensures
        match r {
            Ok(c) => canon_facts(strings_of(v@), ctx@, field@) == Ok::<Seq<Seq<char>>, HelixFault>(
                strings_of(c@),
            ),
            Err(e) => canon_facts(strings_of(v@), ctx@, field@) == Err::<Seq<Seq<char>>, HelixFault>(
                e@,
            ),
        },
{
    let mut out: Vec<String> = Vec::new();
    let mut i: usize = 0;
    assert(strings_of(v@).subrange(0, 0) =~= Seq::<Seq<char>>::empty());
    assert(strings_of(out@) =~= Seq::<Seq<char>>::empty());
    while i < v.len()
        invariant
            i <= v@.len(),
            canon_facts(strings_of(v@).subrange(0, i as int), ctx@, field@) == Ok::<
                Seq<Seq<char>>,
                HelixFault,
            >(strings_of(out@)),
        decreases v@.len() - i,
    {
        let ghost pre = strings_of(v@).subrange(0, i as int);
        let ghost post = strings_of(v@).subrange(0, i as int + 1);
        proof {
            assert(post.drop_last() =~= pre);
            assert(post.last() == v@[i as int]@);
        }
        match parse_fact(v[i].as_str(), ctx, field) {
            Ok(l) => {
                let c = l.canonical_string();
                let ghost before = strings_of(out@);
                out.push(c);
                assert(strings_of(out@) =~= before.push(c@));
                assert(canon_facts(post, ctx@, field@) == Ok::<Seq<Seq<char>>, HelixFault>(before.push(literal_canon(l@))));
            },
            Err(e) => {
                proof {
                    assert(canon_facts(post, ctx@, field@) == Err::<Seq<Seq<char>>, HelixFault>(e@));
                    lemma_canon_facts_err(strings_of(v@), i as int + 1, ctx@, field@);
                }
                return Err(e);
            },
        }
        i = i + 1;
    }
    assert(strings_of(v@).subrange(0, v@.len() as int) =~= strings_of(v@));
    Ok(out)
}

fn canonical_rule(rule: &SymbolicRule) -> (r: Result<CanonicalRuleFingerprint, HelixError>)
    ensures
        match r {
            Ok(c) => rule_canon(rule@) == Ok::<CanonRule, HelixFault>(c@),
            Err(e) => rule_canon(rule@) == Err::<CanonRule, HelixFault>(e@),
        },
{
    let id = match normalize_non_empty(rule.id.as_str(), "reasoning.rules", "rule id") {
        Ok(v) => v,
        Err(e) => {
            return Err(e);
        },
    };
    let antecedents = match canon_fact_list(&rule.antecedents, "reasoning.rules", "rule antecedent") {
        Ok(v) => v,
        Err(e) => {
            return Err(e);
        },
    };
    let consequent = match parse_fact(rule.consequent.as_str(), "reasoning.rules", "rule consequent") {
        Ok(l) => l.canonical_string(),
        Err(e) => {
            return Err(e);
        },
    };
    Ok(CanonicalRuleFingerprint { id, antecedents, consequent })
}

/// The canonical descriptor of a program (see `program_descriptor`).
#[verifier::loop_isolation(false)]
pub fn build_canonical_program_descriptor(rules: &Vec<SymbolicRule>, triples: &Vec<KrrTriple>) -> (r: Result<
    (Vec<CanonicalRuleFingerprint>, Vec<String>),
    HelixError,
>)
    ensures
        match r {
            Ok(d) => program_descriptor(rules_view(rules@), triples_view(triples@)) == Ok::<
                (Seq<CanonRule>, Seq<Seq<char>>),
                HelixFault,
            >((canon_rules_view(d.0@), strings_of(d.1@))),
            Err(e) => program_descriptor(rules_view(rules@), triples_view(triples@)) == Err::<
                (Seq<CanonRule>, Seq<Seq<char>>),
                HelixFault,
            >(e@),
        },
{
    let mut rs: Vec<CanonicalRuleFingerprint> = Vec::new();
    let mut i: usize = 0;
    assert(rules_view(rules@).subrange(0, 0) =~= Seq::<RuleView>::empty());
    assert(canon_rules_view(rs@) =~= Seq::<CanonRule>::empty());
    while i < rules.len()
        invariant
            i <= rules@.len(),
            rules_canon(rules_view(rules@).subrange(0, i as int)) == Ok::<Seq<CanonRule>, HelixFault>(
                canon_rules_view(rs@),
            ),
        decreases rules@.len() - i,
    {
        let ghost pre = rules_view(rules@).subrange(0, i as int);
        let ghost post = rules_view(rules@).subrange(0, i as int + 1);
        proof {
            assert(post.drop_last() =~= pre);
            assert(post.last() == rules@[i as int]@);
        }
        match canonical_rule(&rules[i]) {
            Ok(c) => {
                let ghost cv = c@;
                let ghost before = canon_rules_view(rs@);
                rs.push(c);
                assert(canon_rules_view(rs@) =~= before.push(cv));
                assert(rules_canon(post) == Ok::<Seq<CanonRule>, HelixFault>(before.push(cv)));
            },
            Err(e) => {
                proof {
                    assert(rules_canon(post) == Err::<Seq<CanonRule>, HelixFault>(e@));
                    lemma_rules_canon_err(rules_view(rules@), i as int + 1);
                }
                return Err(e);
            },
        }
        i = i + 1;
    }
    assert(rules_view(rules@).subrange(0, rules@.len() as int) =~= rules_view(rules@));
    let mut ts: Vec<String> = Vec::new();
    let mut j: usize = 0;
    assert(triples_view(triples@).subrange(0, 0) =~= Seq::<TripleView>::empty());
    assert(strings_of(ts@) =~= Seq::<Seq<char>>::empty());
    while j < triples.len()
        invariant
            j <= triples@.len(),
            triples_canon(triples_view(triples@).subrange(0, j as int)) == Ok::<
                Seq<Seq<char>>,
                HelixFault,
            >(strings_of(ts@)),
        decreases triples@.len() - j,
    {
        let ghost pre = triples_view(triples@).subrange(0, j as int);
        let ghost post = triples_view(triples@).subrange(0, j as int + 1);
        proof {
            assert(post.drop_last() =~= pre);
            assert(post.last() == triples@[j as int]@);
        }
        match parse_triple_fact(&triples[j]) {
            Ok(l) => {
                let c = l.canonical_string();
                let ghost before = strings_of(ts@);
                ts.push(c);
                assert(strings_of(ts@) =~= before.push(c@));
                assert(triples_canon(post) == Ok::<Seq<Seq<char>>, HelixFault>(before.push(literal_canon(l@))));
            },
            Err(e) => {
                proof {
                    assert(triples_canon(post) == Err::<Seq<Seq<char>>, HelixFault>(e@));
                    lemma_triples_canon_err(triples_view(triples@), j as int + 1);
                }
                return Err(e);
            },
        }
        j = j + 1;
    }
    assert(triples_view(triples@).subrange(0, triples@.len() as int) =~= triples_view(triples@));
    Ok((rs, ts))
}

fn put_json_string(out: &mut Vec<u8>, s: &str) -> (ok: Result<(), String>)
    ensures
        ok is Ok,
        final(out)@ == old(out)@ + json_string_bytes(s@),
{
    match json_quote(s) {
        Ok(b) => {
            put_bytes(out, b.as_slice());
            Ok(())
        },
        Err(m) => Err(m),
    }
}

fn put_json_strings(out: &mut Vec<u8>, v: &Vec<String>) -> (ok: Result<(), String>)
    ensures
        ok is Ok,
        final(out)@ == old(out)@ + json_str_items(strings_of(v@)),
{
    let ghost start = out@;
    let mut i: usize = 0;
    while i < v.len()
        invariant
            i <= v@.len(),
            out@ == start + json_str_items(strings_of(v@).subrange(0, i as int)),
        decreases v@.len() - i,
    {
        let ghost before = out@;
        if i > 0 {
            put_byte(out, 44u8);
        }
        match put_json_string(out, v[i].as_str()) {
            Ok(()) => {},
            Err(m) => {
                return Err(m);
            },
        }
        proof {
            let p = strings_of(v@).subrange(0, i as int + 1);
            assert(p.drop_last() =~= strings_of(v@).subrange(0, i as int));
            assert(p.last() == v@[i as int]@);
            if i == 0 {
                assert(json_str_items(p) == json_string_bytes(p[0]));
            }
            assert(out@ =~= start + json_str_items(p));
        }
        i = i + 1;
    }
    assert(strings_of(v@).subrange(0, v@.len() as int) =~= strings_of(v@));
    Ok(())
}

fn put_rule_json(out: &mut Vec<u8>, r: &CanonicalRuleFingerprint) -> (ok: Result<(), String>)
    ensures
        ok is Ok,
        final(out)@ == old(out)@ + rule_json(r@),
{
    let ghost start = out@;
    let open: &[u8] = &[123u8, 34, 105, 100, 34, 58];
    let ants: &[u8] = &[44u8, 34, 97, 110, 116, 101, 99, 101, 100, 101, 110, 116, 115, 34, 58, 91];
    let cons: &[u8] = &[93u8, 44, 34, 99, 111, 110, 115, 101, 113, 117, 101, 110, 116, 34, 58];
    assert(open@ =~= rule_open_bytes());
    assert(ants@ =~= rule_ants_bytes());
    assert(cons@ =~= rule_cons_bytes());
    put_bytes(out, open);
    match put_json_string(out, r.id.as_str()) {
        Ok(()) => {},
        Err(m) => {
            return Err(m);
        },
    }
    put_bytes(out, ants);
    match put_json_strings(out, &r.antecedents) {
        Ok(()) => {},
        Err(m) => {
            return Err(m);
        },
    }
    put_bytes(out, cons);
    match put_json_string(out, r.consequent.as_str()) {
        Ok(()) => {},
        Err(m) => {
            return Err(m);
        },
    }
    put_byte(out, 125u8);
    assert(out@ =~= start + rule_json(r@));
    Ok(())
}

/// The compact JSON bytes of a descriptor (see `program_json`); a failure of the
/// JSON writer carries its message.
fn descriptor_json(rules: &Vec<CanonicalRuleFingerprint>, triples: &Vec<String>) -> (r: Result<
    Vec<u8>,
    String,
>)
    ensures
        r matches Ok(b) && b@ == program_json(canon_rules_view(rules@), strings_of(triples@)),
{
    let mut out: Vec<u8> = Vec::new();
    let open: &[u8] = &[123u8, 34, 114, 117, 108, 101, 115, 34, 58, 91];
    let mid: &[u8] = &[93u8, 44, 34, 116, 114, 105, 112, 108, 101, 115, 34, 58, 91];
    let close: &[u8] = &[93u8, 125];
    assert(open@ =~= program_open_bytes());
    assert(mid@ =~= program_mid_bytes());
    assert(close@ =~= program_close_bytes());
    put_bytes(&mut out, open);
    let ghost start = out@;
    let mut i: usize = 0;
    while i < rules.len()
        invariant
            i <= rules@.len(),
            out@ == start + rule_items(canon_rules_view(rules@).subrange(0, i as int)),
        decreases rules@.len() - i,
    {
        if i > 0 {
            put_byte(&mut out, 44u8);
        }
        match put_rule_json(&mut out, &rules[i]) {
            Ok(()) => {},
            Err(m) => {
                return Err(m);
            },
        }
        proof {
            let p = canon_rules_view(rules@).subrange(0, i as int + 1);
            assert(p.drop_last() =~= canon_rules_view(rules@).subrange(0, i as int));
            assert(p.last() == rules@[i as int]@);
            if i == 0 {
                assert(rule_items(p) == rule_json(p[0]));
            }
            assert(out@ =~= start + rule_items(p));
        }
        i = i + 1;
    }
    assert(canon_rules_view(rules@).subrange(0, rules@.len() as int) =~= canon_rules_view(rules@));
    put_bytes(&mut out, mid);
    match put_json_strings(&mut out, triples) {
        Ok(()) => {},
        Err(m) => {
            return Err(m);
        },
    }
    put_bytes(&mut out, close);
    assert(out@ =~= program_json(canon_rules_view(rules@), strings_of(triples@)));
    Ok(out)
}

/// The stable fingerprint of a program: the lowercase hex SHA-256 of the compact
/// JSON of its canonical descriptor. A rule or triple that fails to parse gives
/// the first such failure.
pub fn fingerprint_symbolic_program(rules: &Vec<SymbolicRule>, triples: &Vec<KrrTriple>) -> (r: Result<
    String,
    HelixError,
>)
    ensures
        match program_descriptor(rules_view(rules@), triples_view(triples@)) {
            Err(e) => r matches Err(x) && x@ == e,
            Ok(d) => r matches Ok(s) && s@ == descriptor_fingerprint(d.0, d.1),
        },
{
    let (rs, ts) = match build_canonical_program_descriptor(rules, triples) {
        Ok(d) => d,
        Err(e) => {
            return Err(e);
        },
    };
    let bytes = match descriptor_json(&rs, &ts) {
        Ok(b) => b,
        Err(m) => {
            return Err(HelixError::SerializationError(m));
        },
    };
    let digest = sha256(bytes.as_slice());
    Ok(hex_string(vstd::array::array_as_slice(&digest)))
}

} // verus!
