//! Reading an automation request written in plain language: the agent types
//! it asks for, the times, e-mail addresses and numbers it mentions, and the
//! simple conditions it states. Regular expressions are matched by the
//! `regex` crate.

use vstd::prelude::*;
use crate::llm::LlmError;
use crate::symbolic_program::strs;
use crate::text::copy_string;

verus! {

/// A span of byte positions in the text that was read.
#[derive(Debug, Clone, Copy, PartialEq, Eq, Structural)]
pub struct TextSpan {
    /// Position of the first byte.
    pub start: usize,
    /// Position just past the last byte.
    pub end: usize,
}

/// One group of one regular expression match: its text and byte positions.
pub struct GroupMatch {
    /// The text the group matched.
    pub text: String,
    /// Position of its first byte.
    pub start: usize,
    /// Position just past its last byte.
    pub end: usize,
}

/// A group match as plain values.
pub open spec fn group_view(g: Option<GroupMatch>) -> Option<(Seq<char>, usize, usize)> {
    match g {
        Some(m) => Some((m.text@, m.start, m.end)),
        None => None,
    }
}

/// The matches of a regular expression as plain values.
pub open spec fn captures_view(v: Seq<Vec<Option<GroupMatch>>>) -> Seq<Seq<Option<(Seq<char>, usize, usize)>>> {
    v.map_values(|c: Vec<Option<GroupMatch>>| c@.map_values(|g: Option<GroupMatch>| group_view(g)))
}

/// What `regex::Regex::new(pattern)` followed by `is_match(haystack)` gives;
/// `None` where the pattern does not compile.
pub uninterp spec fn regex_match(pattern: Seq<char>, haystack: Seq<char>) -> Option<bool>;

/// What `regex::Regex::new(pattern)` followed by `captures_iter(haystack)`
/// gives: for each match in turn, its groups `0..=groups` (text, start, end),
/// `None` for a group that took no part; `None` where the pattern does not compile.
pub uninterp spec fn regex_captures(
    pattern: Seq<char>,
    haystack: Seq<char>,
    groups: usize,
) -> Option<Seq<Seq<Option<(Seq<char>, usize, usize)>>>>;

/// What `regex::Regex::new(pattern)` followed by `captures(haystack)` gives:
/// groups `0..=groups` of the leftmost-first match (text, start, end), `None`
/// inside where there is no match; `None` outside where the pattern does not
/// compile.
pub uninterp spec fn regex_first(
    pattern: Seq<char>,
    haystack: Seq<char>,
    groups: usize,
) -> Option<Option<Seq<Option<(Seq<char>, usize, usize)>>>>;

/// What `str::to_lowercase` gives.
pub uninterp spec fn lowercase_text(s: Seq<char>) -> Seq<char>;

/// Compiles `pattern` with `regex::Regex::new` and tests it on `haystack`
/// with `Regex::is_match`. The contract says only that the result is the
/// named one: `None` where compiling fails, else whether some match exists.
#[verifier::external_body]
fn regex_is_match(pattern: &str, haystack: &str) -> (r: Option<bool>)
    ensures
        r == regex_match(pattern@, haystack@),
{
    match regex::Regex::new(pattern) {
        Ok(re) => Some(re.is_match(haystack)),
        Err(_) => None,
    }
}

/// Compiles `pattern` with `regex::Regex::new` and walks
/// `Regex::captures_iter` over `haystack`, reading groups `0..=groups` of
/// each match with `Captures::get`. The contract says only that the result is
/// the named one.
#[verifier::external_body]
fn regex_capture_groups(pattern: &str, haystack: &str, groups: usize) -> (r: Option<Vec<Vec<Option<GroupMatch>>>>)
    ensures
        match r {
            Some(v) => regex_captures(pattern@, haystack@, groups) == Some(captures_view(v@)),
            None => regex_captures(pattern@, haystack@, groups) is None,
        },
{
    match regex::Regex::new(pattern) {
        Ok(re) => Some(
            re.captures_iter(haystack).map(
                |c| (0..=groups).map(
                    |g| c.get(g).map(|m| GroupMatch { text: m.as_str().to_string(), start: m.start(), end: m.end() }),
                ).collect(),
            ).collect(),
        ),
        Err(_) => None,
    }
}

/// Compiles `pattern` with `regex::Regex::new` and reads groups
/// `0..=groups` of `Regex::captures(haystack)` with `Captures::get`. The
/// contract says only that the result is the named one.
#[verifier::external_body]
pub(crate) fn regex_first_capture(pattern: &str, haystack: &str, groups: usize) -> (r: Option<Option<Vec<Option<GroupMatch>>>>)
    ensures
        match r {
            Some(Some(row)) => regex_first(pattern@, haystack@, groups) == Some(
                Some(row@.map_values(|g: Option<GroupMatch>| group_view(g))),
            ),
            Some(None) => regex_first(pattern@, haystack@, groups) == Some(
                None::<Seq<Option<(Seq<char>, usize, usize)>>>,
            ),
            None => regex_first(pattern@, haystack@, groups) is None,
        },
{
    match regex::Regex::new(pattern) {
        Ok(re) => Some(re.captures(haystack).map(
            |c| (0..=groups).map(|g| c.get(g).map(|m| GroupMatch { text: m.as_str().to_string(), start: m.start(), end: m.end() })).collect(),
        )),
        Err(_) => None,
    }
}

/// `str::to_lowercase`; the contract names its result.
#[verifier::external_body]
fn lower_text(s: &str) -> (r: String)
    ensures
        r@ == lowercase_text(s@),
{
    s.to_lowercase()
}

/// The agent types and the patterns that suggest each, in the order they are tried.
pub open spec fn pattern_table() -> Seq<(Seq<char>, Seq<Seq<char>>)> {
    seq![
        ("email"@, seq!["send.*email"@, "email.*when"@, "notify.*email"@]),
        ("webhook"@, seq!["when.*webhook"@, "http.*request"@, "api.*call"@]),
        ("schedule"@, seq!["every.*\\d+.*minutes?"@, "daily.*at"@, "weekly.*on"@, "cron"@]),
    ]
}

/// Parser of automation requests.
pub struct AutomationParser {
    /// Agent types, each with the patterns that suggest it, in the order they are tried.
    pub patterns: Vec<(String, Vec<String>)>,
}

/// A pattern table entry as plain values.
pub open spec fn entry_view(e: (String, Vec<String>)) -> (Seq<char>, Seq<Seq<char>>) {
    (e.0@, strs(e.1@))
}

fn string_list(a: &str, b: &str, c: &str) -> (v: Vec<String>)
    ensures
        strs(v@) == seq![a@, b@, c@],
{
    let mut v: Vec<String> = Vec::new();
    v.push(String::from_str(a));
    v.push(String::from_str(b));
    v.push(String::from_str(c));
    assert(strs(v@) =~= seq![a@, b@, c@]);
    v
}

impl AutomationParser {
    /// The pattern table as plain values.
    pub open spec fn table(&self) -> Seq<(Seq<char>, Seq<Seq<char>>)> {
        self.patterns@.map_values(|e: (String, Vec<String>)| entry_view(e))
    }

    /// A parser with the e-mail, webhook and schedule patterns.
    pub fn new() -> (p: Self)
        ensures
            p.table() == pattern_table(),
    {
        let mut patterns: Vec<(String, Vec<String>)> = Vec::new();
        patterns.push((String::from_str("email"), string_list("send.*email", "email.*when", "notify.*email")));
        patterns.push((String::from_str("webhook"), string_list("when.*webhook", "http.*request", "api.*call")));
        let mut schedule = string_list("every.*\\d+.*minutes?", "daily.*at", "weekly.*on");
        schedule.push(String::from_str("cron"));
        proof {
            assert(strs(schedule@) =~= seq!["every.*\\d+.*minutes?"@, "daily.*at"@, "weekly.*on"@, "cron"@]) by {
                assert(strs(schedule@).drop_last() =~= seq!["every.*\\d+.*minutes?"@, "daily.*at"@, "weekly.*on"@]);
            }
        }
        patterns.push((String::from_str("schedule"), schedule));
        let p = AutomationParser { patterns };
        assert(p.table() =~= pattern_table());
        p
    }
}

impl Default for AutomationParser {
    fn default() -> (p: Self)
        ensures
            p.table() == pattern_table(),
    {
        Self::new()
    }
}

/// Some pattern of `pats` matches `text`.
pub open spec fn any_match(pats: Seq<Seq<char>>, text: Seq<char>) -> bool {
    exists|k: int| 0 <= k < pats.len() && #[trigger] regex_match(pats[k], text) == Some(true)
}

/// The agent types of `tab`, in order, with a pattern that matches `text`.
pub open spec fn matched_types(tab: Seq<(Seq<char>, Seq<Seq<char>>)>, text: Seq<char>) -> Seq<Seq<char>>
    decreases tab.len(),
{
    if tab.len() == 0 {
        Seq::empty()
    } else {
        let rest = matched_types(tab.drop_last(), text);
        if any_match(tab.last().1, text) {
            rest.push(tab.last().0)
        } else {
            rest
        }
    }
}

/// The last match of `caps` in which group `g` took part, as that group.
pub open spec fn last_group(caps: Seq<Seq<Option<(Seq<char>, usize, usize)>>>, g: int) -> Option<(Seq<char>, usize, usize)>
    decreases caps.len(),
{
    if caps.len() == 0 {
        None
    } else if g < caps.last().len() && caps.last()[g] is Some {
        caps.last()[g]
    } else {
        last_group(caps.drop_last(), g)
    }
}

/// Group `g` of the last match of `pattern` in `text` where it took part.
pub open spec fn found(pattern: Seq<char>, text: Seq<char>, groups: usize, g: int) -> Option<(Seq<char>, usize, usize)> {
    match regex_captures(pattern, text, groups) {
        Some(c) => last_group(c, g),
        None => None,
    }
}

/// A clock time such as `15:30`.
pub open spec fn time_pattern() -> Seq<char> {
    "\\b(\\d{1,2}:\\d{2})\\b"@
}

/// An e-mail address.
pub open spec fn email_pattern() -> Seq<char> {
    "\\b[A-Za-z0-9._%+-]+@[A-Za-z0-9.-]+\\.[A-Z|a-z]{2,}\\b"@
}

/// A whole number.
pub open spec fn number_pattern() -> Seq<char> {
    "\\b\\d+\\b"@
}

/// An entity read from a request: its type, its text and its span.
pub struct ExtractedEntity {
    /// "time", "email" or "number".
    pub entity_type: String,
    /// The text that was read.
    pub value: String,
    /// Where it stands in the request.
    pub span: TextSpan,
}

/// An entity as plain values: type, text, start, end.
pub open spec fn entity_view(e: ExtractedEntity) -> (Seq<char>, Seq<char>, usize, usize) {
    (e.entity_type@, e.value@, e.span.start, e.span.end)
}

/// Appends an entity of type `t` read as `g`, if there is one.
pub open spec fn with_entity(
    v: Seq<(Seq<char>, Seq<char>, usize, usize)>,
    t: Seq<char>,
    g: Option<(Seq<char>, usize, usize)>,
) -> Seq<(Seq<char>, Seq<char>, usize, usize)> {
    match g {
        Some(m) => v.push((t, m.0, m.1, m.2)),
        None => v,
    }
}

/// The entities of `text`: the last time (its digits), the last e-mail
/// address and the last number, each where there is one, in that order.
pub open spec fn entities_of(text: Seq<char>) -> Seq<(Seq<char>, Seq<char>, usize, usize)> {
    let a = with_entity(Seq::empty(), "time"@, found(time_pattern(), text, 1, 1));
    let b = with_entity(a, "email"@, found(email_pattern(), text, 0, 0));
    with_entity(b, "number"@, found(number_pattern(), text, 0, 0))
}

/// A condition read from a request.
pub struct ParsedCondition {
    /// The word before the operator.
    pub left: String,
    /// "equals", "greater_than", "less_than" or "contains".
    pub operator: String,
    /// The word after the operator.
    pub right: String,
}

/// A condition as plain values.
pub open spec fn condition_view(c: ParsedCondition) -> (Seq<char>, Seq<char>, Seq<char>) {
    (c.left@, c.operator@, c.right@)
}

/// The conditions of operator `op` read from the matches `caps`, in order:
/// one for each match where groups 1 and 2 took part.
pub open spec fn conds_in(caps: Seq<Seq<Option<(Seq<char>, usize, usize)>>>, op: Seq<char>) -> Seq<(Seq<char>, Seq<char>, Seq<char>)>
    decreases caps.len(),
{
    if caps.len() == 0 {
        Seq::empty()
    } else {
        let rest = conds_in(caps.drop_last(), op);
        let c = caps.last();
        if c.len() > 2 && c[1] is Some && c[2] is Some {
            rest.push((c[1].unwrap().0, op, c[2].unwrap().0))
        } else {
            rest
        }
    }
}

/// The condition patterns and their operators, in the order they are tried.
pub open spec fn condition_table() -> Seq<(Seq<char>, Seq<char>)> {
    seq![
        ("(\\w+)\\s+equals?\\s+(\\w+)"@, "equals"@),
        ("(\\w+)\\s+is\\s+greater\\s+than\\s+(\\w+)"@, "greater_than"@),
        ("(\\w+)\\s+is\\s+less\\s+than\\s+(\\w+)"@, "less_than"@),
        ("(\\w+)\\s+contains?\\s+(\\w+)"@, "contains"@),
    ]
}

/// The conditions read from `text` by the first `k` condition patterns.
pub open spec fn conditions_upto(text: Seq<char>, k: int) -> Seq<(Seq<char>, Seq<char>, Seq<char>)>
    decreases k,
{
    if k <= 0 {
        Seq::empty()
    } else {
        let (pat, op) = condition_table()[k - 1];
        let here = match regex_captures(pat, text, 2) {
            Some(c) => conds_in(c, op),
            None => Seq::empty(),
        };
        conditions_upto(text, k - 1) + here
    }
}

/// What a request says: the agent types it suggests, the last of them as
/// its action ("unknown" if none), whether any was found, and its entities
/// and conditions.
pub struct IntentParse {
    /// The last suggested agent type, or "unknown".
    pub action: String,
    /// Whether some agent pattern matched.
    pub matched: bool,
    /// The entities read.
    pub entities: Vec<ExtractedEntity>,
    /// The conditions read.
    pub conditions: Vec<ParsedCondition>,
    /// The agent types whose patterns matched, in table order.
    pub suggested_agents: Vec<String>,
}

/// `ip` is what reading `text` with pattern table `tab` gives.
pub open spec fn reads(ip: IntentParse, tab: Seq<(Seq<char>, Seq<Seq<char>>)>, text: Seq<char>) -> bool {
    let m = matched_types(tab, text);
    &&& strs(ip.suggested_agents@) == m
    &&& ip.matched == (m.len() > 0)
    &&& ip.action@ == if m.len() > 0 { m.last() } else { "unknown"@ }
    &&& ip.entities@.map_values(|e: ExtractedEntity| entity_view(e)) == entities_of(text)
    &&& ip.conditions@.map_values(|c: ParsedCondition| condition_view(c)) == conditions_upto(text, 4)
}

/// Whether some pattern of `pats` matches `text`.
fn any_pattern_matches(pats: &Vec<String>, text: &str) -> (b: bool)
    ensures
        b == any_match(strs(pats@), text@),
{
    let mut k: usize = 0;
    while k < pats.len()
        invariant
            k <= pats@.len(),
            forall|j: int| 0 <= j < k ==> regex_match(pats@[j]@, text@) != Some(true),
        decreases pats@.len() - k,
    {
        if regex_is_match(pats[k].as_str(), text) == Some(true) {
            assert(strs(pats@)[k as int] == pats@[k as int]@);
            return true;
        }
        k = k + 1;
    }
    assert forall|j: int| 0 <= j < strs(pats@).len() implies #[trigger] regex_match(strs(pats@)[j], text@) != Some(true) by {
        assert(strs(pats@)[j] == pats@[j]@);
    }
    false
}

fn copy_group(m: &GroupMatch) -> (r: GroupMatch)
    ensures
        group_view(Some(r)) == group_view(Some(*m)),
{
    GroupMatch { text: copy_string(&m.text), start: m.start, end: m.end }
}

/// Group `g` of the last match of `pattern` in `text` where it took part.
fn last_match_of(pattern: &str, text: &str, groups: usize, g: usize) -> (r: Option<GroupMatch>)
    ensures
        group_view(r) == found(pattern@, text@, groups, g as int),
{
    match regex_capture_groups(pattern, text, groups) {
        None => None,
        Some(caps) => {
            let ghost cv = captures_view(caps@);
            let mut best: Option<GroupMatch> = None;
            let mut j: usize = 0;
            while j < caps.len()
                invariant
                    j <= caps@.len(),
                    cv == captures_view(caps@),
                    group_view(best) == last_group(cv.take(j as int), g as int),
                decreases caps@.len() - j,
            {
                proof {
                    assert(cv.take(j as int + 1).drop_last() =~= cv.take(j as int));
                    assert(cv.take(j as int + 1).last() == cv[j as int]);
                    assert(cv[j as int] == caps@[j as int]@.map_values(|x: Option<GroupMatch>| group_view(x)));
                }
                let row = &caps[j];
                if g < row.len() {
                    match &row[g] {
                        Some(m) => {
                            best = Some(copy_group(m));
                        },
                        None => {},
                    }
                }
                j = j + 1;
            }
            proof {
                assert(cv.take(caps@.len() as int) =~= cv);
            }
            best
        },
    }
}

fn push_entity(v: &mut Vec<ExtractedEntity>, t: &str, g: Option<GroupMatch>)
    ensures
        final(v)@.map_values(|e: ExtractedEntity| entity_view(e)) == with_entity(
            old(v)@.map_values(|e: ExtractedEntity| entity_view(e)),
            t@,
            group_view(g),
        ),
{
    let ghost before = v@.map_values(|e: ExtractedEntity| entity_view(e));
    match g {
        Some(m) => {
            let e = ExtractedEntity {
                entity_type: String::from_str(t),
                value: m.text,
                span: TextSpan { start: m.start, end: m.end },
            };
            v.push(e);
            assert(v@.map_values(|e: ExtractedEntity| entity_view(e)) =~= before.push(entity_view(e)));
        },
        None => {},
    }
}

/// The conditions of operator `op` read by `pattern` from `text`.
fn conditions_for(pattern: &str, op: &str, text: &str, out: &mut Vec<ParsedCondition>)
    ensures
        final(out)@.map_values(|c: ParsedCondition| condition_view(c)) == old(out)@.map_values(
            |c: ParsedCondition| condition_view(c),
        ) + match regex_captures(pattern@, text@, 2) {
            Some(c) => conds_in(c, op@),
            None => Seq::empty(),
        },
{
    let ghost before = out@.map_values(|c: ParsedCondition| condition_view(c));
    match regex_capture_groups(pattern, text, 2) {
        None => {
            assert(before + Seq::empty() =~= before);
        },
        Some(caps) => {
            let ghost cv = captures_view(caps@);
            let mut j: usize = 0;
            while j < caps.len()
                invariant
                    j <= caps@.len(),
                    cv == captures_view(caps@),
                    out@.map_values(|c: ParsedCondition| condition_view(c)) == before + conds_in(cv.take(j as int), op@),
                decreases caps@.len() - j,
            {
                proof {
                    assert(cv.take(j as int + 1).drop_last() =~= cv.take(j as int));
                    assert(cv.take(j as int + 1).last() == cv[j as int]);
                    assert(cv[j as int] == caps@[j as int]@.map_values(|x: Option<GroupMatch>| group_view(x)));
                }
                let row = &caps[j];
                let ghost ob = out@.map_values(|c: ParsedCondition| condition_view(c));
                if row.len() > 2 {
                    match (&row[1], &row[2]) {
                        (Some(l), Some(r)) => {
                            let c = ParsedCondition {
                                left: copy_string(&l.text),
                                operator: String::from_str(op),
                                right: copy_string(&r.text),
                            };
                            out.push(c);
                            assert(out@.map_values(|c: ParsedCondition| condition_view(c)) =~= ob.push(condition_view(c)));
                        },
                        _ => {},
                    }
                }
                j = j + 1;
            }
            proof {
                assert(cv.take(caps@.len() as int) =~= cv);
            }
        },
    }
}

impl AutomationParser {
    /// Reads an automation request: lower-cases it, tries each agent type's
    /// patterns in table order (a type is suggested once, at its first
    /// matching pattern, and the last suggested type is the action), then
    /// reads its entities and conditions.
    pub fn parse(&self, input: &str) -> (r: Result<IntentParse, LlmError>)
        ensures
            r matches Ok(ip) && reads(ip, self.table(), lowercase_text(input@)),
    {
        let lower = lower_text(input);
        let text = lower.as_str();
        let ghost tab = self.table();
        let mut suggested: Vec<String> = Vec::new();
        let mut matched = false;
        let mut action = String::from_str("unknown");
        let mut i: usize = 0;
        while i < self.patterns.len()
            invariant
                i <= self.patterns@.len(),
                tab == self.table(),
                text@ == lowercase_text(input@),
                strs(suggested@) == matched_types(tab.take(i as int), text@),
                matched == (suggested@.len() > 0),
                action@ == if suggested@.len() > 0 { strs(suggested@).last() } else { "unknown"@ },
            decreases self.patterns@.len() - i,
        {
            proof {
                assert(tab.take(i as int + 1).drop_last() =~= tab.take(i as int));
                assert(tab.take(i as int + 1).last() == entry_view(self.patterns@[i as int]));
            }
            let entry = &self.patterns[i];
            let ghost sb = strs(suggested@);
            if any_pattern_matches(&entry.1, text) {
                suggested.push(copy_string(&entry.0));
                matched = true;
                action = copy_string(&entry.0);
                assert(strs(suggested@) =~= sb.push(entry.0@));
            }
            i = i + 1;
        }
        proof {
            assert(tab.take(self.patterns@.len() as int) =~= tab);
        }
        let mut entities: Vec<ExtractedEntity> = Vec::new();
        proof {
            assert(entities@.map_values(|e: ExtractedEntity| entity_view(e)) =~= Seq::empty());
        }
        push_entity(&mut entities, "time", last_match_of("\\b(\\d{1,2}:\\d{2})\\b", text, 1, 1));
        push_entity(&mut entities, "email", last_match_of("\\b[A-Za-z0-9._%+-]+@[A-Za-z0-9.-]+\\.[A-Z|a-z]{2,}\\b", text, 0, 0));
        push_entity(&mut entities, "number", last_match_of("\\b\\d+\\b", text, 0, 0));
        let mut conditions: Vec<ParsedCondition> = Vec::new();
        proof {
            assert(conditions@.map_values(|c: ParsedCondition| condition_view(c)) =~= Seq::empty());
            reveal_with_fuel(conditions_upto, 5);
        }
        conditions_for("(\\w+)\\s+equals?\\s+(\\w+)", "equals", text, &mut conditions);
        conditions_for("(\\w+)\\s+is\\s+greater\\s+than\\s+(\\w+)", "greater_than", text, &mut conditions);
        conditions_for("(\\w+)\\s+is\\s+less\\s+than\\s+(\\w+)", "less_than", text, &mut conditions);
        conditions_for("(\\w+)\\s+contains?\\s+(\\w+)", "contains", text, &mut conditions);
        proof {
            assert(Seq::<(Seq<char>, Seq<char>, Seq<char>)>::empty() + conditions_upto(text@, 1) =~= conditions_upto(text@, 1));
        }
        Ok(IntentParse { action, matched, entities, conditions, suggested_agents: suggested })
    }
}

} // verus!
