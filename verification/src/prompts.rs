//! Prompt templates with named variables, and the templates Helix agents use.

use vstd::prelude::*;
use crate::llm::{VariableDefinition, VariableType};
use crate::operator_proposals::{copy_opt_string, opt_text};
use crate::symbolic_program::str_eq;
use crate::text::{chars_of, copy_string, push_char, push_str};

verus! {

/// A template variable with its texts taken as character sequences.
pub struct VarView {
    pub name: Seq<char>,
    pub description: Seq<char>,
    pub var_type: VariableType,
    pub required: bool,
    pub default: Option<Seq<char>>,
}

/// A variable definition taken as a view.
pub open spec fn var_view(v: VariableDefinition) -> VarView {
    VarView {
        name: v.name@,
        description: v.description@,
        var_type: v.var_type,
        required: v.required,
        default: opt_text(v.default),
    }
}

/// Variable definitions taken as views.
pub open spec fn vars_view(v: Seq<VariableDefinition>) -> Seq<VarView> {
    v.map_values(|d: VariableDefinition| var_view(d))
}

/// A prompt template with variables.
#[derive(Debug, Clone)]
pub struct PromptTemplate {
    /// Template name.
    pub name: String,
    /// Template content with `{variable}` placeholders.
    pub template: String,
    /// Variable definitions, one per name, in the order first added.
    pub variables: Vec<VariableDefinition>,
    /// Template metadata: names and JSON values.
    pub metadata: Vec<(String, String)>,
}

/// The position of the first variable named `name`; `v.len()` when none is.
pub open spec fn var_index(v: Seq<VarView>, name: Seq<char>) -> nat
    decreases v.len(),
{
    if v.len() == 0 {
        0
    } else if v[0].name == name {
        0
    } else {
        1 + var_index(v.drop_first(), name)
    }
}

/// The variables after adding `d`: it replaces the variable with its name,
/// or joins at the end.
pub open spec fn with_variable(v: Seq<VarView>, d: VarView) -> Seq<VarView> {
    let i = var_index(v, d.name) as int;
    if i < v.len() {
        v.update(i, d)
    } else {
        v.push(d)
    }
}

/// `s` with every occurrence of `p` replaced by `r`, scanning left to right
/// (`str::replace`); `s` itself when `p` is empty.
pub open spec fn replace_spec(s: Seq<char>, p: Seq<char>, r: Seq<char>) -> Seq<char>
    decreases s.len(),
{
    if p.len() == 0 || s.len() < p.len() {
        s
    } else if s.subrange(0, p.len() as int) == p {
        r + replace_spec(s.subrange(p.len() as int, s.len() as int), p, r)
    } else {
        seq![s[0]] + replace_spec(s.drop_first(), p, r)
    }
}

/// The first value named `name`.
pub open spec fn value_of(values: Seq<(Seq<char>, Seq<char>)>, name: Seq<char>) -> Option<Seq<char>>
    decreases values.len(),
{
    if values.len() == 0 {
        None
    } else if values[0].0 == name {
        Some(values[0].1)
    } else {
        value_of(values.drop_first(), name)
    }
}

/// The placeholder of a variable.
pub open spec fn placeholder(name: Seq<char>) -> Seq<char> {
    "{"@ + name + "}"@
}

/// Renders `t`, taking the variables in order: each placeholder becomes the
/// given value, else the default, else the empty text; a required variable
/// without a value fails.
pub open spec fn render_spec(t: Seq<char>, vars: Seq<VarView>, values: Seq<(Seq<char>, Seq<char>)>) -> Result<
    Seq<char>,
    Seq<char>,
>
    decreases vars.len(),
{
    if vars.len() == 0 {
        Ok(t)
    } else {
        let v = vars[0];
        let ph = placeholder(v.name);
        match value_of(values, v.name) {
            Some(x) => render_spec(replace_spec(t, ph, x), vars.drop_first(), values),
            None => if v.required {
                Err("Required variable '"@ + v.name + "' not provided"@)
            } else {
                match v.default {
                    Some(d) => render_spec(replace_spec(t, ph, d), vars.drop_first(), values),
                    None => render_spec(replace_spec(t, ph, Seq::empty()), vars.drop_first(), values),
                }
            },
        }
    }
}

/// Values taken as views.
pub open spec fn values_view(v: Seq<(String, String)>) -> Seq<(Seq<char>, Seq<char>)> {
    v.map_values(|e: (String, String)| (e.0@, e.1@))
}

/// Unfolds `replace_spec` at a position of `s`.
proof fn lemma_replace_step(s: Seq<char>, p: Seq<char>, r: Seq<char>, i: int)
    requires
        p.len() > 0,
        0 <= i < s.len(),
    ensures
        replace_spec(s.subrange(i, s.len() as int), p, r) == if i + p.len() <= s.len() && s.subrange(
            i,
            i + p.len(),
        ) == p {
            r + replace_spec(s.subrange(i + p.len(), s.len() as int), p, r)
        } else {
            seq![s[i]] + replace_spec(s.subrange(i + 1, s.len() as int), p, r)
        },
{
    let t = s.subrange(i, s.len() as int);
    if t.len() >= p.len() {
        assert(t.subrange(0, p.len() as int) =~= s.subrange(i, i + p.len()));
        assert(t.subrange(p.len() as int, t.len() as int) =~= s.subrange(i + p.len(), s.len() as int));
    } else {
        assert(!(i + p.len() <= s.len()));
        reveal_with_fuel(replace_spec, 2);
        assert(replace_spec(t, p, r) == t);
        lemma_replace_short(s.subrange(i + 1, s.len() as int), p, r);
        assert(t =~= seq![s[i]] + s.subrange(i + 1, s.len() as int));
    }
    assert(t.drop_first() =~= s.subrange(i + 1, s.len() as int));
}

/// A text shorter than the pattern is left as it is.
proof fn lemma_replace_short(s: Seq<char>, p: Seq<char>, r: Seq<char>)
    requires
        s.len() < p.len(),
    ensures
        replace_spec(s, p, r) == s,
{
}

/// `s` with every `pat` replaced by `rep` (see `replace_spec`).
pub fn replace_text(s: &str, pat: &str, rep: &str) -> (out: String)
    ensures
        out@ == replace_spec(s@, pat@, rep@),
{
    let cs = chars_of(s);
    let ps = chars_of(pat);
    let n = cs.len();
    let m = ps.len();
    if m == 0 {
        return String::from_str(s);
    }
    let mut out = String::new();
    let mut i: usize = 0;
    assert(cs@.subrange(0, n as int) =~= cs@);
    while i < n
        invariant
            cs@ == s@,
            ps@ == pat@,
            n == cs@.len(),
            m == ps@.len(),
            m > 0,
            i <= n,
            replace_spec(s@, pat@, rep@) == out@ + replace_spec(cs@.subrange(i as int, n as int), pat@, rep@),
        decreases n - i,
    {
        proof {
            lemma_replace_step(cs@, ps@, rep@, i as int);
        }
        let mut hit = false;
        if n - i >= m {
            let mut k: usize = 0;
            let mut same = true;
            while k < m
                invariant
                    n == cs@.len(),
                    m == ps@.len(),
                    i + m <= n,
                    k <= m,
                    same == (forall|j: int| 0 <= j < k ==> cs@[i + j] == ps@[j]),
                decreases m - k,
            {
                if cs[i + k] != ps[k] {
                    same = false;
                }
                k = k + 1;
            }
            if same {
                assert(cs@.subrange(i as int, i + m) =~= ps@);
            } else {
                assert(cs@.subrange(i as int, i + m) != ps@) by {
                    let j = choose|j: int| 0 <= j < m && cs@[i + j] != ps@[j];
                    assert(cs@.subrange(i as int, i + m)[j] == cs@[i + j]);
                }
            }
            hit = same;
        }
        if hit {
            let ghost before = out@;
            push_str(&mut out, rep);
            assert(before + (rep@ + replace_spec(cs@.subrange(i + m, n as int), pat@, rep@)) =~= out@
                + replace_spec(cs@.subrange(i + m, n as int), pat@, rep@));
            i = i + m;
        } else {
            let ghost before = out@;
            push_char(&mut out, cs[i]);
            assert(before + (seq![cs@[i as int]] + replace_spec(cs@.subrange(i + 1, n as int), pat@, rep@))
                =~= out@ + replace_spec(cs@.subrange(i + 1, n as int), pat@, rep@));
            i = i + 1;
        }
    }
    assert(cs@.subrange(n as int, n as int) =~= Seq::<char>::empty());
    assert(out@ + Seq::<char>::empty() =~= out@);
    out
}

/// A copy of a variable definition.
pub fn copy_variable(v: &VariableDefinition) -> (c: VariableDefinition)
    ensures
        var_view(c) == var_view(*v),
{
    VariableDefinition {
        name: copy_string(&v.name),
        description: copy_string(&v.description),
        var_type: v.var_type,
        required: v.required,
        default: copy_opt_string(&v.default),
    }
}

impl PromptTemplate {
    /// A template without variables or metadata.
    pub fn new(name: String, template: String) -> (t: Self)
        ensures
            t.name == name,
            t.template == template,
            t.variables@.len() == 0,
            t.metadata@.len() == 0,
    {
        PromptTemplate { name, template, variables: Vec::new(), metadata: Vec::new() }
    }

    /// The position of the first variable named `name`, or the length.
    fn var_position(&self, name: &str) -> (i: usize)
        ensures
            i == var_index(vars_view(self.variables@), name@),
            i <= self.variables@.len(),
    {
        let ghost vs = vars_view(self.variables@);
        let mut i: usize = 0;
        assert(vs.subrange(0, vs.len() as int) =~= vs);
        while i < self.variables.len()
            invariant
                i <= self.variables@.len(),
                vs == vars_view(self.variables@),
                var_index(vs, name@) == i + var_index(vs.subrange(i as int, vs.len() as int), name@),
            decreases self.variables@.len() - i,
        {
            let ghost rest = vs.subrange(i as int, vs.len() as int);
            assert(rest[0] == vs[i as int]);
            if str_eq(self.variables[i].name.as_str(), name) {
                return i;
            }
            assert(rest.drop_first() =~= vs.subrange(i + 1, vs.len() as int));
            i = i + 1;
        }
        i
    }

    /// Adds a variable definition, replacing the one with the same name.
    pub fn add_variable(&mut self, var: VariableDefinition)
        ensures
            vars_view(final(self).variables@) == with_variable(vars_view(old(self).variables@), var_view(var)),
            final(self).name == old(self).name,
            final(self).template == old(self).template,
            final(self).metadata == old(self).metadata,
    {
        let ghost vs = vars_view(self.variables@);
        let i = self.var_position(var.name.as_str());
        let ghost vv = var_view(var);
        if i < self.variables.len() {
            self.variables.set(i, var);
            assert(vars_view(self.variables@) =~= vs.update(i as int, vv));
        } else {
            self.variables.push(var);
            assert(vars_view(self.variables@) =~= vs.push(vv));
        }
    }

    /// The first value named `name`.
    fn lookup<'a>(values: &'a Vec<(String, String)>, name: &str) -> (r: Option<&'a String>)
        ensures
            match r {
                Some(x) => value_of(values_view(values@), name@) == Some(x@),
                None => value_of(values_view(values@), name@) is None,
            },
    {
        let ghost all = values_view(values@);
        let mut i: usize = 0;
        assert(all.subrange(0, all.len() as int) =~= all);
        while i < values.len()
            invariant
                i <= values@.len(),
                all == values_view(values@),
                value_of(all, name@) == value_of(all.subrange(i as int, all.len() as int), name@),
            decreases values@.len() - i,
        {
            let ghost rest = all.subrange(i as int, all.len() as int);
            assert(rest[0] == all[i as int]);
            if str_eq(values[i].0.as_str(), name) {
                return Some(&values[i].1);
            }
            assert(rest.drop_first() =~= all.subrange(i + 1, all.len() as int));
            i = i + 1;
        }
        None
    }

    /// Renders the template with the given values (see `render_spec`).
    pub fn render(&self, values: &Vec<(String, String)>) -> (r: Result<String, String>)
        ensures
            match r {
                Ok(s) => render_spec(self.template@, vars_view(self.variables@), values_view(values@)) == Ok::<
                    Seq<char>,
                    Seq<char>,
                >(s@),
                Err(e) => render_spec(self.template@, vars_view(self.variables@), values_view(values@)) == Err::<
                    Seq<char>,
                    Seq<char>,
                >(e@),
            },
    {
        let ghost vs = vars_view(self.variables@);
        let ghost vals = values_view(values@);
        let mut result = copy_string(&self.template);
        let mut i: usize = 0;
        assert(vs.subrange(0, vs.len() as int) =~= vs);
        while i < self.variables.len()
            invariant
                i <= self.variables@.len(),
                vs == vars_view(self.variables@),
                vals == values_view(values@),
                render_spec(self.template@, vs, vals) == render_spec(
                    result@,
                    vs.subrange(i as int, vs.len() as int),
                    vals,
                ),
            decreases self.variables@.len() - i,
        {
            let ghost rest = vs.subrange(i as int, vs.len() as int);
            assert(rest[0] == vs[i as int]);
            assert(rest.drop_first() =~= vs.subrange(i + 1, vs.len() as int));
            let d = &self.variables[i];
            assert(vs[i as int] == var_view(*d));
            let mut ph = String::from_str("{");
            push_str(&mut ph, d.name.as_str());
            push_str(&mut ph, "}");
            assert(ph@ == placeholder(d.name@));
            let ghost r0 = result@;
            match Self::lookup(values, d.name.as_str()) {
                Some(x) => {
                    result = replace_text(result.as_str(), ph.as_str(), x.as_str());
                    assert(render_spec(r0, rest, vals) == render_spec(result@, rest.drop_first(), vals));
                },
                None => {
                    if d.required {
                        let mut msg = String::from_str("Required variable '");
                        push_str(&mut msg, d.name.as_str());
                        push_str(&mut msg, "' not provided");
                        assert(render_spec(r0, rest, vals) == Err::<Seq<char>, Seq<char>>(msg@));
                        return Err(msg);
                    }
                    match &d.default {
                        Some(def) => {
                            result = replace_text(result.as_str(), ph.as_str(), def.as_str());
                        },
                        None => {
                            result = replace_text(result.as_str(), ph.as_str(), "");
                            assert(""@ =~= Seq::<char>::empty()) by {
                                reveal_strlit("");
                            }
                        },
                    }
                    assert(render_spec(r0, rest, vals) == render_spec(result@, rest.drop_first(), vals));
                },
            }
            i = i + 1;
        }
        assert(vs.subrange(vs.len() as int, vs.len() as int) =~= Seq::<VarView>::empty());
        Ok(result)
    }
}

/// The template text of `CommonPrompts::recipe_generation`.
pub const RECIPE_GENERATION_TEXT: &'static str = r#"You are a Helix automation expert. Generate a recipe (workflow) based on the user's description.

User Request: {user_request}

Available Agent Types:
{available_agents}

Generate a JSON recipe with the following structure:
```json
{
  "name": "Recipe Name",
  "description": "Brief description",
  "agents": [
    {
      "id": "unique_id",
      "type": "agent_type",
      "config": {...}
    }
  ],
  "connections": [
    {
      "from": "source_agent_id",
      "to": "target_agent_id",
      "condition": "optional_condition"
    }
  ]
}
```

Ensure the recipe is practical and follows best practices."#;

/// The variables of `CommonPrompts::recipe_generation`, in order.
pub open spec fn recipe_generation_vars() -> Seq<VarView> {
    seq![
        VarView { name: "user_request"@, description: "The user's automation request"@, var_type: VariableType::String, required: true, default: None },
        VarView { name: "available_agents"@, description: "List of available agent types"@, var_type: VariableType::String, required: true, default: None },
    ]
}

/// The template text of `CommonPrompts::event_analysis`.
pub const EVENT_ANALYSIS_TEXT: &'static str = r#"You are analyzing an event in the Helix automation system.

Event Details:
- Type: {event_type}
- Source: {event_source}
- Data: {event_data}
- Timestamp: {event_timestamp}

Context:
{context}

Analyze this event and provide:
1. A summary of what happened
2. Potential actions that could be triggered
3. Any anomalies or concerns
4. Suggested follow-up actions

Format your response as structured JSON."#;

/// The variables of `CommonPrompts::event_analysis`, in order.
pub open spec fn event_analysis_vars() -> Seq<VarView> {
    seq![
        VarView { name: "event_type"@, description: "Type of the event"@, var_type: VariableType::String, required: true, default: None },
        VarView { name: "event_source"@, description: "Source of the event"@, var_type: VariableType::String, required: true, default: None },
        VarView { name: "event_data"@, description: "Event payload data"@, var_type: VariableType::String, required: true, default: None },
        VarView { name: "event_timestamp"@, description: "When the event occurred"@, var_type: VariableType::String, required: true, default: None },
        VarView { name: "context"@, description: "Additional context about the system state"@, var_type: VariableType::String, required: false, default: Some("No additional context available"@) },
    ]
}

/// The template text of `CommonPrompts::agent_debugging`.
pub const AGENT_DEBUGGING_TEXT: &'static str = r#"You are debugging a Helix agent that encountered an error.

Agent Information:
- ID: {agent_id}
- Type: {agent_type}
- Configuration: {agent_config}

Error Details:
- Error: {error_message}
- Stack Trace: {stack_trace}
- Context: {error_context}

Recent Events:
{recent_events}

Analyze the error and provide:
1. Root cause analysis
2. Suggested fixes
3. Prevention strategies
4. Code changes if applicable

Be specific and actionable in your recommendations."#;

/// The variables of `CommonPrompts::agent_debugging`, in order.
pub open spec fn agent_debugging_vars() -> Seq<VarView> {
    seq![
        VarView { name: "agent_id"@, description: "ID of the failing agent"@, var_type: VariableType::String, required: true, default: None },
        VarView { name: "agent_type"@, description: "Type of the failing agent"@, var_type: VariableType::String, required: true, default: None },
        VarView { name: "agent_config"@, description: "Agent configuration"@, var_type: VariableType::String, required: true, default: None },
        VarView { name: "error_message"@, description: "The error message"@, var_type: VariableType::String, required: true, default: None },
        VarView { name: "stack_trace"@, description: "Stack trace of the error"@, var_type: VariableType::String, required: false, default: Some("No stack trace available"@) },
        VarView { name: "error_context"@, description: "Context when the error occurred"@, var_type: VariableType::String, required: false, default: Some("No additional context"@) },
        VarView { name: "recent_events"@, description: "Recent events that might be related"@, var_type: VariableType::String, required: false, default: Some("No recent events"@) },
    ]
}

/// The prompt templates Helix agents use.
pub struct CommonPrompts;

impl CommonPrompts {
    /// The `recipe_generation` prompt template.
    pub fn recipe_generation() -> (t: PromptTemplate)
        ensures
            t.name@ == "recipe_generation"@,
            t.template@ == RECIPE_GENERATION_TEXT@,
            vars_view(t.variables@) == recipe_generation_vars(),
            t.metadata@.len() == 0,
    {
        let variables = vec![
            VariableDefinition {
                name: String::from_str("user_request"),
                description: String::from_str("The user's automation request"),
                var_type: VariableType::String,
                required: true,
                default: None,
            },
            VariableDefinition {
                name: String::from_str("available_agents"),
                description: String::from_str("List of available agent types"),
                var_type: VariableType::String,
                required: true,
                default: None,
            },
        ];
        let t = PromptTemplate {
            name: String::from_str("recipe_generation"),
            template: String::from_str(RECIPE_GENERATION_TEXT),
            variables,
            metadata: Vec::new(),
        };
        assert(vars_view(t.variables@) =~= recipe_generation_vars());
        t
    }

    /// The `event_analysis` prompt template.
    pub fn event_analysis() -> (t: PromptTemplate)
        ensures
            t.name@ == "event_analysis"@,
            t.template@ == EVENT_ANALYSIS_TEXT@,
            vars_view(t.variables@) == event_analysis_vars(),
            t.metadata@.len() == 0,
    {
        let variables = vec![
            VariableDefinition {
                name: String::from_str("event_type"),
                description: String::from_str("Type of the event"),
                var_type: VariableType::String,
                required: true,
                default: None,
            },
            VariableDefinition {
                name: String::from_str("event_source"),
                description: String::from_str("Source of the event"),
                var_type: VariableType::String,
                required: true,
                default: None,
            },
            VariableDefinition {
                name: String::from_str("event_data"),
                description: String::from_str("Event payload data"),
                var_type: VariableType::String,
                required: true,
                default: None,
            },
            VariableDefinition {
                name: String::from_str("event_timestamp"),
                description: String::from_str("When the event occurred"),
                var_type: VariableType::String,
                required: true,
                default: None,
            },
            VariableDefinition {
                name: String::from_str("context"),
                description: String::from_str("Additional context about the system state"),
                var_type: VariableType::String,
                required: false,
                default: Some(String::from_str("No additional context available")),
            },
        ];
        let t = PromptTemplate {
            name: String::from_str("event_analysis"),
            template: String::from_str(EVENT_ANALYSIS_TEXT),
            variables,
            metadata: Vec::new(),
        };
        assert(vars_view(t.variables@) =~= event_analysis_vars());
        t
    }

    /// The `agent_debugging` prompt template.
    pub fn agent_debugging() -> (t: PromptTemplate)
        ensures
            t.name@ == "agent_debugging"@,
            t.template@ == AGENT_DEBUGGING_TEXT@,
            vars_view(t.variables@) == agent_debugging_vars(),
            t.metadata@.len() == 0,
    {
        let variables = vec![
            VariableDefinition {
                name: String::from_str("agent_id"),
                description: String::from_str("ID of the failing agent"),
                var_type: VariableType::String,
                required: true,
                default: None,
            },
            VariableDefinition {
                name: String::from_str("agent_type"),
                description: String::from_str("Type of the failing agent"),
                var_type: VariableType::String,
                required: true,
                default: None,
            },
            VariableDefinition {
                name: String::from_str("agent_config"),
                description: String::from_str("Agent configuration"),
                var_type: VariableType::String,
                required: true,
                default: None,
            },
            VariableDefinition {
                name: String::from_str("error_message"),
                description: String::from_str("The error message"),
                var_type: VariableType::String,
                required: true,
                default: None,
            },
            VariableDefinition {
                name: String::from_str("stack_trace"),
                description: String::from_str("Stack trace of the error"),
                var_type: VariableType::String,
                required: false,
                default: Some(String::from_str("No stack trace available")),
            },
            VariableDefinition {
                name: String::from_str("error_context"),
                description: String::from_str("Context when the error occurred"),
                var_type: VariableType::String,
                required: false,
                default: Some(String::from_str("No additional context")),
            },
            VariableDefinition {
                name: String::from_str("recent_events"),
                description: String::from_str("Recent events that might be related"),
                var_type: VariableType::String,
                required: false,
                default: Some(String::from_str("No recent events")),
            },
        ];
        let t = PromptTemplate {
            name: String::from_str("agent_debugging"),
            template: String::from_str(AGENT_DEBUGGING_TEXT),
            variables,
            metadata: Vec::new(),
        };
        assert(vars_view(t.variables@) =~= agent_debugging_vars());
        t
    }
}

} // verus!
