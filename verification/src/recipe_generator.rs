//! Turning a parsed automation intent into a recipe skeleton: one agent per
//! suggested agent type, each with a default configuration, chained in
//! order.

use vstd::prelude::*;
use crate::json_value::JsonValue;
use crate::llm::LlmError;
use crate::symbolic_program::str_eq;
use crate::text::{decimal, decimal_string, push_str};

verus! {

/// Whether `v` is the string `t`.
pub open spec fn is_text(v: JsonValue, t: Seq<char>) -> bool {
    v matches JsonValue::Str(s) && s@ == t
}

/// Whether member `i` of `m` is named `k` and holds the string `t`.
pub open spec fn text_member(m: Seq<(String, JsonValue)>, i: int, k: Seq<char>, t: Seq<char>) -> bool {
    m[i].0@ == k && is_text(m[i].1, t)
}

/// The extracted value of entity `name`: the first entry with that name.
pub open spec fn entity_value(entities: Seq<(String, String)>, name: Seq<char>) -> Option<Seq<char>>
    decreases entities.len(),
{
    if entities.len() == 0 {
        None
    } else if entities[0].0@ == name {
        Some(entities[0].1@)
    } else {
        entity_value(entities.drop_first(), name)
    }
}

/// Whether `v` is the default configuration of an agent of type `t`:
/// SMTP settings (with the "email" entity as recipient) for "email", a JSON
/// POST for "webhook", a five-minute interval (daily at the "time" entity
/// when there is one) for "schedule", and an empty object otherwise.
pub open spec fn agent_config_is(t: Seq<char>, entities: Seq<(String, String)>, v: JsonValue) -> bool {
    v matches JsonValue::Object(m) && {
        let m = m@;
        if t == "email"@ {
            &&& text_member(m, 0, "smtp_server"@, "smtp.gmail.com"@)
            &&& m[1].0@ == "port"@ && m[1].1 == JsonValue::Number(587)
            &&& m[2].0@ == "use_tls"@ && m[2].1 == JsonValue::Bool(true)
            &&& match entity_value(entities, "email"@) {
                Some(e) => m.len() == 4 && text_member(m, 3, "to"@, e),
                None => m.len() == 3,
            }
        } else if t == "webhook"@ {
            &&& m.len() == 2
            &&& text_member(m, 0, "method"@, "POST"@)
            &&& m[1].0@ == "headers"@
            &&& m[1].1 matches JsonValue::Object(h) && h@.len() == 1 && text_member(
                h@,
                0,
                "Content-Type"@,
                "application/json"@,
            )
        } else if t == "schedule"@ {
            &&& m[0].0@ == "type"@
            &&& text_member(m, 1, "interval"@, "5m"@)
            &&& match entity_value(entities, "time"@) {
                Some(e) => m.len() == 3 && is_text(m[0].1, "daily"@) && text_member(m, 2, "time"@, e),
                None => m.len() == 2 && is_text(m[0].1, "interval"@),
            }
        } else {
            m.len() == 0
        }
    }
}

/// The id of the `i`-th generated agent.
pub open spec fn agent_key(i: nat) -> Seq<char> {
    "agent_"@ + decimal(i)
}

/// Whether `v` is the `i`-th agent: its id, type and default configuration.
pub open spec fn agent_entry_is(i: nat, t: Seq<char>, entities: Seq<(String, String)>, v: JsonValue) -> bool {
    v matches JsonValue::Object(m) && m@.len() == 3 && text_member(m@, 0, "id"@, agent_key(i)) && text_member(
        m@,
        1,
        "type"@,
        t,
    ) && m@[2].0@ == "config"@ && agent_config_is(t, entities, m@[2].1)
}

/// Whether `v` is the connection from agent `i` to agent `i + 1`.
pub open spec fn connection_is(i: nat, v: JsonValue) -> bool {
    v matches JsonValue::Object(m) && m@.len() == 2 && text_member(m@, 0, "from"@, agent_key(i)) && text_member(
        m@,
        1,
        "to"@,
        agent_key(i + 1),
    )
}

/// Whether `r` is the recipe for `action` with the suggested agent types:
/// its name and description, one agent entry per type in order, and a
/// connection between each agent and the next.
pub open spec fn recipe_is(
    action: Seq<char>,
    agents: Seq<String>,
    entities: Seq<(String, String)>,
    r: JsonValue,
) -> bool {
    r matches JsonValue::Object(m) && {
        let m = m@;
        &&& m.len() == 4
        &&& text_member(m, 0, "name"@, action + " automation"@)
        &&& text_member(m, 1, "description"@, "Generated automation for "@ + action)
        &&& m[2].0@ == "agents"@
        &&& m[2].1 matches JsonValue::Array(a) && a@.len() == agents.len() && forall|i: int|
            0 <= i < agents.len() ==> agent_entry_is(i as nat, agents[i]@, entities, #[trigger] a@[i])
        &&& m[3].0@ == "connections"@
        &&& m[3].1 matches JsonValue::Array(c) && c@.len() == (if agents.len() > 1 {
            agents.len() - 1
        } else {
            0
        }) && forall|i: int| 0 <= i < c@.len() ==> connection_is(i as nat, #[trigger] c@[i])
    }
}

fn text(s: &str) -> (v: JsonValue)
    ensures
        is_text(v, s@),
{
    JsonValue::Str(String::from_str(s))
}

fn agent_key_string(i: usize) -> (s: String)
    ensures
        s@ == agent_key(i as nat),
{
    let mut s = String::from_str("agent_");
    let d = decimal_string(i);
    push_str(&mut s, d.as_str());
    s
}

/// The value of entity `name`, the first with that name.
pub fn find_entity<'a>(entities: &'a Vec<(String, String)>, name: &str) -> (r: Option<&'a String>)
    ensures
        match r {
            Some(v) => entity_value(entities@, name@) == Some(v@),
            None => entity_value(entities@, name@) is None,
        },
{
    let mut i: usize = 0;
    assert(entities@.subrange(0, entities@.len() as int) =~= entities@);
    while i < entities.len()
        invariant
            i <= entities@.len(),
            entity_value(entities@, name@) == entity_value(entities@.subrange(i as int, entities@.len() as int), name@),
        decreases entities@.len() - i,
    {
        let ghost rest = entities@.subrange(i as int, entities@.len() as int);
        assert(rest[0] == entities@[i as int]);
        if str_eq(entities[i].0.as_str(), name) {
            return Some(&entities[i].1);
        }
        assert(rest.drop_first() =~= entities@.subrange(i + 1, entities@.len() as int));
        i = i + 1;
    }
    None
}

/// Builds recipe skeletons from parsed intents.
pub struct RecipeGenerator;

impl RecipeGenerator {
    /// The default configuration of an agent of type `agent_type`, filled
    /// from the extracted entities (names and values).
    pub fn generate_agent_config(agent_type: &str, entities: &Vec<(String, String)>) -> (v: JsonValue)
        ensures
            agent_config_is(agent_type@, entities@, v),
    {
        if str_eq(agent_type, "email") {
            let mut m: Vec<(String, JsonValue)> = Vec::new();
            m.push((String::from_str("smtp_server"), text("smtp.gmail.com")));
            m.push((String::from_str("port"), JsonValue::Number(587)));
            m.push((String::from_str("use_tls"), JsonValue::Bool(true)));
            match find_entity(entities, "email") {
                Some(e) => m.push((String::from_str("to"), JsonValue::Str(e.clone()))),
                None => {},
            }
            JsonValue::Object(m)
        } else if str_eq(agent_type, "webhook") {
            let mut h: Vec<(String, JsonValue)> = Vec::new();
            h.push((String::from_str("Content-Type"), text("application/json")));
            let mut m: Vec<(String, JsonValue)> = Vec::new();
            m.push((String::from_str("method"), text("POST")));
            m.push((String::from_str("headers"), JsonValue::Object(h)));
            JsonValue::Object(m)
        } else if str_eq(agent_type, "schedule") {
            let mut m: Vec<(String, JsonValue)> = Vec::new();
            match find_entity(entities, "time") {
                Some(e) => {
                    m.push((String::from_str("type"), text("daily")));
                    m.push((String::from_str("interval"), text("5m")));
                    m.push((String::from_str("time"), JsonValue::Str(e.clone())));
                },
                None => {
                    m.push((String::from_str("type"), text("interval")));
                    m.push((String::from_str("interval"), text("5m")));
                },
            }
            JsonValue::Object(m)
        } else {
            JsonValue::Object(Vec::new())
        }
    }

    /// The recipe skeleton for an intent: its action, the suggested agent
    /// types in order, and the extracted entities (names and values).
    pub fn generate_recipe(
        action: &str,
        suggested_agents: &Vec<String>,
        entities: &Vec<(String, String)>,
    ) -> (r: Result<JsonValue, LlmError>)
        ensures
            r matches Ok(v) && recipe_is(action@, suggested_agents@, entities@, v),
    {
        let mut agents: Vec<JsonValue> = Vec::new();
        let mut i: usize = 0;
        while i < suggested_agents.len()
            invariant
                i <= suggested_agents@.len(),
                agents@.len() == i,
                forall|j: int|
                    0 <= j < i ==> agent_entry_is(j as nat, suggested_agents@[j]@, entities@, #[trigger] agents@[j]),
            decreases suggested_agents@.len() - i,
        {
            let t = suggested_agents[i].as_str();
            let mut m: Vec<(String, JsonValue)> = Vec::new();
            m.push((String::from_str("id"), JsonValue::Str(agent_key_string(i))));
            m.push((String::from_str("type"), JsonValue::Str(String::from_str(t))));
            m.push((String::from_str("config"), Self::generate_agent_config(t, entities)));
            agents.push(JsonValue::Object(m));
            i = i + 1;
        }
        let mut connections: Vec<JsonValue> = Vec::new();
        let n = suggested_agents.len();
        if n > 1 {
            let mut k: usize = 0;
            while k < n - 1
                invariant
                    n == suggested_agents@.len(),
                    n > 1,
                    k <= n - 1,
                    connections@.len() == k,
                    forall|j: int| 0 <= j < k ==> connection_is(j as nat, #[trigger] connections@[j]),
                decreases n - 1 - k,
            {
                let mut m: Vec<(String, JsonValue)> = Vec::new();
                m.push((String::from_str("from"), JsonValue::Str(agent_key_string(k))));
                m.push((String::from_str("to"), JsonValue::Str(agent_key_string(k + 1))));
                connections.push(JsonValue::Object(m));
                k = k + 1;
            }
        }
        let mut name = String::from_str(action);
        push_str(&mut name, " automation");
        let mut description = String::from_str("Generated automation for ");
        push_str(&mut description, action);
        let mut recipe: Vec<(String, JsonValue)> = Vec::new();
        recipe.push((String::from_str("name"), JsonValue::Str(name)));
        recipe.push((String::from_str("description"), JsonValue::Str(description)));
        recipe.push((String::from_str("agents"), JsonValue::Array(agents)));
        recipe.push((String::from_str("connections"), JsonValue::Array(connections)));
        Ok(JsonValue::Object(recipe))
    }
}

} // verus!
