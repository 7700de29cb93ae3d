use helix_verified::json_value::JsonValue;
use helix_verified::recipe_generator::RecipeGenerator;

fn member<'a>(v: &'a JsonValue, name: &str) -> Option<&'a JsonValue> {
    match v {
        JsonValue::Object(m) => m.iter().find(|(k, _)| k == name).map(|(_, x)| x),
        _ => None,
    }
}

fn text(v: Option<&JsonValue>) -> Option<&str> {
    match v {
        Some(JsonValue::Str(s)) => Some(s.as_str()),
        _ => None,
    }
}

fn array(v: Option<&JsonValue>) -> Option<&Vec<JsonValue>> {
    match v {
        Some(JsonValue::Array(a)) => Some(a),
        _ => None,
    }
}

#[test]
fn test_recipe_generation() {
    let recipe = RecipeGenerator::generate_recipe("email", &vec!["email".to_string()], &vec![]).unwrap();
    assert!(array(member(&recipe, "agents")).is_some());
    assert_eq!(array(member(&recipe, "agents")).unwrap().len(), 1);
}

#[test]
fn recipe_names_and_chains_agents() {
    let agents = vec!["webhook".to_string(), "schedule".to_string(), "email".to_string()];
    let entities = vec![("email".to_string(), "user@example.com".to_string()), ("time".to_string(), "15:30".to_string())];
    let recipe = RecipeGenerator::generate_recipe("webhook", &agents, &entities).unwrap();
    assert_eq!(text(member(&recipe, "name")), Some("webhook automation"));
    assert_eq!(text(member(&recipe, "description")), Some("Generated automation for webhook"));

    let list = array(member(&recipe, "agents")).unwrap();
    assert_eq!(list.len(), 3);
    assert_eq!(text(member(&list[2], "id")), Some("agent_2"));
    assert_eq!(text(member(&list[1], "type")), Some("schedule"));
    let schedule = member(&list[1], "config").unwrap();
    assert_eq!(text(member(schedule, "type")), Some("daily"));
    assert_eq!(text(member(schedule, "time")), Some("15:30"));
    let email = member(&list[2], "config").unwrap();
    assert_eq!(text(member(email, "to")), Some("user@example.com"));
    assert_eq!(member(email, "port"), Some(&JsonValue::Number(587)));

    let connections = array(member(&recipe, "connections")).unwrap();
    assert_eq!(connections.len(), 2);
    assert_eq!(text(member(&connections[1], "from")), Some("agent_1"));
    assert_eq!(text(member(&connections[1], "to")), Some("agent_2"));
}

#[test]
fn agent_configs_by_type() {
    let none: Vec<(String, String)> = vec![];
    let schedule = RecipeGenerator::generate_agent_config("schedule", &none);
    assert_eq!(text(member(&schedule, "type")), Some("interval"));
    assert_eq!(text(member(&schedule, "interval")), Some("5m"));
    let webhook = RecipeGenerator::generate_agent_config("webhook", &none);
    assert_eq!(text(member(&webhook, "method")), Some("POST"));
    let headers = member(&webhook, "headers").unwrap();
    assert_eq!(text(member(headers, "Content-Type")), Some("application/json"));
    assert_eq!(RecipeGenerator::generate_agent_config("sms", &none), JsonValue::Object(vec![]));
    let email = RecipeGenerator::generate_agent_config("email", &none);
    assert!(member(&email, "to").is_none());
}

#[test]
fn single_or_no_agent_has_no_connections() {
    let recipe = RecipeGenerator::generate_recipe("unknown", &vec![], &vec![]).unwrap();
    assert_eq!(array(member(&recipe, "agents")).unwrap().len(), 0);
    assert_eq!(array(member(&recipe, "connections")).unwrap().len(), 0);
}
