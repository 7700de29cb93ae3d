use helix_verified::automation_parser::{AutomationParser, ExtractedEntity, IntentParse};

fn entity<'a>(ip: &'a IntentParse, t: &str) -> Option<&'a ExtractedEntity> {
    ip.entities.iter().find(|e| e.entity_type == t)
}

#[test]
fn test_automation_parser_creation() {
    let parser = AutomationParser::new();
    assert!(!parser.patterns.is_empty());
}

#[test]
fn test_email_pattern_matching() {
    let parser = AutomationParser::new();
    let result = parser.parse("Send me an email when the price changes").unwrap();

    assert!(result.suggested_agents.contains(&"email".to_string()));
    assert!(result.matched);
}

#[test]
fn test_entity_extraction() {
    let parser = AutomationParser::new();
    let result = parser.parse("Send email to user@example.com at 15:30").unwrap();

    assert!(entity(&result, "email").is_some());
    assert!(entity(&result, "time").is_some());

    let email_entity = entity(&result, "email").unwrap();
    assert_eq!(email_entity.value, "user@example.com");

    let time_entity = entity(&result, "time").unwrap();
    assert_eq!(time_entity.value, "15:30");
}

#[test]
fn parser_table_order_and_default() {
    let parser = AutomationParser::default();
    let types: Vec<&str> = parser.patterns.iter().map(|(t, _)| t.as_str()).collect();
    assert_eq!(types, vec!["email", "webhook", "schedule"]);
    assert_eq!(parser.patterns[2].1.len(), 4);
}

#[test]
fn parse_without_any_pattern_is_unknown() {
    let parser = AutomationParser::new();
    let result = parser.parse("Hello there").unwrap();
    assert!(!result.matched);
    assert_eq!(result.action, "unknown");
    assert!(result.suggested_agents.is_empty());
    assert!(result.entities.is_empty());
    assert!(result.conditions.is_empty());
}

#[test]
fn parse_suggests_types_in_table_order_and_acts_on_the_last() {
    let parser = AutomationParser::new();
    let result = parser.parse("Send an EMAIL every 5 minutes").unwrap();
    assert_eq!(result.suggested_agents, vec!["email".to_string(), "schedule".to_string()]);
    assert_eq!(result.action, "schedule");
    let number = entity(&result, "number").unwrap();
    assert_eq!(number.value, "5");
    assert_eq!((number.span.start, number.span.end), (20, 21));
}

#[test]
fn parse_keeps_the_last_number_and_time() {
    let parser = AutomationParser::new();
    let result = parser.parse("cron 7:05 then 10:45 and 3 or 42").unwrap();
    assert_eq!(entity(&result, "time").unwrap().value, "10:45");
    assert_eq!(entity(&result, "number").unwrap().value, "42");
    let types: Vec<&str> = result.entities.iter().map(|e| e.entity_type.as_str()).collect();
    assert_eq!(types, vec!["time", "number"]);
}

#[test]
fn parse_reads_conditions_in_pattern_order() {
    let parser = AutomationParser::new();
    let result = parser.parse("Notify if price is greater than limit and status equals done").unwrap();
    let conds: Vec<(String, String, String)> =
        result.conditions.iter().map(|c| (c.left.clone(), c.operator.clone(), c.right.clone())).collect();
    assert_eq!(
        conds,
        vec![
            ("status".to_string(), "equals".to_string(), "done".to_string()),
            ("price".to_string(), "greater_than".to_string(), "limit".to_string()),
        ]
    );
}
