use helix_verified::llm::{VariableDefinition, VariableType};
use helix_verified::prompts::{replace_text, CommonPrompts, PromptTemplate};

fn var(name: &str, required: bool, default: Option<&str>, var_type: VariableType) -> VariableDefinition {
    VariableDefinition {
        name: name.to_string(),
        description: format!("{name} value"),
        var_type,
        required,
        default: default.map(|d| d.to_string()),
    }
}

#[test]
fn test_prompt_template_creation() {
    let template = PromptTemplate::new("test".to_string(), "Hello {name}!".to_string());
    assert_eq!(template.name, "test");
    assert_eq!(template.template, "Hello {name}!");
}

#[test]
fn test_template_rendering() {
    let mut template =
        PromptTemplate::new("test".to_string(), "Hello {name}, you are {age} years old!".to_string());
    template.add_variable(var("name", true, None, VariableType::String));
    template.add_variable(var("age", false, Some("unknown"), VariableType::Number));
    let values = vec![("name".to_string(), "Alice".to_string())];
    let result = template.render(&values).unwrap();
    assert_eq!(result, "Hello Alice, you are unknown years old!");
}

#[test]
fn test_missing_required_variable() {
    let mut template = PromptTemplate::new("test".to_string(), "Hello {name}!".to_string());
    template.add_variable(var("name", true, None, VariableType::String));
    let values = vec![];
    let result = template.render(&values);
    assert!(result.is_err());
    assert!(result.unwrap_err().contains("Required variable 'name' not provided"));
}

#[test]
fn optional_variable_without_default_becomes_empty() {
    let mut template = PromptTemplate::new("t".to_string(), "[{x}][{x}]".to_string());
    template.add_variable(var("x", false, None, VariableType::String));
    assert_eq!(template.render(&vec![]).unwrap(), "[][]");
}

#[test]
fn adding_a_variable_twice_replaces_it() {
    let mut template = PromptTemplate::new("t".to_string(), "{x}".to_string());
    template.add_variable(var("x", true, None, VariableType::String));
    template.add_variable(var("x", false, Some("d"), VariableType::String));
    assert_eq!(template.variables.len(), 1);
    assert_eq!(template.render(&vec![]).unwrap(), "d");
}

#[test]
fn replace_scans_left_to_right() {
    assert_eq!(replace_text("aaaa", "aa", "b"), "bb");
    assert_eq!(replace_text("abc", "", "x"), "abc");
    assert_eq!(replace_text("a{b}c{b}", "{b}", "-"), "a-c-");
}

#[test]
fn common_prompts_declare_their_variables() {
    let t = CommonPrompts::agent_debugging();
    assert_eq!(t.name, "agent_debugging");
    assert_eq!(t.variables.len(), 7);
    assert!(t.template.contains("{stack_trace}"));
    let e = CommonPrompts::event_analysis();
    assert_eq!(e.variables.len(), 5);
    let values: Vec<(String, String)> = ["event_type", "event_source", "event_data", "event_timestamp"]
        .iter()
        .map(|n| (n.to_string(), "v".to_string()))
        .collect();
    let rendered = e.render(&values).unwrap();
    assert!(rendered.contains("No additional context available"));
    let r = CommonPrompts::recipe_generation();
    assert_eq!(r.variables.len(), 2);
    assert!(r.render(&vec![]).is_err());
}
