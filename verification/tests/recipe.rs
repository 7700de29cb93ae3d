use helix_verified::errors::HelixError;
use helix_verified::recipe::{AgentConfig, Recipe, RecipeGraphDefinition, Trigger};
use uuid::Uuid;

fn new_id() -> u128 {
    Uuid::new_v4().as_u128()
}

fn create_test_agent_config(id: u128, name: &str, agent_kind: &str, dependencies: Vec<u128>) -> AgentConfig {
    AgentConfig {
        id,
        profile_id: new_id(),
        name: Some(name.to_string()),
        agent_kind: agent_kind.to_string(),
        wasm_module_path: None,
        credential_ids: Vec::new(),
        enabled: true,
        dependencies,
    }
}

fn create_simple_recipe() -> Recipe {
    let agent1_id = new_id();
    let agent2_id = new_id();
    let agent1 = create_test_agent_config(agent1_id, "SourceAgent", "source", vec![]);
    let agent2 = create_test_agent_config(agent2_id, "ActionAgent", "action", vec![agent1_id]);
    let graph_def = RecipeGraphDefinition { agents: vec![agent1, agent2] };
    Recipe::new(new_id(), new_id(), "Test Recipe".to_string(), Some("A simple test recipe".to_string()), graph_def)
}

fn uuid_text(id: u128) -> String {
    Uuid::from_u128(id).to_string()
}

#[test]
fn test_recipe_creation_and_basic_properties() {
    let recipe_id = new_id();
    let profile_id = new_id();
    let agent1 = create_test_agent_config(new_id(), "Agent1", "typeA", vec![]);
    let graph_def = RecipeGraphDefinition { agents: vec![agent1] };
    let recipe = Recipe::new(recipe_id, profile_id, "My Recipe".to_string(), None, graph_def);

    assert_eq!(recipe.id, recipe_id);
    assert_eq!(recipe.profile_id, profile_id);
    assert_eq!(recipe.name, "My Recipe");
    assert!(recipe.enabled);
    assert_eq!(recipe.agent_count(), 1);
}

#[test]
fn test_recipe_update_name() {
    let mut recipe = create_simple_recipe();
    let new_name = "Updated Recipe Name".to_string();
    recipe.update_name(new_name.clone());
    assert_eq!(recipe.name, new_name);
}

#[test]
fn test_recipe_update_description() {
    let mut recipe = create_simple_recipe();
    let new_description = Some("Updated description".to_string());
    recipe.update_description(new_description.clone());
    assert_eq!(recipe.description, new_description);
}

#[test]
fn test_recipe_update_description_to_none() {
    let mut recipe = create_simple_recipe();
    recipe.update_description(None);
    assert_eq!(recipe.description, None);
}

#[test]
fn test_recipe_set_trigger() {
    let mut recipe = create_simple_recipe();
    let trigger = Trigger::Schedule { cron_expression: "0 * * * * *".to_string() };
    assert!(!recipe.has_trigger());
    recipe.set_trigger(Some(trigger.clone()));
    assert!(recipe.has_trigger());
    assert_eq!(recipe.trigger.as_ref().unwrap(), &trigger);
}

#[test]
fn test_recipe_set_enabled() {
    let mut recipe = create_simple_recipe();
    assert!(recipe.enabled);
    recipe.set_enabled(false);
    assert!(!recipe.enabled);
    recipe.set_enabled(true);
    assert!(recipe.enabled);
}

#[test]
fn test_recipe_agent_ids() {
    let recipe = create_simple_recipe();
    let agent_ids = recipe.agent_ids();
    assert_eq!(agent_ids.len(), 2);
    assert!(agent_ids.contains(&recipe.graph.agents[0].id));
    assert!(agent_ids.contains(&recipe.graph.agents[1].id));
}

#[test]
fn test_recipe_find_agent() {
    let recipe = create_simple_recipe();
    let first_agent_id = recipe.graph.agents[0].id;
    let non_existent_id = new_id();

    let found_agent = recipe.find_agent(&first_agent_id);
    assert!(found_agent.is_some());
    assert_eq!(found_agent.unwrap().id, first_agent_id);
    assert!(recipe.find_agent(&non_existent_id).is_none());
}

#[test]
fn test_recipe_validate_success() {
    let recipe = create_simple_recipe();
    assert!(recipe.validate().is_ok());
}

#[test]
fn test_recipe_validate_empty_name() {
    let mut recipe = create_simple_recipe();
    recipe.name = "".to_string();
    let result = recipe.validate();
    assert!(result.is_err());
    if let Err(HelixError::ValidationError { context, message }) = result {
        assert_eq!(context, "Recipe.name");
        assert_eq!(message, "Recipe name cannot be empty");
    } else {
        panic!("Expected ValidationError");
    }
}

#[test]
fn test_recipe_validate_whitespace_name() {
    let mut recipe = create_simple_recipe();
    recipe.name = "   ".to_string();
    let result = recipe.validate();
    assert!(result.is_err());
    if let Err(HelixError::ValidationError { context, message }) = result {
        assert_eq!(context, "Recipe.name");
        assert_eq!(message, "Recipe name cannot be empty");
    } else {
        panic!("Expected ValidationError");
    }
}

#[test]
fn test_recipe_validate_no_agents() {
    let mut recipe = create_simple_recipe();
    recipe.graph.agents.clear();
    let result = recipe.validate();
    assert!(result.is_err());
    if let Err(HelixError::ValidationError { context, message }) = result {
        assert_eq!(context, "Recipe.graph.agents");
        assert_eq!(message, "Recipe must contain at least one agent");
    } else {
        panic!("Expected ValidationError");
    }
}

#[test]
fn test_recipe_validate_duplicate_agent_ids() {
    let agent_id = new_id();
    let agent1 = create_test_agent_config(agent_id, "Agent1", "typeA", vec![]);
    let agent2 = create_test_agent_config(agent_id, "Agent2WithSameId", "typeB", vec![]);
    let graph_def = RecipeGraphDefinition { agents: vec![agent1, agent2] };
    let recipe = Recipe::new(new_id(), new_id(), "DupID Recipe".to_string(), None, graph_def);

    let result = recipe.validate();
    assert!(result.is_err());
    if let Err(HelixError::ValidationError { context, message }) = result {
        assert_eq!(context, "Recipe.graph.agents");
        assert_eq!(message, "Recipe contains duplicate agent IDs");
    } else {
        panic!("Expected ValidationError for duplicate agent IDs, got {:?}", result);
    }
}

#[test]
fn test_recipe_validate_dependency_on_non_existent_agent() {
    let agent1_id = new_id();
    let non_existent_agent_id = new_id();
    let agent1 = create_test_agent_config(agent1_id, "Agent1", "typeA", vec![non_existent_agent_id]);
    let graph_def = RecipeGraphDefinition { agents: vec![agent1] };
    let recipe = Recipe::new(new_id(), new_id(), "InvalidDep Recipe".to_string(), None, graph_def);

    let result = recipe.validate();
    assert!(result.is_err());
    if let Err(HelixError::ValidationError { context, message }) = result {
        assert_eq!(context, format!("Recipe.graph.agents[id={}].dependencies", uuid_text(agent1_id)));
        assert!(message.contains("Dependency on non-existent agent ID"));
    } else {
        panic!("Expected ValidationError for non-existent dependency, got {:?}", result);
    }
}

#[test]
fn test_recipe_validate_agent_depends_on_self() {
    let agent1_id = new_id();
    let agent1 = create_test_agent_config(agent1_id, "Agent1", "typeA", vec![agent1_id]);
    let graph_def = RecipeGraphDefinition { agents: vec![agent1] };
    let recipe = Recipe::new(new_id(), new_id(), "SelfLoop Recipe".to_string(), None, graph_def);

    let result = recipe.validate();
    assert!(result.is_err());
    if let Err(HelixError::ValidationError { context, message }) = result {
        assert_eq!(context, format!("Recipe.graph.agents[id={}].dependencies", uuid_text(agent1_id)));
        assert!(message.contains("cannot depend on itself"));
    } else {
        panic!("Expected ValidationError for self-dependency, got {:?}", result);
    }
}

#[test]
fn test_recipe_validate_cycle_detection() {
    let agent_a_id = new_id();
    let agent_b_id = new_id();
    let agent_c_id = new_id();
    let agent_a = create_test_agent_config(agent_a_id, "AgentA", "typeA", vec![agent_c_id]);
    let agent_b = create_test_agent_config(agent_b_id, "AgentB", "typeB", vec![agent_a_id]);
    let agent_c = create_test_agent_config(agent_c_id, "AgentC", "typeC", vec![agent_b_id]);
    let graph_def = RecipeGraphDefinition { agents: vec![agent_a, agent_b, agent_c] };
    let recipe = Recipe::new(new_id(), new_id(), "Cyclic Recipe".to_string(), None, graph_def);

    let result = recipe.validate();
    assert!(result.is_err());
    if let Err(HelixError::ValidationError { context, message }) = result {
        assert_eq!(context, "Recipe.graph");
        assert_eq!(message, "Recipe graph contains cycles (not a valid DAG)");
    } else {
        panic!("Expected ValidationError for cycle detection, got {:?}", result);
    }
}

#[test]
fn test_recipe_validate_complex_dag_success() {
    let agent_a_id = new_id();
    let agent_b_id = new_id();
    let agent_c_id = new_id();
    let agent_d_id = new_id();
    let agent_a = create_test_agent_config(agent_a_id, "AgentA", "typeA", vec![]);
    let agent_b = create_test_agent_config(agent_b_id, "AgentB", "typeB", vec![agent_a_id]);
    let agent_c = create_test_agent_config(agent_c_id, "AgentC", "typeC", vec![agent_a_id]);
    let agent_d = create_test_agent_config(agent_d_id, "AgentD", "typeD", vec![agent_b_id, agent_c_id]);
    let graph_def = RecipeGraphDefinition { agents: vec![agent_a, agent_b, agent_c, agent_d] };
    let recipe = Recipe::new(new_id(), new_id(), "Complex DAG".to_string(), None, graph_def);

    assert!(recipe.validate().is_ok());
    assert_eq!(recipe.agent_count(), 4);
}

#[test]
fn test_trigger_schedule_creation() {
    let trigger = Trigger::Schedule { cron_expression: "0 0 * * * *".to_string() };
    let Trigger::Schedule { cron_expression } = trigger;
    assert_eq!(cron_expression, "0 0 * * * *");
}

#[test]
fn test_recipe_graph_definition_equality() {
    let agent_id = new_id();
    let profile_id = new_id();
    let make = |dependencies: Vec<u128>| AgentConfig {
        id: agent_id,
        profile_id,
        name: Some("Agent".to_string()),
        agent_kind: "kind".to_string(),
        wasm_module_path: None,
        credential_ids: Vec::new(),
        enabled: true,
        dependencies,
    };
    let graph1 = RecipeGraphDefinition { agents: vec![make(vec![])] };
    let graph2 = RecipeGraphDefinition { agents: vec![make(vec![])] };
    assert_eq!(graph1, graph2);
    let graph3 = RecipeGraphDefinition { agents: vec![make(vec![new_id()])] };
    assert_ne!(graph1, graph3);
}

#[test]
fn test_recipe_debug_format() {
    let recipe = create_simple_recipe();
    let debug_str = format!("{:?}", recipe);
    assert!(debug_str.contains("Recipe"));
    assert!(debug_str.contains("Test Recipe"));
}

#[test]
fn error_messages_carry_the_hyphenated_ids() {
    let id: u128 = 0xa1a2a3a4b1b2c1c2d1d2d3d4d5d6d7d8;
    let missing: u128 = 0x0000000000000000000000000000000f;
    let agent = create_test_agent_config(id, "A", "k", vec![missing]);
    let recipe = Recipe::new(1, 2, "R".to_string(), None, RecipeGraphDefinition { agents: vec![agent] });
    assert_eq!(
        recipe.validate(),
        Err(HelixError::ValidationError {
            context: "Recipe.graph.agents[id=a1a2a3a4-b1b2-c1c2-d1d2-d3d4d5d6d7d8].dependencies".to_string(),
            message: "Dependency on non-existent agent ID: 00000000-0000-0000-0000-00000000000f".to_string(),
        })
    );
    let selfish = create_test_agent_config(id, "A", "k", vec![id]);
    let recipe = Recipe::new(1, 2, "R".to_string(), None, RecipeGraphDefinition { agents: vec![selfish] });
    assert_eq!(
        recipe.validate(),
        Err(HelixError::ValidationError {
            context: "Recipe.graph.agents[id=a1a2a3a4-b1b2-c1c2-d1d2-d3d4d5d6d7d8].dependencies".to_string(),
            message: "Agent a1a2a3a4-b1b2-c1c2-d1d2-d3d4d5d6d7d8 cannot depend on itself.".to_string(),
        })
    );
}

#[test]
fn two_node_cycle_and_repeated_dependencies() {
    let a = 10;
    let b = 20;
    let cyclic = Recipe::new(
        1,
        2,
        "R".to_string(),
        None,
        RecipeGraphDefinition {
            agents: vec![create_test_agent_config(a, "A", "k", vec![b]), create_test_agent_config(b, "B", "k", vec![a])],
        },
    );
    assert!(cyclic.validate().is_err());
    let repeated = Recipe::new(
        1,
        2,
        "R".to_string(),
        None,
        RecipeGraphDefinition {
            agents: vec![create_test_agent_config(b, "B", "k", vec![a, a]), create_test_agent_config(a, "A", "k", vec![])],
        },
    );
    assert!(repeated.validate().is_ok());
}
