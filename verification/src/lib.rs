//! Verified core of the Helix desk: sandbox admission, symbolic reasoning,
//! expert voting, operator configuration and cycles, federation peers,
//! profiles, agent state storage, LLM conversation and agent configuration,
//! recipes and supporting types.

pub mod hashing;
pub mod text;
pub mod order;
pub mod sandbox_types;
pub mod sandbox_checks;
pub mod sandbox_canon;
pub mod sandbox_hash;
pub mod sandbox;
pub mod sandbox_laws;
pub mod graph;
pub mod errors;
pub mod reasoning_types;
pub mod symbolic_parse;
pub mod symbolic_fingerprint;
pub mod symbolic_program;
pub mod symbolic_eval;
pub mod symbolic_decision;
pub mod symbolic_laws;
pub mod expert;
pub mod operator_config;
pub mod clock;
pub mod operator_session;
pub mod core_types;
pub mod federation;
pub mod gui;
pub mod llm;
pub mod operator_proposals;
pub mod operator_cycle;
pub mod operator_confirmation;
pub mod desk_context;
pub mod quality_types;
pub mod recipe;
pub mod operator_registry;
pub mod collaboration;
pub mod prompts;
pub mod neuro_symbolic;
pub mod peer_registry;
pub mod openai_chat;
pub mod embedding_errors;
pub mod conversation;
pub mod profile;
pub mod json_value;
pub mod state_store;
pub mod tes;
pub mod llm_factory;
pub mod recipe_generator;
pub mod embedding_features;
pub mod llm_agents;
pub mod automation_parser;
