pub mod text;
pub mod models;
pub mod endpoint_client;
pub mod path_params;
pub mod progressive_matching;
pub mod jsonval;
pub mod classify_intent;
pub mod match_fields;
pub mod providers;
pub mod token_calculator;
pub mod prompts;
pub mod helpers;
pub mod config;
pub mod errors;
pub mod find_closest_endpoint;
pub mod email;
pub mod sentence_to_json;
pub mod workflow;
pub mod general_question_handler;
pub mod help_response_handler;
pub mod parameter_extraction;
pub mod response_builders;
pub mod analysis;
pub mod conversation;
pub mod sentence_service;
