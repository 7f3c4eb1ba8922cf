//! Evidence acquisition for a local assistant: planning, acquisition steps,
//! validation and grounded answers.

pub mod acceptance;
pub mod acceptance_laws;
pub mod acquire;
pub mod acquire_laws;
pub mod acquire_runs;
pub mod address;
pub mod attachments;
pub mod authorized;
pub mod bytes;
pub mod chat;
pub mod classification_laws;
pub mod classifier;
pub mod codex;
pub mod conflict_laws;
pub mod conflicts;
pub mod diagnostics;
pub mod document;
pub mod event_laws;
pub mod fetch_laws;
pub mod events;
pub mod fetch;
pub mod fetch_runs;
pub mod gate;
pub mod html;
pub mod identity;
pub mod json;
pub mod jsonld;
pub mod legacy;
pub mod mail_adapter;
pub mod mail_plan;
pub mod mail_runs;
pub mod mail_tools;
pub mod mail_turn_laws;
pub mod models;
pub mod numeric;
pub mod order;
pub mod outcome_laws;
pub mod page;
pub mod page_laws;
pub mod passages;
pub mod planner;
pub mod policy;
pub mod previews;
pub mod question_laws;
pub mod ranking;
pub mod ranking_laws;
pub mod relevance;
pub mod runtime_control;
pub mod search;
pub mod search_laws;
pub mod selection;
pub mod selection_laws;
pub mod service_laws;
pub mod sessions;
pub mod spacing;
pub mod structure_laws;
pub mod synthesis;
pub mod text;
pub mod text_laws;
pub mod tool_args;
pub mod tool_laws;
pub mod tools;
pub mod turn_laws;
pub mod types;
pub mod validation_laws;
pub mod validator;
pub mod web_turn_laws;
pub mod web_validator;
pub mod web_counts;
pub mod web_laws;
pub mod web_plan;
pub mod web_runs;
pub mod weburl;
