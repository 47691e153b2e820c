//! Verified core of a usage limiter for Codex sessions.

pub mod account_laws;
pub mod bootstrap;
pub mod codex;
pub mod collections;
pub mod connect;
pub mod control_laws;
pub mod coordinator;
pub mod coordinator_laws;
pub mod document_laws;
pub mod engine_laws;
pub mod evaluator;
pub mod events;
pub mod external_suspend;
pub mod gate;
pub mod identity;
pub mod interrupt_laws;
pub mod interrupts;
pub mod json;
pub mod json_order;
pub mod json_text;
pub mod limiter_laws;
pub mod members;
pub mod model;
pub mod notifications;
pub mod parser;
pub mod parser_laws;
pub mod paths;
pub mod persistence;
pub mod protocol;
pub mod public_document;
pub mod public_state;
pub mod recovery;
pub mod reducer;
pub mod reducer_laws;
pub mod request;
pub mod routing;
pub mod routing_laws;
pub mod search;
pub mod sending;
pub mod session;
pub mod session_laws;
pub mod settings;
pub mod shell;
pub mod state_file;
pub mod state_text;
pub mod storage_laws;
pub mod stored_state;
pub mod text;
pub mod text_laws;
pub mod thread_laws;
pub mod threads;
pub mod view_laws;
