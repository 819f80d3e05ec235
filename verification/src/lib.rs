//! Solution-scoped agent sessions: the data model, the wire shapes and the
//! rules that decide what a client is told about a conversation.
pub mod adapter;
pub mod agent_settings;
pub mod background_agent;
pub mod background_rows;
pub mod background_shell;
pub mod claude_adapter;
pub mod clock;
pub mod cold_persistence;
pub mod compact;
pub mod conversation_render;
pub mod conversation_view;
pub mod db;
pub mod duplicate;
pub mod event_sources;
pub mod images;
pub mod json;
pub mod laws;
pub mod mcp;
pub mod message_generator;
pub mod metrics_emitter;
pub mod model;
pub mod ordering;
pub mod path;
pub mod pattern;
pub mod permissions;
pub mod search;
pub mod solution;
pub mod text;
pub mod thread;
pub mod tool_output;
