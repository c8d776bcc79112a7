//! Verified core of an LLM integration toolkit: task lists, message windows,
//! model capability lookup, message adaptation for providers, stream line
//! framing and assembly, single-turn stream events, realtime session
//! decisions, tool batches, and the tools' own text and path handling.

pub mod text;
pub mod error;
pub mod task_list;
pub mod task_tools;
pub mod date_tool;
pub mod user_tools;
pub mod lexical_path;
pub mod file_tools;
pub mod web_search;
pub mod router;
pub mod null_tracer;
pub mod line_buffer;
pub mod model_registry;
pub mod models;
pub mod broker;
pub mod stream_assembly;
pub mod tokenizer;
pub mod chat_session;
pub mod codec;
pub mod json_text;
pub mod realtime_config;
pub mod realtime_events;
pub mod tool_runner;
pub mod realtime_session;
pub mod realtime_gateway;
pub mod openai_adapter;
pub mod openai_params;
pub mod ollama;
pub mod stream_events;
