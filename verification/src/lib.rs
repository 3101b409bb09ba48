//! Tool-schema generation for an LLM function-calling interface.
//!
//! A function declaration (name, ordered parameters with declared types) and
//! its documentation block are turned into a `ToolSchema`: a structured,
//! deterministic description of the function as a callable tool, serialized
//! to a canonical JSON document.

#![verifier::loop_isolation(false)]

pub mod docstring;
pub mod json;
pub mod llm_convo;
pub mod markdown;
pub mod schema;
pub mod text;
