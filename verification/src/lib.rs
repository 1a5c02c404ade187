//! A name-addressed registry of callable operations ("tools") with a uniform
//! JSON-in/JSON-out boundary.
//!
//! Each tool has strongly typed parameters, output and error internally; the
//! registry stores tools behind a type-erased handler interface, describes them
//! uniformly (name, description, parameter schema), dispatches single calls by
//! name and runs batches with fail-fast error semantics.

mod errors;
mod json;
mod naming;
mod registry;
mod traits;

pub use errors::DispatchError;
pub use errors::InvocationError;
pub use json::json_text_of;
pub use naming::camel_of;
pub use naming::camel_word;
pub use naming::extract_string_literal;
pub use naming::lower_of;
pub use naming::spec_extract_string_literal;
pub use naming::split_at;
pub use naming::to_upper_camel_case;
pub use naming::trimmed_of;
pub use naming::upper_chars_of;
pub use registry::lemma_merge_prefers_incoming;
pub use registry::lemma_register_then_remove;
pub use registry::register_fold;
pub use registry::CallRequest;
pub use registry::CallResponse;
pub use registry::ToolDescriptor;
pub use registry::ToolRegistry;
pub use traits::encode_outcome;
pub use traits::ToolError;
pub use traits::ToolFunction;
pub use traits::ToolHandler;
pub use traits::ToolOutput;
pub use traits::ToolParams;
