//! An in-process extension registry: pluggable handlers that turn a textual
//! prompt into a structured response, registered in order and dispatched by
//! identifier.

pub mod extension;
pub mod laws;
pub mod manager;
pub mod text;
pub mod types;

pub use extension::{AnyExtension, Extension, MockExtension};
pub use manager::{ExtensionManager, ExtensionNotFound};
pub use types::{ExtensionRequest, ExtensionResponse};
