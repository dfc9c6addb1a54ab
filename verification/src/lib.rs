//! Verified core of a BAML runtime host: the A2A task store and the
//! decisions of the A2A request handler, runtime scopes, tool session
//! primitives and runtime configuration.

pub mod error;

pub use error::BamlRtError;
pub mod a2a_types;
pub mod decimal;
pub mod a2a_store;
pub mod tool_fsm;
pub mod runtime;
pub mod ids;
pub mod context;
pub mod scope;
pub mod a2a_transport;
pub mod a2a_handler;
pub mod baml_src;
pub mod quickjs_bridge;
