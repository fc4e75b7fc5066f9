//! Lifecycle core of the Cordis runtime.
pub mod arena;
pub mod config;
pub mod dependency_graph;
pub mod disposal;
pub mod error;
pub mod fiber_registry;
pub mod gate;
pub mod health;
pub mod id_list;
pub mod ids;
pub mod key;
pub mod plugin_registry;
pub mod runtime;
pub mod scope_registry;
pub mod scope_revision;
pub mod service_handle;
pub mod service_registry;
pub mod shutdown_coordinator;
pub mod state;
pub mod task;
pub mod text;
