//! A library for building a container image from a build context, starting a
//! disposable container from it, and driving shell commands, file reads and
//! file writes inside that container over a narrow remote-execution protocol.
//!
//! The decision logic of both halves — the host-side control library and the
//! in-container shell service — lives here, verified. Engine API calls and the
//! wire transport are performed by a thin unverified shell around this crate.
pub mod client;
pub mod container_configurator;
pub mod container_starter;
pub mod context_builder;
pub mod docker_tool_executor;
pub mod dockerfile_manager;
pub mod dockerfile_mangler;
pub mod errors;
pub mod image_builder;
pub mod loader;
pub mod running_docker_executor;
pub mod shell_service;
pub mod text;

pub use running_docker_executor::duration_to_millis;
