//! The speech service: request and response handling, model choice and the
//! provider-facing data.
pub mod interactions_client;
pub mod model_registry;
pub mod provider;
