//! Local control surface for a chat client: a configuration store for model
//! providers and agent servers, a composer for agent protocol messages, and a
//! relay that turns a completion token stream into ordered events.

pub mod json;
pub mod model;
pub mod error;
pub mod model_store;
pub mod server_store;
pub mod text;
pub mod compose;
pub mod db;
pub mod relay;
pub mod chat;
pub mod reply;
