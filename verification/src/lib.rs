//! The logic of a proxy between a client that speaks the Model Context Protocol over
//! standard input and output and a server that speaks it over HTTP.

pub mod cli;
pub mod connection;
pub mod endpoint;
pub mod events;
pub mod ids;
pub mod json;
pub mod members;
pub mod message_transform;
pub mod models;
pub mod proxy;
pub mod proxy_events;
pub mod proxy_laws;
pub mod relay;
pub mod relay_events;
pub mod relay_laws;
pub mod replies;
pub mod sse;
pub mod tasks;
pub mod text;
pub mod transform_laws;
pub mod wire;
