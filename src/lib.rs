//! Discovery and description of an OSC endpoint pair: the address tree that
//! the query server publishes, the JSON it answers with, the supervisor of
//! the discovery helper process and the parser of that helper's output.

pub mod client;
pub mod json;
pub mod mdns_sidecar;
pub mod models;
pub mod server;
pub mod text;
pub mod tree;

