//! What clients and the server say to each other.

pub mod aux;
pub mod payloads;
