//! The mailbox server: players' messages wait in a queue until their connection fetches them.

pub mod blaster;
pub mod connection;
pub mod dialogue;
pub mod effects;
pub mod laws;
pub mod listings;
pub mod model;
pub mod requests;
pub mod round;
pub mod seats;
