//! Shared estimation rooms: a registry of rooms, the participants' votes in
//! each, the protocol spoken with each connection, and the per-connection
//! session logic that ties them to a room's broadcast channel.

pub mod keyed;
mod outside;
pub mod models;
pub mod protocol;
pub mod registry;
pub mod session;
pub mod laws;
