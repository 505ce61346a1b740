//! In-memory core of a room-based chat relay: the challenge, user and
//! history stores, the per-connection session state machine, and the
//! room-key sealing service.

pub mod keyed_list;
pub mod state;
pub mod platform;
pub mod routes;
pub mod relay;
