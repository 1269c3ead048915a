//! Decision logic of a master/slave servo simulation: the controller's
//! handling of client commands, its bookkeeping of connected clients, and
//! the client's handling of telemetry with its bounded plot history.
pub mod protocol;
pub mod history;
pub mod roster;
pub mod controller;
pub mod client;

pub use protocol::{Command, Message, ServoParams, SimulationState};
