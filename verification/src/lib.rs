//! A liveness probe for game servers: the variable-length integer codec of the
//! wire format, the frames of the handshake, status and ping exchange, and the
//! state machine that drives one probe from connect to result. Beside it, the
//! settings and the list entries of the program that manages the servers.

pub mod config;
pub mod error;
pub mod frame;
pub mod probe;
pub mod replay;
pub mod servers;
pub mod varint;
