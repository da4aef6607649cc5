//! Status probing for Minecraft Java Edition servers: the Server List Ping
//! wire format, the decoding of the status reply, the choice of socket
//! candidates from DNS answers, and the sorted snapshots that are served.
pub mod varint;
pub mod packet;
pub mod status;
pub mod resolve;
pub mod service;
pub mod race;
pub mod probe;
