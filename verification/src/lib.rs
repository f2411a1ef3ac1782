//! Client side of the icecream distributed-compilation protocol: building
//! the messages a daemon sends to the scheduler and to compile servers,
//! framing them for the wire, and decoding what the scheduler answers.

pub mod buffer;
pub mod discovery;
pub mod job;
pub mod msg;
pub mod parse;
pub mod requests;
pub mod wire;
