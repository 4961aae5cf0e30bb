//! Verified core of a client library for the Qualisys Track Manager (QTM)
//! real-time protocol: packet framing, decoding and encoding, command
//! construction, frame assembly for split UDP packets, the mocap subset of
//! the `GetParameters` XML, the decisions of a client and of a simulator
//! on the packets they receive, and the arguments of the diagnostic
//! command line.

pub mod bridge;
pub mod cli;
pub mod components;
pub mod decode;
pub mod encode;
pub mod error;
pub mod numbers;
pub mod packet;
pub mod parameters;
pub mod protocol;
pub mod records;
pub mod roundtrip;
pub mod rt;
pub mod session;
pub mod simulation;
pub mod text;
pub mod wire;
pub mod xml;
