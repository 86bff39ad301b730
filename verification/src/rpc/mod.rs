//! The session protocol: wire values, their conversion, and both ends of a connection.

pub mod calls;
pub mod client;
pub mod convert;
pub mod fields;
pub mod params;
pub mod server;
pub mod wire;
