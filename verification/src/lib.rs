//! Configuration schema for a WebSocket-style HTTP upgrade client.
//!
//! The crate defines three immutable records — a browser user-agent line
//! (`UserAuthAgent`), the upgrade request header set (`Headers`), and a
//! device descriptor (`UserAgent`) — together with a strict JSON reader
//! that turns a configuration text into a `ConfigParser` value.

pub mod agent;
pub mod config;
pub mod device;
pub mod headers;
pub mod json;

pub use agent::UserAuthAgent;
pub use config::ConfigParser;
pub use config::ParseError;
pub use device::UserAgent;
pub use headers::Headers;
