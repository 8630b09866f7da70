//! An in-memory stand-in for a PostgreSQL server, for use in tests of client code.
//!
//! The crate holds the protocol core: framing and decoding of the startup
//! packet, the authentication handshake, and the encoding of the server's
//! replies. It reads and writes nothing: whoever owns the connection hands
//! it bytes and writes what it gives back.

pub mod authentication;
pub mod bytes;
pub mod configuration;
pub mod errors;
pub mod frame;
pub mod md5;
pub mod messages;
pub mod startup;
pub mod startup_encoding;

pub use authentication::{Action, AuthenticationEngine, AuthenticationState, Event, SaslVerdict};
pub use configuration::{AuthenticationType, Configuration, HostAddr, IpAddress};
pub use errors::Errors;
pub use frame::FrameReader;
pub use messages::{OutgoingMessage, Server};
pub use startup::{FrontEndFrames, StartupParameters};
