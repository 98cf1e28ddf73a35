//! Parsing and validation of the namespaced identifiers of a federated messaging protocol.
//!
//! Every identifier has the shape `<sigil><localpart>:<server name>`. One parser, shared by
//! every identifier kind, checks that shape; the server name is validated as a DNS hostname,
//! an IPv4 address or a bracketed IPv6 address, with an optional port.

pub mod bytes;
pub mod error;
pub mod event_id;
pub mod parse;
pub mod room_alias_id;
pub mod room_id;
pub mod server_name;
pub mod session;
pub mod user_id;
pub mod verification;

pub use error::Error;
pub use event_id::EventId;
pub use room_alias_id::RoomAliasId;
pub use room_id::RoomId;
pub use server_name::ServerName;
pub use user_id::UserId;
pub use session::{LoginType, Medium};
pub use verification::{
    HashAlgorithm, KeyAgreementProtocol, MessageAuthenticationCode, ShortAuthenticationString,
    VerificationMethod,
};
