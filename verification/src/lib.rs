//! Typed binding for the ACL accounts message shape.
//!
//! The wire format is a JSON object with one required field, `accounts`
//! (a map from account name to a map from a closed set of keys to either a
//! list of strings or a single string), and one optional field, `metadata`
//! (an open bag of arbitrary JSON values, omitted when empty).
//!
//! The crate offers three surfaces: the record type itself with its
//! accessors, a deferred-validation builder, and a codec that checks the
//! whole shape at the wire boundary.

pub mod builder;
pub mod codec;
pub mod error;
pub mod json;
pub mod message;

pub use error::ConversionError;
pub use error::DecodeError;
pub use json::Json;
pub use message::AclAccountsMessage;
pub use message::AclAccountsMessageAccountsValueKey;
pub use message::AclAccountsMessageAccountsValueValue;
