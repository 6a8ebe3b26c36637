//! An email message model: decomposition of raw MIME bytes into a typed
//! body tree, extraction of structured header metadata, and composition of
//! well-formed outgoing RFC5322 messages with reply threading.

pub mod addresses;
pub mod compose;
pub mod database;
pub mod error;
pub mod headers;
pub mod mime;
pub mod outside;
pub mod strutil;

pub use addresses::EmlAddr;
pub use addresses::Mailbox;
pub use compose::Attachment;
pub use compose::ReplyTemplate;
pub use database::Database;
pub use error::AmailError;
pub use error::EmlParseError;
pub use headers::EmlMeta;
pub use headers::Rfc5322Fields;
pub use headers::StoredEml;
pub use mime::plaintext;
pub use mime::EmlBody;
pub use mime::MimePart;
