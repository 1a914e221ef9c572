//! Versioned, checksum-protected container for a secret seed and its metadata.
//!
//! A backup is a [`Backup`] envelope around one concrete format. The only
//! format today is [`BackupV1`], which holds a [`BackupContent`]: the encoded
//! [`BackupData`], optional [`BackupMetaData`], a legacy length field and a
//! digest over all three.
//!
//! The modules, leaf first:
//! - `error`: the errors;
//! - `groups`: passing over a group, which is left to `prost`;
//! - `wire`: the tagged, length-delimited byte encoding (varints, keys,
//!   fields);
//! - `text`: text out of bytes;
//! - `schema`, `backup`: the records and their mathematical views;
//! - `format`: the byte format of each record, as mathematics;
//! - `laws`: decoding undoes encoding, and what else holds of the format;
//! - `encode`, `decode`: the encoders and decoders, held to `format`;
//! - `digest`, `checksum`: the digest that authenticates a content record;
//! - `version`: resolution of an envelope to the one format it holds;
//! - `container`: creating the bytes of a backup and loading them back.
//!
//! What is believed without proof: that `sha2` computes SHA-256 (`digest`),
//! how far `prost` goes to pass over a group (`groups`), and that
//! `core::str::from_utf8` accepts exactly the valid UTF-8 (`text`).
pub mod backup;
pub mod checksum;
pub mod container;
pub mod decode;
pub mod digest;
pub mod encode;
pub mod error;
pub mod format;
pub mod groups;
pub mod laws;
pub mod schema;
pub mod text;
pub mod version;
pub mod wire;

pub use backup::BackupVersion;
pub use error::BackupError;
pub use schema::Backup;
pub use schema::BackupContent;
pub use schema::BackupData;
pub use schema::BackupMetaData;
pub use schema::BackupMode;
pub use schema::BackupV1;
