//! Typed reading of tagged document values.
//!
//! A document is a mapping from field names to tagged values. The
//! [`deserializer::Deserializer`] walks such a document with an explicit stack
//! of bundles, one per container level, and hands out booleans, integers,
//! strings, byte buffers and container boundaries as a destination asks for
//! them. Every mismatch is reported with the path of the offending value.
pub mod sequence;
pub mod text;
pub mod trace_key;
pub mod datastore;
pub mod deserializer;
pub mod error;
pub mod firestore;
pub mod key;
pub mod pubsub;
pub mod value;
