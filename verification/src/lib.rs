//! Core of a blind file-sharing relay.
//!
//! A sender encrypts a file locally into a self-describing blob, uploads the
//! blob to a relay under a short random identifier, and shares the identifier
//! together with a text token of the key out of band.  The relay never sees
//! the key: it stores opaque bytes under the identifier, exactly once, and
//! serves them back to whoever presents the identifier.
//!
//! The crate holds the verified core: the envelope codec (framing plus
//! authenticated encryption), the key codec, the share-identifier rules, the
//! write-once blob store discipline, and the request paths.  Transport and
//! filesystem plumbing stay outside.

pub mod envelope;
pub mod errors;
pub mod framing;
pub mod keycodec;
pub mod share_id;
pub mod store;
pub mod urls;
