//! Standard Security Handler, revision 2: 40-bit RC4 encryption of a
//! document's strings and streams, with MD5-based key derivation.

pub mod padding;
pub mod primitives;
pub mod keys;
pub mod cipher;
pub mod document;
pub mod compress;
