//! Checks that a set of files on disk, described by a manifest, matches the
//! file layout and byte sizes declared inside torrent metadata documents.
//!
//! The library decodes torrent metadata from its binary serialization,
//! decodes a manifest from already-parsed structured text, normalizes each
//! declared file to its canonical full path, and reconciles it against the
//! manifest, yielding one verdict per file. Only declared paths and lengths
//! are checked; piece digests are carried as opaque bytes.

pub mod value;
pub mod bencode;
pub mod torrent;
pub mod jsonval;
pub mod manifest;
pub mod reconcile;
