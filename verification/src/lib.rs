//! Splits a file into fixed-size chunks, encrypts each chunk with
//! AES-256-GCM-SIV and describes where each chunk is uploaded.

pub mod decimal;
pub mod filestream;
pub mod chunksplitter;
pub mod encdec;
pub mod uploader;
pub mod index;
