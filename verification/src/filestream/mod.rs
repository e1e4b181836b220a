//! Reading a file chunk by chunk.

use vstd::prelude::*;

mod localfile;

pub use self::localfile::{new_local_file_chunker, take_read_bytes, LocalFileChunker, zero_chunk_size_message,
    zero_chunk_size_error};

verus! {

/// A source of the chunks of one file, addressed by their index.
///
/// The implementor performs the read (a file is outside what this library
/// can hold) and hands back the bytes of the chunk, or a message for the
/// failure.
pub trait ChunkReader: Send + Sync {
    fn read_chunk(&self, index: u64) -> Result<Vec<u8>, String>;
}

/// A chunker for the local file at `path`, whose chunks are `chunk_size`
/// bytes long; refused when `chunk_size` is zero.
pub fn new_chunk_reader(path: String, chunk_size: u64) -> (r: Result<LocalFileChunker, String>)
    ensures
        chunk_size == 0 <==> r is Err,
        r matches Err(e) ==> e@ == localfile::zero_chunk_size_message(),
        r matches Ok(c) ==> c.path@ == path@ && c.chunk_size == chunk_size,
{
    new_local_file_chunker(path, chunk_size)
}

} // verus!
