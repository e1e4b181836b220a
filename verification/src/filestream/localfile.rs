//! Chunks of a file on the local disk.

use vstd::prelude::*;

verus! {

/// The message of a refused zero chunk size.
pub open spec fn zero_chunk_size_message() -> Seq<char> {
    "chunk size must not be zero"@
}

/// Where the chunks of a local file are: the file's path and the length of
/// each chunk. Chunk `i` starts at byte `i * chunk_size`.
pub struct LocalFileChunker {
    pub path: String,
    pub chunk_size: u64,
}

impl LocalFileChunker {
    /// The path of the file.
    pub fn path(&self) -> (p: &str)
        ensures
            p@ == self.path@,
    {
        self.path.as_str()
    }

    /// The byte offset at which chunk `index` starts.
    pub fn index_to_offset(&self, index: u64) -> (offset: u64)
        requires
            self.chunk_size * index <= u64::MAX,
        ensures
            offset == self.chunk_size * index,
    {
        self.chunk_size * index
    }
}

/// The message of a refused zero chunk size.
pub fn zero_chunk_size_error() -> (e: String)
    ensures
        e@ == zero_chunk_size_message(),
{
    proof {
        reveal_strlit("chunk size must not be zero");
    }
    String::from_str("chunk size must not be zero")
}

/// A chunker for the local file at `path`; refused when `chunk_size` is zero.
pub fn new_local_file_chunker(path: String, chunk_size: u64) -> (r: Result<LocalFileChunker, String>)
    ensures
        chunk_size == 0 <==> r is Err,
        r matches Err(e) ==> e@ == zero_chunk_size_message(),
        r matches Ok(c) ==> c.path@ == path@ && c.chunk_size == chunk_size,
{
    if chunk_size == 0 {
        return Err(crate::filestream::zero_chunk_size_error());
    }
    Ok(LocalFileChunker { path, chunk_size })
}

/// What a single read into `buf` delivered: its first `read_bytes` bytes.
pub fn take_read_bytes(buf: Vec<u8>, read_bytes: usize) -> (chunk: Vec<u8>)
    requires
        read_bytes <= buf@.len(),
    ensures
        chunk@ == buf@.take(read_bytes as int),
{
    let mut chunk = buf;
    chunk.truncate(read_bytes);
    chunk
}

} // verus!
