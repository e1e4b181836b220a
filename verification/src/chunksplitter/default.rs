//! A splitter that hands out the readers of a file's chunks one by one and
//! starts over once every chunk was handed out.

use vstd::prelude::*;

use super::{valid_chunk, chunk_count, count_chunks, BufReader, ChunkSplitter};
use crate::filestream::ChunkReader;

verus! {

/// One step of the splitter: from the next index `index`, the index of the
/// chunk handed out (`None` at the end) and the next index after it.
pub open spec fn next_step(index: u64, total_size: u64, chunk_size: u64) -> (Option<u64>, u64) {
    if valid_chunk(index as int, total_size as int, chunk_size as int) {
        (Some(index), (index + 1) as u64)
    } else {
        (None, 0)
    }
}

/// The chunk indices handed out by `k` steps from the next index `index`,
/// and the next index after them.
pub open spec fn run(index: u64, total_size: u64, chunk_size: u64, k: nat) -> (Seq<Option<u64>>, u64)
    decreases k,
{
    if k == 0 {
        (Seq::empty(), index)
    } else {
        let (out, next) = next_step(index, total_size, chunk_size);
        let (rest, last) = run(next, total_size, chunk_size, (k - 1) as nat);
        (seq![out] + rest, last)
    }
}

/// The readers of a file's chunks, handed out in order.
pub struct DefaultChunkSplitter<'a, R> {
    index: u64,
    total_size: u64,
    chunk_size: u64,
    chunk_reader: &'a R,
}

impl<'a, R> DefaultChunkSplitter<'a, R> {
    #[verifier::type_invariant]
    spec fn inv(self) -> bool {
        &&& self.chunk_size > 0
        &&& self.index <= chunk_count(self.total_size as nat, self.chunk_size as nat)
    }

    /// The index of the next chunk to hand out.
    pub closed spec fn next_index(self) -> u64 {
        self.index
    }

    pub closed spec fn spec_total_size(self) -> u64 {
        self.total_size
    }

    pub closed spec fn spec_chunk_size(self) -> u64 {
        self.chunk_size
    }

    pub closed spec fn reader(self) -> &'a R {
        self.chunk_reader
    }

    /// Whether chunk `chunk_index` starts inside the file.
    fn is_valid_chunk(&self, chunk_index: u64) -> (b: bool)
        ensures
            b == valid_chunk(chunk_index as int, self.total_size as int, self.chunk_size as int),
    {
        match chunk_index.checked_mul(self.chunk_size) {
            Some(start) => start < self.total_size,
            None => false,
        }
    }

    /// The size of the file in bytes.
    pub fn total_size(&self) -> (t: u64)
        ensures
            t == self.spec_total_size(),
            self.spec_chunk_size() > 0,
            self.next_index() <= chunk_count(self.spec_total_size() as nat, self.spec_chunk_size() as nat),
    {
        proof {
            use_type_invariant(self);
        }
        self.total_size
    }

    /// The reader of the next chunk; `None` once every chunk was handed out,
    /// after which the splitter starts over from the first chunk.
    pub fn next(&mut self) -> (r: Option<SingleChunkReader<'a, R>>)
        ensures
            reader_index(r) == next_step(
                old(self).next_index(),
                old(self).spec_total_size(),
                old(self).spec_chunk_size(),
            ).0,
            final(self).next_index() == next_step(
                old(self).next_index(),
                old(self).spec_total_size(),
                old(self).spec_chunk_size(),
            ).1,
            r matches Some(rd) ==> rd.reader() == old(self).reader(),
            final(self).spec_total_size() == old(self).spec_total_size(),
            final(self).spec_chunk_size() == old(self).spec_chunk_size(),
            final(self).reader() == old(self).reader(),
            old(self).spec_chunk_size() > 0,
            old(self).next_index() <= chunk_count(old(self).spec_total_size() as nat, old(self).spec_chunk_size() as nat),
            final(self).next_index() <= chunk_count(final(self).spec_total_size() as nat, final(self).spec_chunk_size() as nat),
    {
        proof {
            use_type_invariant(&*self);
            super::lemma_valid_iff_below_count(self.index as nat, self.total_size as nat, self.chunk_size as nat);
        }
        let index = self.index;
        if self.is_valid_chunk(index) {
            assert(index * self.chunk_size >= index) by (nonlinear_arith)
                requires
                    self.chunk_size > 0,
            ;
            self.index = index + 1;
            Some(SingleChunkReader { index, chunk_reader: self.chunk_reader })
        } else {
            self.index = 0;
            None
        }
    }
}

/// The index of the chunk that a reader reads, if there is one.
pub open spec fn reader_index<'a, R>(r: Option<SingleChunkReader<'a, R>>) -> Option<u64> {
    match r {
        Some(rd) => Some(rd.chunk_index()),
        None => None,
    }
}

/// A splitter for a file of `total_size` bytes cut in chunks of `chunk_size`
/// bytes, which reads through `chunk_reader`; refused when `chunk_size` is zero.
pub fn new_default_chunk_splitter<'a, R>(
    chunk_reader: &'a R,
    total_size: u64,
    chunk_size: u64,
) -> (r: Result<DefaultChunkSplitter<'a, R>, String>)
    ensures
        chunk_size == 0 <==> r is Err,
        r matches Err(e) ==> e@ == crate::filestream::zero_chunk_size_message(),
        r matches Ok(s) ==> s.next_index() == 0 && s.spec_total_size() == total_size
            && s.spec_chunk_size() == chunk_size && s.reader() == chunk_reader,
{
    if chunk_size == 0 {
        return Err(crate::filestream::zero_chunk_size_error());
    }
    Ok(DefaultChunkSplitter { index: 0, total_size, chunk_size, chunk_reader })
}

/// The reader of a single chunk of a file.
pub struct SingleChunkReader<'a, R> {
    index: u64,
    chunk_reader: &'a R,
}

impl<'a, R> SingleChunkReader<'a, R> {
    pub closed spec fn chunk_index(self) -> u64 {
        self.index
    }

    pub closed spec fn reader(self) -> &'a R {
        self.chunk_reader
    }

    pub(crate) fn new(index: u64, chunk_reader: &'a R) -> (r: Self)
        ensures
            r.chunk_index() == index,
            r.reader() == chunk_reader,
    {
        SingleChunkReader { index, chunk_reader }
    }

    /// The index of the chunk.
    pub fn index(&self) -> (i: u64)
        ensures
            i == self.chunk_index(),
    {
        self.index
    }
}

/// The message of a failed chunk read: the reader's own message behind a prefix.
pub open spec fn chunk_read_failure(e: Seq<char>) -> Seq<char> {
    "failed to read chunk: "@ + e
}

/// Whether `r` is what the reader of a chunk answers when the chunk source
/// answered `res`: the same bytes, or the source's message behind a prefix.
pub open spec fn labelled_chunk_read(res: Result<Vec<u8>, String>, r: Result<Vec<u8>, String>) -> bool {
    match res {
        Ok(b) => r matches Ok(b2) && b2@ == b@,
        Err(e) => r matches Err(m) && m@ == chunk_read_failure(e@),
    }
}

/// A chunk reader hands on the bytes the chunk source answered unchanged, of
/// every length, and a failure as the source's message behind the prefix
/// `failed to read chunk: `.
pub proof fn lemma_labelled_read_keeps_answer(res: Result<Vec<u8>, String>, r: Result<Vec<u8>, String>)
    requires
        labelled_chunk_read(res, r),
    ensures
        res is Ok <==> r is Ok,
        res matches Ok(b) ==> r->Ok_0@ == b@ && r->Ok_0@.len() == b@.len(),
        res matches Err(e) ==> r->Err_0@ == "failed to read chunk: "@ + e@,
{
}

/// What the reader of a chunk answers for what the chunk source answered:
/// the bytes as they are, or the source's message behind a prefix.
pub fn label_chunk_read(res: Result<Vec<u8>, String>) -> (r: Result<Vec<u8>, String>)
    ensures
        r is Ok <==> res is Ok,
        res matches Ok(b) ==> r matches Ok(b2) && b2@ == b@,
        res matches Err(e) ==> r matches Err(m) && m@ == chunk_read_failure(e@),
{
    match res {
        Ok(buf) => Ok(buf),
        Err(e) => {
            let mut m = String::from_str("failed to read chunk: ");
            proof {
                reveal_strlit("failed to read chunk: ");
            }
            m.append(e.as_str());
            Err(m)
        },
    }
}

impl<'a, R: ChunkReader> BufReader for SingleChunkReader<'a, R> {
    /// Reads the chunk through the chunk source: the answer is what the
    /// source answered for this chunk's index, with a failure labelled.
    fn read(&self) -> (r: Result<Vec<u8>, String>)
        ensures
            exists|res: Result<Vec<u8>, String>|
                #[trigger] call_ensures(R::read_chunk, (self.reader(), self.chunk_index()), res)
                    && labelled_chunk_read(res, r),
    {
        let read_chunk = R::read_chunk;
        let res = read_chunk(self.chunk_reader, self.index);
        let r = label_chunk_read(res);
        assert(call_ensures(R::read_chunk, (self.reader(), self.chunk_index()), res)
            && labelled_chunk_read(res, r));
        r
    }
}

/// The chunks of a file of `total_size` bytes cut in chunks of `chunk_size`
/// bytes; refused when `chunk_size` is zero.
pub(super) fn _new<R>(chunk_reader: R, total_size: u64, chunk_size: u64) -> (r: Result<ChunkSplitter<R>, String>)
    ensures
        chunk_size == 0 <==> r is Err,
        r matches Err(e) ==> e@ == crate::filestream::zero_chunk_size_message(),
        r matches Ok(s) ==> s.spec_num_chunks() == chunk_count(total_size as nat, chunk_size as nat)
            && s.reader() == chunk_reader,
{
    if chunk_size == 0 {
        return Err(crate::filestream::zero_chunk_size_error());
    }
    let num_chunks = count_chunks(total_size, chunk_size);
    Ok(ChunkSplitter::from_parts(num_chunks, chunk_reader))
}

} // verus!
