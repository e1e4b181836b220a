//! Cutting a file of known size into chunks of a fixed size.
//!
//! Chunk `i` covers the bytes `[i * chunk_size, min((i + 1) * chunk_size, total_size))`
//! of the file; the chunks are those whose start lies inside the file.

use vstd::prelude::*;

mod default;

pub use self::default::{
    DefaultChunkSplitter, SingleChunkReader, new_default_chunk_splitter, label_chunk_read,
    next_step, run, reader_index, chunk_read_failure, labelled_chunk_read,
    lemma_labelled_read_keeps_answer,
};

verus! {

/// Whether chunk `index` starts inside a file of `total_size` bytes.
pub open spec fn valid_chunk(index: int, total_size: int, chunk_size: int) -> bool {
    index * chunk_size < total_size
}

/// The number of chunks of a file of `total_size` bytes: `ceil(total_size / chunk_size)`.
pub open spec fn chunk_count(total_size: nat, chunk_size: nat) -> nat {
    if total_size == 0 {
        0
    } else {
        ((total_size - 1) as nat / chunk_size + 1) as nat
    }
}

/// A chunk is valid exactly when its index is below the number of chunks.
pub proof fn lemma_valid_iff_below_count(index: nat, total_size: nat, chunk_size: nat)
    requires
        chunk_size > 0,
    ensures
        valid_chunk(index as int, total_size as int, chunk_size as int) <==> index < chunk_count(
            total_size,
            chunk_size,
        ),
{
    if total_size > 0 {
        let x = (total_size - 1) as int;
        let c = chunk_size as int;
        let q = x / c;
        let r = x % c;
        vstd::arithmetic::div_mod::lemma_fundamental_div_mod(x, c);
        vstd::arithmetic::div_mod::lemma_mod_pos_bound(x, c);
        let i = index as int;
        if i <= q {
            vstd::arithmetic::mul::lemma_mul_inequality(i, q, c);
            assert(i * c <= q * c);
            assert(q * c == c * q) by (nonlinear_arith);
        } else {
            vstd::arithmetic::mul::lemma_mul_inequality(q + 1, i, c);
            assert((q + 1) * c == c * q + c) by (nonlinear_arith);
        }
    } else {
        assert(index * chunk_size >= 0) by (nonlinear_arith);
    }
}

/// Produces the reader of one chunk.
pub trait BufReader: Send {
    fn read(&self) -> Result<Vec<u8>, String>;
}

/// Decides how much of a chunk is left for the data when a stage of the
/// pipeline adds its own bytes.
pub trait ChunkSizeDictator {
    fn adjust_size(current_size: u64) -> Result<u64, String>;
}

/// The number of chunks of a file of `total_size` bytes.
pub fn count_chunks(total_size: u64, chunk_size: u64) -> (n: u64)
    requires
        chunk_size > 0,
    ensures
        n == chunk_count(total_size as nat, chunk_size as nat),
{
    if total_size == 0 {
        0
    } else {
        (total_size - 1) / chunk_size + 1
    }
}

/// The chunks of a file, each read through the same chunk source.
pub struct ChunkSplitter<R> {
    num_chunks: u64,
    chunk_reader: R,
}

/// Walks the chunks of a `ChunkSplitter` in order.
pub struct ChunkSplitterIter<'a, R> {
    index: u64,
    splitter: &'a ChunkSplitter<R>,
}

impl<R> ChunkSplitter<R> {
    pub closed spec fn spec_num_chunks(&self) -> u64 {
        self.num_chunks
    }

    pub closed spec fn reader(&self) -> R {
        self.chunk_reader
    }

    pub(crate) fn from_parts(num_chunks: u64, chunk_reader: R) -> (s: Self)
        ensures
            s.spec_num_chunks() == num_chunks,
            s.reader() == chunk_reader,
    {
        ChunkSplitter { num_chunks, chunk_reader }
    }

    /// The number of chunks.
    pub fn num_chunks(&self) -> (n: u64)
        ensures
            n == self.spec_num_chunks(),
    {
        self.num_chunks
    }

    /// A walk over the chunks, from the first one.
    pub fn iter<'a>(&'a self) -> (it: ChunkSplitterIter<'a, R>)
        ensures
            it.next_index() == 0,
            it.splitter() == self,
    {
        ChunkSplitterIter { index: 0, splitter: self }
    }
}

/// One step of a walk over `num_chunks` chunks: the chunk handed out from the
/// next index `index` (`None` at the end, where the walk stays) and the next
/// index after it.
pub open spec fn iter_step(index: u64, num_chunks: u64) -> (Option<u64>, u64) {
    if index < num_chunks {
        (Some(index), (index + 1) as u64)
    } else {
        (None, index)
    }
}

/// The chunk indices handed out by `k` steps of a walk from the next index `index`.
pub open spec fn iter_run(index: u64, num_chunks: u64, k: nat) -> Seq<Option<u64>>
    decreases k,
{
    if k == 0 {
        Seq::empty()
    } else {
        let (out, next) = iter_step(index, num_chunks);
        seq![out] + iter_run(next, num_chunks, (k - 1) as nat)
    }
}

impl<'a, R> ChunkSplitterIter<'a, R> {
    pub closed spec fn next_index(&self) -> u64 {
        self.index
    }

    pub closed spec fn splitter(&self) -> &'a ChunkSplitter<R> {
        self.splitter
    }

    /// The reader of the next chunk, or `None` once every chunk was handed out.
    pub fn next(&mut self) -> (r: Option<SingleChunkReader<'a, R>>)
        ensures
            reader_index(r) == iter_step(old(self).next_index(), old(self).splitter().spec_num_chunks()).0,
            final(self).next_index() == iter_step(
                old(self).next_index(),
                old(self).splitter().spec_num_chunks(),
            ).1,
            final(self).splitter() == old(self).splitter(),
            r matches Some(rd) ==> rd.reader() == &old(self).splitter().reader(),
    {
        if self.index < self.splitter.num_chunks {
            let index = self.index;
            self.index = index + 1;
            Some(SingleChunkReader::new(index, &self.splitter.chunk_reader))
        } else {
            None
        }
    }
}

/// Turns a splitter into the walk over its chunks.
pub trait BufReaderIntoIterator<'a, R> {
    fn into_iter(self) -> ChunkSplitterIter<'a, R>;
}

impl<'a, R> BufReaderIntoIterator<'a, R> for &'a ChunkSplitter<R> {
    fn into_iter(self) -> (it: ChunkSplitterIter<'a, R>)
        ensures
            it.next_index() == 0,
            it.splitter() == self,
    {
        self.iter()
    }
}

/// The chunks of a file of `total_size` bytes cut in chunks of `chunk_size`
/// bytes, read through `chunk_reader`; refused when `chunk_size` is zero.
pub fn new<R>(chunk_reader: R, total_size: u64, chunk_size: u64) -> (r: Result<ChunkSplitter<R>, String>)
    ensures
        chunk_size == 0 <==> r is Err,
        r matches Err(e) ==> e@ == crate::filestream::zero_chunk_size_message(),
        r matches Ok(s) ==> s.spec_num_chunks() == chunk_count(total_size as nat, chunk_size as nat)
            && s.reader() == chunk_reader,
{
    default::_new(chunk_reader, total_size, chunk_size)
}

/// The indices handed out by a walk over `num_chunks` chunks from `start`:
/// `start, start + 1, ..., num_chunks - 1`, then the end.
pub open spec fn indices_then_end(start: nat, num_chunks: nat) -> Seq<Option<u64>> {
    Seq::new((num_chunks - start) as nat, |i: int| Some((start + i) as u64)).push(None)
}

/// The number of chunks never exceeds the size of the file (for a chunk size above zero).
pub proof fn lemma_chunk_count_bounded(total_size: nat, chunk_size: nat)
    requires
        chunk_size > 0,
    ensures
        chunk_count(total_size, chunk_size) <= total_size,
{
    if total_size > 0 {
        let x = (total_size - 1) as int;
        vstd::arithmetic::div_mod::lemma_fundamental_div_mod(x, chunk_size as int);
        vstd::arithmetic::div_mod::lemma_mod_pos_bound(x, chunk_size as int);
        vstd::arithmetic::div_mod::lemma_div_pos_is_pos(x, chunk_size as int);
        let q = x / (chunk_size as int);
        vstd::arithmetic::mul::lemma_mul_inequality(1, chunk_size as int, q);
        assert(chunk_size * q == q * chunk_size) by (nonlinear_arith);
    }
}

proof fn lemma_run_from(start: u64, total_size: u64, chunk_size: u64)
    requires
        chunk_size > 0,
        start <= chunk_count(total_size as nat, chunk_size as nat),
    ensures
        run(start, total_size, chunk_size, (chunk_count(total_size as nat, chunk_size as nat) - start + 1) as nat)
            == (indices_then_end(start as nat, chunk_count(total_size as nat, chunk_size as nat)), 0u64),
    decreases chunk_count(total_size as nat, chunk_size as nat) - start,
{
    let n = chunk_count(total_size as nat, chunk_size as nat);
    let k = (n - start + 1) as nat;
    lemma_valid_iff_below_count(start as nat, total_size as nat, chunk_size as nat);
    lemma_chunk_count_bounded(total_size as nat, chunk_size as nat);
    if start == n {
        assert(run(0u64, total_size, chunk_size, 0) == (Seq::<Option<u64>>::empty(), 0u64));
        assert(indices_then_end(start as nat, n) =~= seq![None]);
    } else {
        let next = (start + 1) as u64;
        lemma_run_from(next, total_size, chunk_size);
        let tail = indices_then_end(next as nat, n);
        assert(run(start, total_size, chunk_size, k) == (seq![Some(start)] + tail, 0u64));
        assert(seq![Some(start)] + tail =~= indices_then_end(start as nat, n));
    }
}

/// A fresh splitter hands out the readers of chunks `0, 1, ..., n - 1`, where
/// `n` is the number of chunks, then reports the end once, after which it is
/// fresh again.
pub proof fn lemma_splitter_hands_out_every_chunk_once(total_size: u64, chunk_size: u64)
    requires
        chunk_size > 0,
    ensures
        run(0, total_size, chunk_size, chunk_count(total_size as nat, chunk_size as nat) + 1) == (
            indices_then_end(0, chunk_count(total_size as nat, chunk_size as nat)),
            0u64,
        ),
{
    lemma_run_from(0, total_size, chunk_size);
}

proof fn lemma_iter_run_from(start: u64, num_chunks: u64)
    requires
        start <= num_chunks,
    ensures
        iter_run(start, num_chunks, (num_chunks - start + 1) as nat) == indices_then_end(start as nat, num_chunks as nat),
    decreases num_chunks - start,
{
    if start == num_chunks {
        assert(iter_run(start, num_chunks, 0) == Seq::<Option<u64>>::empty());
        assert(indices_then_end(start as nat, num_chunks as nat) =~= seq![None]);
    } else {
        lemma_iter_run_from((start + 1) as u64, num_chunks);
        assert(iter_run(start, num_chunks, (num_chunks - start + 1) as nat) == seq![Some(start)]
            + iter_run((start + 1) as u64, num_chunks, (num_chunks - start) as nat));
        assert(seq![Some(start)] + indices_then_end((start + 1) as nat, num_chunks as nat)
            =~= indices_then_end(start as nat, num_chunks as nat));
    }
}

/// Walking the chunks of a `ChunkSplitter` built for a file hands out the same
/// chunks, in the same order, as a fresh `DefaultChunkSplitter` for that file,
/// and then stays at the end.
pub proof fn lemma_walk_matches_splitter(total_size: u64, chunk_size: u64, extra: nat)
    requires
        chunk_size > 0,
    ensures
        ({
            let n = chunk_count(total_size as nat, chunk_size as nat);
            &&& iter_run(0, n as u64, n + 1) == run(0, total_size, chunk_size, n + 1).0
            &&& iter_run(n as u64, n as u64, extra) == Seq::new(extra, |i: int| None::<u64>)
        }),
    decreases extra,
{
    let n = chunk_count(total_size as nat, chunk_size as nat);
    lemma_chunk_count_bounded(total_size as nat, chunk_size as nat);
    lemma_iter_run_from(0, n as u64);
    lemma_run_from(0, total_size, chunk_size);
    if extra > 0 {
        lemma_walk_matches_splitter(total_size, chunk_size, (extra - 1) as nat);
        assert(iter_run(n as u64, n as u64, extra) =~= Seq::new(extra, |i: int| None::<u64>));
    } else {
        assert(iter_run(n as u64, n as u64, extra) =~= Seq::new(extra, |i: int| None::<u64>));
    }
}

/// The chunks cover the file exactly: every byte of the file lies in the
/// valid chunk `offset / chunk_size`, and the last chunk starts inside the
/// file and ends at or past its end.
pub proof fn lemma_chunks_cover_file(total_size: nat, chunk_size: nat, offset: nat)
    requires
        chunk_size > 0,
    ensures
        offset < total_size ==> {
            let i = offset / chunk_size;
            &&& valid_chunk(i as int, total_size as int, chunk_size as int)
            &&& i * chunk_size <= offset < (i + 1) * chunk_size
        },
        ({
            let n = chunk_count(total_size, chunk_size);
            &&& n * chunk_size >= total_size
            &&& n > 0 ==> valid_chunk(n - 1, total_size as int, chunk_size as int)
        }),
{
    let c = chunk_size as int;
    let o = offset as int;
    vstd::arithmetic::div_mod::lemma_fundamental_div_mod(o, c);
    vstd::arithmetic::div_mod::lemma_mod_pos_bound(o, c);
    let i = o / c;
    assert(c * i == i * c && (i + 1) * c == i * c + c) by (nonlinear_arith);
    let n = chunk_count(total_size, chunk_size);
    if n > 0 {
        lemma_valid_iff_below_count((n - 1) as nat, total_size, chunk_size);
        let x = (total_size - 1) as int;
        vstd::arithmetic::div_mod::lemma_fundamental_div_mod(x, c);
        vstd::arithmetic::div_mod::lemma_mod_pos_bound(x, c);
        let q = x / c;
        assert(n * c == c * q + c) by (nonlinear_arith)
            requires
                n == q + 1,
        ;
    }
}

/// The valid chunks are an initial run of indices: if a chunk is not valid,
/// neither is the next one.
pub proof fn lemma_valid_chunks_downward_closed(index: nat, total_size: nat, chunk_size: nat)
    requires
        chunk_size > 0,
    ensures
        !valid_chunk(index as int, total_size as int, chunk_size as int) ==> !valid_chunk(
            index + 1int,
            total_size as int,
            chunk_size as int,
        ),
{
    lemma_valid_iff_below_count(index, total_size, chunk_size);
    lemma_valid_iff_below_count(index + 1, total_size, chunk_size);
}

/// From a next index at or below the number of chunks, every number of steps
/// leaves the next index at or below the number of chunks.
pub proof fn lemma_run_index_bounded(start: u64, total_size: u64, chunk_size: u64, k: nat)
    requires
        chunk_size > 0,
        start <= chunk_count(total_size as nat, chunk_size as nat),
    ensures
        run(start, total_size, chunk_size, k).1 <= chunk_count(total_size as nat, chunk_size as nat),
    decreases k,
{
    if k > 0 {
        lemma_valid_iff_below_count(start as nat, total_size as nat, chunk_size as nat);
        let next = next_step(start, total_size, chunk_size).1;
        lemma_run_index_bounded(next, total_size, chunk_size, (k - 1) as nat);
    }
}

/// After any number of calls of `next` on a fresh splitter, its next index is
/// at or below the number of chunks.
pub proof fn lemma_splitter_index_bounded(total_size: u64, chunk_size: u64, k: nat)
    requires
        chunk_size > 0,
    ensures
        run(0, total_size, chunk_size, k).1 <= chunk_count(total_size as nat, chunk_size as nat),
{
    lemma_run_index_bounded(0, total_size, chunk_size, k);
}

/// Steps compose: `k1 + k2` steps hand out what `k1` steps hand out, then what
/// `k2` more steps hand out from where those ended.
pub proof fn lemma_run_split(start: u64, total_size: u64, chunk_size: u64, k1: nat, k2: nat)
    ensures
        ({
            let (out1, mid) = run(start, total_size, chunk_size, k1);
            let (out2, last) = run(mid, total_size, chunk_size, k2);
            run(start, total_size, chunk_size, k1 + k2) == (out1 + out2, last)
        }),
    decreases k1,
{
    if k1 == 0 {
        let (out2, last) = run(start, total_size, chunk_size, k2);
        assert(Seq::<Option<u64>>::empty() + out2 =~= out2);
    } else {
        let next = next_step(start, total_size, chunk_size).1;
        lemma_run_split(next, total_size, chunk_size, (k1 - 1) as nat, k2);
        let (rest1, mid) = run(next, total_size, chunk_size, (k1 - 1) as nat);
        let (out2, last) = run(mid, total_size, chunk_size, k2);
        let head = seq![next_step(start, total_size, chunk_size).0];
        assert(run(start, total_size, chunk_size, k1 + k2) == (head + (rest1 + out2), last));
        assert(head + (rest1 + out2) =~= (head + rest1) + out2);
    }
}

/// After handing out every chunk and the end, a splitter starts over: the
/// following calls of `next` give the same answers as on a fresh splitter.
pub proof fn lemma_splitter_starts_over(total_size: u64, chunk_size: u64, k: nat)
    requires
        chunk_size > 0,
    ensures
        ({
            let n = chunk_count(total_size as nat, chunk_size as nat);
            let (first, _) = run(0, total_size, chunk_size, n + 1);
            let (then, last) = run(0, total_size, chunk_size, k);
            run(0, total_size, chunk_size, n + 1 + k) == (first + then, last)
        }),
{
    let n = chunk_count(total_size as nat, chunk_size as nat);
    lemma_splitter_hands_out_every_chunk_once(total_size, chunk_size);
    lemma_run_split(0, total_size, chunk_size, n + 1, k);
}

} // verus!
