use simple_store::chunksplitter::{
    self, count_chunks, label_chunk_read, new_default_chunk_splitter, BufReader,
    BufReaderIntoIterator, ChunkSizeDictator,
};
use simple_store::encdec::{self, AesGcmSivWrapper, EncDec};
use simple_store::filestream::{new_chunk_reader, new_local_file_chunker, take_read_bytes, ChunkReader};
use simple_store::index::IndexAction;
use simple_store::uploader;

/// A file held in memory, read chunk by chunk.
struct MemFile {
    data: Vec<u8>,
    chunk_size: usize,
    fail_at: Option<u64>,
}

impl ChunkReader for MemFile {
    fn read_chunk(&self, index: u64) -> Result<Vec<u8>, String> {
        if self.fail_at == Some(index) {
            return Err("disk gone".to_string());
        }
        let start = (index as usize * self.chunk_size).min(self.data.len());
        let end = (start + self.chunk_size).min(self.data.len());
        Ok(self.data[start..end].to_vec())
    }
}

fn mem_file(len: usize, chunk_size: usize) -> MemFile {
    MemFile { data: (0..len).map(|i| i as u8).collect(), chunk_size, fail_at: None }
}

fn key() -> Vec<u8> {
    b"aaaaaaaaaaaaaaaaaaaaaaaaaaaaaaaa".to_vec()
}

#[test]
fn local_file_chunker_refuses_zero_chunk_size() {
    let r = new_local_file_chunker("f".to_string(), 0);
    assert_eq!(r.err(), Some("chunk size must not be zero".to_string()));
    let r = new_chunk_reader("f".to_string(), 0);
    assert_eq!(r.err(), Some("chunk size must not be zero".to_string()));
}

#[test]
fn local_file_chunker_keeps_path_and_size() {
    let c = new_chunk_reader("/data/file.bin".to_string(), 10).unwrap();
    assert_eq!(c.path(), "/data/file.bin");
    assert_eq!(c.chunk_size, 10);
    assert_eq!(c.index_to_offset(0), 0);
    assert_eq!(c.index_to_offset(3), 30);
}

#[test]
fn take_read_bytes_keeps_what_was_read() {
    assert_eq!(take_read_bytes(vec![1, 2, 3, 0, 0], 3), vec![1, 2, 3]);
    assert_eq!(take_read_bytes(vec![0, 0], 0), Vec::<u8>::new());
    assert_eq!(take_read_bytes(vec![4, 5], 2), vec![4, 5]);
}

#[test]
fn chunk_count_is_ceiling() {
    assert_eq!(count_chunks(0, 10), 0);
    assert_eq!(count_chunks(1, 10), 1);
    assert_eq!(count_chunks(10, 10), 1);
    assert_eq!(count_chunks(11, 10), 2);
    assert_eq!(count_chunks(25, 10), 3);
    assert_eq!(count_chunks(u64::MAX, 1), u64::MAX);
    assert_eq!(count_chunks(u64::MAX, u64::MAX), 1);
}

#[test]
fn default_splitter_hands_out_each_chunk_then_starts_over() {
    let f = mem_file(25, 10);
    let mut s = new_default_chunk_splitter(&f, 25, 10).unwrap();
    assert_eq!(s.total_size(), 25);
    let mut seen = vec![];
    while let Some(r) = s.next() {
        seen.push((r.index(), r.read().unwrap()));
    }
    assert_eq!(seen.len(), 3);
    assert_eq!(seen[0].0, 0);
    assert_eq!(seen[1].0, 1);
    assert_eq!(seen[2].0, 2);
    let all: Vec<u8> = seen.iter().flat_map(|(_, b)| b.clone()).collect();
    assert_eq!(all, f.data);
    // fresh again
    assert_eq!(s.next().map(|r| r.index()), Some(0));
}

#[test]
fn default_splitter_of_empty_file_has_no_chunk() {
    let f = mem_file(0, 4);
    let mut s = new_default_chunk_splitter(&f, 0, 4).unwrap();
    assert!(s.next().is_none());
    assert!(s.next().is_none());
}

#[test]
fn default_splitter_refuses_zero_chunk_size() {
    let f = mem_file(5, 1);
    let r = new_default_chunk_splitter(&f, 5, 0);
    assert_eq!(r.err(), Some("chunk size must not be zero".to_string()));
}

#[test]
fn default_splitter_near_the_largest_size() {
    let f = mem_file(0, 1);
    let mut s = new_default_chunk_splitter(&f, u64::MAX, u64::MAX / 2 + 1).unwrap();
    assert_eq!(s.next().map(|r| r.index()), Some(0));
    assert_eq!(s.next().map(|r| r.index()), Some(1));
    assert!(s.next().is_none());
}

#[test]
fn walk_hands_out_each_chunk_then_stays_at_end() {
    let f = mem_file(21, 7);
    let splitter = chunksplitter::new(f, 21, 7).unwrap();
    assert_eq!(splitter.num_chunks(), 3);
    let mut it = (&splitter).into_iter();
    let mut indices = vec![];
    while let Some(r) = it.next() {
        indices.push(r.index());
        assert_eq!(r.read().unwrap().len(), 7);
    }
    assert_eq!(indices, vec![0, 1, 2]);
    assert!(it.next().is_none());
    assert!(it.next().is_none());
}

#[test]
fn walk_and_default_splitter_agree() {
    for (total, chunk) in [(0u64, 3u64), (1, 3), (3, 3), (4, 3), (100, 7), (99, 1)] {
        let f = mem_file(0, 1);
        let mut d = new_default_chunk_splitter(&f, total, chunk).unwrap();
        let mut a = vec![];
        while let Some(r) = d.next() {
            a.push(r.index());
        }
        let s = chunksplitter::new(mem_file(0, 1), total, chunk).unwrap();
        let mut it = s.iter();
        let mut b = vec![];
        while let Some(r) = it.next() {
            b.push(r.index());
        }
        assert_eq!(a, b);
        assert_eq!(b.len() as u64, count_chunks(total, chunk));
    }
}

#[test]
fn splitter_new_refuses_zero_chunk_size() {
    let r = chunksplitter::new(mem_file(3, 1), 3, 0);
    assert_eq!(r.err(), Some("chunk size must not be zero".to_string()));
}

#[test]
fn chunk_read_failure_is_labelled() {
    let mut f = mem_file(10, 5);
    f.fail_at = Some(1);
    let s = chunksplitter::new(f, 10, 5).unwrap();
    let mut it = s.iter();
    let first = it.next().unwrap();
    assert_eq!(first.read().unwrap(), vec![0, 1, 2, 3, 4]);
    let second = it.next().unwrap();
    assert_eq!(second.read().err(), Some("failed to read chunk: disk gone".to_string()));
}

#[test]
fn label_chunk_read_passes_bytes_and_labels_errors() {
    assert_eq!(label_chunk_read(Ok(vec![9, 8])), Ok(vec![9, 8]));
    assert_eq!(label_chunk_read(Err("x".to_string())), Err("failed to read chunk: x".to_string()));
    assert_eq!(label_chunk_read(Err(String::new())), Err("failed to read chunk: ".to_string()));
}

#[test]
fn cipher_accepts_only_32_byte_keys() {
    assert!(encdec::new(&key()).is_ok());
    assert_eq!(encdec::new(&key()[..31]).err(), Some("Invalid Length".to_string()));
    assert_eq!(encdec::new(&[]).err(), Some("Invalid Length".to_string()));
    let mut long = key();
    long.push(0);
    assert_eq!(encdec::new(&long).err(), Some("Invalid Length".to_string()));
}

#[test]
fn adjust_size_leaves_room_for_the_tag() {
    assert_eq!(AesGcmSivWrapper::adjust_size(100), Ok(84));
    assert_eq!(AesGcmSivWrapper::adjust_size(17), Ok(1));
    assert_eq!(
        AesGcmSivWrapper::adjust_size(16),
        Err("not enough size for encryption overhead: 16 <= 16".to_string())
    );
    assert_eq!(
        AesGcmSivWrapper::adjust_size(0),
        Err("not enough size for encryption overhead: 0 <= 16".to_string())
    );
}

#[test]
fn adjusted_chunk_fits_once_encrypted() {
    let c = encdec::new(&key()).unwrap();
    let room = AesGcmSivWrapper::adjust_size(100).unwrap() as usize;
    let mut buf = vec![7u8; room];
    c.enc(&mut buf).unwrap();
    assert_eq!(buf.len(), 100);
}

#[test]
fn decryption_undoes_encryption() {
    let c = encdec::new(&key()).unwrap();
    let mut buffer: Vec<u8> = vec![0; 16];
    buffer.extend_from_slice(b"super cool");
    let plain = buffer.clone();
    c.enc(&mut buffer).unwrap();
    assert_eq!(buffer.len(), plain.len() + 16);
    assert_ne!(&buffer[..plain.len()], &plain[..]);
    c.dec(&mut buffer).unwrap();
    assert_eq!(buffer, plain);
}

#[test]
fn empty_plaintext_round_trip() {
    let c = encdec::new(&key()).unwrap();
    let mut buffer = Vec::new();
    c.enc(&mut buffer).unwrap();
    assert_eq!(buffer.len(), 16);
    c.dec(&mut buffer).unwrap();
    assert!(buffer.is_empty());
}

#[test]
fn equal_chunks_give_equal_ciphertexts() {
    let c = encdec::new(&key()).unwrap();
    let mut a = b"same chunk".to_vec();
    let mut b = b"same chunk".to_vec();
    c.enc(&mut a).unwrap();
    c.enc(&mut b).unwrap();
    assert_eq!(a, b);
}

#[test]
fn tampered_ciphertext_is_refused_and_kept() {
    let c = encdec::new(&key()).unwrap();
    let mut buffer = b"hello chunk".to_vec();
    c.enc(&mut buffer).unwrap();
    buffer[0] ^= 1;
    let tampered = buffer.clone();
    assert_eq!(c.dec(&mut buffer).err(), Some("failed to decrypt: Error".to_string()));
    assert_eq!(buffer, tampered);
}

#[test]
fn other_key_cannot_decrypt() {
    let c = encdec::new(&key()).unwrap();
    let d = encdec::new(&[b'b'; 32]).unwrap();
    let mut buffer = b"secret".to_vec();
    c.enc(&mut buffer).unwrap();
    let sealed = buffer.clone();
    assert!(d.dec(&mut buffer).is_err());
    assert_eq!(buffer, sealed);
}

#[test]
fn buffer_shorter_than_tag_is_refused() {
    let c = encdec::new(&key()).unwrap();
    let mut buffer = vec![1u8; 15];
    assert_eq!(c.dec(&mut buffer).err(), Some("failed to decrypt: Error".to_string()));
    assert_eq!(buffer, vec![1u8; 15]);
}

#[test]
fn uploader_path_holds_the_index() {
    assert_eq!(uploader::new(0).path(), "/tmp/local_upload/0");
    assert_eq!(uploader::new(7).path(), "/tmp/local_upload/7");
    assert_eq!(uploader::new(10).path(), "/tmp/local_upload/10");
    assert_eq!(uploader::new(12345).path(), "/tmp/local_upload/12345");
    assert_eq!(uploader::new(u64::MAX).path(), "/tmp/local_upload/18446744073709551615");
}

#[test]
fn index_action_name() {
    assert_eq!(IndexAction::UPLOAD.as_str(), "upload");
}

#[test]
fn default_splitter_second_cycle_repeats_the_first() {
    let f = mem_file(0, 1);
    let mut s = new_default_chunk_splitter(&f, 23, 5).unwrap();
    let mut cycles = vec![];
    for _ in 0..2 {
        let mut c = vec![];
        loop {
            match s.next() {
                Some(r) => c.push(Some(r.index())),
                None => {
                    c.push(None);
                    break;
                }
            }
        }
        cycles.push(c);
    }
    assert_eq!(cycles[0], vec![Some(0), Some(1), Some(2), Some(3), Some(4), None]);
    assert_eq!(cycles[0], cycles[1]);
    assert_eq!(s.total_size(), 23);
}
