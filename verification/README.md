# simple_store

Splits a file into chunks of a fixed size, encrypts chunks with
AES-256-GCM-SIV and names the place each chunk is uploaded to.

- `src/` is the verified library: chunk arithmetic and the two splitters
  (`chunksplitter`), the local-file chunker (`filestream`), the cipher
  (`encdec`, calling the `aes-gcm-siv` crate through trusted wrappers), the
  upload paths (`uploader`), decimal rendering (`decimal`) and the index
  actions (`index`).
- `app/` is the command-line program: argument parsing, configuration,
  reading the file from disk, threads, and YAML output of upload records.
- `tests/` runs the library on concrete values.
