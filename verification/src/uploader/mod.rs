//! Where the chunks go.

use vstd::prelude::*;

mod local_uploader;

pub use self::local_uploader::{LocalUploader, upload_path, lemma_upload_paths_distinct};

verus! {

/// The uploader of chunk `index`.
pub fn new(index: u64) -> (u: LocalUploader)
    ensures
        u.path_view() == upload_path(index),
{
    local_uploader::new(index)
}

} // verus!
