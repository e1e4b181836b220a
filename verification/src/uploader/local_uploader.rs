//! Uploading chunks to a directory of the local disk.

use vstd::prelude::*;

use crate::decimal::{decimal, push_decimal};

verus! {

/// The place of chunk `index`: `/tmp/local_upload/` followed by the index in decimal.
pub open spec fn upload_path(index: u64) -> Seq<char> {
    "/tmp/local_upload/"@ + decimal(index as nat)
}

/// Uploads a chunk to a file of the local disk.
pub struct LocalUploader {
    path: String,
}

impl LocalUploader {
    pub closed spec fn path_view(&self) -> Seq<char> {
        self.path@
    }

    /// An uploader to `path`.
    pub fn from_path(path: String) -> (u: LocalUploader)
        ensures
            u.path_view() == path@,
    {
        LocalUploader { path }
    }

    /// The path the chunk is uploaded to.
    pub fn path(&self) -> (p: &str)
        ensures
            p@ == self.path_view(),
    {
        self.path.as_str()
    }
}

/// The uploader of chunk `index`.
pub fn new(index: u64) -> (u: LocalUploader)
    ensures
        u.path_view() == upload_path(index),
{
    let mut path = String::from_str("/tmp/local_upload/");
    proof {
        reveal_strlit("/tmp/local_upload/");
    }
    push_decimal(&mut path, index);
    LocalUploader { path }
}

/// Different chunks are never uploaded to the same place.
pub proof fn lemma_upload_paths_distinct(a: u64, b: u64)
    requires
        a != b,
    ensures
        upload_path(a) != upload_path(b),
{
    crate::decimal::lemma_decimal_injective(a as nat, b as nat);
    if upload_path(a) == upload_path(b) {
        let p = "/tmp/local_upload/"@;
        assert(decimal(a as nat) == upload_path(a).subrange(p.len() as int, upload_path(a).len() as int));
        assert(decimal(b as nat) == upload_path(b).subrange(p.len() as int, upload_path(b).len() as int));
    }
}

} // verus!
