//! The actions recorded in the index of stored files.

use vstd::prelude::*;

verus! {

/// An action on a stored file.
#[allow(non_camel_case_types)]
#[derive(PartialEq, Eq, Structural, Clone, Copy, Debug)]
pub enum IndexAction {
    UPLOAD,
}

impl IndexAction {
    /// The name of the action as the index records it.
    pub fn as_str(&self) -> (s: &'static str)
        ensures
            s@ == "upload"@,
    {
        proof {
            reveal_strlit("upload");
        }
        match self {
            IndexAction::UPLOAD => "upload",
        }
    }
}

} // verus!
