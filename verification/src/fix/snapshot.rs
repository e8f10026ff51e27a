//! The snapshot taken before the last applied fix, which `fix restore` puts
//! back. Reading and writing it is left to the caller.

use vstd::prelude::*;
use crate::path::{join, join_path};

verus! {

/// Where the snapshot lives, relative to the repository root.
pub const ROLLBACK_REL: &'static str = ".noslopcode/fix-rollback.json";

/// Repo-relative paths and the contents they had just before the fix ran.
#[derive(Debug)]
pub struct FixRollback {
    pub files: Vec<(String, String)>,
}

impl FixRollback {
    /// Does the snapshot hold no file?
    pub fn is_empty(&self) -> (r: bool)
        ensures
            r == (self.files@.len() == 0),
    {
        self.files.len() == 0
    }

    /// The snapshot's location under `root`.
    pub fn path(root: &str) -> (r: String)
        ensures
            r@ == join(root@, ROLLBACK_REL@),
    {
        join_path(root, ROLLBACK_REL)
    }
}

} // verus!
