//! What was read from a directory: its entries, their kinds and contents.
use vstd::prelude::*;

verus! {

/// One entry of a directory: its name when that is valid Unicode, whether it
/// is a regular file, and its content when it is a file that could be read
/// as UTF-8 text.
#[derive(Debug, Clone, PartialEq, Eq)]
pub struct DirectoryEntry {
    pub file_name: Option<String>,
    pub is_file: bool,
    pub content: Option<String>,
}

/// A directory as read: whether the path is a directory, and the entries
/// that could be listed (none when it could not be read).
#[derive(Debug, Clone, PartialEq, Eq)]
pub struct DirectorySnapshot {
    pub is_dir: bool,
    pub entries: Vec<DirectoryEntry>,
}

/// Some entry of the directory is a regular file.
pub open spec fn holds_a_file(d: DirectorySnapshot) -> bool {
    exists|i: int| 0 <= i < d.entries@.len() && #[trigger] d.entries@[i].is_file
}

/// Extension of directories.
pub trait PathExt {
    /// Whether the path is a directory that contains at least one file.
    fn has_files(&self) -> bool;
}

impl PathExt for DirectorySnapshot {
    fn has_files(&self) -> (r: bool)
        ensures
            r == holds_a_file(*self),
            r <==> exists|i: int| 0 <= i < self.entries@.len() && (#[trigger] self.entries@[i]).is_file,
    {
        let mut i: usize = 0;
        while i < self.entries.len()
            invariant
                i <= self.entries.len(),
                forall|j: int| 0 <= j < i ==> !(#[trigger] self.entries@[j]).is_file,
            decreases self.entries.len() - i,
        {
            if self.entries[i].is_file {
                return true;
            }
            i = i + 1;
        }
        false
    }
}

impl DirectorySnapshot {
    /// Whether the path is a directory that contains at least one file.
    pub fn is_dir_with_files(&self) -> (r: bool)
        ensures
            r == (self.is_dir && holds_a_file(*self)),
    {
        self.is_dir && self.has_files()
    }
}

} // verus!
