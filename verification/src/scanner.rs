//! Decisions of the scan: what becomes of a file, and the order in which
//! the files go on to the chunking engine.

use vstd::prelude::*;
use std::path::PathBuf;
use crate::error::Error;
use crate::file::FileData;

verus! {

/// What the scan does with a file.
#[derive(Debug, Clone, Copy, PartialEq, Eq, Structural)]
pub enum Treatment {
    /// The file is left out.
    Skip,
    /// The file is recorded with its size only.
    Binary,
    /// The file is read, filtered and measured.
    Text,
}

/// Decides what becomes of a file that is binary or not: a binary file
/// is recorded only where binary files are asked for.
pub fn treatment(binary: bool, include_binary: bool) -> (treatment: Treatment)
    ensures
        treatment == if !binary {
            Treatment::Text
        } else if include_binary {
            Treatment::Binary
        } else {
            Treatment::Skip
        },
{
    if !binary {
        Treatment::Text
    } else if include_binary {
        Treatment::Binary
    } else {
        Treatment::Skip
    }
}

/// Whether `a` stands before `b`, or is equal to it, in the order of
/// strings: character by character, a prefix before what it is a prefix of.
pub open spec fn text_le(a: Seq<char>, b: Seq<char>) -> bool
    decreases a.len(),
{
    if a.len() == 0 {
        true
    } else if b.len() == 0 {
        false
    } else if a[0] != b[0] {
        (a[0] as u32) < (b[0] as u32)
    } else {
        text_le(a.drop_first(), b.drop_first())
    }
}

/// Whether `files` stand in the order of their relative paths.
pub open spec fn sorted_by_path(files: Seq<FileData>) -> bool {
    forall|i: int, j: int|
        0 <= i < j < files.len() ==> text_le(
            #[trigger] files[i].relative_path@,
            #[trigger] files[j].relative_path@,
        )
}

/// Calls `slice::sort_by` with the order of the relative paths, which for
/// strings is the order of their characters: the same files, sorted.
#[verifier::external_body]
pub(crate) fn sort_by_relative_path(files: &mut Vec<FileData>)
    ensures
        sorted_by_path(final(files)@),
        final(files)@.to_multiset() == old(files)@.to_multiset(),
{
    files.sort_by(|a, b| a.relative_path.cmp(&b.relative_path));
}

/// Closes a scan of the directory `root`: no file at all is an error,
/// and else the files are put in the order of their relative paths.
pub fn order_files(files: Vec<FileData>, root: PathBuf) -> (result: Result<Vec<FileData>, Error>)
    ensures
        match result {
            Ok(sorted) => {
                &&& files@.len() > 0
                &&& sorted_by_path(sorted@)
                &&& sorted@.to_multiset() == files@.to_multiset()
            },
            Err(error) => files@.len() == 0 && error == (Error::NoFiles { path: root }),
        },
{
    if files.len() == 0 {
        return Err(Error::no_files(root));
    }
    let mut files = files;
    sort_by_relative_path(&mut files);
    Ok(files)
}

} // verus!
