//! The traversal decision: what the walker does with one directory entry.
//!
//! The walker itself alternates directory listing with these decisions; the
//! listing is I/O and stays outside, while the decision for each entry is
//! made here, from the entry's name and kind alone.

use vstd::prelude::*;
use crate::names::spec_is_hidden;

verus! {

/// What a directory entry is, as its metadata reports it: a directory, or
/// anything else (a regular file or other non-directory object).
#[derive(Debug, PartialEq, Eq, Structural, Clone, Copy)]
pub enum EntryKind {
    Directory,
    Other,
}

/// What the walker does with one entry: skip it entirely, recurse into it,
/// or hand it to the file marker.
#[derive(Debug, PartialEq, Eq, Structural, Clone, Copy)]
pub enum Action {
    Skip,
    Recurse,
    Mark,
}

/// Decides the fate of one directory entry: a hidden entry is skipped
/// whatever its kind, a non-hidden directory is recursed into, and every
/// other non-hidden entry is handed to the file marker.
pub fn plan_entry(name: &[u8], kind: EntryKind) -> (a: Action)
    ensures
        spec_is_hidden(name@) ==> a == Action::Skip,
        !spec_is_hidden(name@) && kind == EntryKind::Directory ==> a == Action::Recurse,
        !spec_is_hidden(name@) && kind == EntryKind::Other ==> a == Action::Mark,
{
    if crate::names::is_hidden_name(name) {
        Action::Skip
    } else {
        match kind {
            EntryKind::Directory => Action::Recurse,
            EntryKind::Other => Action::Mark,
        }
    }
}

} // verus!
