//! A small library that ensures files begin with a fixed three-byte marker
//! (the UTF-8 byte-order mark), skipping files that already carry it and
//! skipping hidden entries (those whose name starts with a dot).
//!
//! The byte-level marking logic lives in [`marking`], the rules on entry
//! names and paths in [`names`], the per-entry traversal decision in
//! [`walk`], and a verified model of a whole directory tree, with the laws
//! that hold of a run over it, in [`tree`].

pub mod marking;
pub mod names;
pub mod tree;
pub mod walk;
