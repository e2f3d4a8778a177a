//! A verified model of one run over a directory tree.
//!
//! A tree held in memory stands for the directory being processed: a file
//! with its name and content bytes, or a directory with its name and
//! entries. One run marks every non-hidden file, recurses into every
//! non-hidden directory, and leaves every hidden entry — and so its whole
//! subtree — exactly as it was. The laws that hold of such a run over a
//! whole tree (idempotence, hidden-entry exclusion, prefix correctness)
//! are stated and proved here; the per-file byte laws, content
//! preservation among them, live in the marking module.

use vstd::prelude::*;
use crate::marking::{spec_has_marker, spec_mark, mark_content, MarkOutcome};
use crate::names::spec_is_hidden;

verus! {

/// The mathematical model of a directory entry: a file with its name and
/// content bytes, or a directory with its name and entries in listing
/// order.
#[verifier::ext_equal]
pub enum Node {
    File { name: Seq<u8>, content: Seq<u8> },
    Dir { name: Seq<u8>, entries: Seq<Node> },
}

/// The final path component of an entry, the one the hidden test reads.
pub open spec fn node_name(n: Node) -> Seq<u8> {
    match n {
        Node::File { name, .. } => name,
        Node::Dir { name, .. } => name,
    }
}

/// What one run leaves a visited entry as: a file gets the marker when it
/// lacks it, a directory has each of its entries processed — hidden
/// entries left untouched, the rest visited in turn.
pub open spec fn mark_node(n: Node) -> Node
    decreases n,
{
    match n {
        Node::File { name, content } => Node::File { name, content: spec_mark(content) },
        Node::Dir { name, entries } => Node::Dir { name, entries: mark_entries(entries) },
    }
}

/// What one run leaves a directory's listed entries as: a hidden entry is
/// passed through untouched, every other entry is visited.
pub open spec fn mark_entries(es: Seq<Node>) -> Seq<Node>
    decreases es,
{
    if es.len() == 0 {
        Seq::empty()
    } else {
        let first = if spec_is_hidden(node_name(es[0])) {
            es[0]
        } else {
            mark_node(es[0])
        };
        seq![first] + mark_entries(es.drop_first())
    }
}

/// Visiting an entry never changes its name.
pub proof fn lemma_mark_preserves_name(n: Node)
    ensures
        node_name(mark_node(n)) == node_name(n),
{
}

/// A run keeps a directory's entry count, and what it leaves at each
/// position is exactly the entry that was there: untouched when hidden,
/// visited otherwise.
pub proof fn lemma_mark_entries_index(es: Seq<Node>, i: int)
    requires
        0 <= i < es.len(),
    ensures
        mark_entries(es).len() == es.len(),
        mark_entries(es)[i] == if spec_is_hidden(node_name(es[i])) {
            es[i]
        } else {
            mark_node(es[i])
        },
    decreases es.len(),
{
    lemma_mark_entries_len(es);
    if i > 0 {
        lemma_mark_entries_index(es.drop_first(), i - 1);
    }
}

/// A run neither adds nor drops entries: the processed listing has exactly
/// as many entries as the original.
pub proof fn lemma_mark_entries_len(es: Seq<Node>)
    ensures
        mark_entries(es).len() == es.len(),
    decreases es.len(),
{
    if es.len() > 0 {
        lemma_mark_entries_len(es.drop_first());
    }
}

/// Hidden-entry exclusion: an entry whose name starts with a dot passes
/// through a run exactly unchanged, its entire subtree included, at every
/// directory level this lemma is applied to.
pub proof fn lemma_hidden_entry_untouched(es: Seq<Node>, i: int)
    requires
        0 <= i < es.len(),
        spec_is_hidden(node_name(es[i])),
    ensures
        mark_entries(es)[i] == es[i],
{
    lemma_mark_entries_index(es, i);
}

/// Idempotence: running the marking operation twice over a tree produces
/// exactly the tree that one run produces — the second run changes
/// nothing.
pub proof fn lemma_mark_node_idempotent(n: Node)
    ensures
        mark_node(mark_node(n)) == mark_node(n),
    decreases n,
{
    match n {
        Node::File { name, content } => {
            crate::marking::lemma_mark_idempotent(content);
        },
        Node::Dir { name, entries } => {
            lemma_mark_entries_idempotent(entries);
        },
    }
}

/// Idempotence over one directory listing: processing an already processed
/// listing changes nothing.
pub proof fn lemma_mark_entries_idempotent(es: Seq<Node>)
    ensures
        mark_entries(mark_entries(es)) == mark_entries(es),
    decreases es,
{
    if es.len() > 0 {
        let first = if spec_is_hidden(node_name(es[0])) {
            es[0]
        } else {
            mark_node(es[0])
        };
        let m = mark_entries(es);
        assert(m == seq![first] + mark_entries(es.drop_first()));
        assert(m.len() > 0 && m[0] == first);
        assert(m.drop_first() =~= mark_entries(es.drop_first()));
        lemma_mark_preserves_name(es[0]);
        if !spec_is_hidden(node_name(es[0])) {
            lemma_mark_node_idempotent(es[0]);
        }
        lemma_mark_entries_idempotent(es.drop_first());
        assert(mark_entries(m) =~= m);
    }
}

/// Every file that a run visits — every file reachable without passing
/// through a hidden name — carries the marker. A hidden entry's subtree is
/// not looked into: nothing is required of it.
pub open spec fn visited_files_marked(n: Node) -> bool
    decreases n,
{
    match n {
        Node::File { content, .. } => spec_has_marker(content),
        Node::Dir { entries, .. } => forall|i: int|
            0 <= i < entries.len() && !spec_is_hidden(node_name(#[trigger] entries[i]))
                ==> visited_files_marked(entries[i]),
    }
}

/// Prefix correctness over a whole tree: after one run, every file the run
/// visited starts with the three marker bytes, whatever its original
/// content, the empty content included.
pub proof fn lemma_run_marks_visited_files(n: Node)
    ensures
        visited_files_marked(mark_node(n)),
    decreases n,
{
    match n {
        Node::File { name, content } => {
            crate::marking::lemma_mark_prefix(content);
        },
        Node::Dir { name, entries } => {
            let m = mark_entries(entries);
            lemma_mark_entries_len(entries);
            assert forall|i: int|
                0 <= i < m.len() && !spec_is_hidden(node_name(#[trigger] m[i]))
                    implies visited_files_marked(m[i]) by {
                lemma_mark_entries_index(entries, i);
                lemma_mark_preserves_name(entries[i]);
                if !spec_is_hidden(node_name(entries[i])) {
                    lemma_run_marks_visited_files(entries[i]);
                }
            }
        },
    }
}

/// Every file content in the tree is short enough that the marker can be
/// prepended without the length leaving the machine's range.
pub open spec fn contents_fit(n: Node) -> bool
    decreases n,
{
    match n {
        Node::File { content, .. } => content.len() + 3 <= usize::MAX,
        Node::Dir { entries, .. } => forall|i: int|
            0 <= i < entries.len() ==> contents_fit(#[trigger] entries[i]),
    }
}

/// A directory entry as the executable code holds it: a file with its
/// name and content bytes, or a directory with its name and entries.
#[derive(Debug, PartialEq, Eq)]
pub enum FsEntry {
    File { name: Vec<u8>, content: Vec<u8> },
    Dir { name: Vec<u8>, entries: Vec<FsEntry> },
}

/// The mathematical tree an executable entry stands for.
pub open spec fn view_entry(e: FsEntry) -> Node
    decreases e,
{
    match e {
        FsEntry::File { name, content } => Node::File { name: name@, content: content@ },
        FsEntry::Dir { name, entries } => Node::Dir {
            name: name@,
            entries: view_entries(entries@),
        },
    }
}

/// The mathematical trees a listing of executable entries stands for.
pub open spec fn view_entries(es: Seq<FsEntry>) -> Seq<Node>
    decreases es,
{
    if es.len() == 0 {
        Seq::empty()
    } else {
        seq![view_entry(es[0])] + view_entries(es.drop_first())
    }
}

/// A listing and its view have the same length, and the view at each
/// position is the view of the entry there.
pub proof fn lemma_view_entries_index(es: Seq<FsEntry>, i: int)
    requires
        0 <= i < es.len(),
    ensures
        view_entries(es).len() == es.len(),
        view_entries(es)[i] == view_entry(es[i]),
    decreases es.len(),
{
    lemma_view_entries_len(es);
    if i > 0 {
        lemma_view_entries_index(es.drop_first(), i - 1);
    }
}

/// A listing and its view have the same length.
pub proof fn lemma_view_entries_len(es: Seq<FsEntry>)
    ensures
        view_entries(es).len() == es.len(),
    decreases es.len(),
{
    if es.len() > 0 {
        lemma_view_entries_len(es.drop_first());
    }
}

/// Performs one run over a tree held in memory: marks this entry's file
/// content when the marker is missing, and processes a directory's entries
/// in order, leaving hidden entries untouched and visiting the rest.
#[verifier::loop_isolation(false)]
pub fn mark_entry(e: FsEntry) -> (r: FsEntry)
    requires
        contents_fit(view_entry(e)),
    ensures
        view_entry(r) == mark_node(view_entry(e)),
    decreases e,
{
    let ghost g: FsEntry = e;
    match e {
        FsEntry::File { name, content } => {
            let new_content = match mark_content(content.as_slice()) {
                MarkOutcome::AlreadyPresent => content,
                MarkOutcome::Added(v) => v,
            };
            FsEntry::File { name, content: new_content }
        },
        FsEntry::Dir { name, mut entries } => {
            let ghost ents0: Vec<FsEntry> = entries;
            let ghost nodes0: Seq<Node> = view_entries(ents0@);
            proof {
                lemma_view_entries_len(ents0@);
            }
            let mut out: Vec<FsEntry> = Vec::new();
            while entries.len() > 0
                invariant
                    nodes0 == view_entries(ents0@),
                    nodes0.len() == ents0@.len(),
                    out@.len() + entries@.len() == ents0@.len(),
                    entries@ =~= ents0@.subrange(out@.len() as int, ents0@.len() as int),
                    forall|j: int|
                        0 <= j < nodes0.len() ==> contents_fit(#[trigger] nodes0[j]),
                    forall|j: int|
                        0 <= j < out@.len() ==> view_entry(#[trigger] out@[j]) == mark_entries(
                            nodes0,
                        )[j],
                decreases entries@.len(),
            {
                let ghost k: int = out@.len() as int;
                let child = entries.remove(0);
                proof {
                    assert(child == ents0@[k]);
                    lemma_view_entries_index(ents0@, k);
                    lemma_mark_entries_index(nodes0, k);
                    assert(decreases_to!(g => g->Dir_entries));
                    assert(g->Dir_entries == ents0);
                    assert(decreases_to!(ents0 => ents0[k]));
                }
                let m = if entry_is_hidden(&child) {
                    child
                } else {
                    mark_entry(child)
                };
                out.push(m);
            }
            proof {
                lemma_view_entries_len(out@);
                lemma_mark_entries_len(nodes0);
                assert forall|j: int| 0 <= j < out@.len() implies view_entries(out@)[j]
                    == mark_entries(nodes0)[j] by {
                    lemma_view_entries_index(out@, j);
                }
                assert(view_entries(out@) =~= mark_entries(nodes0));
            }
            FsEntry::Dir { name, entries: out }
        },
    }
}

/// Reports whether an entry counts as hidden: its name is nonempty and
/// starts with the dot character.
pub fn entry_is_hidden(e: &FsEntry) -> (r: bool)
    ensures
        r == spec_is_hidden(node_name(view_entry(*e))),
{
    match e {
        FsEntry::File { name, .. } => crate::names::is_hidden_name(name.as_slice()),
        FsEntry::Dir { name, .. } => crate::names::is_hidden_name(name.as_slice()),
    }
}

} // verus!
