//! Byte-level marker logic: deciding whether a byte sequence already starts
//! with the three marker bytes, and prepending them when it does not.

use vstd::prelude::*;

verus! {

/// The fixed three-byte marker sequence (the UTF-8 byte-order mark).
pub open spec fn marker_seq() -> Seq<u8> {
    seq![0xEFu8, 0xBBu8, 0xBFu8]
}

/// A byte sequence carries the marker when it is at least three bytes long
/// and its first three bytes are exactly the marker bytes.
pub open spec fn spec_has_marker(s: Seq<u8>) -> bool {
    s.len() >= 3 && s.subrange(0, 3) == marker_seq()
}

/// What one marking pass leaves a file's bytes as: untouched when the marker
/// is already present, otherwise the marker followed by every original byte.
pub open spec fn spec_mark(s: Seq<u8>) -> Seq<u8> {
    if spec_has_marker(s) {
        s
    } else {
        marker_seq() + s
    }
}

/// Reports whether `content` already starts with the marker bytes.
pub fn has_marker(content: &[u8]) -> (r: bool)
    ensures
        r == spec_has_marker(content@),
{
    let r = content.len() >= 3 && content[0] == 0xEF && content[1] == 0xBB && content[2] == 0xBF;
    proof {
        if content@.len() >= 3 {
            assert(content@.subrange(0, 3) =~= marker_seq() <==> (content@[0] == 0xEF
                && content@[1] == 0xBB && content@[2] == 0xBF)) by {
                if content@[0] == 0xEF && content@[1] == 0xBB && content@[2] == 0xBF {
                    assert(content@.subrange(0, 3) =~= marker_seq());
                }
            }
        }
    }
    r
}

/// What one marking pass did to a file: nothing, because the marker was
/// already present, or a rewrite with the new content.
#[derive(Debug, PartialEq, Eq)]
pub enum MarkOutcome {
    AlreadyPresent,
    Added(Vec<u8>),
}

/// Builds the marker bytes followed by every byte of `content`, in order.
pub fn with_marker(content: &[u8]) -> (r: Vec<u8>)
    requires
        content@.len() + 3 <= usize::MAX,
    ensures
        r@ == marker_seq() + content@,
{
    let mut r: Vec<u8> = Vec::new();
    r.push(0xEF);
    r.push(0xBB);
    r.push(0xBF);
    let mut i: usize = 0;
    while i < content.len()
        invariant
            content@.len() + 3 <= usize::MAX,
            i <= content@.len(),
            r@ =~= marker_seq() + content@.subrange(0, i as int),
        decreases content@.len() - i,
    {
        r.push(content[i]);
        i = i + 1;
        proof {
            assert(content@.subrange(0, i as int) =~= content@.subrange(0, i - 1).push(
                content@[i - 1],
            ));
        }
    }
    proof {
        assert(content@.subrange(0, content@.len() as int) =~= content@);
    }
    r
}

/// Decides the fate of one file's bytes: reports the marker as already
/// present, or hands back the rewritten content with the marker prepended
/// and every original byte preserved after it.
pub fn mark_content(content: &[u8]) -> (r: MarkOutcome)
    requires
        content@.len() + 3 <= usize::MAX,
    ensures
        r is AlreadyPresent <==> spec_has_marker(content@),
        r matches MarkOutcome::Added(v) ==> v@ == spec_mark(content@),
{
    if has_marker(content) {
        MarkOutcome::AlreadyPresent
    } else {
        MarkOutcome::Added(with_marker(content))
    }
}

/// After one marking pass the first three bytes are exactly the marker,
/// whatever the original content was, the empty sequence included.
pub proof fn lemma_mark_prefix(s: Seq<u8>)
    ensures
        spec_mark(s).len() >= 3,
        spec_mark(s).subrange(0, 3) == marker_seq(),
{
    if !spec_has_marker(s) {
        assert((marker_seq() + s).subrange(0, 3) =~= marker_seq());
    }
}

/// Marking preserves content: when the marker was missing, the bytes after
/// it are exactly the original bytes, in order and complete; when it was
/// already present, the bytes are left untouched.
pub proof fn lemma_mark_preserves_content(s: Seq<u8>)
    ensures
        !spec_has_marker(s) ==> spec_mark(s).subrange(3, spec_mark(s).len() as int) == s,
        spec_has_marker(s) ==> spec_mark(s) == s,
{
    if !spec_has_marker(s) {
        assert((marker_seq() + s).subrange(3, (marker_seq() + s).len() as int) =~= s);
    }
}

/// A marked sequence carries the marker, so marking is idempotent on bytes:
/// a second pass changes nothing.
pub proof fn lemma_mark_idempotent(s: Seq<u8>)
    ensures
        spec_has_marker(spec_mark(s)),
        spec_mark(spec_mark(s)) == spec_mark(s),
{
    lemma_mark_prefix(s);
}

} // verus!
