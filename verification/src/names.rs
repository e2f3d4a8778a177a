//! Rules on entry names and paths: which names count as hidden, and how a
//! path is rendered with uniform forward-slash separators.
//!
//! Names and paths are handled as byte sequences, as the filesystem hands
//! them out; a leading dot and the two separator characters are single
//! bytes in any UTF-8 text, so the byte view is exact.

use vstd::prelude::*;

verus! {

/// The byte of the hidden-entry marker character `.`.
pub open spec fn dot_byte() -> u8 {
    0x2Eu8
}

/// A name is hidden when it is nonempty and starts with a dot.
pub open spec fn spec_is_hidden(name: Seq<u8>) -> bool {
    name.len() > 0 && name[0] == dot_byte()
}

/// One byte of a path with the backslash separator replaced by a slash.
pub open spec fn normal_byte(b: u8) -> u8 {
    if b == 0x5Cu8 {
        0x2Fu8
    } else {
        b
    }
}

/// A path with every backslash separator replaced by a forward slash,
/// byte for byte.
pub open spec fn spec_normalize(p: Seq<u8>) -> Seq<u8> {
    p.map_values(|b: u8| normal_byte(b))
}

/// Reports whether an entry name counts as hidden: nonempty and starting
/// with the dot character.
pub fn is_hidden_name(name: &[u8]) -> (r: bool)
    ensures
        r == spec_is_hidden(name@),
{
    name.len() > 0 && name[0] == 0x2E
}

/// Renders a path with forward slashes uniformly: every backslash is
/// replaced by a slash and every other byte is kept as it is.
pub fn normalize_separators(path: &[u8]) -> (r: Vec<u8>)
    ensures
        r@ == spec_normalize(path@),
{
    let mut r: Vec<u8> = Vec::new();
    let mut i: usize = 0;
    while i < path.len()
        invariant
            i <= path@.len(),
            r@ =~= spec_normalize(path@.subrange(0, i as int)),
        decreases path@.len() - i,
    {
        let b = path[i];
        if b == 0x5C {
            r.push(0x2F);
        } else {
            r.push(b);
        }
        i = i + 1;
        proof {
            assert(path@.subrange(0, i as int) =~= path@.subrange(0, i - 1).push(path@[i - 1]));
        }
    }
    proof {
        assert(path@.subrange(0, path@.len() as int) =~= path@);
    }
    r
}

} // verus!
