//! The index triplet of a face vertex and how its text is resolved.

use vstd::prelude::*;
use vstd::slice::slice_subrange;
use crate::obj::number::{parse_signed, signed_value};
use crate::obj::text::{find_byte, lemma_sep_pos, pieces, pieces_from};

verus! {

/// The byte `/`, which separates the components of a face vertex.
pub const SLASH: u8 = 47;

/// Stands in a slot of a [`VertexIndices`] for which the face gave no index.
pub const MISSING_INDEX: usize = usize::MAX;

/// The position, texture-coordinate and normal indices of one face vertex,
/// each a zero-based offset or [`MISSING_INDEX`]. Two face vertices are the
/// same vertex of a mesh exactly when their triplets are equal.
#[derive(Debug, Clone, Copy, PartialEq, Eq, PartialOrd, Ord, Hash, Structural)]
pub struct VertexIndices {
    pub v: usize,
    pub vt: usize,
    pub vn: usize,
}

/// The zero-based index that the face index `x` denotes when `count`
/// elements of its attribute have been declared so far. A positive `x`
/// counts from the first element (`1` is the first); a negative `x` counts
/// back from the last declared (`-1` is the last). Below zero the result
/// wraps around the range of `usize`, so `0` gives [`MISSING_INDEX`] and an
/// `x` below `-count` gives an index far beyond any array.
pub open spec fn resolve_index(x: int, count: usize) -> usize {
    if x > 0 {
        (x - 1) as usize
    } else if x == 0 {
        MISSING_INDEX
    } else if count + x >= 0 {
        (count + x) as usize
    } else {
        (count + x + usize::MAX + 1) as usize
    }
}

/// Whether the component `c`, found in slot `slot` of a face vertex, is
/// accepted: it is empty, or it is an integer in one of the three slots.
pub open spec fn component_ok(c: Seq<u8>, slot: int) -> bool {
    c.len() == 0 || (slot < 3 && signed_value(c) is Some)
}

/// The index that the components `cs` give for slot `slot`, resolved against
/// `count` declared elements: [`MISSING_INDEX`] when the slot is absent or
/// empty.
pub open spec fn slot_index(cs: Seq<Seq<u8>>, slot: int, count: usize) -> usize {
    if slot < cs.len() && cs[slot].len() > 0 && signed_value(cs[slot]) is Some {
        resolve_index(signed_value(cs[slot])->0, count)
    } else {
        MISSING_INDEX
    }
}

/// Resolves a face index against the number of elements declared so far.
pub fn resolve(x: isize, count: usize) -> (r: usize)
    ensures
        r == resolve_index(x as int, count),
{
    if x > 0 {
        (x - 1) as usize
    } else if x == 0 {
        MISSING_INDEX
    } else {
        let back: usize = if x == isize::MIN {
            isize::MAX as usize + 1
        } else {
            (-x) as usize
        };
        if back <= count {
            count - back
        } else {
            usize::MAX - (back - count) + 1
        }
    }
}

impl VertexIndices {
    /// What [`VertexIndices::parse`] makes of the text `s` of one face
    /// vertex. The text is cut at every `/`. Each component must be empty or
    /// an integer, and only the first three may be integers; otherwise the
    /// result is `None`. The three slots are resolved against the counts of
    /// positions, texture coordinates and normals in this order.
    pub open spec fn parse_spec(s: Seq<u8>, pos_sz: usize, tex_sz: usize, norm_sz: usize) -> Option<
        VertexIndices,
    > {
        let cs = pieces(s, SLASH);
        if forall|k: int| 0 <= k < cs.len() ==> component_ok(#[trigger] cs[k], k) {
            Some(
                VertexIndices {
                    v: slot_index(cs, 0, pos_sz),
                    vt: slot_index(cs, 1, tex_sz),
                    vn: slot_index(cs, 2, norm_sz),
                },
            )
        } else {
            None
        }
    }

    /// Parses the text of one face vertex, such as `7`, `7/2`, `7//3` or
    /// `-1/-1/-1`.
    pub fn parse(face_str: &[u8], pos_sz: usize, tex_sz: usize, norm_sz: usize) -> (r: Option<
        VertexIndices,
    >)
        ensures
            r == Self::parse_spec(face_str@, pos_sz, tex_sz, norm_sz),
    {
        let n = face_str.len();
        let mut v: usize = MISSING_INDEX;
        let mut vt: usize = MISSING_INDEX;
        let mut vn: usize = MISSING_INDEX;
        let mut slot: usize = 0;
        let mut start: usize = 0;
        let ghost all = pieces(face_str@, SLASH);
        let ghost mut done: Seq<Seq<u8>> = Seq::empty();
        assert(all =~= done + pieces_from(face_str@, SLASH, 0));
        loop
            invariant_except_break
                done.len() == slot,
                all == done + pieces_from(face_str@, SLASH, start as int),
            invariant
                n == face_str@.len(),
                slot <= start <= n,
                all == pieces(face_str@, SLASH),
                forall|k: int| 0 <= k < done.len() ==> component_ok(#[trigger] done[k], k),
                v == slot_index(done, 0, pos_sz),
                vt == slot_index(done, 1, tex_sz),
                vn == slot_index(done, 2, norm_sz),
            ensures
                all == done,
                forall|k: int| 0 <= k < done.len() ==> component_ok(#[trigger] done[k], k),
                v == slot_index(done, 0, pos_sz),
                vt == slot_index(done, 1, tex_sz),
                vn == slot_index(done, 2, norm_sz),
            decreases n - start,
        {
            let end = find_byte(face_str, SLASH, start);
            let piece = slice_subrange(face_str, start, end);
            proof {
                lemma_sep_pos(face_str@, SLASH, start as int);
                assert(pieces_from(face_str@, SLASH, start as int)[0] == piece@);
                assert(all[slot as int] == piece@);
            }
            if end > start {
                match parse_signed(piece) {
                    None => {
                        assert(!component_ok(all[slot as int], slot as int));
                        return None;
                    },
                    Some(x) => {
                        if slot == 0 {
                            v = resolve(x, pos_sz);
                        } else if slot == 1 {
                            vt = resolve(x, tex_sz);
                        } else if slot == 2 {
                            vn = resolve(x, norm_sz);
                        } else {
                            assert(!component_ok(all[slot as int], slot as int));
                            return None;
                        }
                    },
                }
            }
            proof {
                done = done.push(piece@);
            }
            if end >= n {
                assert(all =~= done);
                break ;
            }
            assert(all =~= done + pieces_from(face_str@, SLASH, end + 1));
            slot += 1;
            start = end + 1;
        }
        Some(VertexIndices { v, vt, vn })
    }
}

} // verus!
