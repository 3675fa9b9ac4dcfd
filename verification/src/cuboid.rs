//! The 16-bit index buffer of the cuboid entity of the shared game world:
//! six faces of two triangles over its eight corners (front 0..3, back 4..7).
use vstd::prelude::*;

verus! {

/// The indices of the cuboid's twelve triangles, face by face: front, right,
/// bottom, left, top, back.
pub open spec fn spec_cube_indices() -> Seq<u16> {
    seq![
        0, 1, 2, 0, 3, 2,
        1, 2, 6, 1, 5, 6,
        2, 3, 7, 2, 6, 7,
        3, 0, 4, 3, 7, 4,
        4, 0, 1, 4, 5, 1,
        5, 4, 7, 5, 6, 7,
    ]
}

/// The index buffer of a cuboid.
pub fn cube_indices() -> (indices: [u16; 36])
    ensures
        indices@ == spec_cube_indices(),
{
    let indices: [u16; 36] = [
        // front
        0, 1, 2,
        0, 3, 2,
        // right
        1, 2, 6,
        1, 5, 6,
        // bottom
        2, 3, 7,
        2, 6, 7,
        // left
        3, 0, 4,
        3, 7, 4,
        // top
        4, 0, 1,
        4, 5, 1,
        // back
        5, 4, 7,
        5, 6, 7,
    ];
    assert(indices@ =~= spec_cube_indices());
    indices
}

/// Every index names one of the eight corners, and every triangle has three
/// different corners.
pub proof fn lemma_cube_indices_valid()
    ensures
        spec_cube_indices().len() == 36,
        forall|i: int| 0 <= i < 36 ==> #[trigger] spec_cube_indices()[i] < 8,
        forall|t: int|
            0 <= t < 12 ==> {
                &&& #[trigger] spec_cube_indices()[3 * t] != spec_cube_indices()[3 * t + 1]
                &&& spec_cube_indices()[3 * t + 1] != spec_cube_indices()[3 * t + 2]
                &&& spec_cube_indices()[3 * t] != spec_cube_indices()[3 * t + 2]
            },
{
    let s = spec_cube_indices();
    assert forall|i: int| 0 <= i < 36 implies #[trigger] s[i] < 8 by {
    }
    assert forall|t: int| 0 <= t < 12 implies {
        &&& #[trigger] s[3 * t] != s[3 * t + 1]
        &&& s[3 * t + 1] != s[3 * t + 2]
        &&& s[3 * t] != s[3 * t + 2]
    } by {
    }
}

/// The four corners of face `k` of the cuboid: front, right, bottom, left,
/// top, back, with corners 0 to 3 in front and 4 to 7 behind them.
pub open spec fn face_corners(k: int) -> Set<u16> {
    if k == 0 {
        set![0, 1, 2, 3]
    } else if k == 1 {
        set![1, 2, 5, 6]
    } else if k == 2 {
        set![2, 3, 6, 7]
    } else if k == 3 {
        set![0, 3, 4, 7]
    } else if k == 4 {
        set![0, 1, 4, 5]
    } else {
        set![4, 5, 6, 7]
    }
}

/// Triangles `2k` and `2k + 1` lie on face `k`, and together they cover it:
/// the six indices of face `k` are exactly its four corners.
pub proof fn lemma_cube_faces()
    ensures
        forall|k: int|
            0 <= k < 6 ==> #[trigger] face_corners(k) == set![
                spec_cube_indices()[6 * k],
                spec_cube_indices()[6 * k + 1],
                spec_cube_indices()[6 * k + 2],
                spec_cube_indices()[6 * k + 3],
                spec_cube_indices()[6 * k + 4],
                spec_cube_indices()[6 * k + 5],
            ],
{
    let s = spec_cube_indices();
    assert forall|k: int| 0 <= k < 6 implies #[trigger] face_corners(k) == set![
        s[6 * k],
        s[6 * k + 1],
        s[6 * k + 2],
        s[6 * k + 3],
        s[6 * k + 4],
        s[6 * k + 5],
    ] by {
        let t = set![s[6 * k], s[6 * k + 1], s[6 * k + 2], s[6 * k + 3], s[6 * k + 4], s[6 * k + 5]];
        if k == 0 {
            assert(face_corners(k) =~= t);
        } else if k == 1 {
            assert(face_corners(k) =~= t);
        } else if k == 2 {
            assert(face_corners(k) =~= t);
        } else if k == 3 {
            assert(face_corners(k) =~= t);
        } else if k == 4 {
            assert(face_corners(k) =~= t);
        } else {
            assert(face_corners(k) =~= t);
        }
    }
}

} // verus!
