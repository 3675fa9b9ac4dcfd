//! The layout of the water surface: a square grid of `size` by `size`
//! squares, each drawn as two triangles with vertices of their own.
//!
//! Every vertex records the offsets from itself to the two other vertices of
//! its triangle, so that the water shader can rebuild the whole triangle from
//! any one of its vertices.
use vstd::arithmetic::div_mod::lemma_fundamental_div_mod_converse;
use vstd::prelude::*;

verus! {

/// Vertices of each square: two triangles of three.
pub const VERTS_PER_SQUARE: usize = 6;

/// A grid point: column, then row.
#[derive(Clone, Copy, Debug, PartialEq, Eq, Structural)]
pub struct GridPos {
    pub x: u32,
    pub y: u32,
}

/// One vertex of the water surface: where it stands, and the offsets
/// (x, y of the next vertex, then x, y of the one after) to the other two
/// vertices of its triangle.
#[derive(Clone, Copy, Debug)]
pub struct WaterCorner {
    pub pos: GridPos,
    pub indicators: [i8; 4],
}

/// Column offset of corner `c` of a square: corners are top left, bottom
/// left, top right, bottom right.
pub open spec fn corner_dx(c: int) -> int {
    if c >= 2 { 1 } else { 0 }
}

/// Row offset of corner `c` of a square.
pub open spec fn corner_dy(c: int) -> int {
    if c % 2 == 1 { 1 } else { 0 }
}

/// Corner of the square that vertex `j` of a triangle stands on: the left
/// triangle is corners 0, 1, 2 and the right one 2, 1, 3.
pub open spec fn tri_corner(left: bool, j: int) -> int {
    if left {
        j
    } else if j == 0 {
        2
    } else if j == 1 {
        1
    } else {
        3
    }
}

/// The square, as (row, column), that vertex `v` belongs to.
pub open spec fn water_square(size: int, v: int) -> (int, int) {
    ((v / 6) / size, (v / 6) % size)
}

/// Whether vertex `v` belongs to the left triangle of its square.
pub open spec fn water_is_left(v: int) -> bool {
    v % 6 < 3
}

/// The corner of its square that vertex `v` stands on.
pub open spec fn water_corner(v: int) -> int {
    tri_corner(water_is_left(v), v % 3)
}

/// The grid point that vertex `v` of the water surface stands on.
pub open spec fn water_pos(size: int, v: int) -> (int, int) {
    let (row, col) = water_square(size, v);
    (col + corner_dx(water_corner(v)), row + corner_dy(water_corner(v)))
}

/// The position in the buffer of the vertex `step` places after `v` in its
/// triangle, going round.
pub open spec fn water_next(v: int, step: int) -> int {
    v - v % 3 + (v % 3 + step) % 3
}

/// The offsets recorded at vertex `v`.
pub open spec fn water_indicators(v: int) -> Seq<i8> {
    let left = water_is_left(v);
    let j = v % 3;
    let cur = tri_corner(left, j);
    let n1 = tri_corner(left, (j + 1) % 3);
    let n2 = tri_corner(left, (j + 2) % 3);
    seq![
        saturate_i8(corner_dx(n1) - corner_dx(cur)),
        saturate_i8(corner_dy(n1) - corner_dy(cur)),
        saturate_i8(corner_dx(n2) - corner_dx(cur)),
        saturate_i8(corner_dy(n2) - corner_dy(cur)),
    ]
}

/// The vertices of the water surface agree with the layout up to `len`.
pub open spec fn water_done(size: int, s: Seq<WaterCorner>) -> bool {
    forall|v: int|
        0 <= v < s.len() ==> {
            &&& (s[v].pos.x as int, s[v].pos.y as int) == #[trigger] water_pos(size, v)
            &&& s[v].indicators@ == water_indicators(v)
        }
}

/// The four corners of the square at `col`, `row`: top left, bottom left,
/// top right, bottom right.
pub fn get_corner_pos(col: u32, row: u32) -> (corners: [GridPos; 4])
    requires
        col < u32::MAX,
        row < u32::MAX,
    ensures
        forall|c: int|
            0 <= c < 4 ==> corners@[c] == (GridPos {
                x: (col + corner_dx(c)) as u32,
                y: (row + corner_dy(c)) as u32,
            }),
{
    [
        GridPos { x: col, y: row },
        GridPos { x: col, y: row + 1 },
        GridPos { x: col + 1, y: row },
        GridPos { x: col + 1, y: row + 1 },
    ]
}

/// `d` kept to the range of a byte, as a float offset converted to `i8` is.
pub open spec fn saturate_i8(d: int) -> i8 {
    if d < -128 {
        -128i8
    } else if d > 127 {
        127i8
    } else {
        d as i8
    }
}

/// The offset from `from` to `to` along one axis, kept to the range of a
/// byte.
fn axis_offset(from: u32, to: u32) -> (d: i8)
    ensures
        d == saturate_i8(to - from),
{
    let diff: i64 = to as i64 - from as i64;
    if diff < -128 {
        -128
    } else if diff > 127 {
        127
    } else {
        diff as i8
    }
}

/// The offsets from corner `current` to corners `v1` and `v2`.
pub fn get_indicators(corner_pos: [GridPos; 4], current: usize, v1: usize, v2: usize) -> (ind: [i8;
    4])
    requires
        current < 4,
        v1 < 4,
        v2 < 4,
    ensures
        ind@ == seq![
            saturate_i8(corner_pos@[v1 as int].x - corner_pos@[current as int].x),
            saturate_i8(corner_pos@[v1 as int].y - corner_pos@[current as int].y),
            saturate_i8(corner_pos@[v2 as int].x - corner_pos@[current as int].x),
            saturate_i8(corner_pos@[v2 as int].y - corner_pos@[current as int].y),
        ],
{
    let cur = corner_pos[current];
    let v1_pos = corner_pos[v1];
    let v2_pos = corner_pos[v2];
    let ind = [
        axis_offset(cur.x, v1_pos.x),
        axis_offset(cur.y, v1_pos.y),
        axis_offset(cur.x, v2_pos.x),
        axis_offset(cur.y, v2_pos.y),
    ];
    assert(ind@ =~= seq![
        saturate_i8(corner_pos@[v1 as int].x - corner_pos@[current as int].x),
        saturate_i8(corner_pos@[v1 as int].y - corner_pos@[current as int].y),
        saturate_i8(corner_pos@[v2 as int].x - corner_pos@[current as int].x),
        saturate_i8(corner_pos@[v2 as int].y - corner_pos@[current as int].y),
    ]);
    ind
}

/// Appends the three vertices of one triangle of a square: the left triangle
/// on corners 0, 1, 2 or the right one on corners 2, 1, 3, each with the
/// offsets to the next two vertices of the triangle.
pub fn push_triangle(verts: &mut Vec<WaterCorner>, corner_pos: [GridPos; 4], left: bool)
    ensures
        final(verts)@.len() == old(verts)@.len() + 3,
        forall|i: int| 0 <= i < old(verts)@.len() ==> final(verts)@[i] == old(verts)@[i],
        forall|j: int|
            0 <= j < 3 ==> {
                let v = #[trigger] final(verts)@[old(verts)@.len() + j];
                let cur = corner_pos@[tri_corner(left, j)];
                let n1 = corner_pos@[tri_corner(left, (j + 1) % 3)];
                let n2 = corner_pos@[tri_corner(left, (j + 2) % 3)];
                &&& v.pos == cur
                &&& v.indicators@ == seq![
                    saturate_i8(n1.x - cur.x),
                    saturate_i8(n1.y - cur.y),
                    saturate_i8(n2.x - cur.x),
                    saturate_i8(n2.y - cur.y),
                ]
            },
{
    let i0: usize = if left { 0 } else { 2 };
    let i1: usize = 1;
    let i2: usize = if left { 2 } else { 3 };

    verts.push(WaterCorner {
        pos: corner_pos[i0],
        indicators: get_indicators(corner_pos, i0, i1, i2),
    });
    verts.push(WaterCorner {
        pos: corner_pos[i1],
        indicators: get_indicators(corner_pos, i1, i2, i0),
    });
    verts.push(WaterCorner {
        pos: corner_pos[i2],
        indicators: get_indicators(corner_pos, i2, i0, i1),
    });
}

/// Vertex `j` of triangle `t` of the square at `row`, `col` sits at position
/// `6 * (row * size + col) + 3 * t + j`.
proof fn lemma_water_vertex(size: int, row: int, col: int, t: int, j: int)
    requires
        0 <= row,
        0 <= col < size,
        0 <= t < 2,
        0 <= j < 3,
    ensures
        ({
            let v = 6 * (row * size + col) + 3 * t + j;
            &&& water_square(size, v) == (row, col)
            &&& water_is_left(v) == (t == 0)
            &&& v % 3 == j
        }),
{
    let q = row * size + col;
    let v = 6 * q + 3 * t + j;
    lemma_fundamental_div_mod_converse(v, 6, q, 3 * t + j);
    lemma_fundamental_div_mod_converse(q, size, row, col);
    lemma_fundamental_div_mod_converse(v, 3, 2 * q + t, j);
}

/// A vertex that `push_triangle` wrote for triangle `t` of the square at
/// `row`, `col` is the one the layout puts at its position.
proof fn lemma_pushed_vertex(
    size: int,
    row: int,
    col: int,
    corner_pos: [GridPos; 4],
    t: int,
    j: int,
    w: WaterCorner,
)
    requires
        0 <= row,
        0 <= col < size,
        0 <= t < 2,
        0 <= j < 3,
        forall|c: int|
            0 <= c < 4 ==> corner_pos@[c] == (GridPos {
                x: (col + corner_dx(c)) as u32,
                y: (row + corner_dy(c)) as u32,
            }),
        col + 1 <= u32::MAX,
        row + 1 <= u32::MAX,
        ({
            let left = t == 0;
            let cur = corner_pos@[tri_corner(left, j)];
            let n1 = corner_pos@[tri_corner(left, (j + 1) % 3)];
            let n2 = corner_pos@[tri_corner(left, (j + 2) % 3)];
            &&& w.pos == cur
            &&& w.indicators@ == seq![
                saturate_i8(n1.x - cur.x),
                saturate_i8(n1.y - cur.y),
                saturate_i8(n2.x - cur.x),
                saturate_i8(n2.y - cur.y),
            ]
        }),
    ensures
        ({
            let v = 6 * (row * size + col) + 3 * t + j;
            &&& (w.pos.x as int, w.pos.y as int) == water_pos(size, v)
            &&& w.indicators@ == water_indicators(v)
        }),
{
    lemma_water_vertex(size, row, col, t, j);
    let left = t == 0;
    let c0 = tri_corner(left, j);
    let c1 = tri_corner(left, (j + 1) % 3);
    let c2 = tri_corner(left, (j + 2) % 3);
    assert(0 <= c0 < 4 && 0 <= c1 < 4 && 0 <= c2 < 4);
    assert(corner_pos@[c0].x == col + corner_dx(c0));
    assert(corner_pos@[c0].y == row + corner_dy(c0));
    assert(corner_pos@[c1].x == col + corner_dx(c1));
    assert(corner_pos@[c1].y == row + corner_dy(c1));
    assert(corner_pos@[c2].x == col + corner_dx(c2));
    assert(corner_pos@[c2].y == row + corner_dy(c2));
}

/// The vertices of the water surface of `size` by `size` squares, row by row,
/// six per square.
pub fn generate_water(size: usize) -> (verts: Vec<WaterCorner>)
    requires
        size < u32::MAX,
        6 * (size * size) <= usize::MAX,
    ensures
        verts@.len() == 6 * (size * size),
        water_done(size as int, verts@),
{
    let ghost sz = size as int;
    let mut verts: Vec<WaterCorner> = Vec::new();
    let mut row: usize = 0;
    while row < size
        invariant
            sz == size,
            size < u32::MAX,
            row <= size,
            verts@.len() == 6 * (row * sz),
            water_done(sz, verts@),
        decreases size - row,
    {
        let mut col: usize = 0;
        while col < size
            invariant
                sz == size,
                size < u32::MAX,
                row < size,
                col <= size,
                verts@.len() == 6 * (row * sz + col),
                water_done(sz, verts@),
            decreases size - col,
        {
            let corner_pos = get_corner_pos(col as u32, row as u32);
            let ghost start = verts@.len() as int;
            let ghost before = verts@;
            push_triangle(&mut verts, corner_pos, true);
            let ghost mid = verts@;
            push_triangle(&mut verts, corner_pos, false);
            proof {
                assert forall|v: int| 0 <= v < verts@.len() implies {
                    &&& (verts@[v].pos.x as int, verts@[v].pos.y as int) == #[trigger] water_pos(
                        sz,
                        v,
                    )
                    &&& verts@[v].indicators@ == water_indicators(v)
                } by {
                    if v >= start {
                        let t = if v < start + 3 { 0int } else { 1int };
                        let j = v - start - 3 * t;
                        if t == 0 {
                            assert(mid[start + j] == verts@[v]);
                        } else {
                            assert(verts@[(start + 3) + j] == verts@[v]);
                        }
                        lemma_pushed_vertex(sz, row as int, col as int, corner_pos, t, j, verts@[v]);
                        assert(v == 6 * (row * sz + col) + 3 * t + j);
                    } else {
                        assert(mid[v] == verts@[v]);
                        assert(before[v] == mid[v]);
                        // mention water_pos(sz, v) so the invariant for `before` applies
                        assert(water_pos(sz, v) == water_pos(sz, v));
                    }
                }
            }
            col = col + 1;
        }
        assert((row + 1) * sz == row * sz + sz) by (nonlinear_arith);
        row = row + 1;
    }
    verts
}

/// Each vertex of the water surface records the offsets to the other two
/// vertices of its triangle: adding them to its position gives theirs.
pub proof fn lemma_indicators_point_to_triangle(size: int, v: int)
    requires
        0 < size,
        0 <= v,
    ensures
        ({
            let (x, y) = water_pos(size, v);
            let ind = water_indicators(v);
            let (x1, y1) = water_pos(size, water_next(v, 1));
            let (x2, y2) = water_pos(size, water_next(v, 2));
            &&& x + ind[0] == x1
            &&& y + ind[1] == y1
            &&& x + ind[2] == x2
            &&& y + ind[3] == y2
        }),
{
    let q = v / 6;
    let m = v % 6;
    vstd::arithmetic::div_mod::lemma_fundamental_div_mod(v, 6);
    let t: int = if m < 3 { 0 } else { 1 };
    let j = m - 3 * t;
    let row = q / size;
    let col = q % size;
    vstd::arithmetic::div_mod::lemma_fundamental_div_mod(q, size);
    assert(row * size + col == q) by (nonlinear_arith)
        requires
            q == size * row + col,
    ;
    assert(q >= 0);
    assert(row >= 0) by (nonlinear_arith)
        requires
            q >= 0,
            row == q / size,
            size > 0,
    ;
    lemma_water_vertex(size, row, col, t, j);
    lemma_water_vertex(size, row, col, t, (j + 1) % 3);
    lemma_water_vertex(size, row, col, t, (j + 2) % 3);
}

} // verus!
