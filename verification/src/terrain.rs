//! The layout of a generated terrain mesh: which grid corner each vertex of
//! the mesh stands for, and the index buffer that draws its triangles.
//!
//! The terrain is a square grid of `vert_count` by `vert_count` points, so
//! `vert_count - 1` squares on each side. Every square is drawn as two
//! triangles with flat shading, so a triangle's first vertex carries that
//! triangle's normal: most grid points appear twice in the mesh, once for the
//! square on their right and once for the square on their left.
use vstd::arithmetic::div_mod::lemma_fundamental_div_mod_converse;
use vstd::prelude::*;

verus! {

/// Which corner of its grid square a mesh vertex is.
#[derive(Clone, Copy, Debug, PartialEq, Eq, Structural)]
pub enum Corner {
    TopLeft,
    BottomLeft,
    TopRight,
    BottomRight,
}

/// One vertex of the terrain mesh: a corner of the square at `row`, `col`.
/// The left corners carry the normal of the square's left triangle, the right
/// corners that of its right triangle.
#[derive(Clone, Copy, Debug, PartialEq, Eq, Structural)]
pub struct MeshCorner {
    pub row: usize,
    pub col: usize,
    pub corner: Corner,
}

/// The grid point, as (row, column), that a mesh vertex stands at.
pub open spec fn corner_point(c: MeshCorner) -> (int, int) {
    match c.corner {
        Corner::TopLeft => (c.row as int, c.col as int),
        Corner::BottomLeft => (c.row + 1, c.col as int),
        Corner::TopRight => (c.row as int, c.col + 1),
        Corner::BottomRight => (c.row + 1, c.col + 1),
    }
}

/// Whether a mesh vertex carries the normal of its square's right triangle.
pub open spec fn is_right_corner(c: MeshCorner) -> bool {
    c.corner == Corner::TopRight || c.corner == Corner::BottomRight
}

/// Number of squares on each side of a grid of `vc` by `vc` points.
pub open spec fn squares(vc: int) -> int {
    vc - 1
}

/// Number of mesh vertices of each of the first `vc - 2` rows of squares:
/// two per square.
pub open spec fn mesh_row_len(vc: int) -> int {
    2 * (vc - 1)
}

/// Number of vertices of the terrain mesh of a grid of `vc` by `vc` points.
pub open spec fn spec_vertex_count(vc: int) -> int {
    (vc - 2) * mesh_row_len(vc) + 2 * vc
}

/// Number of entries of the index buffer: six per square.
pub open spec fn spec_index_count(vc: int) -> int {
    6 * ((vc - 1) * (vc - 1))
}

/// The mesh vertex at position `v` of the terrain mesh.
///
/// The first `vc - 2` rows of squares each give, square by square, the
/// square's top left and top right corners. The last row of squares gives
/// each square's top left corner, and the last square's top right corner.
/// The bottom line follows: the first square's bottom left corner, then the
/// bottom right corner of each square.
pub open spec fn spec_mesh_corner(vc: int, v: int) -> MeshCorner {
    let r = mesh_row_len(vc);
    let base = (vc - 2) * r;
    if v < base {
        let row = v / r;
        let j = v % r;
        MeshCorner {
            row: row as usize,
            col: (j / 2) as usize,
            corner: if j % 2 == 0 { Corner::TopLeft } else { Corner::TopRight },
        }
    } else if v < base + vc {
        let m = v - base;
        if m < vc - 1 {
            MeshCorner { row: (vc - 2) as usize, col: m as usize, corner: Corner::TopLeft }
        } else {
            MeshCorner { row: (vc - 2) as usize, col: (vc - 2) as usize, corner: Corner::TopRight }
        }
    } else {
        let m = v - base - vc;
        if m == 0 {
            MeshCorner { row: (vc - 2) as usize, col: 0, corner: Corner::BottomLeft }
        } else {
            MeshCorner { row: (vc - 2) as usize, col: (m - 1) as usize, corner: Corner::BottomRight }
        }
    }
}

/// The mesh positions of the top left, top right, bottom left and bottom
/// right grid points of the square at `row`, `col`, as its triangles use them.
pub open spec fn quad_corners(vc: int, row: int, col: int) -> (int, int, int, int) {
    let r = mesh_row_len(vc);
    if row < vc - 3 {
        let tl = row * r + 2 * col;
        (tl, tl + 1, tl + r, tl + r + 1)
    } else if row == vc - 3 {
        let tl = row * r + 2 * col;
        let bl = tl + r - col;
        (tl, tl + 1, bl, bl + 1)
    } else {
        let tl = row * r + col;
        let bl = tl + vc;
        (tl, tl + 1, bl, bl + 1)
    }
}

/// Whether the square at `row`, `col` is split along its other diagonal; the
/// squares alternate like a checkerboard.
pub open spec fn spec_right_handed(row: int, col: int) -> bool {
    col % 2 != row % 2
}

/// The six index values a square is drawn with, in the order of the buffer,
/// given the positions of its four corners.
///
/// A square above the last row gives its left triangle (top left, bottom
/// left, then bottom right or top right) and its right triangle starting at
/// the top right. A square of the last row gives its right triangle starting
/// at the bottom right, the only vertex of that triangle it owns.
pub open spec fn quad_values(
    last_line: bool,
    rh: bool,
    tl: int,
    tr: int,
    bl: int,
    br: int,
    k: int,
) -> int {
    if k == 0 {
        tl
    } else if k == 1 {
        bl
    } else if k == 2 {
        if rh { br } else { tr }
    } else if !last_line {
        if k == 3 {
            tr
        } else if k == 4 {
            if rh { tl } else { bl }
        } else {
            br
        }
    } else {
        if k == 3 {
            br
        } else if k == 4 {
            tr
        } else {
            if rh { tl } else { bl }
        }
    }
}

/// Entry `k` of the six entries of the square at `row`, `col`.
pub open spec fn quad_entry(vc: int, row: int, col: int, k: int) -> int {
    let (tl, tr, bl, br) = quad_corners(vc, row, col);
    quad_values(row == vc - 2, spec_right_handed(row, col), tl, tr, bl, br, k)
}

/// Entry `i` of the index buffer: squares come row by row, six entries each.
pub open spec fn index_entry(vc: int, i: int) -> int {
    let q = i / 6;
    quad_entry(vc, q / (vc - 1), q % (vc - 1), i % 6)
}

/// The grid point that entry `k` of the square at `row`, `col` should name.
pub open spec fn quad_point(vc: int, row: int, col: int, k: int) -> (int, int) {
    let tl = (row, col);
    let tr = (row, col + 1);
    let bl = (row + 1, col);
    let br = (row + 1, col + 1);
    let rh = spec_right_handed(row, col);
    if k == 0 {
        tl
    } else if k == 1 {
        bl
    } else if k == 2 {
        if rh { br } else { tr }
    } else if row != vc - 2 {
        if k == 3 {
            tr
        } else if k == 4 {
            if rh { tl } else { bl }
        } else {
            br
        }
    } else {
        if k == 3 {
            br
        } else if k == 4 {
            tr
        } else {
            if rh { tl } else { bl }
        }
    }
}

/// `x` is `q * d + r` with `0 <= r < d`, so `q` and `r` are its quotient and
/// remainder.
proof fn lemma_div_mod(x: int, d: int, q: int, r: int)
    requires
        0 < d,
        0 <= r < d,
        x == q * d + r,
    ensures
        x / d == q,
        x % d == r,
{
    lemma_fundamental_div_mod_converse(x, d, q, r);
}

/// Entry `6 * (row * n + col) + k` of the buffer is entry `k` of the square
/// at `row`, `col`.
proof fn lemma_flat_entry(vc: int, row: int, col: int, k: int)
    requires
        vc >= 2,
        0 <= row,
        0 <= col < vc - 1,
        0 <= k < 6,
    ensures
        index_entry(vc, 6 * (row * (vc - 1) + col) + k) == quad_entry(vc, row, col, k),
{
    let q = row * (vc - 1) + col;
    lemma_div_mod(6 * q + k, 6, q, k);
    lemma_div_mod(q, vc - 1, row, col);
}

/// Writes the left triangle of a square at `pointer`: top left, bottom left,
/// then bottom right or top right; returns the position after it.
pub fn store_left_triangle(
    indices: &mut [u32],
    pointer: usize,
    right_handed: bool,
    top_left: u32,
    top_right: u32,
    bot_left: u32,
    bot_right: u32,
) -> (next: usize)
    requires
        pointer + 3 <= old(indices)@.len(),
    ensures
        next == pointer + 3,
        final(indices)@.len() == old(indices)@.len(),
        forall|i: int|
            0 <= i < old(indices)@.len() && !(pointer <= i < pointer + 3) ==> final(indices)@[i]
                == old(indices)@[i],
        forall|k: int|
            0 <= k < 3 ==> final(indices)@[pointer + k] == quad_values(
                false,
                right_handed,
                top_left as int,
                top_right as int,
                bot_left as int,
                bot_right as int,
                k,
            ),
{
    indices[pointer] = top_left;
    indices[pointer + 1] = bot_left;
    if right_handed {
        indices[pointer + 2] = bot_right;
    } else {
        indices[pointer + 2] = top_right;
    }
    pointer + 3
}

/// Writes the six entries of a square above the last row at `pointer`;
/// returns the position after them.
pub fn store_quad(
    indices: &mut [u32],
    pointer: usize,
    right_handed: bool,
    top_left: u32,
    top_right: u32,
    bot_left: u32,
    bot_right: u32,
) -> (next: usize)
    requires
        pointer + 6 <= old(indices)@.len(),
    ensures
        next == pointer + 6,
        final(indices)@.len() == old(indices)@.len(),
        forall|i: int|
            0 <= i < old(indices)@.len() && !(pointer <= i < pointer + 6) ==> final(indices)@[i]
                == old(indices)@[i],
        forall|k: int|
            0 <= k < 6 ==> final(indices)@[pointer + k] == quad_values(
                false,
                right_handed,
                top_left as int,
                top_right as int,
                bot_left as int,
                bot_right as int,
                k,
            ),
{
    let pointer = store_left_triangle(
        indices,
        pointer,
        right_handed,
        top_left,
        top_right,
        bot_left,
        bot_right,
    );
    indices[pointer] = top_right;
    if right_handed {
        indices[pointer + 1] = top_left;
    } else {
        indices[pointer + 1] = bot_left;
    }
    indices[pointer + 2] = bot_right;
    pointer + 3
}

/// Writes the six entries of a square of the last row at `pointer`; its
/// right triangle starts at the bottom right. Returns the position after them.
pub fn store_last_line_quad(
    indices: &mut [u32],
    pointer: usize,
    right_handed: bool,
    top_left: u32,
    top_right: u32,
    bot_left: u32,
    bot_right: u32,
) -> (next: usize)
    requires
        pointer + 6 <= old(indices)@.len(),
    ensures
        next == pointer + 6,
        final(indices)@.len() == old(indices)@.len(),
        forall|i: int|
            0 <= i < old(indices)@.len() && !(pointer <= i < pointer + 6) ==> final(indices)@[i]
                == old(indices)@[i],
        forall|k: int|
            0 <= k < 6 ==> final(indices)@[pointer + k] == quad_values(
                true,
                right_handed,
                top_left as int,
                top_right as int,
                bot_left as int,
                bot_right as int,
                k,
            ),
{
    let pointer = store_left_triangle(
        indices,
        pointer,
        right_handed,
        top_left,
        top_right,
        bot_left,
        bot_right,
    );
    indices[pointer] = bot_right;
    indices[pointer + 1] = top_right;
    if right_handed {
        indices[pointer + 2] = top_left;
    } else {
        indices[pointer + 2] = bot_left;
    }
    assert forall|k: int| 0 <= k < 3 implies quad_values(
        true,
        right_handed,
        top_left as int,
        top_right as int,
        bot_left as int,
        bot_right as int,
        k,
    ) == quad_values(
        false,
        right_handed,
        top_left as int,
        top_right as int,
        bot_left as int,
        bot_right as int,
        k,
    ) by {}
    pointer + 3
}

/// The first `p` entries of `s` are those of the index buffer of a grid of
/// `vc` by `vc` points.
pub open spec fn entries_done(vc: int, s: Seq<u32>, p: int) -> bool {
    forall|i: int| 0 <= i < p ==> s[i] == index_entry(vc, i)
}

/// The requirements shared by the index buffer writers: at least three points
/// a side, and every index fits in 32 bits.
pub open spec fn grid_fits(vc: int) -> bool {
    &&& 3 <= vc
    &&& spec_vertex_count(vc) <= 0x1_0000_0000
}

/// The square at `row`, `col` comes before the first `rows` rows end.
proof fn lemma_square_before(vc: int, row: int, col: int, rows: int)
    requires
        vc >= 2,
        0 <= row < rows,
        0 <= col < vc - 1,
    ensures
        0 <= row * (vc - 1) + col,
        row * (vc - 1) + col + 1 <= rows * (vc - 1),
{
    assert(0 <= row * (vc - 1)) by (nonlinear_arith)
        requires
            0 <= row,
            vc - 1 >= 0,
    ;
    assert(row * (vc - 1) + (vc - 1) <= rows * (vc - 1)) by (nonlinear_arith)
        requires
            row + 1 <= rows,
            vc - 1 >= 0,
    ;
}

/// The six entries of a square lie inside the buffer.
proof fn lemma_square_in_buffer(vc: int, row: int, col: int)
    requires
        vc >= 2,
        0 <= row < vc - 1,
        0 <= col < vc - 1,
    ensures
        0 <= row * (vc - 1) + col,
        6 * (row * (vc - 1) + col) + 6 <= spec_index_count(vc),
{
    assert(0 <= row * (vc - 1) <= (vc - 2) * (vc - 1)) by (nonlinear_arith)
        requires
            0 <= row <= vc - 2,
            vc - 1 >= 0,
    ;
    assert((vc - 2) * (vc - 1) + (vc - 1) == (vc - 1) * (vc - 1)) by (nonlinear_arith);
}

/// Moving to the next row of squares moves `vc - 1` squares on.
proof fn lemma_next_row(vc: int, row: int)
    ensures
        (row + 1) * (vc - 1) == row * (vc - 1) + (vc - 1),
{
    assert((row + 1) * (vc - 1) == row * (vc - 1) + (vc - 1)) by (nonlinear_arith);
}

/// The corners of a square of the first rows are below the vertex count.
proof fn lemma_row_start_bound(vc: int, row: int)
    requires
        2 <= vc,
        0 <= row <= vc - 2,
    ensures
        0 <= row * mesh_row_len(vc) <= (vc - 2) * mesh_row_len(vc),
        row * mesh_row_len(vc) + mesh_row_len(vc) == (row + 1) * mesh_row_len(vc),
{
    let r = mesh_row_len(vc);
    assert(0 <= row * r <= (vc - 2) * r) by (nonlinear_arith)
        requires
            0 <= row <= vc - 2,
            r >= 0,
    ;
    assert(row * r + r == (row + 1) * r) by (nonlinear_arith);
}

/// The squares of the first `vert_count - 3` rows, each of whose four
/// corners appears twice in the mesh, written from the start of `indices`;
/// returns the position after them. The rest of `indices` is left alone.
pub fn store_top_section(indices: &mut [u32], row_len: usize, vert_count: usize) -> (pointer:
    usize)
    requires
        grid_fits(vert_count as int),
        row_len == 2 * (vert_count - 1),
        6 * ((vert_count - 3) * (vert_count - 1)) <= old(indices)@.len(),
    ensures
        pointer == 6 * ((vert_count - 3) * (vert_count - 1)),
        final(indices)@.len() == old(indices)@.len(),
        entries_done(vert_count as int, final(indices)@, pointer as int),
        forall|i: int|
            pointer <= i < old(indices)@.len() ==> #[trigger] final(indices)@[i]
                == old(indices)@[i],
{
    let ghost vc = vert_count as int;
    let ghost orig = indices@;
    let ghost end = 6 * ((vc - 3) * (vc - 1));
    let mut pointer: usize = 0;
    let mut row: usize = 0;
    while row < vert_count - 3
        invariant
            grid_fits(vc),
            vc == vert_count,
            row_len == mesh_row_len(vc),
            end == 6 * ((vc - 3) * (vc - 1)),
            end <= orig.len(),
            indices@.len() == orig.len(),
            row <= vc - 3,
            pointer == 6 * (row * (vc - 1)),
            entries_done(vc, indices@, pointer as int),
            forall|i: int| pointer <= i < orig.len() ==> #[trigger] indices@[i] == orig[i],
        decreases vert_count - 3 - row,
    {
        let mut col: usize = 0;
        while col < vert_count - 1
            invariant
                grid_fits(vc),
                vc == vert_count,
                row_len == mesh_row_len(vc),
                end == 6 * ((vc - 3) * (vc - 1)),
                end <= orig.len(),
                indices@.len() == orig.len(),
                row < vc - 3,
                col <= vc - 1,
                pointer == 6 * (row * (vc - 1) + col),
                entries_done(vc, indices@, pointer as int),
                forall|i: int| pointer <= i < orig.len() ==> #[trigger] indices@[i] == orig[i],
            decreases vert_count - 1 - col,
        {
            proof {
                lemma_square_before(vc, row as int, col as int, vc - 3);
                lemma_row_start_bound(vc, row as int);
                lemma_row_start_bound(vc, row + 1);
            }
            let top_left = ((row * row_len) + (col * 2)) as u32;
            let top_right = top_left + 1;
            let bot_left = top_left + row_len as u32;
            let bot_right = bot_left + 1;

            let right_handed = col % 2 != row % 2;
            let ghost p = pointer as int;
            pointer = store_quad(
                indices,
                pointer,
                right_handed,
                top_left,
                top_right,
                bot_left,
                bot_right,
            );
            proof {
                assert forall|i: int| 0 <= i < pointer implies indices@[i] == index_entry(vc, i) by {
                    if i >= p {
                        lemma_flat_entry(vc, row as int, col as int, i - p);
                    }
                }
            }
            col = col + 1;
        }
        proof {
            lemma_next_row(vc, row as int);
        }
        row = row + 1;
    }
    pointer
}

/// The squares of the second last row, whose bottom corners appear once in
/// the mesh, written from `pointer`; returns the position after them. The
/// rest of `indices` is left alone.
pub fn store_second_last(
    indices: &mut [u32],
    pointer: usize,
    row_len: usize,
    vert_count: usize,
) -> (next: usize)
    requires
        grid_fits(vert_count as int),
        row_len == 2 * (vert_count - 1),
        pointer + 6 * (vert_count - 1) <= old(indices)@.len(),
    ensures
        next == pointer + 6 * (vert_count - 1),
        final(indices)@.len() == old(indices)@.len(),
        forall|col: int, k: int|
            0 <= col < vert_count - 1 && 0 <= k < 6 ==> #[trigger] final(indices)@[pointer + 6
                * col + k] == quad_entry(vert_count as int, vert_count - 3, col, k),
        forall|i: int|
            0 <= i < old(indices)@.len() && !(pointer <= i < next)
                ==> #[trigger] final(indices)@[i] == old(indices)@[i],
{
    let ghost vc = vert_count as int;
    let ghost orig = indices@;
    let ghost start = pointer as int;
    let mut pointer = pointer;
    let row = vert_count - 3;
    let mut col: usize = 0;
    while col < vert_count - 1
        invariant
            grid_fits(vc),
            vc == vert_count,
            row_len == mesh_row_len(vc),
            row == vc - 3,
            col <= vc - 1,
            0 <= start,
            start + 6 * (vc - 1) <= orig.len(),
            indices@.len() == orig.len(),
            pointer == start + 6 * col,
            forall|c: int, k: int|
                0 <= c < col && 0 <= k < 6 ==> #[trigger] indices@[start + 6 * c + k]
                    == quad_entry(vc, vc - 3, c, k),
            forall|i: int|
                0 <= i < orig.len() && !(start <= i < pointer) ==> #[trigger] indices@[i]
                    == orig[i],
        decreases vert_count - 1 - col,
    {
        proof {
            lemma_row_start_bound(vc, row as int);
        }
        let top_left = ((row * row_len) + (col * 2)) as u32;
        let top_right = top_left + 1;
        let bot_left = (top_left + row_len as u32) - col as u32;
        let bot_right = bot_left + 1;

        let right_handed = col % 2 != row % 2;
        let ghost before = indices@;
        pointer = store_quad(
            indices,
            pointer,
            right_handed,
            top_left,
            top_right,
            bot_left,
            bot_right,
        );
        proof {
            assert forall|c: int, k: int| 0 <= c < col + 1 && 0 <= k < 6 implies #[trigger] indices@[
                start + 6 * c + k] == quad_entry(vc, vc - 3, c, k) by {
                if c < col {
                    assert(start + 6 * c + k < start + 6 * col);
                    assert(before[start + 6 * c + k] == quad_entry(vc, vc - 3, c, k));
                    assert(indices@[start + 6 * c + k] == before[start + 6 * c + k]);
                } else {
                    assert(c == col);
                    assert(indices@[pointer - 6 + k] == quad_values(
                        false,
                        right_handed,
                        top_left as int,
                        top_right as int,
                        bot_left as int,
                        bot_right as int,
                        k,
                    ));
                    assert(start + 6 * c + k == pointer - 6 + k);
                }
            }
        }
        col = col + 1;
    }
    pointer
}

/// The squares of the last row, whose bottom corners stand on the bottom
/// line of the mesh, written from `pointer`. The rest of `indices` is left
/// alone.
pub fn store_last(indices: &mut [u32], pointer: usize, row_len: usize, vert_count: usize)
    requires
        grid_fits(vert_count as int),
        row_len == 2 * (vert_count - 1),
        pointer + 6 * (vert_count - 1) <= old(indices)@.len(),
    ensures
        final(indices)@.len() == old(indices)@.len(),
        forall|col: int, k: int|
            0 <= col < vert_count - 1 && 0 <= k < 6 ==> #[trigger] final(indices)@[pointer + 6
                * col + k] == quad_entry(vert_count as int, vert_count - 2, col, k),
        forall|i: int|
            0 <= i < old(indices)@.len() && !(pointer <= i < pointer + 6 * (vert_count - 1))
                ==> #[trigger] final(indices)@[i] == old(indices)@[i],
{
    let ghost vc = vert_count as int;
    let ghost orig = indices@;
    let ghost start = pointer as int;
    let mut pointer = pointer;
    let row = vert_count - 2;
    let mut col: usize = 0;
    while col < vert_count - 1
        invariant
            grid_fits(vc),
            vc == vert_count,
            row_len == mesh_row_len(vc),
            row == vc - 2,
            col <= vc - 1,
            0 <= start,
            start + 6 * (vc - 1) <= orig.len(),
            indices@.len() == orig.len(),
            pointer == start + 6 * col,
            forall|c: int, k: int|
                0 <= c < col && 0 <= k < 6 ==> #[trigger] indices@[start + 6 * c + k]
                    == quad_entry(vc, vc - 2, c, k),
            forall|i: int|
                0 <= i < orig.len() && !(start <= i < pointer) ==> #[trigger] indices@[i]
                    == orig[i],
        decreases vert_count - 1 - col,
    {
        proof {
            lemma_row_start_bound(vc, row as int);
        }
        let top_left = ((row * row_len) + col) as u32;
        let top_right = top_left + 1;
        let bot_left = top_left + vert_count as u32;
        let bot_right = bot_left + 1;

        let right_handed = col % 2 != row % 2;
        let ghost before = indices@;
        pointer = store_last_line_quad(
            indices,
            pointer,
            right_handed,
            top_left,
            top_right,
            bot_left,
            bot_right,
        );
        proof {
            assert forall|c: int, k: int| 0 <= c < col + 1 && 0 <= k < 6 implies #[trigger] indices@[
                start + 6 * c + k] == quad_entry(vc, vc - 2, c, k) by {
                if c < col {
                    assert(start + 6 * c + k < start + 6 * col);
                    assert(before[start + 6 * c + k] == quad_entry(vc, vc - 2, c, k));
                    assert(indices@[start + 6 * c + k] == before[start + 6 * c + k]);
                } else {
                    assert(c == col);
                    assert(indices@[pointer - 6 + k] == quad_values(
                        true,
                        right_handed,
                        top_left as int,
                        top_right as int,
                        bot_left as int,
                        bot_right as int,
                        k,
                    ));
                    assert(start + 6 * c + k == pointer - 6 + k);
                }
            }
        }
        col = col + 1;
    }
}

/// Entry `i` of the part of the buffer that a row writer filled from
/// `start` is entry `(i - start) % 6` of square `(i - start) / 6`.
proof fn lemma_in_row(start: int, i: int) -> (ck: (int, int))
    requires
        start <= i,
    ensures
        0 <= ck.0,
        0 <= ck.1 < 6,
        i == start + 6 * ck.0 + ck.1,
{
    vstd::arithmetic::div_mod::lemma_fundamental_div_mod(i - start, 6);
    ((i - start) / 6, (i - start) % 6)
}

/// The index buffer of the terrain mesh of a grid of `vert_count` by
/// `vert_count` points: six entries per square, row by row. Each entry names
/// a vertex of the mesh, and the entries of each square name the grid points
/// of its two triangles.
pub fn generate_index_buffer(vert_count: usize) -> (indices: Vec<u32>)
    requires
        3 <= vert_count,
        spec_vertex_count(vert_count as int) <= 0x1_0000_0000,
        spec_index_count(vert_count as int) <= usize::MAX,
    ensures
        indices@.len() == spec_index_count(vert_count as int),
        forall|i: int|
            0 <= i < indices@.len() ==> indices@[i] == index_entry(vert_count as int, i),
        forall|row: int, col: int, k: int|
            0 <= row < vert_count - 1 && 0 <= col < vert_count - 1 && 0 <= k < 6 ==> {
                let v = #[trigger] indices@[6 * (row * (vert_count - 1) + col) + k];
                &&& v < spec_vertex_count(vert_count as int)
                &&& corner_point(spec_mesh_corner(vert_count as int, v as int)) == quad_point(
                    vert_count as int,
                    row,
                    col,
                    k,
                )
            },
{
    let ghost vc = vert_count as int;
    let squares = vert_count - 1;
    proof {
        assert(0 <= squares * squares) by (nonlinear_arith);
        assert((vc - 1) * (vc - 1) == (vc - 3) * (vc - 1) + (vc - 1) + (vc - 1))
            by (nonlinear_arith);
        assert(0 <= (vc - 3) * (vc - 1)) by (nonlinear_arith)
            requires
                vc >= 3,
        ;
    }
    let mut indices: Vec<u32> = vec![0u32; squares * squares * 6];
    let row_len = squares * 2;
    let p1 = store_top_section(indices.as_mut_slice(), row_len, vert_count);
    let ghost after_top = indices@;
    let p2 = store_second_last(indices.as_mut_slice(), p1, row_len, vert_count);
    let ghost after_second = indices@;
    store_last(indices.as_mut_slice(), p2, row_len, vert_count);
    proof {
        assert forall|i: int| 0 <= i < indices@.len() implies indices@[i] == index_entry(vc, i) by {
            assert(p1 == 6 * ((vc - 3) * (vc - 1)));
            assert(p2 == p1 + 6 * (vc - 1));
            assert(indices@.len() == p2 + 6 * (vc - 1));
            if i < p1 {
                assert(after_second[i] == after_top[i]);
                assert(indices@[i] == after_second[i]);
                assert(after_top[i] == index_entry(vc, i));
            } else if i < p2 {
                let (c, k) = lemma_in_row(p1 as int, i);
                assert(after_second[p1 + 6 * c + k] == quad_entry(vc, vc - 3, c, k));
                assert(indices@[i] == after_second[i]);
                assert(c < vc - 1);
                lemma_flat_entry(vc, vc - 3, c, k);
                assert(p1 + 6 * c + k == 6 * ((vc - 3) * (vc - 1) + c) + k);
            } else {
                let (c, k) = lemma_in_row(p2 as int, i);
                assert(indices@[p2 + 6 * c + k] == quad_entry(vc, vc - 2, c, k));
                assert(c < vc - 1);
                lemma_flat_entry(vc, vc - 2, c, k);
                assert((vc - 2) * (vc - 1) == (vc - 3) * (vc - 1) + (vc - 1)) by (nonlinear_arith);
                assert(p2 + 6 * c + k == 6 * ((vc - 2) * (vc - 1) + c) + k);
            }
        }
        assert forall|row: int, col: int, k: int|
            0 <= row < vc - 1 && 0 <= col < vc - 1 && 0 <= k < 6 implies {
                let v = #[trigger] indices@[6 * (row * (vc - 1) + col) + k];
                &&& v < spec_vertex_count(vc)
                &&& corner_point(spec_mesh_corner(vc, v as int)) == quad_point(vc, row, col, k)
            } by {
            lemma_index_names_grid_point(vc, row, col, k);
            lemma_square_in_buffer(vc, row, col);
        }
    }
    indices
}

/// The layout part of one grid square of the terrain: where it lies, and
/// which of its corners the mesh takes from it.
#[derive(Clone, Copy, Debug)]
pub struct GridSquare {
    pub row: usize,
    pub col: usize,
    /// The index of the last row and of the last column of squares.
    pub last_index: usize,
}

impl GridSquare {
    /// The square at `urow`, `ucol` of a grid of `row_len` by `row_len`
    /// points.
    pub fn new(urow: usize, ucol: usize, row_len: usize) -> (square: GridSquare)
        requires
            row_len >= 2,
        ensures
            square.row == urow,
            square.col == ucol,
            square.last_index == row_len - 2,
    {
        GridSquare { row: urow, col: ucol, last_index: row_len - 2 }
    }

    /// Appends the corners the square gives to the rows above the bottom
    /// line: its top left corner, and its top right corner unless it lies in
    /// the last row left of the last column.
    pub fn push_vertex_data(&self, buffer: &mut Vec<MeshCorner>)
        ensures
            final(buffer)@ == old(buffer)@ + seq![
                MeshCorner { row: self.row, col: self.col, corner: Corner::TopLeft },
            ] + if self.row != self.last_index || self.col == self.last_index {
                seq![MeshCorner { row: self.row, col: self.col, corner: Corner::TopRight }]
            } else {
                Seq::<MeshCorner>::empty()
            },
    {
        buffer.push(MeshCorner { row: self.row, col: self.col, corner: Corner::TopLeft });
        if self.row != self.last_index || self.col == self.last_index {
            buffer.push(MeshCorner { row: self.row, col: self.col, corner: Corner::TopRight });
        }
        assert(buffer@ =~= old(buffer)@ + seq![
            MeshCorner { row: self.row, col: self.col, corner: Corner::TopLeft },
        ] + if self.row != self.last_index || self.col == self.last_index {
            seq![MeshCorner { row: self.row, col: self.col, corner: Corner::TopRight }]
        } else {
            Seq::<MeshCorner>::empty()
        });
    }

    /// Appends the corners the square gives to the bottom line: its bottom
    /// left corner if it is the first square of the row, then its bottom
    /// right corner.
    pub fn push_bottom_data(&self, buffer: &mut Vec<MeshCorner>)
        ensures
            final(buffer)@ == old(buffer)@ + if self.col == 0 {
                seq![MeshCorner { row: self.row, col: self.col, corner: Corner::BottomLeft }]
            } else {
                Seq::<MeshCorner>::empty()
            } + seq![MeshCorner { row: self.row, col: self.col, corner: Corner::BottomRight }],
    {
        if self.col == 0 {
            buffer.push(MeshCorner { row: self.row, col: self.col, corner: Corner::BottomLeft });
        }
        buffer.push(MeshCorner { row: self.row, col: self.col, corner: Corner::BottomRight });
        assert(buffer@ =~= old(buffer)@ + if self.col == 0 {
            seq![MeshCorner { row: self.row, col: self.col, corner: Corner::BottomLeft }]
        } else {
            Seq::<MeshCorner>::empty()
        } + seq![MeshCorner { row: self.row, col: self.col, corner: Corner::BottomRight }]);
    }
}

/// The square at column `c` of the last row of a grid of `vc` by `vc` points.
pub open spec fn last_row_square(vc: int, c: int) -> GridSquare {
    GridSquare { row: (vc - 2) as usize, col: c as usize, last_index: (vc - 2) as usize }
}

/// The first `len` vertices of `s` are those of the terrain mesh of a grid of
/// `vc` by `vc` points.
pub open spec fn corners_done(vc: int, s: Seq<MeshCorner>) -> bool {
    forall|v: int| 0 <= v < s.len() ==> s[v] == spec_mesh_corner(vc, v)
}

/// The vertices of the terrain mesh of a grid of `size` by `size` points, in
/// the order of the vertex buffer; none for a single point.
pub fn create_mesh(size: usize) -> (buffer: Vec<MeshCorner>)
    requires
        1 <= size,
        spec_vertex_count(size as int) <= usize::MAX,
    ensures
        size == 1 ==> buffer@.len() == 0,
        size >= 2 ==> buffer@.len() == spec_vertex_count(size as int),
        corners_done(size as int, buffer@),
{
    if size == 1 {
        // a single point has no squares
        return Vec::new();
    }
    let ghost vc = size as int;
    let ghost r = mesh_row_len(vc);
    let ghost base = (vc - 2) * r;
    let mut buffer: Vec<MeshCorner> = Vec::new();
    let mut last_row: Vec<GridSquare> = Vec::new();
    let mut row: usize = 0;
    while row < size - 1
        invariant
            vc == size,
            2 <= vc,
            r == mesh_row_len(vc),
            base == (vc - 2) * r,
            spec_vertex_count(vc) <= usize::MAX,
            row <= vc - 1,
            row <= vc - 2 ==> buffer@.len() == row * r,
            row == vc - 1 ==> buffer@.len() == base + vc,
            corners_done(vc, buffer@),
            row <= vc - 2 ==> last_row@.len() == 0,
            row == vc - 1 ==> last_row@.len() == vc - 1,
            forall|c: int|
                0 <= c < last_row@.len() ==> #[trigger] last_row@[c] == last_row_square(vc, c),
        decreases size - 1 - row,
    {
        proof {
            lemma_row_start_bound(vc, row as int);
        }
        let mut col: usize = 0;
        while col < size - 1
            invariant
                vc == size,
                2 <= vc,
                r == mesh_row_len(vc),
                base == (vc - 2) * r,
                spec_vertex_count(vc) <= usize::MAX,
                row <= vc - 2,
                0 <= row * r <= base,
                row * r + r == (row + 1) * r,
                col <= vc - 1,
                row < vc - 2 ==> buffer@.len() == row * r + 2 * col,
                row == vc - 2 && col < vc - 1 ==> buffer@.len() == base + col,
                row == vc - 2 && col == vc - 1 ==> buffer@.len() == base + vc,
                corners_done(vc, buffer@),
                row < vc - 2 ==> last_row@.len() == 0,
                row == vc - 2 ==> last_row@.len() == col,
                forall|c: int|
                    0 <= c < last_row@.len() ==> #[trigger] last_row@[c] == last_row_square(vc, c),
            decreases size - 1 - col,
        {
            let square = GridSquare::new(row, col, size);
            let ghost v = buffer@.len() as int;
            square.push_vertex_data(&mut buffer);
            proof {
                if row < vc - 2 {
                    lemma_row_start_bound(vc, row + 1);
                    lemma_div_mod(v, r, row as int, 2 * col);
                    lemma_div_mod(2 * col, 2, col as int, 0);
                    lemma_div_mod(v + 1, r, row as int, 2 * col + 1);
                    lemma_div_mod(2 * col + 1, 2, col as int, 1);
                }
                assert forall|w: int| 0 <= w < buffer@.len() implies buffer@[w]
                    == spec_mesh_corner(vc, w) by {
                    if w >= v {
                        if row < vc - 2 {
                            assert(w < (row + 1) * r);
                        }
                    }
                }
            }
            if row == size - 2 {
                last_row.push(square);
            }
            col = col + 1;
        }
        row = row + 1;
    }
    let mut i: usize = 0;
    while i < last_row.len()
        invariant
            vc == size,
            2 <= vc,
            r == mesh_row_len(vc),
            base == (vc - 2) * r,
            spec_vertex_count(vc) <= usize::MAX,
            last_row@.len() == vc - 1,
            i <= vc - 1,
            i == 0 ==> buffer@.len() == base + vc,
            i > 0 ==> buffer@.len() == base + vc + i + 1,
            corners_done(vc, buffer@),
            forall|c: int|
                0 <= c < last_row@.len() ==> #[trigger] last_row@[c] == last_row_square(vc, c),
        decreases last_row@.len() - i,
    {
        let square = last_row[i];
        let ghost v = buffer@.len() as int;
        square.push_bottom_data(&mut buffer);
        proof {
            assert(last_row@[i as int].col == i);
            assert forall|w: int| 0 <= w < buffer@.len() implies buffer@[w]
                == spec_mesh_corner(vc, w) by {
            }
        }
        i = i + 1;
    }
    buffer
}

/// Where the four corners of the square at `row`, `col` sit in the mesh, and
/// which mesh vertices they are.
proof fn lemma_quad_corners(vc: int, row: int, col: int)
    requires
        3 <= vc,
        vc <= usize::MAX,
        0 <= row < vc - 1,
        0 <= col < vc - 1,
    ensures
        ({
            let (tl, tr, bl, br) = quad_corners(vc, row, col);
            &&& 0 <= tl < spec_vertex_count(vc)
            &&& 0 <= tr < spec_vertex_count(vc)
            &&& 0 <= bl < spec_vertex_count(vc)
            &&& 0 <= br < spec_vertex_count(vc)
            &&& spec_mesh_corner(vc, tl) == (MeshCorner {
                row: row as usize,
                col: col as usize,
                corner: Corner::TopLeft,
            })
            &&& corner_point(spec_mesh_corner(vc, tr)) == (row, col + 1)
            &&& corner_point(spec_mesh_corner(vc, bl)) == (row + 1, col)
            &&& corner_point(spec_mesh_corner(vc, br)) == (row + 1, col + 1)
            &&& row < vc - 2 ==> spec_mesh_corner(vc, tr) == (MeshCorner {
                row: row as usize,
                col: col as usize,
                corner: Corner::TopRight,
            })
            &&& row == vc - 2 ==> spec_mesh_corner(vc, br) == (MeshCorner {
                row: row as usize,
                col: col as usize,
                corner: Corner::BottomRight,
            })
        }),
{
    let r = mesh_row_len(vc);
    let base = (vc - 2) * r;
    let vcount = spec_vertex_count(vc);
    assert(vcount == base + 2 * vc);
    let (tl, tr, bl, br) = quad_corners(vc, row, col);
    lemma_row_start_bound(vc, row);
    if row < vc - 2 {
        lemma_row_start_bound(vc, row + 1);
        assert(tl == row * r + 2 * col);
        assert(tl + 1 < base);
        lemma_div_mod(tl, r, row, 2 * col);
        lemma_div_mod(2 * col, 2, col, 0);
        lemma_div_mod(tl + 1, r, row, 2 * col + 1);
        lemma_div_mod(2 * col + 1, 2, col, 1);
        assert(spec_mesh_corner(vc, tl) == (MeshCorner {
            row: row as usize,
            col: col as usize,
            corner: Corner::TopLeft,
        }));
        assert(spec_mesh_corner(vc, tr) == (MeshCorner {
            row: row as usize,
            col: col as usize,
            corner: Corner::TopRight,
        }));
        if row < vc - 3 {
            lemma_row_start_bound(vc, row + 2);
            lemma_div_mod(tl + r, r, row + 1, 2 * col);
            lemma_div_mod(tl + r + 1, r, row + 1, 2 * col + 1);
            assert(bl == tl + r);
            assert(bl + 1 < base);
            assert(spec_mesh_corner(vc, bl) == (MeshCorner {
                row: (row + 1) as usize,
                col: col as usize,
                corner: Corner::TopLeft,
            }));
            assert(spec_mesh_corner(vc, br) == (MeshCorner {
                row: (row + 1) as usize,
                col: col as usize,
                corner: Corner::TopRight,
            }));
        } else {
            assert(bl == base + col);
            assert(br == base + col + 1);
        }
    } else {
        assert(tl == base + col);
        assert(bl == base + vc + col);
    }
}

/// Every entry of the index buffer names a vertex of the mesh, and the
/// entries of each square name the grid points of its two triangles: the
/// first vertex of each triangle, whose normal the triangle is shaded with,
/// is one the square itself gave to the mesh, with the normal of that
/// triangle.
pub proof fn lemma_index_names_grid_point(vc: int, row: int, col: int, k: int)
    requires
        3 <= vc,
        vc <= usize::MAX,
        0 <= row < vc - 1,
        0 <= col < vc - 1,
        0 <= k < 6,
    ensures
        ({
            let v = index_entry(vc, 6 * (row * (vc - 1) + col) + k);
            &&& 0 <= v < spec_vertex_count(vc)
            &&& corner_point(spec_mesh_corner(vc, v)) == quad_point(vc, row, col, k)
            &&& k == 0 ==> spec_mesh_corner(vc, v) == (MeshCorner {
                row: row as usize,
                col: col as usize,
                corner: Corner::TopLeft,
            })
            &&& k == 3 ==> {
                &&& spec_mesh_corner(vc, v).row == row
                &&& spec_mesh_corner(vc, v).col == col
                &&& is_right_corner(spec_mesh_corner(vc, v))
            }
        }),
{
    lemma_flat_entry(vc, row, col, k);
    lemma_quad_corners(vc, row, col);
}

/// Every entry of the index buffer is a vertex of the mesh.
pub proof fn lemma_index_in_range(vc: int, i: int)
    requires
        3 <= vc,
        vc <= usize::MAX,
        0 <= i < spec_index_count(vc),
    ensures
        0 <= index_entry(vc, i) < spec_vertex_count(vc),
{
    let n = vc - 1;
    let q = i / 6;
    let row = q / n;
    let col = q % n;
    vstd::arithmetic::div_mod::lemma_fundamental_div_mod(i, 6);
    vstd::arithmetic::div_mod::lemma_fundamental_div_mod(q, n);
    assert(0 <= q < n * n);
    assert(0 <= row < n) by (nonlinear_arith)
        requires
            q == n * row + col,
            0 <= col < n,
            0 <= q < n * n,
            n > 0,
    ;
    lemma_index_names_grid_point(vc, row, col, i % 6);
    assert(6 * (row * n + col) + i % 6 == i) by (nonlinear_arith)
        requires
            q == n * row + col,
            i == 6 * q + i % 6,
    ;
}

} // verus!
