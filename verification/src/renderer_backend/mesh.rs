use vstd::prelude::*;

verus! {

/// The two triangles `(a, b, c)` and `(a, c, d)` that cover the quad `a b c d`.
pub open spec fn quad_tris(a: u16, b: u16, c: u16, d: u16) -> Seq<u16> {
    seq![a, b, c, a, c, d]
}

/// Every index of `indices` names one of the first `vertex_count` vertices.
pub open spec fn indices_in_range(indices: Seq<u16>, vertex_count: int) -> bool {
    forall|k: int| 0 <= k < indices.len() ==> #[trigger] indices[k] < vertex_count
}

/// Splits the quad with corners `a b c d` (in winding order) into two triangles
/// that keep its winding.
pub fn quad_indices_to_tris(a: u16, b: u16, c: u16, d: u16) -> (tris: [u16; 6])
    ensures
        tris@ == quad_tris(a, b, c, d),
{
    [a, b, c, a, c, d]
}

/// Serialises 16-bit indices the way the GPU index buffer expects them:
/// each index as two little-endian bytes, one index after the other.
pub fn indices_to_bytes(indices: &[u16]) -> (bytes: Vec<u8>)
    requires
        2 * indices@.len() <= usize::MAX,
    ensures
        bytes@.len() == 2 * indices@.len(),
        forall|i: int|
            0 <= i < indices@.len() ==> {
                &&& #[trigger] bytes@[2 * i] == (indices@[i] % 256) as u8
                &&& bytes@[2 * i + 1] == (indices@[i] / 256) as u8
            },
{
    let mut bytes: Vec<u8> = Vec::new();
    let n = indices.len();
    let mut i: usize = 0;
    while i < n
        invariant
            n == indices@.len(),
            i <= n,
            bytes@.len() == 2 * i,
            forall|j: int|
                0 <= j < i ==> {
                    &&& #[trigger] bytes@[2 * j] == (indices@[j] % 256) as u8
                    &&& bytes@[2 * j + 1] == (indices@[j] / 256) as u8
                },
        decreases n - i,
    {
        let ghost before = bytes@;
        let v = indices[i];
        bytes.push((v % 256) as u8);
        bytes.push((v / 256) as u8);
        assert forall|j: int| 0 <= j < i + 1 implies {
            &&& #[trigger] bytes@[2 * j] == (indices@[j] % 256) as u8
            &&& bytes@[2 * j + 1] == (indices@[j] / 256) as u8
        } by {
            if j < i {
                assert(before[2 * j] == (indices@[j] % 256) as u8);
            }
        }
        i = i + 1;
    }
    bytes
}

/// The index list of the full-screen quad: vertices 0..4 counter-clockwise,
/// covered by the triangles `(0, 1, 2)` and `(2, 3, 0)`.
pub fn quad_indices() -> (indices: [u16; 6])
    ensures
        indices@ == seq![0u16, 1, 2, 2, 3, 0],
        indices_in_range(indices@, 4),
{
    [0, 1, 2, 2, 3, 0]
}

/// `s` is the fan triangulation of a convex polygon with `n` vertices:
/// `n - 2` triangles, triangle `t` being `(0, t + 1, t + 2)`.
pub open spec fn is_triangle_fan(s: Seq<u16>, n: int) -> bool {
    &&& s.len() == 3 * (n - 2)
    &&& forall|t: int|
        #![trigger s[3 * t]]
        #![trigger s[3 * t + 1]]
        #![trigger s[3 * t + 2]]
        0 <= t < n - 2 ==> {
            &&& s[3 * t] == 0
            &&& s[3 * t + 1] == t + 1
            &&& s[3 * t + 2] == t + 2
        }
}

/// The index list of `make_n_gon`: a triangle fan over the polygon's `n` vertices.
pub fn n_gon_indices(n: usize) -> (indices: Vec<u16>)
    requires
        2 <= n <= 65536,
    ensures
        is_triangle_fan(indices@, n as int),
        indices_in_range(indices@, n as int),
{
    let mut indices: Vec<u16> = Vec::new();
    let count = n - 2;
    let mut i: usize = 0;
    while i < count
        invariant
            count == n - 2,
            n <= 65536,
            i <= count,
            is_triangle_fan(indices@, i + 2),
        decreases count - i,
    {
        let ghost before = indices@;
        let j = i as u16;
        indices.push(0);
        indices.push(1 + j);
        indices.push(2 + j);
        assert forall|t: int| 0 <= t < i + 1 implies {
            &&& #[trigger] indices@[3 * t] == 0
            &&& indices@[3 * t + 1] == t + 1
            &&& indices@[3 * t + 2] == t + 2
        } by {
            if t < i {
                assert(before[3 * t] == 0 && before[3 * t + 1] == t + 1 && before[3 * t + 2] == t
                    + 2);
            }
        }
        i = i + 1;
    }
    proof {
        lemma_fan_in_range(indices@, n as int);
    }
    indices
}

proof fn lemma_fan_in_range(s: Seq<u16>, n: int)
    requires
        n >= 2,
        is_triangle_fan(s, n),
    ensures
        indices_in_range(s, n),
{
    assert forall|k: int| 0 <= k < s.len() implies #[trigger] s[k] < n by {
        let t = k / 3;
        assert(0 <= t < n - 2);
        assert(k == 3 * t || k == 3 * t + 1 || k == 3 * t + 2);
        assert(s[3 * t] == 0);
    }
}

/// The twelve triangles of the unit cube, two per face, over its eight corners.
pub open spec fn cube_tris() -> Seq<u16> {
    quad_tris(3, 2, 1, 0) + quad_tris(4, 5, 6, 7) + quad_tris(0, 1, 5, 4) + quad_tris(2, 3, 7, 6)
        + quad_tris(3, 0, 4, 7) + quad_tris(1, 2, 6, 5)
}

fn push_all(dst: &mut Vec<u16>, src: &[u16; 6])
    ensures
        final(dst)@ == old(dst)@ + src@,
{
    let mut i: usize = 0;
    while i < 6
        invariant
            0 <= i <= 6,
            dst@ == old(dst)@ + src@.take(i as int),
        decreases 6 - i,
    {
        dst.push(src[i]);
        i = i + 1;
        assert(dst@ =~= old(dst)@ + src@.take(i as int));
    }
    assert(src@.take(6) =~= src@);
}

/// The corners of `make_cube`'s cube, at twice their coordinates: corner `i` is at
/// `x = ±1` (`+` for 1, 2, 5, 6), `y = ±1` (`+` for 2, 3, 6, 7), `z = ±1` (`+` for
/// 4..8), around the centre `(0, 0, 0)`.
pub open spec fn cube_corner(i: int) -> (int, int, int) {
    let x = if i == 1 || i == 2 || i == 5 || i == 6 { 1int } else { -1int };
    let y = if i == 2 || i == 3 || i == 6 || i == 7 { 1int } else { -1int };
    let z = if 4 <= i { 1int } else { -1int };
    (x, y, z)
}

/// The normal `(b - a) x (c - a)` of the triangle `(a, b, c)` of cube corners.
pub open spec fn tri_normal(a: int, b: int, c: int) -> (int, int, int) {
    let (ax, ay, az) = cube_corner(a);
    let (bx, by, bz) = cube_corner(b);
    let (cx, cy, cz) = cube_corner(c);
    let (ux, uy, uz) = (bx - ax, by - ay, bz - az);
    let (vx, vy, vz) = (cx - ax, cy - ay, cz - az);
    (uy * vz - uz * vy, uz * vx - ux * vz, ux * vy - uy * vx)
}

/// The triangle `(a, b, c)` of cube corners is wound counter-clockwise seen from
/// outside: its normal points away from the centre.
pub open spec fn faces_outward(a: int, b: int, c: int) -> bool {
    let (ax, ay, az) = cube_corner(a);
    let (nx, ny, nz) = tri_normal(a, b, c);
    nx * ax + ny * ay + nz * az > 0
}

/// The normal of triangle `t` of an index list.
pub open spec fn nth_normal(s: Seq<u16>, t: int) -> (int, int, int) {
    tri_normal(s[3 * t] as int, s[3 * t + 1] as int, s[3 * t + 2] as int)
}

/// The outward normals of the cube's triangles, two per face.
spec fn face_normal_table(t: int) -> (int, int, int) {
    if t == 0 {
        (0int, 0int, -4int)
    } else if t == 1 {
        (0int, 0int, -4int)
    } else if t == 2 {
        (0int, 0int, 4int)
    } else if t == 3 {
        (0int, 0int, 4int)
    } else if t == 4 {
        (0int, -4int, 0int)
    } else if t == 5 {
        (0int, -4int, 0int)
    } else if t == 6 {
        (0int, 4int, 0int)
    } else if t == 7 {
        (0int, 4int, 0int)
    } else if t == 8 {
        (-4int, 0int, 0int)
    } else if t == 9 {
        (-4int, 0int, 0int)
    } else if t == 10 {
        (4int, 0int, 0int)
    } else if t == 11 {
        (4int, 0int, 0int)
    } else {
        (0int, 0int, 0int)
    }
}

/// Every triangle of the cube is wound counter-clockwise seen from outside, so that
/// back-face culling keeps exactly the faces turned to the viewer; the two triangles
/// of each face lie in one plane, and the six faces face six different ways.
pub proof fn lemma_cube_faces_outward()
    ensures
        cube_tris().len() == 36,
        forall|t: int|
            0 <= t < 12 ==> #[trigger] faces_outward(
                cube_tris()[3 * t] as int,
                cube_tris()[3 * t + 1] as int,
                cube_tris()[3 * t + 2] as int,
            ),
        forall|f: int|
            0 <= f < 6 ==> #[trigger] nth_normal(cube_tris(), 2 * f) == nth_normal(
                cube_tris(),
                2 * f + 1,
            ),
        forall|f: int, g: int|
            0 <= f < g < 6 ==> #[trigger] nth_normal(cube_tris(), 2 * f) != #[trigger] nth_normal(
                cube_tris(),
                2 * g,
            ),
{
    let s = cube_tris();
    assert(s =~= seq![
        3u16, 2, 1, 3, 1, 0,
        4, 5, 6, 4, 6, 7,
        0, 1, 5, 0, 5, 4,
        2, 3, 7, 2, 7, 6,
        3, 0, 4, 3, 4, 7,
        1, 2, 6, 1, 6, 5,
    ]);
    assert forall|t: int| 0 <= t < 12 implies #[trigger] faces_outward(
        s[3 * t] as int,
        s[3 * t + 1] as int,
        s[3 * t + 2] as int,
    ) by {
        if t == 0 {
            assert(s[0] == 3 && s[1] == 2 && s[2] == 1);
            assert(faces_outward(3int, 2int, 1int)) by (nonlinear_arith);
        } else if t == 1 {
            assert(s[3] == 3 && s[4] == 1 && s[5] == 0);
            assert(faces_outward(3int, 1int, 0int)) by (nonlinear_arith);
        } else if t == 2 {
            assert(s[6] == 4 && s[7] == 5 && s[8] == 6);
            assert(faces_outward(4int, 5int, 6int)) by (nonlinear_arith);
        } else if t == 3 {
            assert(s[9] == 4 && s[10] == 6 && s[11] == 7);
            assert(faces_outward(4int, 6int, 7int)) by (nonlinear_arith);
        } else if t == 4 {
            assert(s[12] == 0 && s[13] == 1 && s[14] == 5);
            assert(faces_outward(0int, 1int, 5int)) by (nonlinear_arith);
        } else if t == 5 {
            assert(s[15] == 0 && s[16] == 5 && s[17] == 4);
            assert(faces_outward(0int, 5int, 4int)) by (nonlinear_arith);
        } else if t == 6 {
            assert(s[18] == 2 && s[19] == 3 && s[20] == 7);
            assert(faces_outward(2int, 3int, 7int)) by (nonlinear_arith);
        } else if t == 7 {
            assert(s[21] == 2 && s[22] == 7 && s[23] == 6);
            assert(faces_outward(2int, 7int, 6int)) by (nonlinear_arith);
        } else if t == 8 {
            assert(s[24] == 3 && s[25] == 0 && s[26] == 4);
            assert(faces_outward(3int, 0int, 4int)) by (nonlinear_arith);
        } else if t == 9 {
            assert(s[27] == 3 && s[28] == 4 && s[29] == 7);
            assert(faces_outward(3int, 4int, 7int)) by (nonlinear_arith);
        } else if t == 10 {
            assert(s[30] == 1 && s[31] == 2 && s[32] == 6);
            assert(faces_outward(1int, 2int, 6int)) by (nonlinear_arith);
        } else if t == 11 {
            assert(s[33] == 1 && s[34] == 6 && s[35] == 5);
            assert(faces_outward(1int, 6int, 5int)) by (nonlinear_arith);
        }
    }
    assert forall|t: int| 0 <= t < 12 implies nth_normal(s, t) == #[trigger] face_normal_table(t) by {
        if t == 0 {
            assert(s[0] == 3 && s[1] == 2 && s[2] == 1);
            assert(tri_normal(3, 2, 1) == (0int, 0int, -4int)) by (nonlinear_arith);
        } else if t == 1 {
            assert(s[3] == 3 && s[4] == 1 && s[5] == 0);
            assert(tri_normal(3, 1, 0) == (0int, 0int, -4int)) by (nonlinear_arith);
        } else if t == 2 {
            assert(s[6] == 4 && s[7] == 5 && s[8] == 6);
            assert(tri_normal(4, 5, 6) == (0int, 0int, 4int)) by (nonlinear_arith);
        } else if t == 3 {
            assert(s[9] == 4 && s[10] == 6 && s[11] == 7);
            assert(tri_normal(4, 6, 7) == (0int, 0int, 4int)) by (nonlinear_arith);
        } else if t == 4 {
            assert(s[12] == 0 && s[13] == 1 && s[14] == 5);
            assert(tri_normal(0, 1, 5) == (0int, -4int, 0int)) by (nonlinear_arith);
        } else if t == 5 {
            assert(s[15] == 0 && s[16] == 5 && s[17] == 4);
            assert(tri_normal(0, 5, 4) == (0int, -4int, 0int)) by (nonlinear_arith);
        } else if t == 6 {
            assert(s[18] == 2 && s[19] == 3 && s[20] == 7);
            assert(tri_normal(2, 3, 7) == (0int, 4int, 0int)) by (nonlinear_arith);
        } else if t == 7 {
            assert(s[21] == 2 && s[22] == 7 && s[23] == 6);
            assert(tri_normal(2, 7, 6) == (0int, 4int, 0int)) by (nonlinear_arith);
        } else if t == 8 {
            assert(s[24] == 3 && s[25] == 0 && s[26] == 4);
            assert(tri_normal(3, 0, 4) == (-4int, 0int, 0int)) by (nonlinear_arith);
        } else if t == 9 {
            assert(s[27] == 3 && s[28] == 4 && s[29] == 7);
            assert(tri_normal(3, 4, 7) == (-4int, 0int, 0int)) by (nonlinear_arith);
        } else if t == 10 {
            assert(s[30] == 1 && s[31] == 2 && s[32] == 6);
            assert(tri_normal(1, 2, 6) == (4int, 0int, 0int)) by (nonlinear_arith);
        } else if t == 11 {
            assert(s[33] == 1 && s[34] == 6 && s[35] == 5);
            assert(tri_normal(1, 6, 5) == (4int, 0int, 0int)) by (nonlinear_arith);
        }
    }
    assert forall|f: int| 0 <= f < 6 implies #[trigger] nth_normal(s, 2 * f) == nth_normal(
        s,
        2 * f + 1,
    ) by {
        assert(nth_normal(s, 2 * f) == face_normal_table(2 * f));
        assert(nth_normal(s, 2 * f + 1) == face_normal_table(2 * f + 1));
        assert(f == 0 || f == 1 || f == 2 || f == 3 || f == 4 || f == 5);
    }
    assert forall|f: int, g: int| 0 <= f < g < 6 implies #[trigger] nth_normal(s, 2 * f)
        != #[trigger] nth_normal(s, 2 * g) by {
        assert(nth_normal(s, 2 * f) == face_normal_table(2 * f));
        assert(nth_normal(s, 2 * g) == face_normal_table(2 * g));
        assert(f == 0 || f == 1 || f == 2 || f == 3 || f == 4 || f == 5);
        assert(g == 0 || g == 1 || g == 2 || g == 3 || g == 4 || g == 5);
    }
}

/// The index list of `make_cube`: each of the six faces split into two triangles.
pub fn cube_indices() -> (indices: Vec<u16>)
    ensures
        indices@ == cube_tris(),
        indices_in_range(indices@, 8),
{
    let mut indices: Vec<u16> = Vec::new();
    push_all(&mut indices, &quad_indices_to_tris(3, 2, 1, 0));
    push_all(&mut indices, &quad_indices_to_tris(4, 5, 6, 7));
    push_all(&mut indices, &quad_indices_to_tris(0, 1, 5, 4));
    push_all(&mut indices, &quad_indices_to_tris(2, 3, 7, 6));
    push_all(&mut indices, &quad_indices_to_tris(3, 0, 4, 7));
    push_all(&mut indices, &quad_indices_to_tris(1, 2, 6, 5));
    assert(indices@ =~= cube_tris());
    indices
}


/// The vertex at the corner of cell `(x, y)` of the ground-plane grid with `n * n`
/// quads; the grid's vertices are laid out in rows of `n + 1`.
pub open spec fn grid_corner(n: int, x: int, y: int) -> int {
    x + y * (n + 1)
}

/// The two triangles of cell `(x, y)` of the ground-plane grid.
pub open spec fn grid_quad(n: int, x: int, y: int) -> Seq<u16> {
    let b = grid_corner(n, x, y);
    let stride = n + 1;
    quad_tris(b as u16, (b + 1) as u16, (b + stride + 1) as u16, (b + stride) as u16)
}

/// The six indices that the index list `s` holds for cell `(x, y)`; cells are
/// stored row after row, `n` cells to a row.
pub open spec fn grid_cell(s: Seq<u16>, n: int, x: int, y: int) -> Seq<u16> {
    s.subrange(6 * (x * n + y), 6 * (x * n + y) + 6)
}

/// `s` is the index list of the ground-plane grid with `n * n` quads.
pub open spec fn is_ground_plane_grid(s: Seq<u16>, n: int) -> bool {
    &&& s.len() == 6 * (n * n)
    &&& forall|x: int, y: int|
        0 <= x < n && 0 <= y < n ==> #[trigger] grid_cell(s, n, x, y) == grid_quad(n, x, y)
}

/// The row of vertex `v` of the ground-plane grid with `n * n` quads: the vertices
/// are made row by row, `n + 1` to a row, so this is its first horizontal coordinate.
pub open spec fn grid_row(n: int, v: int) -> int {
    v / (n + 1)
}

/// The place of vertex `v` within its row: its second horizontal coordinate.
pub open spec fn grid_col(n: int, v: int) -> int {
    v % (n + 1)
}

/// The triangle `a b c` of the ground-plane grid, with heights left out, is wound
/// counter-clockwise seen from above: the vertical part of `(b - a) x (c - a)` is
/// positive, the first coordinate being the row and the second the place in the row.
pub open spec fn grid_tri_faces_up(n: int, a: int, b: int, c: int) -> bool {
    let ux = grid_row(n, b) - grid_row(n, a);
    let uz = grid_col(n, b) - grid_col(n, a);
    let wx = grid_row(n, c) - grid_row(n, a);
    let wz = grid_col(n, c) - grid_col(n, a);
    uz * wx - ux * wz > 0
}

/// Each of the two triangles of cell `(x, y)` of the ground plane faces up, and its
/// corners are corners of that cell: rows `y` and `y + 1`, places `x` and `x + 1`.
pub proof fn lemma_ground_plane_faces_up(s: Seq<u16>, n: int, x: int, y: int, k: int)
    requires
        is_ground_plane_grid(s, n),
        n <= 255,
        0 <= x < n,
        0 <= y < n,
        0 <= k < 2,
    ensures
        grid_tri_faces_up(
            n,
            s[6 * (x * n + y) + 3 * k] as int,
            s[6 * (x * n + y) + 3 * k + 1] as int,
            s[6 * (x * n + y) + 3 * k + 2] as int,
        ),
        forall|j: int|
            0 <= j < 6 ==> {
                &&& y <= grid_row(n, #[trigger] s[6 * (x * n + y) + j] as int) <= y + 1
                &&& x <= grid_col(n, s[6 * (x * n + y) + j] as int) <= x + 1
            },
{
    lemma_corner_bound(n, x, y);
    assert(grid_cell(s, n, x, y) == grid_quad(n, x, y));
    let base = 6 * (x * n + y);
    assert(0 <= x * n) by (nonlinear_arith)
        requires
            0 <= x,
            0 <= n,
    ;
    assert(x * n + y + 1 <= n * n) by (nonlinear_arith)
        requires
            0 <= x < n,
            0 <= y < n,
    ;
    let b = grid_corner(n, x, y);
    let d = n + 1;
    let cell = grid_cell(s, n, x, y);
    assert forall|j: int| 0 <= j < 6 implies s[base + j] == cell[j] by {}
    assert(0 <= b);
    assert(s[base] == b);
    assert(s[base + 1] == b + 1);
    assert(s[base + 2] == b + d + 1);
    assert(s[base + 3] == b);
    assert(s[base + 4] == b + d + 1);
    assert(s[base + 5] == b + d);
    assert(b + d == x + (y + 1) * d && b + d + 1 == (x + 1) + (y + 1) * d) by (nonlinear_arith)
        requires
            b == x + y * (n + 1),
            d == n + 1,
    ;
    vstd::arithmetic::div_mod::lemma_fundamental_div_mod_converse(b, d, y, x);
    vstd::arithmetic::div_mod::lemma_fundamental_div_mod_converse(b + 1, d, y, x + 1);
    vstd::arithmetic::div_mod::lemma_fundamental_div_mod_converse(b + d, d, y + 1, x);
    vstd::arithmetic::div_mod::lemma_fundamental_div_mod_converse(b + d + 1, d, y + 1, x + 1);
    assert(grid_row(n, b) == y && grid_col(n, b) == x);
    assert(grid_row(n, b + 1) == y && grid_col(n, b + 1) == x + 1);
    assert(grid_row(n, b + d) == y + 1 && grid_col(n, b + d) == x);
    assert(grid_row(n, b + d + 1) == y + 1 && grid_col(n, b + d + 1) == x + 1);
    if k == 0 {
        let ux = grid_row(n, b + 1) - grid_row(n, b);
        let uz = grid_col(n, b + 1) - grid_col(n, b);
        let wx = grid_row(n, b + d + 1) - grid_row(n, b);
        let wz = grid_col(n, b + d + 1) - grid_col(n, b);
        assert(ux == 0 && uz == 1 && wx == 1 && wz == 1);
        assert(uz * wx - ux * wz > 0);
        assert(grid_tri_faces_up(n, b, b + 1, b + d + 1));
    } else {
        let ux = grid_row(n, b + d + 1) - grid_row(n, b);
        let uz = grid_col(n, b + d + 1) - grid_col(n, b);
        let wx = grid_row(n, b + d) - grid_row(n, b);
        let wz = grid_col(n, b + d) - grid_col(n, b);
        assert(ux == 1 && uz == 1 && wx == 1 && wz == 0);
        assert(uz * wx - ux * wz > 0);
        assert(grid_tri_faces_up(n, b, b + d + 1, b + d));
    }
}

proof fn lemma_cell_order(n: int, x1: int, y1: int, x2: int, y2: int)
    requires
        0 <= x1,
        0 <= y1 < n,
        0 <= y2,
        x1 < x2 || (x1 == x2 && y1 < y2),
    ensures
        x1 * n + y1 + 1 <= x2 * n + y2,
{
    if x1 < x2 {
        assert(x1 * n + n <= x2 * n) by (nonlinear_arith)
            requires
                x1 < x2,
                0 < n,
        ;
    }
}

proof fn lemma_corner_bound(n: int, x: int, y: int)
    requires
        0 <= x < n,
        0 <= y < n,
        n <= 255,
    ensures
        0 <= y * (n + 1) <= (n - 1) * (n + 1),
        (n + 1) * (n + 1) <= 65536,
        grid_corner(n, x, y) + (n + 1) + 1 <= (n + 1) * (n + 1) - 1,
{
    assert(0 <= y * (n + 1) <= (n - 1) * (n + 1)) by (nonlinear_arith)
        requires
            0 <= y < n,
    ;
    assert((n - 1) * (n + 1) + n + n + 1 == (n + 1) * (n + 1) - 1) by (nonlinear_arith);
    assert((n + 1) * (n + 1) <= 256 * 256) by (nonlinear_arith)
        requires
            0 <= n <= 255,
    ;
}

proof fn lemma_concat_prefix(a: Seq<u16>, b: Seq<u16>, i: int, j: int)
    requires
        0 <= i <= j <= a.len(),
    ensures
        (a + b).subrange(i, j) == a.subrange(i, j),
{
    assert((a + b).subrange(i, j) =~= a.subrange(i, j));
}

proof fn lemma_concat_suffix(a: Seq<u16>, b: Seq<u16>)
    ensures
        (a + b).subrange(a.len() as int, (a.len() + b.len()) as int) == b,
{
    assert((a + b).subrange(a.len() as int, (a.len() + b.len()) as int) =~= b);
}

/// The index list of the rough ground plane: a square grid of `n_quads * n_quads`
/// quads, two triangles each, over the `(n_quads + 1)^2` grid vertices.
pub fn ground_plane_indices(n_quads: u16) -> (indices: Vec<u16>)
    requires
        n_quads <= 255,
    ensures
        is_ground_plane_grid(indices@, n_quads as int),
        indices_in_range(indices@, (n_quads + 1) * (n_quads + 1)),
{
    let n = n_quads;
    let ghost ni = n as int;
    let ghost vertex_count = (ni + 1) * (ni + 1);
    let mut indices: Vec<u16> = Vec::new();
    let mut x: u16 = 0;
    while x < n
        invariant
            n <= 255,
            ni == n as int,
            vertex_count == (ni + 1) * (ni + 1),
            x <= n,
            indices@.len() == 6 * (x * ni),
            forall|x1: int, y1: int|
                0 <= x1 < x && 0 <= y1 < ni ==> #[trigger] grid_cell(indices@, ni, x1, y1)
                    == grid_quad(ni, x1, y1),
            indices_in_range(indices@, vertex_count),
        decreases n - x,
    {
        let mut y: u16 = 0;
        while y < n
            invariant
                n <= 255,
                ni == n as int,
                vertex_count == (ni + 1) * (ni + 1),
                x < n,
                y <= n,
                indices@.len() == 6 * (x * ni + y),
                forall|x1: int, y1: int|
                    (0 <= x1 < x && 0 <= y1 < ni) || (x1 == x && 0 <= y1 < y)
                        ==> #[trigger] grid_cell(indices@, ni, x1, y1) == grid_quad(ni, x1, y1),
                indices_in_range(indices@, vertex_count),
            decreases n - y,
        {
            proof {
                lemma_corner_bound(ni, x as int, y as int);
            }
            let stride = n + 1;
            let b = x + y * (n + 1);
            let tris = quad_indices_to_tris(b, b + 1, b + stride + 1, b + stride);
            let ghost before = indices@;
            push_all(&mut indices, &tris);
            proof {
                assert(tris@ == grid_quad(ni, x as int, y as int));
                lemma_concat_suffix(before, tris@);
                assert(grid_cell(indices@, ni, x as int, y as int) == grid_quad(
                    ni,
                    x as int,
                    y as int,
                ));
                assert forall|x1: int, y1: int|
                    (0 <= x1 < x && 0 <= y1 < ni) || (x1 == x && 0 <= y1 < y + 1)
                        implies #[trigger] grid_cell(indices@, ni, x1, y1) == grid_quad(
                        ni,
                        x1,
                        y1,
                    ) by {
                    if x1 != x || y1 != y {
                        lemma_cell_order(ni, x1, y1, x as int, y as int);
                        assert(0 <= x1 * ni + y1) by (nonlinear_arith)
                            requires
                                0 <= x1,
                                0 <= y1,
                                0 <= ni,
                        ;
                        lemma_concat_prefix(
                            before,
                            tris@,
                            6 * (x1 * ni + y1),
                            6 * (x1 * ni + y1) + 6,
                        );
                        assert(grid_cell(before, ni, x1, y1) == grid_quad(ni, x1, y1));
                    }
                }
                assert forall|k: int| 0 <= k < indices@.len() implies #[trigger] indices@[k]
                    < vertex_count by {
                    if k < before.len() {
                        assert(before[k] < vertex_count);
                    } else {
                        assert(indices@[k] == tris@[k - before.len()]);
                    }
                }
            }
            y = y + 1;
        }
        proof {
            assert(x * ni + ni == (x + 1) * ni) by (nonlinear_arith);
        }
        x = x + 1;
    }
    indices
}


/// The little-endian bytes of `indices`, two per index.
pub open spec fn le_index_bytes(indices: Seq<u16>) -> Seq<u8> {
    Seq::new(
        (2 * indices.len()) as nat,
        |k: int|
            if k % 2 == 0 {
                (indices[k / 2] % 256) as u8
            } else {
                (indices[k / 2] / 256) as u8
            },
    )
}

/// What a mesh uploads to the GPU: its vertex bytes followed by its index bytes in one
/// buffer, the offset where the indices start, and how many indices there are.
pub struct MeshData {
    pub bytes: Vec<u8>,
    pub offset: u64,
    pub index_count: u32,
}

/// The buffer contents of a mesh with the vertices serialised as `vertex_bytes` and
/// the triangles given by `indices`.
pub fn mesh_data(vertex_bytes: &[u8], indices: &[u16]) -> (data: MeshData)
    requires
        vertex_bytes@.len() + 2 * indices@.len() <= usize::MAX,
    ensures
        data.bytes@ == vertex_bytes@ + le_index_bytes(indices@),
        data.offset == vertex_bytes@.len(),
        data.index_count == indices@.len() as u32,
{
    let mut bytes: Vec<u8> = Vec::new();
    let n = vertex_bytes.len();
    let mut i: usize = 0;
    while i < n
        invariant
            n == vertex_bytes@.len(),
            i <= n,
            bytes@ == vertex_bytes@.take(i as int),
        decreases n - i,
    {
        bytes.push(vertex_bytes[i]);
        i = i + 1;
        assert(bytes@ =~= vertex_bytes@.take(i as int));
    }
    assert(vertex_bytes@.take(n as int) =~= vertex_bytes@);
    let mut index_bytes = indices_to_bytes(indices);
    proof {
        assert forall|k: int| 0 <= k < index_bytes@.len() implies index_bytes@[k] == le_index_bytes(
            indices@,
        )[k] by {
            let i = k / 2;
            assert(index_bytes@[2 * i] == (indices@[i] % 256) as u8);
            if k % 2 == 0 {
                assert(k == 2 * i);
            } else {
                assert(k == 2 * i + 1);
            }
        }
        assert(index_bytes@ =~= le_index_bytes(indices@));
    }
    bytes.append(&mut index_bytes);
    MeshData { bytes, offset: n as u64, index_count: #[verifier::truncate] (indices.len() as u32) }
}

/// Reading a mesh buffer back: the bytes before the offset are the vertex bytes, and
/// the two bytes at `offset + 2 * i` hold index `i`, low byte first.
pub proof fn lemma_mesh_data_reads_back(vertex_bytes: Seq<u8>, indices: Seq<u16>, i: int)
    requires
        0 <= i < indices.len(),
    ensures
        (vertex_bytes + le_index_bytes(indices)).subrange(0, vertex_bytes.len() as int)
            == vertex_bytes,
        (vertex_bytes + le_index_bytes(indices))[vertex_bytes.len() + 2 * i] + 256 * (vertex_bytes
            + le_index_bytes(indices))[vertex_bytes.len() + 2 * i + 1] == indices[i],
{
    let all = vertex_bytes + le_index_bytes(indices);
    assert(all.subrange(0, vertex_bytes.len() as int) =~= vertex_bytes);
    assert((2 * i) % 2 == 0 && (2 * i) / 2 == i);
    assert((2 * i + 1) % 2 == 1 && (2 * i + 1) / 2 == i);
    assert(all[vertex_bytes.len() + 2 * i] == (indices[i] % 256) as u8);
    assert(all[vertex_bytes.len() + 2 * i + 1] == (indices[i] / 256) as u8);
}

} // verus!
