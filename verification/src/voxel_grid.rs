//! The cubic sampling grid of the orbital computation and the cube meshes
//! drawn for the cells that the computation selects.
use vstd::prelude::*;

verus! {

/// Number of cells along each side of the grid.
pub const GRID_SIDE: usize = 100;

/// Number of cells in one horizontal layer of the grid.
pub const GRID_LAYER: usize = 10000;

/// Number of cells in the whole grid.
pub const GRID_CELLS: u32 = 1000000;

/// Number of vertices of the mesh drawn for one cell.
pub const CUBE_VERTICES: u32 = 8;

/// The corners, numbered 0 to 7 within one cell's eight vertices, of the
/// twelve triangles (three corners each) that close a cube.
pub const CUBE_CORNERS: [u32; 36] = [
    4, 2, 0, 2, 7, 3, 6, 5, 7, 1, 7, 5, 0, 3, 1, 4, 1, 5, 4, 6, 2, 2, 6, 7, 6, 4, 5, 1, 3, 7, 0, 2,
    3, 4, 0, 1,
];

/// The sequence 0, 1, ..., count - 1.
pub open spec fn counting(count: nat) -> Seq<u32> {
    Seq::new(count, |i: int| i as u32)
}

/// The list of cell indices 0, 1, ..., count - 1 that the computation reads.
pub fn grid_indices(count: u32) -> (v: Vec<u32>)
    ensures
        v@ == counting(count as nat),
{
    let mut v: Vec<u32> = Vec::new();
    let mut i: u32 = 0;
    while i < count
        invariant
            i <= count,
            v@ == counting(i as nat),
        decreases count - i,
    {
        v.push(i);
        i = i + 1;
        assert(v@ =~= counting(i as nat));
    }
    v
}

/// The coordinates (x, y, z) of cell `index`: z counts whole layers, y whole
/// rows within the layer, and x what is left.
pub fn voxel_coords(index: usize) -> (xyz: (usize, usize, usize))
    ensures
        xyz.2 == index / GRID_LAYER,
        xyz.1 == (index - GRID_LAYER * xyz.2) / (GRID_SIDE as int),
        xyz.0 == index - GRID_LAYER * xyz.2 - GRID_SIDE * xyz.1,
{
    let z = index / GRID_LAYER;
    let y = (index - GRID_LAYER * z) / GRID_SIDE;
    let x = index - GRID_LAYER * z - GRID_SIDE * y;
    (x, y, z)
}

/// Cell `index` lies at x + 100 y + 10000 z, with x and y below 100, and z
/// below 100 for every index of the grid.
pub proof fn law_voxel_coords_recompose(index: usize, x: usize, y: usize, z: usize)
    requires
        z == index / GRID_LAYER,
        y == (index - GRID_LAYER * z) / (GRID_SIDE as int),
        x == index - GRID_LAYER * z - GRID_SIDE * y,
    ensures
        index == x + GRID_SIDE * y + GRID_LAYER * z,
        x < GRID_SIDE,
        y < GRID_SIDE,
        index < GRID_CELLS ==> z < GRID_SIDE,
{
}

/// The corner indices of the cube meshes of `n` cells whose vertices are
/// stored eight per cell: entry p belongs to cell p / 36 and names corner
/// `CUBE_CORNERS[p % 36]` of that cell.
pub open spec fn cube_face_indices(n: nat) -> Seq<u32> {
    Seq::new(36 * n, |p: int| (8 * (p / 36) + CUBE_CORNERS@[p % 36]) as u32)
}

proof fn lemma_split_36(i: int, j: int)
    requires
        0 <= i,
        0 <= j < 36,
    ensures
        (36 * i + j) / 36 == i,
        (36 * i + j) % 36 == j,
{
    assert((36 * i + j) / 36 == i && (36 * i + j) % 36 == j) by (nonlinear_arith)
        requires 0 <= i, 0 <= j < 36;
}

proof fn lemma_cube_corners_below_8()
    ensures
        forall|j: int| 0 <= j < 36 ==> #[trigger] CUBE_CORNERS@[j] < 8,
{
    assert(CUBE_CORNERS@ =~= seq![4u32, 2, 0, 2, 7, 3, 6, 5, 7, 1, 7, 5, 0, 3, 1, 4, 1, 5, 4, 6, 2, 2, 6, 7, 6, 4, 5, 1, 3, 7, 0, 2, 3, 4, 0, 1]);
}

/// The triangle corner indices of the cube meshes of the cells whose vertices
/// number `vertex_count`, eight per cell (a trailing partial cell is ignored).
pub fn cube_faces(vertex_count: u32) -> (faces: Vec<u32>)
    ensures
        faces@ == cube_face_indices((vertex_count / CUBE_VERTICES) as nat),
{
    let n = vertex_count / CUBE_VERTICES;
    let mut faces: Vec<u32> = Vec::new();
    let mut i: u32 = 0;
    proof {
        lemma_cube_corners_below_8();
    }
    while i < n
        invariant
            n == vertex_count / 8,
            i <= n,
            faces@.len() == 36 * i,
            forall|j: int| 0 <= j < 36 ==> #[trigger] CUBE_CORNERS@[j] < 8,
            forall|c: int, j: int|
                0 <= c < i && 0 <= j < 36 ==> #[trigger] faces@[36 * c + j] == 8 * c
                    + CUBE_CORNERS@[j],
        decreases n - i,
    {
        let mut j: usize = 0;
        while j < 36
            invariant
                n == vertex_count / 8,
                i < n,
                j <= 36,
                faces@.len() == 36 * i + j,
                forall|j: int| 0 <= j < 36 ==> #[trigger] CUBE_CORNERS@[j] < 8,
                forall|c: int, k: int|
                    0 <= c < i && 0 <= k < 36 ==> #[trigger] faces@[36 * c + k] == 8 * c
                        + CUBE_CORNERS@[k],
                forall|k: int| 0 <= k < j ==> #[trigger] faces@[36 * i + k] == 8 * i + CUBE_CORNERS@[k],
            decreases 36 - j,
        {
            assert(CUBE_CORNERS@[j as int] < 8);
            faces.push(i * 8 + CUBE_CORNERS[j]);
            j = j + 1;
        }
        i = i + 1;
    }
    proof {
        assert forall|p: int| 0 <= p < faces@.len() implies #[trigger] faces@[p]
            == cube_face_indices(n as nat)[p] by {
            let c = p / 36;
            let k = p % 36;
            assert(p == 36 * c + k && 0 <= k < 36 && 0 <= c < n) by (nonlinear_arith)
                requires 0 <= p < 36 * n, c == p / 36, k == p % 36;
            assert(faces@[36 * c + k] == 8 * c + CUBE_CORNERS@[k]);
        }
        assert(faces@ =~= cube_face_indices(n as nat));
    }
    faces
}

/// Every corner index of the cube meshes of `n` cells names one of the eight
/// vertices of its own cell, so all stay below 8 n (for any number of cells
/// whose vertices can be counted in a `u32`).
pub proof fn law_cube_faces_stay_in_their_cell(n: nat, p: int)
    requires
        8 * n <= u32::MAX,
        0 <= p < 36 * n,
    ensures
        8 * (p / 36) <= cube_face_indices(n)[p] < 8 * (p / 36) + 8,
        cube_face_indices(n)[p] < 8 * n,
{
    lemma_cube_corners_below_8();
    let c = p / 36;
    let k = p % 36;
    assert(0 <= k < 36 && c < n && 8 * c + 8 <= 8 * n) by (nonlinear_arith)
        requires 0 <= p < 36 * n, c == p / 36, k == p % 36;
    assert(CUBE_CORNERS@[k] < 8);
    assert(0 <= 8 * c + CUBE_CORNERS@[k] < 8 * n);
}

/// Triangle `t` of the cube joins three different corners.
pub open spec fn cube_triangle_is_proper(t: int) -> bool {
    &&& CUBE_CORNERS@[3 * t] != CUBE_CORNERS@[3 * t + 1]
    &&& CUBE_CORNERS@[3 * t + 1] != CUBE_CORNERS@[3 * t + 2]
    &&& CUBE_CORNERS@[3 * t] != CUBE_CORNERS@[3 * t + 2]
}

/// Each of the twelve triangles of a cube joins three different corners, and
/// every one of the eight corners is used.
pub proof fn law_cube_triangles_are_proper()
    ensures
        forall|t: int| 0 <= t < 12 ==> #[trigger] cube_triangle_is_proper(t),
        forall|c: u32| c < 8 ==> #[trigger] CUBE_CORNERS@.contains(c),
{
    assert(CUBE_CORNERS@ =~= seq![4u32, 2, 0, 2, 7, 3, 6, 5, 7, 1, 7, 5, 0, 3, 1, 4, 1, 5, 4, 6, 2, 2, 6, 7, 6, 4, 5, 1, 3, 7, 0, 2, 3, 4, 0, 1]);
    assert(CUBE_CORNERS@[2] == 0);
    assert(CUBE_CORNERS@[9] == 1);
    assert(CUBE_CORNERS@[1] == 2);
    assert(CUBE_CORNERS@[5] == 3);
    assert(CUBE_CORNERS@[0] == 4);
    assert(CUBE_CORNERS@[7] == 5);
    assert(CUBE_CORNERS@[6] == 6);
    assert(CUBE_CORNERS@[4] == 7);
}


/// The corner at which side `k` (0, 1 or 2) of cube triangle `t` starts, going
/// round the triangle in the order its corners are listed.
pub open spec fn side_start(t: int, k: int) -> u32 {
    CUBE_CORNERS@[3 * t + k]
}

/// The corner at which side `k` of cube triangle `t` ends.
pub open spec fn side_end(t: int, k: int) -> u32 {
    CUBE_CORNERS@[3 * t + (k + 1) % 3]
}

/// Where among the 36 triangle sides of the cube the directed side from
/// corner `a` to corner `b` is listed.
spec fn side_position(a: u32, b: u32) -> int {
    seq![99int, 34, 30, 12, 2, 99, 99, 99, 14, 99, 99, 27, 35, 16, 99, 9, 1, 99, 99, 31, 20, 99, 21, 3, 32, 13, 5, 99, 99, 99, 99, 28, 33, 15, 0, 99, 99, 25, 18, 99, 99, 11, 99, 99, 17, 99, 26, 7, 99, 99, 19, 99, 24, 6, 99, 22, 99, 29, 23, 4, 99, 10, 8, 99][8 * a + b]
}

proof fn lemma_side_positions()
    ensures
        forall|t: int, k: int| 0 <= t < 12 && 0 <= k < 3 ==> side_position(
            #[trigger] side_start(t, k), #[trigger] side_end(t, k)) == 3 * t + k,
{
    assert(CUBE_CORNERS@ =~= seq![4u32, 2, 0, 2, 7, 3, 6, 5, 7, 1, 7, 5, 0, 3, 1, 4, 1, 5, 4, 6, 2, 2, 6, 7, 6, 4, 5, 1, 3, 7, 0, 2, 3, 4, 0, 1]);
    assert(side_position(side_start(0, 0), side_end(0, 0)) == 0);
    assert(side_position(side_start(0, 1), side_end(0, 1)) == 1);
    assert(side_position(side_start(0, 2), side_end(0, 2)) == 2);
    assert(side_position(side_start(1, 0), side_end(1, 0)) == 3);
    assert(side_position(side_start(1, 1), side_end(1, 1)) == 4);
    assert(side_position(side_start(1, 2), side_end(1, 2)) == 5);
    assert(side_position(side_start(2, 0), side_end(2, 0)) == 6);
    assert(side_position(side_start(2, 1), side_end(2, 1)) == 7);
    assert(side_position(side_start(2, 2), side_end(2, 2)) == 8);
    assert(side_position(side_start(3, 0), side_end(3, 0)) == 9);
    assert(side_position(side_start(3, 1), side_end(3, 1)) == 10);
    assert(side_position(side_start(3, 2), side_end(3, 2)) == 11);
    assert(side_position(side_start(4, 0), side_end(4, 0)) == 12);
    assert(side_position(side_start(4, 1), side_end(4, 1)) == 13);
    assert(side_position(side_start(4, 2), side_end(4, 2)) == 14);
    assert(side_position(side_start(5, 0), side_end(5, 0)) == 15);
    assert(side_position(side_start(5, 1), side_end(5, 1)) == 16);
    assert(side_position(side_start(5, 2), side_end(5, 2)) == 17);
    assert(side_position(side_start(6, 0), side_end(6, 0)) == 18);
    assert(side_position(side_start(6, 1), side_end(6, 1)) == 19);
    assert(side_position(side_start(6, 2), side_end(6, 2)) == 20);
    assert(side_position(side_start(7, 0), side_end(7, 0)) == 21);
    assert(side_position(side_start(7, 1), side_end(7, 1)) == 22);
    assert(side_position(side_start(7, 2), side_end(7, 2)) == 23);
    assert(side_position(side_start(8, 0), side_end(8, 0)) == 24);
    assert(side_position(side_start(8, 1), side_end(8, 1)) == 25);
    assert(side_position(side_start(8, 2), side_end(8, 2)) == 26);
    assert(side_position(side_start(9, 0), side_end(9, 0)) == 27);
    assert(side_position(side_start(9, 1), side_end(9, 1)) == 28);
    assert(side_position(side_start(9, 2), side_end(9, 2)) == 29);
    assert(side_position(side_start(10, 0), side_end(10, 0)) == 30);
    assert(side_position(side_start(10, 1), side_end(10, 1)) == 31);
    assert(side_position(side_start(10, 2), side_end(10, 2)) == 32);
    assert(side_position(side_start(11, 0), side_end(11, 0)) == 33);
    assert(side_position(side_start(11, 1), side_end(11, 1)) == 34);
    assert(side_position(side_start(11, 2), side_end(11, 2)) == 35);
    assert forall|t: int, k: int| 0 <= t < 12 && 0 <= k < 3 implies side_position(
        #[trigger] side_start(t, k), #[trigger] side_end(t, k)) == 3 * t + k by {
        assert(0 <= k < 3 && 0 <= t < 12);
        if t == 0 { if k == 0 {} else if k == 1 {} else {} }
        else if t == 1 { if k == 0 {} else if k == 1 {} else {} }
        else if t == 2 { if k == 0 {} else if k == 1 {} else {} }
        else if t == 3 { if k == 0 {} else if k == 1 {} else {} }
        else if t == 4 { if k == 0 {} else if k == 1 {} else {} }
        else if t == 5 { if k == 0 {} else if k == 1 {} else {} }
        else if t == 6 { if k == 0 {} else if k == 1 {} else {} }
        else if t == 7 { if k == 0 {} else if k == 1 {} else {} }
        else if t == 8 { if k == 0 {} else if k == 1 {} else {} }
        else if t == 9 { if k == 0 {} else if k == 1 {} else {} }
        else if t == 10 { if k == 0 {} else if k == 1 {} else {} }
        else { if k == 0 {} else if k == 1 {} else {} }
    }
}

proof fn lemma_sides_run_back()
    ensures
        forall|t: int, k: int|
            #![trigger side_end(t, k)]
            0 <= t < 12 && 0 <= k < 3 ==> exists|t2: int, k2: int|
                0 <= t2 < 12 && 0 <= k2 < 3 && #[trigger] side_start(t2, k2) == side_end(t, k)
                    && side_end(t2, k2) == side_start(t, k),
{
    assert(CUBE_CORNERS@ =~= seq![4u32, 2, 0, 2, 7, 3, 6, 5, 7, 1, 7, 5, 0, 3, 1, 4, 1, 5, 4, 6, 2, 2, 6, 7, 6, 4, 5, 1, 3, 7, 0, 2, 3, 4, 0, 1]);
    assert(side_start(6, 2) == side_end(0, 0) && side_end(6, 2) == side_start(0, 0));
    assert(side_start(10, 0) == side_end(0, 1) && side_end(10, 0) == side_start(0, 1));
    assert(side_start(11, 0) == side_end(0, 2) && side_end(11, 0) == side_start(0, 2));
    assert(side_start(7, 2) == side_end(1, 0) && side_end(7, 2) == side_start(1, 0));
    assert(side_start(9, 1) == side_end(1, 1) && side_end(9, 1) == side_start(1, 1));
    assert(side_start(10, 1) == side_end(1, 2) && side_end(10, 1) == side_start(1, 2));
    assert(side_start(8, 2) == side_end(2, 0) && side_end(8, 2) == side_start(2, 0));
    assert(side_start(3, 1) == side_end(2, 1) && side_end(3, 1) == side_start(2, 1));
    assert(side_start(7, 1) == side_end(2, 2) && side_end(7, 1) == side_start(2, 2));
    assert(side_start(9, 2) == side_end(3, 0) && side_end(9, 2) == side_start(3, 0));
    assert(side_start(2, 1) == side_end(3, 1) && side_end(2, 1) == side_start(3, 1));
    assert(side_start(5, 1) == side_end(3, 2) && side_end(5, 1) == side_start(3, 2));
    assert(side_start(10, 2) == side_end(4, 0) && side_end(10, 2) == side_start(4, 0));
    assert(side_start(9, 0) == side_end(4, 1) && side_end(9, 0) == side_start(4, 1));
    assert(side_start(11, 1) == side_end(4, 2) && side_end(11, 1) == side_start(4, 2));
    assert(side_start(11, 2) == side_end(5, 0) && side_end(11, 2) == side_start(5, 0));
    assert(side_start(3, 2) == side_end(5, 1) && side_end(3, 2) == side_start(5, 1));
    assert(side_start(8, 1) == side_end(5, 2) && side_end(8, 1) == side_start(5, 2));
    assert(side_start(8, 0) == side_end(6, 0) && side_end(8, 0) == side_start(6, 0));
    assert(side_start(7, 0) == side_end(6, 1) && side_end(7, 0) == side_start(6, 1));
    assert(side_start(0, 0) == side_end(6, 2) && side_end(0, 0) == side_start(6, 2));
    assert(side_start(6, 1) == side_end(7, 0) && side_end(6, 1) == side_start(7, 0));
    assert(side_start(2, 2) == side_end(7, 1) && side_end(2, 2) == side_start(7, 1));
    assert(side_start(1, 0) == side_end(7, 2) && side_end(1, 0) == side_start(7, 2));
    assert(side_start(6, 0) == side_end(8, 0) && side_end(6, 0) == side_start(8, 0));
    assert(side_start(5, 2) == side_end(8, 1) && side_end(5, 2) == side_start(8, 1));
    assert(side_start(2, 0) == side_end(8, 2) && side_end(2, 0) == side_start(8, 2));
    assert(side_start(4, 1) == side_end(9, 0) && side_end(4, 1) == side_start(9, 0));
    assert(side_start(1, 1) == side_end(9, 1) && side_end(1, 1) == side_start(9, 1));
    assert(side_start(3, 0) == side_end(9, 2) && side_end(3, 0) == side_start(9, 2));
    assert(side_start(0, 1) == side_end(10, 0) && side_end(0, 1) == side_start(10, 0));
    assert(side_start(1, 2) == side_end(10, 1) && side_end(1, 2) == side_start(10, 1));
    assert(side_start(4, 0) == side_end(10, 2) && side_end(4, 0) == side_start(10, 2));
    assert(side_start(0, 2) == side_end(11, 0) && side_end(0, 2) == side_start(11, 0));
    assert(side_start(4, 2) == side_end(11, 1) && side_end(4, 2) == side_start(11, 1));
    assert(side_start(5, 0) == side_end(11, 2) && side_end(5, 0) == side_start(11, 2));
    assert forall|t: int, k: int|
        #![trigger side_end(t, k)]
        0 <= t < 12 && 0 <= k < 3 implies exists|t2: int, k2: int|
        0 <= t2 < 12 && 0 <= k2 < 3 && #[trigger] side_start(t2, k2) == side_end(t, k)
            && side_end(t2, k2) == side_start(t, k) by {
        if t == 0 { if k == 0 {} else if k == 1 {} else {} }
        else if t == 1 { if k == 0 {} else if k == 1 {} else {} }
        else if t == 2 { if k == 0 {} else if k == 1 {} else {} }
        else if t == 3 { if k == 0 {} else if k == 1 {} else {} }
        else if t == 4 { if k == 0 {} else if k == 1 {} else {} }
        else if t == 5 { if k == 0 {} else if k == 1 {} else {} }
        else if t == 6 { if k == 0 {} else if k == 1 {} else {} }
        else if t == 7 { if k == 0 {} else if k == 1 {} else {} }
        else if t == 8 { if k == 0 {} else if k == 1 {} else {} }
        else if t == 9 { if k == 0 {} else if k == 1 {} else {} }
        else if t == 10 { if k == 0 {} else if k == 1 {} else {} }
        else { if k == 0 {} else if k == 1 {} else {} }
    }
}


/// The twelve triangles close the cube with one consistent winding: every side
/// of a triangle is run the other way by another triangle, and no side is run
/// the same way twice; so culling back faces leaves exactly the outside.
pub proof fn law_cube_is_closed_and_consistently_wound()
    ensures
        forall|t: int, k: int|
            #![trigger side_end(t, k)]
            0 <= t < 12 && 0 <= k < 3 ==> exists|t2: int, k2: int|
                0 <= t2 < 12 && 0 <= k2 < 3 && #[trigger] side_start(t2, k2) == side_end(t, k)
                    && side_end(t2, k2) == side_start(t, k),
        forall|t: int, k: int, t2: int, k2: int|
            0 <= t < 12 && 0 <= k < 3 && 0 <= t2 < 12 && 0 <= k2 < 3 && (t != t2 || k != k2)
                ==> #[trigger] side_start(t, k) != side_start(t2, k2) || side_end(t, k)
                != #[trigger] side_end(t2, k2),
{
    lemma_sides_run_back();
    lemma_side_positions();
}

/// The cell list counts up from 0: it has `count` entries and entry i is i.
pub proof fn law_grid_indices_count_up(count: nat, i: int)
    requires
        count <= u32::MAX + 1,
    ensures
        counting(count).len() == count,
        0 <= i < count ==> counting(count)[i] == i,
{
}

/// The faces of one cell are the cube's triangles, and every further cell
/// repeats them shifted by eight vertices per cell before it.
pub proof fn law_cells_repeat_the_cube(n: nat, c: int, j: int)
    requires
        8 * n <= u32::MAX,
        0 <= c < n,
        0 <= j < 36,
    ensures
        cube_face_indices(1)[j] == CUBE_CORNERS@[j],
        cube_face_indices(n)[36 * c + j] == cube_face_indices(1)[j] + 8 * c,
{
    lemma_cube_corners_below_8();
    lemma_split_36(c, j);
    lemma_split_36(0, j);
    assert(36 * c + j < 36 * n) by (nonlinear_arith)
        requires 0 <= c < n, 0 <= j < 36;
    assert(8 * c + 8 <= 8 * n) by (nonlinear_arith)
        requires 0 <= c < n;
    assert(CUBE_CORNERS@[j] < 8);
}

} // verus!
