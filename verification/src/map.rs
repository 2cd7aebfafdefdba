//! Map geometry: the wireframe box the game takes place in.
//!
//! Every coordinate of the wireframe is a whole number of map units, so lines are kept as
//! integers. They are the numbers that single precision makes of the coordinates: the coordinates
//! themselves, unless the box reaches beyond what it holds exactly.

use crate::single::{
    law_single_doubles, law_single_is_close, law_single_is_idempotent, law_single_is_monotone,
    nearest_signed_single, nearest_single, signed_single, single, SINGLE_EXACT,
};
use vstd::prelude::*;

verus! {

/// Half the length of a side of the map box, in map units.
pub const MAP_BOX_SCALE: i32 = 20;

/// Number of lines that draw a box of [`MAP_BOX_SCALE`]: twelve edges, and two families of
/// floor lines with one line per unit of scale each.
pub const MAP_BOX_EDGES_LEN: usize = 52;

/// The corners that the twelve edges of the box join, two entries per edge. Corner `c` lies at
/// the positive end of axis `j` when bit `j` of `c` is set.
pub const BOX_EDGE_CORNERS: [u8; 24] = [
    0, 1, 1, 3, 3, 2, 2, 0,
    7, 6, 6, 4, 4, 5, 5, 7,
    6, 2, 3, 7, 0, 4, 5, 1,
];

/// Whether box corner `corner` lies at the positive end of `axis` (0 for x, 1 for y, 2 for z).
pub open spec fn positive_end(corner: int, axis: int) -> bool {
    if axis == 0 {
        corner % 2 == 1
    } else if axis == 1 {
        (corner / 2) % 2 == 1
    } else {
        (corner / 4) % 2 == 1
    }
}

/// The corner that box edge `edge` starts from (`end == 0`) or leads to (`end == 1`).
pub open spec fn edge_corner(edge: int, end: int) -> int {
    BOX_EDGE_CORNERS[2 * edge + end] as int
}

/// How far the box reaches from its center along every axis.
pub open spec fn reach(scale: int) -> int {
    single(scale as nat) as int
}

/// Where floor line `nth` of a family crosses the floor: two units further than the one before,
/// the first at the wall.
pub open spec fn floor_line(scale: int, nth: int) -> int {
    signed_single(single((2 * nth) as nat) - reach(scale))
}

/// Coordinate `k` of line `line` in the wireframe of a box of the given scale: `k` counts x, y, z
/// of the first end point, then x, y, z of the second.
///
/// Lines 0 to 11 are the edges of the box. The next `scale` lines cross the floor along x, two
/// units apart, and the `scale` lines after those cross it along z.
pub open spec fn line_coord(scale: int, line: int, k: int) -> int {
    let axis = k % 3;
    let end = k / 3;
    if line < 12 {
        if positive_end(edge_corner(line, end), axis) {
            reach(scale)
        } else {
            -reach(scale)
        }
    } else {
        let along = if line < 12 + scale {
            0
        } else {
            2int
        };
        let nth = if line < 12 + scale {
            line - 12
        } else {
            line - 12 - scale
        };
        if axis == 1 {
            -reach(scale)
        } else if axis == along {
            if end == 1 {
                reach(scale)
            } else {
                -reach(scale)
            }
        } else {
            floor_line(scale, nth)
        }
    }
}

/// Whether `line` holds the six coordinates of line `i` of the wireframe.
pub open spec fn is_map_line(line: [i64; 6], scale: int, i: int) -> bool {
    forall|k: int| 0 <= k < 6 ==> #[trigger] line[k] == line_coord(scale, i, k)
}

/// Whether bit `axis` of `corner` is set.
fn at_positive_end(corner: u8, axis: usize) -> (r: bool)
    requires
        axis < 3,
    ensures
        r == positive_end(corner as int, axis as int),
{
    let mask: u8 = if axis == 0 {
        1
    } else if axis == 1 {
        2
    } else {
        4
    };
    assert(corner & 1 == corner % 2) by (bit_vector);
    assert((corner & 2 != 0) == ((corner / 2) % 2 == 1)) by (bit_vector);
    assert((corner & 4 != 0) == ((corner / 4) % 2 == 1)) by (bit_vector);
    corner & mask != 0
}

/// A floor line crosses the floor within the box.
proof fn lemma_floor_line_bounds(scale: int, nth: int)
    requires
        0 <= nth < scale,
    ensures
        -reach(scale) <= floor_line(scale, nth) <= reach(scale),
{
    let r = single(scale as nat);
    let d = single((2 * nth) as nat);
    law_single_is_idempotent(scale as nat);
    law_single_doubles(scale as nat);
    law_single_is_monotone((2 * nth) as nat, (2 * scale) as nat);
    if d >= r {
        law_single_is_monotone((d - r) as nat, r);
    } else {
        law_single_is_monotone((r - d) as nat, r);
    }
}

/// How far the box of the given scale reaches from its center along every axis.
pub fn box_reach(scale: i32) -> (r: i64)
    requires
        scale >= 0,
    ensures
        r == reach(scale as int),
        0 <= r <= 0x1_0000_0000,
{
    proof {
        law_single_is_close(scale as nat);
    }
    nearest_single(scale as u128) as i64
}

/// Where floor line `nth` of either family crosses the floor.
pub fn floor_line_at(scale: i32, nth: usize) -> (at: i64)
    requires
        nth < scale,
    ensures
        at == floor_line(scale as int, nth as int),
{
    proof {
        law_single_is_close((2 * nth) as nat);
        lemma_floor_line_bounds(scale as int, nth as int);
    }
    let d: i128 = nearest_single(nth as u128 * 2) as i128;
    nearest_signed_single(d - box_reach(scale) as i128) as i64
}

/// Fills `edges` with the wireframe of a box that reaches `scale` units from its center along
/// every axis. Entries beyond the wireframe's lines are left alone.
pub fn init_edges(scale: i32, edges: &mut [[i64; 6]], _edges_len: usize)
    requires
        scale >= 0,
        old(edges)@.len() >= 12 + 2 * scale,
    ensures
        final(edges)@.len() == old(edges)@.len(),
        forall|i: int|
            0 <= i < 12 + 2 * scale ==> is_map_line(#[trigger] final(edges)@[i], scale as int, i),
        forall|i: int|
            12 + 2 * scale <= i < old(edges)@.len() ==> #[trigger] final(edges)@[i] == old(edges)@[i],
{
    let ghost before = edges@;
    let r: i64 = box_reach(scale);
    let mut i: usize = 0;
    while i < 12
        invariant
            i <= 12,
            scale >= 0,
            r == reach(scale as int),
            edges@.len() == before.len(),
            before.len() >= 12 + 2 * scale,
            forall|n: int| 0 <= n < i ==> is_map_line(#[trigger] edges@[n], scale as int, n),
            forall|n: int| i <= n < before.len() ==> #[trigger] edges@[n] == before[n],
        decreases 12 - i,
    {
        let mut j: usize = 0;
        while j < 3
            invariant
                i < 12,
                j <= 3,
                scale >= 0,
                r == reach(scale as int),
                edges@.len() == before.len(),
                before.len() >= 12 + 2 * scale,
                forall|n: int| 0 <= n < i ==> is_map_line(#[trigger] edges@[n], scale as int, n),
                forall|n: int| i < n < before.len() ==> #[trigger] edges@[n] == before[n],
                forall|k: int|
                    0 <= k < j ==> #[trigger] edges@[i as int][k] == line_coord(
                        scale as int,
                        i as int,
                        k,
                    ),
                forall|k: int|
                    3 <= k < 3 + j ==> #[trigger] edges@[i as int][k] == line_coord(
                        scale as int,
                        i as int,
                        k,
                    ),
            decreases 3 - j,
        {
            edges[i][j] =
            if at_positive_end(BOX_EDGE_CORNERS[2 * i], j) {
                r
            } else {
                -r
            };
            edges[i][j + 3] =
            if at_positive_end(BOX_EDGE_CORNERS[2 * i + 1], j) {
                r
            } else {
                -r
            };
            j += 1;
        }
        i += 1;
    }
    let lines: usize = scale as usize;
    let mut i: usize = 0;
    while i < lines
        invariant
            i <= lines,
            lines == scale,
            r == reach(scale as int),
            r <= 0x1_0000_0000,
            edges@.len() == before.len(),
            before.len() >= 12 + 2 * scale,
            forall|n: int| 0 <= n < 12 + i ==> is_map_line(#[trigger] edges@[n], scale as int, n),
            forall|n: int|
                12 + scale <= n < 12 + scale + i ==> is_map_line(
                    #[trigger] edges@[n],
                    scale as int,
                    n,
                ),
            forall|n: int|
                12 + 2 * scale <= n < before.len() ==> #[trigger] edges@[n] == before[n],
        decreases lines - i,
    {
        let offset: i64 = floor_line_at(scale, i);
        edges[i + 12] = [-r, -r, offset, r, -r, offset];
        edges[i + 12 + lines] = [offset, -r, -r, offset, -r, r];
        i += 1;
    }
}

/// The wireframe of a box of [`MAP_BOX_SCALE`] has exactly [`MAP_BOX_EDGES_LEN`] lines.
pub proof fn law_edges_len()
    ensures
        MAP_BOX_EDGES_LEN == 12 + 2 * MAP_BOX_SCALE,
{
}

/// No line of the wireframe leaves the box.
pub proof fn law_lines_stay_in_box(scale: int, line: int, k: int)
    requires
        0 <= line < 12 + 2 * scale,
        scale >= 0,
        0 <= k < 6,
    ensures
        -reach(scale) <= line_coord(scale, line, k) <= reach(scale),
{
    if 12 <= line < 12 + scale {
        lemma_floor_line_bounds(scale, line - 12);
    } else if line >= 12 + scale {
        lemma_floor_line_bounds(scale, line - 12 - scale);
    }
}

/// Up to [`SINGLE_EXACT`] nothing is rounded: the box reaches `scale` units, and floor line `nth`
/// of a family lies `2 * nth` units from the wall.
pub proof fn law_small_boxes_are_exact(scale: int, nth: int)
    requires
        0 <= nth < scale <= SINGLE_EXACT,
    ensures
        reach(scale) == scale,
        floor_line(scale, nth) == 2 * nth - scale,
{
    law_single_doubles(nth as nat);
}

/// Every line after the twelve edges lies on the floor and runs parallel to a wall.
pub proof fn law_floor_lines(scale: int, line: int)
    requires
        scale >= 0,
        12 <= line < 12 + 2 * scale,
    ensures
        line_coord(scale, line, 1) == -reach(scale),
        line_coord(scale, line, 4) == -reach(scale),
        line_coord(scale, line, 0) == line_coord(scale, line, 3) || line_coord(scale, line, 2)
            == line_coord(scale, line, 5),
{
}

/// Whether two box corners are the ends of one edge of a cube: they differ on exactly one axis.
pub open spec fn adjacent_corners(a: int, b: int) -> bool {
    ||| positive_end(a, 0) != positive_end(b, 0) && positive_end(a, 1) == positive_end(b, 1)
        && positive_end(a, 2) == positive_end(b, 2)
    ||| positive_end(a, 0) == positive_end(b, 0) && positive_end(a, 1) != positive_end(b, 1)
        && positive_end(a, 2) == positive_end(b, 2)
    ||| positive_end(a, 0) == positive_end(b, 0) && positive_end(a, 1) == positive_end(b, 1)
        && positive_end(a, 2) != positive_end(b, 2)
}

/// Whether box edge `edge` runs between corners `a` and `b`, in either direction.
pub open spec fn joins(edge: int, a: int, b: int) -> bool {
    ||| edge_corner(edge, 0) == a && edge_corner(edge, 1) == b
    ||| edge_corner(edge, 0) == b && edge_corner(edge, 1) == a
}

/// The twelve edges are the edges of a cube: each runs between adjacent corners.
pub proof fn law_box_edges_are_cube_edges(edge: int)
    requires
        0 <= edge < 12,
    ensures
        0 <= edge_corner(edge, 0) < 8,
        0 <= edge_corner(edge, 1) < 8,
        adjacent_corners(edge_corner(edge, 0), edge_corner(edge, 1)),
{
}

/// The cube is complete and nothing is drawn twice: exactly one edge runs between any two
/// adjacent corners.
pub proof fn law_box_is_complete(a: int, b: int)
    requires
        0 <= a < 8,
        0 <= b < 8,
        adjacent_corners(a, b),
    ensures
        exists|edge: int| 0 <= edge < 12 && joins(edge, a, b),
        forall|e: int, f: int|
            0 <= e < 12 && 0 <= f < 12 && joins(e, a, b) && joins(f, a, b) ==> e == f,
{
    assert(joins(0, a, b) || joins(1, a, b) || joins(2, a, b) || joins(3, a, b) || joins(4, a, b)
        || joins(5, a, b) || joins(6, a, b) || joins(7, a, b) || joins(8, a, b) || joins(9, a, b)
        || joins(10, a, b) || joins(11, a, b));
}

/// Whether a coordinate is at the positive (`r`) or the negative (`-r`) end of an axis, as bit
/// `axis` of a corner number says.
proof fn lemma_corner_coordinate(scale: int, edge: int, end: int, axis: int)
    requires
        0 <= edge < 12,
        0 <= end < 2,
        0 <= axis < 3,
    ensures
        line_coord(scale, edge, 3 * end + axis) == (if positive_end(edge_corner(edge, end), axis) {
            reach(scale)
        } else {
            -reach(scale)
        }),
{
    assert((3 * end + axis) % 3 == axis && (3 * end + axis) / 3 == end);
}

/// The first twelve lines are the edges of a box that reaches as far as the scale along every axis,
/// to either side: four around the face of low z, four around the face of high z, and four that
/// join the two. Corners are numbered by the sides they lie on: one for x, two for y, four for z.
pub proof fn law_box_edges_run_between_corners(
    scale: i32,
    edges: &mut [[i64; 6]],
    len: usize,
    edge: int,
    end: int,
    axis: int,
)
    requires
        call_ensures(init_edges, (scale, edges, len), ()),
        scale >= 0,
        0 <= edge < 12,
        0 <= end < 2,
        0 <= axis < 3,
    ensures
        ({
            let corner = seq![
                0int, 1, 1, 3, 3, 2, 2, 0,
                7, 6, 6, 4, 4, 5, 5, 7,
                6, 2, 3, 7, 0, 4, 5, 1,
            ][2 * edge + end];
            let side = if axis == 0 {
                corner % 2
            } else if axis == 1 {
                (corner / 2) % 2
            } else {
                (corner / 4) % 2
            };
            final(edges)@[edge][3 * end + axis] == (if side == 1 {
                single(scale as nat) as int
            } else {
                -(single(scale as nat) as int)
            })
        }),
{
    assert(is_map_line(final(edges)@[edge], scale as int, edge));
    lemma_corner_coordinate(scale as int, edge, end, axis);
    assert(final(edges)@[edge][3 * end + axis] == line_coord(scale as int, edge, 3 * end + axis));
}

/// After the twelve edges come two families of lines that cross the whole floor, one line of each
/// for every unit of scale: first along x, then the same with x and z exchanged. Each line lies two
/// units further from the wall than the one before it, single precision permitting.
pub proof fn law_floor_lines_cross_the_floor(
    scale: i32,
    edges: &mut [[i64; 6]],
    len: usize,
    nth: int,
)
    requires
        call_ensures(init_edges, (scale, edges, len), ()),
        0 <= nth < scale,
    ensures
        ({
            let r = single(scale as nat) as int;
            let along_x = final(edges)@[12 + nth];
            let along_z = final(edges)@[12 + scale + nth];
            &&& along_x[0] == -r && along_x[3] == r
            &&& along_x[1] == -r && along_x[4] == -r
            &&& along_x[2] == along_x[5]
            &&& along_x[2] == signed_single(single((2 * nth) as nat) - r)
            &&& scale <= 0x100_0000 ==> along_x[2] == 2 * nth - scale
            &&& along_z[0] == along_x[2] && along_z[1] == along_x[1] && along_z[2] == along_x[0]
            &&& along_z[3] == along_x[5] && along_z[4] == along_x[4] && along_z[5] == along_x[3]
        }),
{
    let s = scale as int;
    let (along_x, along_z) = (final(edges)@[12 + nth], final(edges)@[12 + scale + nth]);
    assert(is_map_line(along_x, s, 12 + nth));
    assert(is_map_line(along_z, s, 12 + s + nth));
    assert forall|k: int| 0 <= k < 6 implies #[trigger] along_x[k] == line_coord(s, 12 + nth, k)
        && along_z[k] == line_coord(s, 12 + s + nth, k) by {
        assert(along_z[k] == line_coord(s, 12 + s + nth, k));
    }
    assert(along_x[0] == line_coord(s, 12 + nth, 0) && along_x[1] == line_coord(s, 12 + nth, 1)
        && along_x[2] == line_coord(s, 12 + nth, 2) && along_x[3] == line_coord(s, 12 + nth, 3)
        && along_x[4] == line_coord(s, 12 + nth, 4) && along_x[5] == line_coord(s, 12 + nth, 5));
    if scale <= SINGLE_EXACT {
        law_small_boxes_are_exact(s, nth);
    }
}

/// Entries beyond the lines of the map are left alone.
pub proof fn law_entries_beyond_the_map_stay(
    scale: i32,
    edges: &mut [[i64; 6]],
    len: usize,
    beyond: int,
)
    requires
        call_ensures(init_edges, (scale, edges, len), ()),
        12 + 2 * scale <= beyond < old(edges)@.len(),
    ensures
        final(edges)@.len() == old(edges)@.len(),
        final(edges)@[beyond] == old(edges)@[beyond],
{
}

/// The box reaches as far as its scale, and a floor line crosses the floor twice its number from
/// the wall, both as single precision holds them.
pub proof fn law_distances_are_rounded_once_each(scale: i32, nth: usize, r: i64, at: i64)
    requires
        call_ensures(box_reach, (scale,), r),
        call_ensures(floor_line_at, (scale, nth), at),
        nth < scale,
    ensures
        r == single(scale as nat),
        at == signed_single(single((2 * nth) as nat) - r),
        scale <= 0x100_0000 ==> r == scale && at == 2 * nth - scale,
{
    if scale <= SINGLE_EXACT {
        law_small_boxes_are_exact(scale as int, nth as int);
    }
}

} // verus!
