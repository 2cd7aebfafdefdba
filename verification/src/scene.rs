//! Scene building: how the window is split between the players, and which line segments each of
//! them sees, in drawing order.
//!
//! Projection onto the screen happens outside. What comes in is, for each viewer, where the map
//! lines fall and which spheres of the other players are in sight; what goes out is the list of
//! line vertices and the region of the window that each viewer's share of them belongs to.

use crate::game::{Player, MAX_PLAYER_COUNT};
use crate::single::{
    law_single_doubles, law_single_is_close, law_single_is_even, law_single_is_idempotent,
    law_single_is_monotone, nearest_signed_single, nearest_single, signed_single, single,
    SINGLE_EXACT,
};
use vstd::prelude::*;

verus! {

/// Number of sides of a circle.
pub const CIRCLE_DRAW_SIDES: usize = 32;

/// Vertices of a circle: every side is a segment of its own.
pub const CIRCLE_VERTICES: usize = 64;

/// Half the length of a crosshair line, in quarters of a pixel.
pub const CROSSHAIR_REACH: u64 = 40;

/// Color of the map's lines.
pub const GRAY: [u8; 4] = [64, 64, 64, 255];

/// Color of the crosshair.
pub const WHITE: [u8; 4] = [255, 255, 255, 255];

/// Where the end of a segment lies with respect to the near plane.
#[derive(Clone, Copy, Debug, PartialEq, Eq, Structural)]
pub enum PlaneSide {
    /// In front of the camera, beyond the plane.
    Beyond,
    /// On the plane.
    On,
    /// Between the plane and the camera, or behind the camera.
    Behind,
}

/// What is done to a segment before it is projected.
#[derive(Clone, Copy, Debug, PartialEq, Eq, Structural)]
pub enum Clip {
    /// Nothing of it is in sight.
    Hidden,
    /// It is projected as it is.
    Whole,
    /// Its first end is moved onto the plane.
    First,
    /// Its second end is moved onto the plane.
    Second,
}

/// How a segment whose ends lie on the given sides of the near plane is clipped.
pub open spec fn clip_of(a: PlaneSide, b: PlaneSide) -> Clip {
    if a != PlaneSide::Beyond && b != PlaneSide::Beyond {
        Clip::Hidden
    } else if a == PlaneSide::Behind {
        Clip::First
    } else if b == PlaneSide::Behind {
        Clip::Second
    } else {
        Clip::Whole
    }
}

/// Clips a segment against the near plane, given on which side of it the two ends lie.
pub fn clip_segment(a: PlaneSide, b: PlaneSide) -> (r: Clip)
    ensures
        r == clip_of(a, b),
{
    let a_at_or_behind: bool = a != PlaneSide::Beyond;
    let b_at_or_behind: bool = b != PlaneSide::Beyond;
    if a_at_or_behind && b_at_or_behind {
        return Clip::Hidden;
    }
    if a == PlaneSide::Behind {
        Clip::First
    } else if b == PlaneSide::Behind {
        Clip::Second
    } else {
        Clip::Whole
    }
}

/// A rectangle of the window, in pixels.
#[derive(Clone, Copy, Debug)]
pub struct Scissor {
    pub offset: [u32; 2],
    pub extent: [u32; 2],
}

/// One viewer's share of the window.
#[derive(Clone, Copy, Debug)]
pub struct Viewport {
    /// The rectangle that drawing is confined to.
    pub scissor: Scissor,
    /// Width and height, in halves of a pixel.
    pub size: [u64; 2],
    /// The center, in quarters of a pixel.
    pub origin: [u128; 2],
}

/// Halves of a pixel in whole pixels, a half that is left over rounded up.
pub open spec fn half_up(halves: int) -> int {
    (halves + 1) / 2
}

/// Number of columns that the window is split into.
pub open spec fn columns(players: int) -> int {
    if players > 2 {
        2
    } else {
        1
    }
}

/// Number of rows that the window is split into.
pub open spec fn rows(players: int) -> int {
    if players > 1 {
        2
    } else {
        1
    }
}

/// Length of each of `parts` equal parts of a side of `len` pixels, in halves of a pixel.
pub open spec fn part_size(len: int, parts: int) -> int {
    if parts == 2 {
        single(len as nat) as int
    } else {
        2 * (single(len as nat) as int)
    }
}

/// First pixel of part `cell`.
pub open spec fn part_offset(len: int, parts: int, cell: int) -> int {
    let start = half_up(
        single((single(cell as nat) * part_size(len, parts)) as nat) as int,
    );
    if start < len - 1 {
        start
    } else {
        len - 1
    }
}

/// Number of pixels of part `cell`: at least one, and none beyond the window.
pub open spec fn part_extent(len: int, parts: int, cell: int) -> int {
    let room = len - part_offset(len, parts, cell);
    let wanted = half_up(part_size(len, parts));
    if wanted < 1 {
        1
    } else if wanted > room {
        room
    } else {
        wanted
    }
}

/// Center of part `cell`, in quarters of a pixel: half a part beyond `cell` parts.
pub open spec fn part_origin(len: int, parts: int, cell: int) -> int {
    let halves = single((2 * single(cell as nat) + 1) as nat);
    single((halves * part_size(len, parts)) as nat) as int
}

/// Whether `v` is the share of viewer `i` out of `players` in a window of `w` by `h` pixels.
pub open spec fn is_viewport(v: Viewport, i: int, players: int, w: int, h: int) -> bool {
    let cols = columns(players);
    let column = i % cols;
    let row = i / cols;
    &&& v.scissor.offset[0] == part_offset(w, cols, column)
    &&& v.scissor.offset[1] == part_offset(h, rows(players), row)
    &&& v.scissor.extent[0] == part_extent(w, cols, column)
    &&& v.scissor.extent[1] == part_extent(h, rows(players), row)
    &&& v.size[0] == part_size(w, cols)
    &&& v.size[1] == part_size(h, rows(players))
    &&& v.origin[0] == part_origin(w, cols, column)
    &&& v.origin[1] == part_origin(h, rows(players), row)
}

/// One side of a viewport: offset, extent, size and center.
struct Span {
    offset: u32,
    extent: u32,
    size: u64,
    origin: u128,
}

proof fn lemma_size_bound(len: u32, parts: int)
    ensures
        0 <= part_size(len as int, parts) <= 0x4_0000_0000,
        single(len as nat) <= 0x2_0000_0000,
{
    law_single_is_close(len as nat);
}

/// How large the products get that [`part_offset`] and [`part_origin`] round.
proof fn lemma_product_bounds(len: u32, parts: int, cell: u64)
    ensures
        0 <= single(cell as nat) <= 0x2_0000_0000_0000_0000,
        0 <= single(cell as nat) * part_size(len as int, parts)
            <= 0x8_0000_0000_0000_0000_0000_0000,
        0 <= single((2 * single(cell as nat) + 1) as nat) <= 0x10_0000_0000_0000_0000,
        0 <= single((2 * single(cell as nat) + 1) as nat) * part_size(len as int, parts)
            <= 0x40_0000_0000_0000_0000_0000_0000,
{
    lemma_size_bound(len, parts);
    law_single_is_close(cell as nat);
    law_single_is_close((2 * single(cell as nat) + 1) as nat);
    let size = part_size(len as int, parts);
    let cells = single(cell as nat);
    let halves = single((2 * single(cell as nat) + 1) as nat);
    assert(0 <= cells * size <= 0x2_0000_0000_0000_0000 * 0x4_0000_0000) by (nonlinear_arith)
        requires
            0 <= cells <= 0x2_0000_0000_0000_0000,
            0 <= size <= 0x4_0000_0000,
    ;
    assert(0 <= halves * size <= 0x10_0000_0000_0000_0000 * 0x4_0000_0000) by (nonlinear_arith)
        requires
            0 <= halves <= 0x10_0000_0000_0000_0000,
            0 <= size <= 0x4_0000_0000,
    ;
}

proof fn lemma_origin_bound(len: u32, parts: int, cell: u64)
    ensures
        0 <= part_origin(len as int, parts, cell as int) <= 0x80_0000_0000_0000_0000_0000_0000,
{
    lemma_product_bounds(len, parts, cell);
    let halves = single((2 * single(cell as nat) + 1) as nat);
    law_single_is_close((halves * part_size(len as int, parts)) as nat);
}

fn span(len: u32, parts: u64, cell: u64) -> (s: Span)
    requires
        len >= 1,
        parts == 1 || parts == 2,
    ensures
        s.offset == part_offset(len as int, parts as int, cell as int),
        s.extent == part_extent(len as int, parts as int, cell as int),
        s.size == part_size(len as int, parts as int),
        s.origin == part_origin(len as int, parts as int, cell as int),
{
    proof {
        lemma_size_bound(len, parts as int);
        lemma_product_bounds(len, parts as int, cell);
    }
    let length: u128 = nearest_single(len as u128);
    let size: u128 = if parts == 2 {
        length
    } else {
        2 * length
    };
    let cells: u128 = nearest_single(cell as u128);
    proof {
        law_single_is_close((cells * size) as nat);
    }
    let start: u128 = (nearest_single(cells * size) + 1) / 2;
    let offset: u32 = if start < len as u128 - 1 {
        start as u32
    } else {
        len - 1
    };
    let room: u32 = len - offset;
    let wanted: u128 = (size + 1) / 2;
    let extent: u32 = if wanted < 1 {
        1
    } else if wanted > room as u128 {
        room
    } else {
        wanted as u32
    };
    let halves: u128 = nearest_single(2 * cells + 1);
    Span { offset, extent, size: size as u64, origin: nearest_single(halves * size) }
}

/// Splits the window: the share of viewer `i` when `players_len` are playing.
pub fn viewport(i: usize, players_len: usize, win_w: u32, win_h: u32) -> (v: Viewport)
    requires
        i < players_len,
        win_w >= 1,
        win_h >= 1,
    ensures
        is_viewport(v, i as int, players_len as int, win_w as int, win_h as int),
{
    let part_hor: usize = if players_len > 2 {
        2
    } else {
        1
    };
    let part_ver: usize = if players_len > 1 {
        2
    } else {
        1
    };
    let hor: Span = span(win_w, part_hor as u64, (i % part_hor) as u64);
    let ver: Span = span(win_h, part_ver as u64, (i / part_hor) as u64);
    Viewport {
        scissor: Scissor { offset: [hor.offset, ver.offset], extent: [hor.extent, ver.extent] },
        size: [hor.size, ver.size],
        origin: [hor.origin, ver.origin],
    }
}

/// A point on the screen, in pixels, y down.
#[derive(Clone, Copy, Debug, PartialEq, Eq, Structural)]
pub struct Pixel {
    pub x: i32,
    pub y: i32,
}

/// A map line as a viewer sees it.
#[derive(Clone, Copy, Debug)]
pub struct Segment {
    pub from: Pixel,
    pub to: Pixel,
}

/// What one viewer sees.
#[derive(Debug)]
pub struct Sight {
    /// Where each line of the map falls; `None` for one that is out of sight.
    pub lines: Vec<Option<Segment>>,
    /// For each player, whether its upper and its lower sphere are in front of the viewer.
    pub spheres: Vec<[bool; 2]>,
}

/// Where a vertex is drawn.
#[derive(Clone, Copy, Debug, PartialEq, Eq, Structural)]
pub enum VertexPosition {
    /// At a point of the screen.
    At(Pixel),
    /// On the circle that a sphere of player `target` appears as, the upper one for `sphere` 0 and
    /// the lower one for `sphere` 1, after `step` of [`CIRCLE_DRAW_SIDES`] parts of a turn.
    OnCircle { target: usize, sphere: usize, step: usize },
}

/// One vertex of a line segment, with an RGBA color.
#[derive(Clone, Copy, Debug)]
pub struct LineVertex {
    pub position: VertexPosition,
    pub color: [u8; 4],
}

/// One viewer's region: the rectangle it occupies and where its vertices stand.
#[derive(Clone, Copy, Debug)]
pub struct RegionGeometry {
    pub scissor: Scissor,
    pub first_vertex: u32,
    pub vertex_count: u32,
}

/// Whole pixels in `q` quarters of a pixel, towards zero, as far as an `i32` reaches.
pub open spec fn whole_pixels(q: int) -> int {
    if q < 0 {
        -((-q) / 4)
    } else if q / 4 > i32::MAX {
        i32::MAX as int
    } else {
        q / 4
    }
}

/// `q + by`, as single precision holds it.
pub open spec fn shifted(q: int, by: int) -> int {
    signed_single(q + by)
}

/// The vertex at pixel (`x`, `y`).
pub open spec fn vertex_at(x: int, y: int, color: [u8; 4]) -> LineVertex {
    LineVertex { position: VertexPosition::At(Pixel { x: x as i32, y: y as i32 }), color }
}

/// The vertices of the first `n` map lines.
pub open spec fn line_vertices(lines: Seq<Option<Segment>>, n: int) -> Seq<LineVertex>
    decreases n,
{
    if n <= 0 {
        seq![]
    } else {
        let before = line_vertices(lines, n - 1);
        match lines[n - 1] {
            Some(s) => before + seq![
                LineVertex { position: VertexPosition::At(s.from), color: GRAY },
                LineVertex { position: VertexPosition::At(s.to), color: GRAY },
            ],
            None => before,
        }
    }
}

/// The vertices of a circle: side `s` runs from step `s` to step `s + 1`.
pub open spec fn circle_vertices(target: int, sphere: int, color: [u8; 4]) -> Seq<LineVertex> {
    Seq::new(
        CIRCLE_VERTICES as nat,
        |v: int|
            LineVertex {
                position: VertexPosition::OnCircle {
                    target: target as usize,
                    sphere: sphere as usize,
                    step: ((v + 1) / 2) as usize,
                },
                color,
            },
    )
}

/// A player's color, opaque.
pub open spec fn opaque(color: [u8; 3]) -> [u8; 4] {
    [color[0], color[1], color[2], 255]
}

/// The vertices of the first `n` spheres of player `target`.
pub open spec fn sphere_vertices(
    seen: [bool; 2],
    target: int,
    color: [u8; 4],
    n: int,
) -> Seq<LineVertex>
    decreases n,
{
    if n <= 0 {
        seq![]
    } else if seen[n - 1] {
        sphere_vertices(seen, target, color, n - 1) + circle_vertices(target, n - 1, color)
    } else {
        sphere_vertices(seen, target, color, n - 1)
    }
}

/// The vertices of the first `n` players, as `viewer` sees them.
pub open spec fn player_vertices(
    players: Seq<Player>,
    spheres: Seq<[bool; 2]>,
    viewer: int,
    n: int,
) -> Seq<LineVertex>
    decreases n,
{
    if n <= 0 {
        seq![]
    } else if n - 1 == viewer {
        player_vertices(players, spheres, viewer, n - 1)
    } else {
        player_vertices(players, spheres, viewer, n - 1) + sphere_vertices(
            spheres[n - 1],
            n - 1,
            opaque(players[n - 1].color),
            2,
        )
    }
}

/// The crosshair around (`x`, `y`), both in quarters of a pixel.
pub open spec fn crosshair_vertices(x: int, y: int) -> Seq<LineVertex> {
    let reach = CROSSHAIR_REACH as int;
    seq![
        vertex_at(whole_pixels(x), whole_pixels(shifted(y, -reach)), WHITE),
        vertex_at(whole_pixels(x), whole_pixels(shifted(y, reach)), WHITE),
        vertex_at(whole_pixels(shifted(x, -reach)), whole_pixels(y), WHITE),
        vertex_at(whole_pixels(shifted(x, reach)), whole_pixels(y), WHITE),
    ]
}

/// Everything that `viewer` sees, in drawing order: the map, the other players, the crosshair.
pub open spec fn viewer_vertices(
    players: Seq<Player>,
    players_len: int,
    w: int,
    h: int,
    sight: Sight,
    viewer: int,
) -> Seq<LineVertex> {
    let cols = columns(players_len);
    line_vertices(sight.lines@, sight.lines@.len() as int) + player_vertices(
        players,
        sight.spheres@,
        viewer,
        players_len,
    ) + crosshair_vertices(
        part_origin(w, cols, viewer % cols),
        part_origin(h, rows(players_len), viewer / cols),
    )
}

/// What the first `n` viewers see, one after the other.
pub open spec fn scene_vertices(
    players: Seq<Player>,
    players_len: int,
    w: int,
    h: int,
    sights: Seq<Sight>,
    n: int,
) -> Seq<LineVertex>
    decreases n,
{
    if n <= 0 {
        seq![]
    } else {
        scene_vertices(players, players_len, w, h, sights, n - 1) + viewer_vertices(
            players,
            players_len,
            w,
            h,
            sights[n - 1],
            n - 1,
        )
    }
}

/// Whether `r` is the region of viewer `i`.
pub open spec fn is_region(
    r: RegionGeometry,
    players: Seq<Player>,
    players_len: int,
    w: int,
    h: int,
    sights: Seq<Sight>,
    i: int,
) -> bool {
    let cols = columns(players_len);
    &&& r.scissor.offset[0] == part_offset(w, cols, i % cols)
    &&& r.scissor.offset[1] == part_offset(h, rows(players_len), i / cols)
    &&& r.scissor.extent[0] == part_extent(w, cols, i % cols)
    &&& r.scissor.extent[1] == part_extent(h, rows(players_len), i / cols)
    &&& r.first_vertex == scene_vertices(players, players_len, w, h, sights, i).len()
    &&& r.vertex_count == viewer_vertices(players, players_len, w, h, sights[i], i).len()
}

/// Whether `vertices` and `regions` are the frame of `players_len` players in a window of `w` by
/// `h` pixels.
pub open spec fn is_scene(
    vertices: Seq<LineVertex>,
    regions: Seq<RegionGeometry>,
    players: Seq<Player>,
    players_len: int,
    w: int,
    h: int,
    sights: Seq<Sight>,
) -> bool {
    &&& vertices == scene_vertices(players, players_len, w, h, sights, players_len)
    &&& regions.len() == players_len
    &&& forall|i: int|
        0 <= i < players_len ==> is_region(
            #[trigger] regions[i],
            players,
            players_len,
            w,
            h,
            sights,
            i,
        )
}

fn to_whole_pixels(q: i128) -> (r: i32)
    requires
        q > -0x1_0000_0000,
    ensures
        r == whole_pixels(q as int),
{
    if q < 0 {
        -(((-q) / 4) as i32)
    } else if q / 4 > i32::MAX as i128 {
        i32::MAX
    } else {
        (q / 4) as i32
    }
}

fn shift(q: u128, by: i128) -> (r: i128)
    requires
        q <= 0x80_0000_0000_0000_0000_0000_0000,
        -40 <= by <= 40,
    ensures
        r == shifted(q as int, by as int),
        r > -0x1_0000_0000,
{
    nearest_signed_single(q as i128 + by)
}

fn push_lines(lines: &Vec<Option<Segment>>, vertices: &mut Vec<LineVertex>)
    ensures
        final(vertices)@ == old(vertices)@ + line_vertices(lines@, lines@.len() as int),
{
    let ghost before = vertices@;
    assert(before + line_vertices(lines@, 0) =~= before);
    let mut n: usize = 0;
    while n < lines.len()
        invariant
            n <= lines@.len(),
            vertices@ == before + line_vertices(lines@, n as int),
        decreases lines@.len() - n,
    {
        let ghost so_far = vertices@;
        if let Some(s) = lines[n] {
            vertices.push(LineVertex { position: VertexPosition::At(s.from), color: GRAY });
            vertices.push(LineVertex { position: VertexPosition::At(s.to), color: GRAY });
        }
        assert(vertices@ =~= before + line_vertices(lines@, n + 1));
        n += 1;
    }
}

fn push_circle(target: usize, sphere: usize, color: [u8; 4], vertices: &mut Vec<LineVertex>)
    ensures
        final(vertices)@ == old(vertices)@ + circle_vertices(target as int, sphere as int, color),
{
    let ghost before = vertices@;
    let ghost circle = circle_vertices(target as int, sphere as int, color);
    let mut s: usize = 0;
    while s < CIRCLE_DRAW_SIDES
        invariant
            s <= CIRCLE_DRAW_SIDES,
            circle == circle_vertices(target as int, sphere as int, color),
            vertices@ =~= before + circle.take(2 * s),
        decreases CIRCLE_DRAW_SIDES - s,
    {
        vertices.push(
            LineVertex {
                position: VertexPosition::OnCircle { target, sphere, step: s },
                color,
            },
        );
        vertices.push(
            LineVertex {
                position: VertexPosition::OnCircle { target, sphere, step: s + 1 },
                color,
            },
        );
        s += 1;
    }
    assert(circle.take(64) =~= circle);
}

fn push_players(
    players: &[Player],
    players_len: usize,
    spheres: &Vec<[bool; 2]>,
    viewer: usize,
    vertices: &mut Vec<LineVertex>,
)
    requires
        players_len <= players@.len(),
        players_len <= spheres@.len(),
    ensures
        final(vertices)@ == old(vertices)@ + player_vertices(
            players@,
            spheres@,
            viewer as int,
            players_len as int,
        ),
{
    let ghost before = vertices@;
    assert(before + player_vertices(players@, spheres@, viewer as int, 0) =~= before);
    let mut j: usize = 0;
    while j < players_len
        invariant
            j <= players_len <= players@.len(),
            players_len <= spheres@.len(),
            vertices@ == before + player_vertices(players@, spheres@, viewer as int, j as int),
        decreases players_len - j,
    {
        let ghost so_far = vertices@;
        if j != viewer {
            let c: [u8; 3] = players[j].color;
            let color: [u8; 4] = [c[0], c[1], c[2], 255];
            let seen: [bool; 2] = spheres[j];
            assert(color == opaque(players@[j as int].color));
            assert(so_far + sphere_vertices(seen, j as int, color, 0) =~= so_far);
            let mut k: usize = 0;
            while k < 2
                invariant
                    k <= 2,
                    vertices@ == so_far + sphere_vertices(seen, j as int, color, k as int),
                decreases 2 - k,
            {
                if seen[k] {
                    push_circle(j, k, color, vertices);
                }
                assert(vertices@ =~= so_far + sphere_vertices(seen, j as int, color, k + 1));
                k += 1;
            }
        }
        assert(vertices@ =~= before + player_vertices(players@, spheres@, viewer as int, j + 1));
        j += 1;
    }
}

fn push_crosshair(origin: [u128; 2], vertices: &mut Vec<LineVertex>)
    requires
        origin[0] <= 0x80_0000_0000_0000_0000_0000_0000,
        origin[1] <= 0x80_0000_0000_0000_0000_0000_0000,
    ensures
        final(vertices)@ == old(vertices)@ + crosshair_vertices(origin[0] as int, origin[1] as int),
{
    let ghost before = vertices@;
    let reach: i128 = CROSSHAIR_REACH as i128;
    let x: i32 = to_whole_pixels(origin[0] as i128);
    let y: i32 = to_whole_pixels(origin[1] as i128);
    let up: i32 = to_whole_pixels(shift(origin[1], -reach));
    let down: i32 = to_whole_pixels(shift(origin[1], reach));
    let left: i32 = to_whole_pixels(shift(origin[0], -reach));
    let right: i32 = to_whole_pixels(shift(origin[0], reach));
    vertices.push(LineVertex { position: VertexPosition::At(Pixel { x, y: up }), color: WHITE });
    vertices.push(LineVertex { position: VertexPosition::At(Pixel { x, y: down }), color: WHITE });
    vertices.push(LineVertex { position: VertexPosition::At(Pixel { x: left, y }), color: WHITE });
    vertices.push(LineVertex { position: VertexPosition::At(Pixel { x: right, y }), color: WHITE });
    assert(vertices@ =~= before + crosshair_vertices(origin[0] as int, origin[1] as int));
}

/// Earlier viewers' vertices are no more than later ones'.
proof fn lemma_scene_grows(
    players: Seq<Player>,
    players_len: int,
    w: int,
    h: int,
    sights: Seq<Sight>,
    m: int,
    n: int,
)
    requires
        0 <= m <= n,
    ensures
        scene_vertices(players, players_len, w, h, sights, m).len() <= scene_vertices(
            players,
            players_len,
            w,
            h,
            sights,
            n,
        ).len(),
    decreases n,
{
    if m < n {
        lemma_scene_grows(players, players_len, w, h, sights, m, n - 1);
    }
}

/// Builds the frame: replaces `vertices` by the line vertices of all viewers and `regions` by one
/// region per viewer.
pub fn build_scene(
    players: &[Player],
    players_len: usize,
    win_w: u32,
    win_h: u32,
    sights: &[Sight],
    vertices: &mut Vec<LineVertex>,
    regions: &mut Vec<RegionGeometry>,
)
    requires
        players_len <= players@.len(),
        players_len <= sights@.len(),
        players_len > 0 ==> win_w >= 1 && win_h >= 1,
        forall|i: int| 0 <= i < players_len ==> players_len <= (#[trigger] sights@[i]).spheres@.len(),
        scene_vertices(
            players@,
            players_len as int,
            win_w as int,
            win_h as int,
            sights@,
            players_len as int,
        ).len() <= u32::MAX,
    ensures
        is_scene(
            final(vertices)@,
            final(regions)@,
            players@,
            players_len as int,
            win_w as int,
            win_h as int,
            sights@,
        ),
{
    vertices.clear();
    regions.clear();
    let mut i: usize = 0;
    while i < players_len
        invariant
            i <= players_len <= players@.len(),
            players_len <= sights@.len(),
            players_len > 0 ==> win_w >= 1 && win_h >= 1,
            forall|n: int|
                0 <= n < players_len ==> players_len <= (#[trigger] sights@[n]).spheres@.len(),
            scene_vertices(
                players@,
                players_len as int,
                win_w as int,
                win_h as int,
                sights@,
                players_len as int,
            ).len() <= u32::MAX,
            vertices@ == scene_vertices(
                players@,
                players_len as int,
                win_w as int,
                win_h as int,
                sights@,
                i as int,
            ),
            regions@.len() == i,
            forall|n: int|
                0 <= n < i ==> is_region(
                    #[trigger] regions@[n],
                    players@,
                    players_len as int,
                    win_w as int,
                    win_h as int,
                    sights@,
                    n,
                ),
        decreases players_len - i,
    {
        let ghost before = vertices@;
        proof {
            let (n, w, h) = (players_len as int, win_w as int, win_h as int);
            lemma_scene_grows(players@, n, w, h, sights@, i as int, n);
            lemma_scene_grows(players@, n, w, h, sights@, i + 1, n);
            lemma_origin_bound(win_w, columns(n), (i as int % columns(n)) as u64);
            lemma_origin_bound(win_h, rows(n), (i as int / columns(n)) as u64);
        }
        let first_vertex: u32 = vertices.len() as u32;
        let share: Viewport = viewport(i, players_len, win_w, win_h);
        push_lines(&sights[i].lines, vertices);
        push_players(players, players_len, &sights[i].spheres, i, vertices);
        push_crosshair(share.origin, vertices);
        assert(vertices@ =~= before + viewer_vertices(
            players@,
            players_len as int,
            win_w as int,
            win_h as int,
            sights@[i as int],
            i as int,
        ));
        regions.push(
            RegionGeometry {
                scissor: share.scissor,
                first_vertex,
                vertex_count: vertices.len() as u32 - first_vertex,
            },
        );
        i += 1;
    }
}

/// What survives clipping is in front of the camera: an end between the plane and the camera is
/// moved onto the plane, no other end is moved, and at least one end lies beyond the plane.
pub proof fn law_clipped_segment_is_in_front(a: PlaneSide, b: PlaneSide)
    requires
        clip_of(a, b) != Clip::Hidden,
    ensures
        a == PlaneSide::Behind <==> clip_of(a, b) == Clip::First,
        b == PlaneSide::Behind <==> clip_of(a, b) == Clip::Second,
        a == PlaneSide::Beyond || b == PlaneSide::Beyond,
{
}

/// `clip` with the two ends of the segment exchanged.
pub open spec fn mirrored(clip: Clip) -> Clip {
    match clip {
        Clip::First => Clip::Second,
        Clip::Second => Clip::First,
        _ => clip,
    }
}

/// The order of a segment's ends does not matter: exchanging them exchanges which one is moved.
pub proof fn law_clipping_is_symmetric(a: PlaneSide, b: PlaneSide)
    ensures
        clip_of(b, a) == mirrored(clip_of(a, b)),
{
}

/// A segment is hidden exactly when no part of it lies beyond the near plane.
pub proof fn law_hidden_segment_has_nothing_beyond(a: PlaneSide, b: PlaneSide)
    ensures
        clip_of(a, b) == Clip::Hidden <==> a != PlaneSide::Beyond && b != PlaneSide::Beyond,
{
}

/// A region never leaves the window and is never empty.
pub proof fn law_part_is_inside(len: u32, parts: int, cell: int)
    requires
        len >= 1,
        parts == 1 || parts == 2,
        cell >= 0,
    ensures
        0 <= part_offset(len as int, parts, cell),
        1 <= part_extent(len as int, parts, cell),
        part_offset(len as int, parts, cell) + part_extent(len as int, parts, cell) <= len,
{
}

/// Where the first two parts of a side start, and what their centers round.
proof fn lemma_first_cells(len: u32, parts: int)
    requires
        parts == 1 || parts == 2,
    ensures
        single((single(0) * part_size(len as int, parts)) as nat) == 0,
        single((single(1) * part_size(len as int, parts)) as nat) == part_size(len as int, parts),
        part_origin(len as int, parts, 0) == part_size(len as int, parts),
        part_origin(len as int, parts, 1) == single((3 * part_size(len as int, parts)) as nat),
{
    let length = single(len as nat);
    let size = part_size(len as int, parts);
    law_single_is_idempotent(len as nat);
    law_single_doubles(length);
    assert(single(size as nat) == size);
    assert(single(0) * size == 0) by (nonlinear_arith)
        requires
            single(0) == 0,
    ;
    assert(single(1) * size == size) by (nonlinear_arith)
        requires
            single(1) == 1,
    ;
    assert(single(3) * size == 3 * size) by (nonlinear_arith)
        requires
            single(3) == 3,
    ;
}

/// The two parts of a side of at least two pixels do not overlap.
pub proof fn law_parts_do_not_overlap(len: u32)
    requires
        len >= 2,
    ensures
        part_offset(len as int, 2, 0) + part_extent(len as int, 2, 0) <= part_offset(
            len as int,
            2,
            1,
        ),
{
    lemma_first_cells(len, 2);
    law_single_is_close(len as nat);
}

/// The pixels of a side that its parts reach: all of them, unless single precision rounds its
/// length down.
pub open spec fn reached(len: int) -> int {
    if single(len as nat) < len {
        single(len as nat) as int
    } else {
        len
    }
}

/// The parts of a side follow each other without a gap, from its first pixel to the last one that
/// they reach.
pub proof fn law_parts_cover_the_side(len: u32)
    requires
        len >= 1,
    ensures
        part_offset(len as int, 1, 0) == 0,
        part_extent(len as int, 1, 0) == reached(len as int),
        part_offset(len as int, 2, 0) == 0,
        part_offset(len as int, 2, 1) <= part_extent(len as int, 2, 0),
        part_offset(len as int, 2, 1) + part_extent(len as int, 2, 1) == reached(len as int),
        len <= SINGLE_EXACT ==> reached(len as int) == len,
{
    lemma_first_cells(len, 1);
    lemma_first_cells(len, 2);
    law_single_is_close(len as nat);
    if len >= SINGLE_EXACT {
        law_single_is_even(len as nat);
    }
}

/// Whether a pixel of a window of `w` by `h` lies in the region of viewer `i`.
pub open spec fn in_region(x: int, y: int, i: int, players: int, w: int, h: int) -> bool {
    let cols = columns(players);
    let left = part_offset(w, cols, i % cols);
    let top = part_offset(h, rows(players), i / cols);
    &&& left <= x < left + part_extent(w, cols, i % cols)
    &&& top <= y < top + part_extent(h, rows(players), i / cols)
}

/// No pixel belongs to two viewers, as long as every side that is split has two pixels to split.
pub proof fn law_regions_are_disjoint(
    x: int,
    y: int,
    i: int,
    j: int,
    players: int,
    w: u32,
    h: u32,
)
    requires
        0 <= i < players,
        0 <= j < players,
        players <= MAX_PLAYER_COUNT,
        w >= 1,
        h >= 1,
        columns(players) == 2 ==> w >= 2,
        rows(players) == 2 ==> h >= 2,
        in_region(x, y, i, players, w as int, h as int),
        in_region(x, y, j, players, w as int, h as int),
    ensures
        i == j,
{
    if w >= 2 {
        law_parts_do_not_overlap(w);
    }
    if h >= 2 {
        law_parts_do_not_overlap(h);
    }
}

/// Every pixel that the parts of the window's sides reach belongs to some viewer, except that the
/// fourth quarter stays empty while three are playing.
pub proof fn law_regions_cover_the_window(x: int, y: int, players: int, w: u32, h: u32)
    requires
        players >= 1,
        0 <= x < reached(w as int),
        0 <= y < reached(h as int),
    ensures
        exists|i: int|
            (0 <= i < players || (players == 3 && i == 3)) && in_region(
                x,
                y,
                i,
                players,
                w as int,
                h as int,
            ),
{
    law_parts_cover_the_side(w);
    law_parts_cover_the_side(h);
    let seen = |i: int| in_region(x, y, i, players, w as int, h as int);
    assert(seen(0) || (players > 1 && seen(1)) || (players > 2 && (seen(2) || seen(3))));
}

/// A viewer's crosshair marks a pixel of the viewer's own region, unless that is the second part
/// of a side so long that single precision rounds it beyond 32 bits.
pub proof fn law_crosshair_is_in_its_region(len: u32, parts: int, cell: int)
    requires
        len >= 1,
        parts == 1 || parts == 2,
        0 <= cell < parts,
        cell == 1 ==> single(len as nat) < 0x1_0000_0000,
    ensures
        part_offset(len as int, parts, cell) <= whole_pixels(part_origin(len as int, parts, cell))
            < part_offset(len as int, parts, cell) + part_extent(len as int, parts, cell),
{
    let length = single(len as nat);
    law_single_is_close(len as nat);
    law_single_is_close(length);
    law_single_is_close(2 * length);
    law_single_is_close(3 * length);
    lemma_first_cells(len, parts);
    let q = part_origin(len as int, parts, cell);
    let off = part_offset(len as int, parts, cell);
    let ext = part_extent(len as int, parts, cell);
    if len >= SINGLE_EXACT {
        law_single_is_even(len as nat);
    }
    assert(off <= q / 4 < off + ext);
    assert(off <= i32::MAX);
}

/// The regions' vertices follow one another: each region starts where the one before it ends, and
/// the last ends where the vertices end.
pub proof fn law_regions_share_out_the_vertices(
    r: RegionGeometry,
    players: Seq<Player>,
    players_len: int,
    w: int,
    h: int,
    sights: Seq<Sight>,
    i: int,
)
    requires
        0 <= i < players_len,
        is_region(r, players, players_len, w, h, sights, i),
    ensures
        i == 0 ==> r.first_vertex == 0,
        r.first_vertex + r.vertex_count == scene_vertices(
            players,
            players_len,
            w,
            h,
            sights,
            i + 1,
        ).len(),
        scene_vertices(players, players_len, w, h, sights, i + 1).subrange(
            r.first_vertex as int,
            r.first_vertex + r.vertex_count,
        ) == viewer_vertices(players, players_len, w, h, sights[i], i),
{
    assert(scene_vertices(players, players_len, w, h, sights, i + 1).subrange(
        r.first_vertex as int,
        r.first_vertex + r.vertex_count,
    ) =~= viewer_vertices(players, players_len, w, h, sights[i], i));
}

proof fn lemma_line_vertices(lines: Seq<Option<Segment>>, n: int)
    ensures
        line_vertices(lines, n).len() % 2 == 0,
        forall|v: int|
            0 <= v < line_vertices(lines, n).len() ==> (#[trigger] line_vertices(
                lines,
                n,
            )[v]).position is At,
    decreases n,
{
    if n > 0 {
        lemma_line_vertices(lines, n - 1);
    }
}

/// How many vertices a scene can have: each viewer draws at most two per map line, two circles per
/// player, and the crosshair.
pub proof fn lemma_scene_size(
    players: Seq<Player>,
    players_len: int,
    w: int,
    h: int,
    sights: Seq<Sight>,
    lines: int,
    n: int,
)
    requires
        0 <= n <= sights.len(),
        players_len >= 0,
        forall|i: int| 0 <= i < n ==> (#[trigger] sights[i]).lines@.len() <= lines,
    ensures
        scene_vertices(players, players_len, w, h, sights, n).len() <= n * (2 * lines + 128
            * players_len + 4),
    decreases n,
{
    if n > 0 {
        let each = 2 * lines + 128 * players_len + 4;
        lemma_scene_size(players, players_len, w, h, sights, lines, n - 1);
        lemma_line_count(sights[n - 1].lines@, sights[n - 1].lines@.len() as int);
        lemma_player_count(players, sights[n - 1].spheres@, n - 1, players_len);
        assert((n - 1) * each + each == n * each) by (nonlinear_arith);
    } else {
        assert(0 * (2 * lines + 128 * players_len + 4) == 0) by (nonlinear_arith);
    }
}

proof fn lemma_line_count(lines: Seq<Option<Segment>>, n: int)
    requires
        n >= 0,
    ensures
        line_vertices(lines, n).len() <= 2 * n,
    decreases n,
{
    if n > 0 {
        lemma_line_count(lines, n - 1);
    }
}

proof fn lemma_player_count(players: Seq<Player>, spheres: Seq<[bool; 2]>, viewer: int, n: int)
    requires
        n >= 0,
    ensures
        player_vertices(players, spheres, viewer, n).len() <= 128 * n,
    decreases n,
{
    if n > 0 {
        lemma_player_count(players, spheres, viewer, n - 1);
        reveal_with_fuel(sphere_vertices, 3);
    }
}

proof fn lemma_player_vertices(
    players: Seq<Player>,
    spheres: Seq<[bool; 2]>,
    viewer: int,
    n: int,
)
    requires
        n <= players.len() <= usize::MAX,
        viewer >= 0,
    ensures
        player_vertices(players, spheres, viewer, n).len() % 2 == 0,
        forall|v: int|
            0 <= v < player_vertices(players, spheres, viewer, n).len() ==> ((
            #[trigger] player_vertices(players, spheres, viewer, n)[v]).position matches
                VertexPosition::OnCircle { target, .. } && target != viewer),
    decreases n,
{
    if n > 0 {
        lemma_player_vertices(players, spheres, viewer, n - 1);
        if n - 1 != viewer {
            reveal_with_fuel(sphere_vertices, 3);
        }
    }
}

/// A viewer's vertices come in pairs, as line segments do, and no circle among them is the
/// viewer's own.
pub proof fn law_viewer_sees_segments_of_others(
    players: Seq<Player>,
    players_len: int,
    w: int,
    h: int,
    sight: Sight,
    viewer: int,
)
    requires
        0 <= viewer < players_len <= players.len() <= usize::MAX,
    ensures
        viewer_vertices(players, players_len, w, h, sight, viewer).len() % 2 == 0,
        forall|v: int|
            0 <= v < viewer_vertices(players, players_len, w, h, sight, viewer).len() ==> ((
            #[trigger] viewer_vertices(players, players_len, w, h, sight, viewer)[v]).position matches
                VertexPosition::OnCircle { target, .. } ==> target != viewer),
{
    lemma_line_vertices(sight.lines@, sight.lines@.len() as int);
    lemma_player_vertices(players, sight.spheres@, viewer, players_len);
}

/// A circle is drawn as a closed loop: its sides go once round, each from where the one before it
/// ended.
pub proof fn law_circle_is_a_loop(target: int, sphere: int, color: [u8; 4], side: int)
    requires
        0 <= side < CIRCLE_DRAW_SIDES,
        0 <= target <= usize::MAX,
        0 <= sphere < 2,
    ensures
        circle_vertices(target, sphere, color)[2 * side].position == (VertexPosition::OnCircle {
            target: target as usize,
            sphere: sphere as usize,
            step: side as usize,
        }),
        circle_vertices(target, sphere, color)[2 * side + 1].position == (VertexPosition::OnCircle {
            target: target as usize,
            sphere: sphere as usize,
            step: (side + 1) as usize,
        }),
        circle_vertices(target, sphere, color).len() == 2 * CIRCLE_DRAW_SIDES,
{
}

/// A frame depends on nothing but the players, the window and what is in sight: whatever the
/// vertices and regions held before, one and the same frame replaces it, and an empty one when
/// nobody plays.
#[verifier::rlimit(50)]
pub proof fn law_frame_is_determined(
    vertices: Seq<LineVertex>,
    regions: Seq<RegionGeometry>,
    other_vertices: Seq<LineVertex>,
    other_regions: Seq<RegionGeometry>,
    players: Seq<Player>,
    players_len: int,
    w: int,
    h: int,
    sights: Seq<Sight>,
)
    requires
        is_scene(vertices, regions, players, players_len, w, h, sights),
        is_scene(other_vertices, other_regions, players, players_len, w, h, sights),
    ensures
        vertices == other_vertices,
        regions == other_regions,
        players_len == 0 ==> vertices.len() == 0 && regions.len() == 0,
{
    assert forall|i: int| 0 <= i < players_len implies regions[i] == other_regions[i] by {
        let (r, q) = (regions[i], other_regions[i]);
        assert(is_region(r, players, players_len, w, h, sights, i));
        assert(is_region(q, players, players_len, w, h, sights, i));
        assert(r.scissor.offset@ =~= q.scissor.offset@);
        assert(r.scissor.extent@ =~= q.scissor.extent@);
        assert(r.scissor.offset =~= q.scissor.offset);
        assert(r.scissor.extent =~= q.scissor.extent);
    }
    assert(regions =~= other_regions);
}

/// The regions of a frame share out its vertices: the first starts at the first vertex, each ends
/// where the next one starts, the last ends at the last vertex, and each holds whole segments, at
/// least the two of its crosshair.
pub proof fn law_regions_partition_the_vertices(
    vertices: Seq<LineVertex>,
    regions: Seq<RegionGeometry>,
    players: Seq<Player>,
    players_len: int,
    w: int,
    h: int,
    sights: Seq<Sight>,
    i: int,
)
    requires
        is_scene(vertices, regions, players, players_len, w, h, sights),
        0 <= i < players_len <= players.len() <= usize::MAX,
    ensures
        regions.len() == players_len,
        regions[0].first_vertex == 0,
        regions[i].first_vertex + regions[i].vertex_count == (if i + 1 < players_len {
            regions[i + 1].first_vertex as int
        } else {
            vertices.len() as int
        }),
        regions[i].vertex_count % 2 == 0,
        regions[i].vertex_count >= 4,
{
    assert(is_region(regions[0], players, players_len, w, h, sights, 0));
    assert(is_region(regions[i], players, players_len, w, h, sights, i));
    if i + 1 < players_len {
        assert(is_region(regions[i + 1], players, players_len, w, h, sights, i + 1));
    }
    law_regions_share_out_the_vertices(regions[i], players, players_len, w, h, sights, i);
    law_viewer_sees_segments_of_others(players, players_len, w, h, sights[i], i);
}

/// What is left of a segment is decided by where its ends lie: nothing without an end beyond the
/// plane, all of it without an end behind the plane, and otherwise what remains once the end behind
/// has been moved onto the plane.
pub proof fn law_ends_decide_the_clipping(a: PlaneSide, b: PlaneSide, r: Clip)
    requires
        call_ensures(clip_segment, (a, b), r),
    ensures
        r == Clip::Hidden <==> a != PlaneSide::Beyond && b != PlaneSide::Beyond,
        r == Clip::First <==> a == PlaneSide::Behind && b == PlaneSide::Beyond,
        r == Clip::Second <==> a == PlaneSide::Beyond && b == PlaneSide::Behind,
{
}

/// How many of the first `n` map lines are in sight.
pub open spec fn lines_in_sight(lines: Seq<Option<Segment>>, n: int) -> nat
    decreases n,
{
    if n <= 0 {
        0
    } else {
        lines_in_sight(lines, n - 1) + (if lines[n - 1] is Some {
            1nat
        } else {
            0
        })
    }
}

/// How many spheres of the first `n` players `viewer` sees: the viewer's own do not count.
pub open spec fn spheres_in_sight(spheres: Seq<[bool; 2]>, viewer: int, n: int) -> nat
    decreases n,
{
    if n <= 0 {
        0
    } else {
        spheres_in_sight(spheres, viewer, n - 1) + (if n - 1 != viewer && spheres[n - 1][0] {
            1nat
        } else {
            0
        }) + (if n - 1 != viewer && spheres[n - 1][1] {
            1nat
        } else {
            0
        })
    }
}

/// Where the two vertices of a map line stand among the vertices of the first `n`.
proof fn lemma_line_in_sight(lines: Seq<Option<Segment>>, n: int, k: int, s: Segment)
    requires
        0 <= n,
    ensures
        line_vertices(lines, n).len() == 2 * lines_in_sight(lines, n),
        0 <= k < n && lines[k] == Some(s) ==> {
            let at = 2 * lines_in_sight(lines, k) as int;
            &&& at + 1 < line_vertices(lines, n).len()
            &&& line_vertices(lines, n)[at] == (LineVertex {
                position: VertexPosition::At(s.from),
                color: GRAY,
            })
            &&& line_vertices(lines, n)[at + 1] == (LineVertex {
                position: VertexPosition::At(s.to),
                color: GRAY,
            })
        },
    decreases n,
{
    if n > 0 {
        lemma_line_in_sight(lines, n - 1, k, s);
    }
}

/// Where the vertices of a circle stand among the vertices of the first `n` players.
#[verifier::rlimit(50)]
proof fn lemma_sphere_in_sight(
    players: Seq<Player>,
    spheres: Seq<[bool; 2]>,
    viewer: int,
    n: int,
    j: int,
    k: int,
    v: int,
)
    requires
        0 <= n,
        0 <= k < 2,
        0 <= v < 64,
    ensures
        player_vertices(players, spheres, viewer, n).len() == 64 * spheres_in_sight(
            spheres,
            viewer,
            n,
        ),
        0 <= j < n && j != viewer && spheres[j][k] ==> {
            let at = 64 * (spheres_in_sight(spheres, viewer, j) + (if k == 1 && spheres[j][0] {
                1int
            } else {
                0
            })) + v;
            &&& at < player_vertices(players, spheres, viewer, n).len()
            &&& player_vertices(players, spheres, viewer, n)[at] == (LineVertex {
                position: VertexPosition::OnCircle {
                    target: j as usize,
                    sphere: k as usize,
                    step: ((v + 1) / 2) as usize,
                },
                color: opaque(players[j].color),
            })
        },
    decreases n,
{
    if n > 0 {
        lemma_sphere_in_sight(players, spheres, viewer, n - 1, j, k, v);
        reveal_with_fuel(sphere_vertices, 3);
        if n - 1 == j && j != viewer && spheres[j][k] {
            let seen = spheres[j];
            let color = opaque(players[j].color);
            let before = player_vertices(players, spheres, viewer, j);
            let own = sphere_vertices(seen, j, color, 2);
            let skip = if k == 1 && seen[0] {
                64int
            } else {
                0
            };
            assert(own[skip + v] == circle_vertices(j, k, color)[v]);
            assert((before + own)[before.len() + skip + v] == own[skip + v]);
        }
    }
}

/// Where a viewer's vertices stand among the vertices of the first `n` viewers.
proof fn lemma_viewer_in_scene(
    players: Seq<Player>,
    players_len: int,
    w: int,
    h: int,
    sights: Seq<Sight>,
    i: int,
    n: int,
    v: int,
)
    requires
        0 <= i < n,
        0 <= v < viewer_vertices(players, players_len, w, h, sights[i], i).len(),
    ensures
        ({
            let at = scene_vertices(players, players_len, w, h, sights, i).len() + v;
            &&& at < scene_vertices(players, players_len, w, h, sights, n).len()
            &&& scene_vertices(players, players_len, w, h, sights, n)[at] == viewer_vertices(
                players,
                players_len,
                w,
                h,
                sights[i],
                i,
            )[v]
        }),
    decreases n,
{
    if i < n - 1 {
        lemma_viewer_in_scene(players, players_len, w, h, sights, i, n - 1, v);
    }
}

/// Every map line in sight is drawn, in gray, from its first to its second end: the vertices of a
/// viewer begin with those of the lines, two for each in sight, in the order of the lines and with
/// nothing between them.
pub proof fn law_lines_in_sight_are_drawn(
    players: &[Player],
    players_len: usize,
    win: (u32, u32),
    sights: &[Sight],
    vertices: &mut Vec<LineVertex>,
    regions: &mut Vec<RegionGeometry>,
    i: int,
    k: int,
    s: Segment,
)
    requires
        call_ensures(
            build_scene,
            (players, players_len, win.0, win.1, sights, vertices, regions),
            (),
        ),
        0 <= i < players_len,
        0 <= k < sights@[i].lines@.len(),
        sights@[i].lines@[k] == Some(s),
    ensures
        ({
            let at = final(regions)@[i].first_vertex + 2 * lines_in_sight(sights@[i].lines@, k);
            let (from, to) = (final(vertices)@[at], final(vertices)@[at + 1]);
            &&& at + 1 < final(regions)@[i].first_vertex + 2 * lines_in_sight(
                sights@[i].lines@,
                sights@[i].lines@.len() as int,
            )
            &&& at + 1 < final(vertices)@.len()
            &&& from.position == VertexPosition::At(s.from)
            &&& to.position == VertexPosition::At(s.to)
            &&& from.color == [64u8, 64u8, 64u8, 255u8]
            &&& to.color == [64u8, 64u8, 64u8, 255u8]
        }),
{
    let (n, w, h) = (players_len as int, win.0 as int, win.1 as int);
    let lines = sights@[i].lines@;
    lemma_line_in_sight(lines, lines.len() as int, k, s);
    let at = 2 * lines_in_sight(lines, k) as int;
    assert(is_region(final(regions)@[i], players@, n, w, h, sights@, i));
    lemma_viewer_in_scene(players@, n, w, h, sights@, i, n, at);
    lemma_viewer_in_scene(players@, n, w, h, sights@, i, n, at + 1);
}

/// Every sphere in sight of every other player is drawn, as a circle in the player's color: after
/// the lines come the circles, 64 vertices each, by player and then the upper before the lower one,
/// with nothing between them. Vertex `v` of a circle stands `(v + 1) / 2` sides round.
pub proof fn law_spheres_in_sight_are_drawn(
    players: &[Player],
    players_len: usize,
    win: (u32, u32),
    sights: &[Sight],
    vertices: &mut Vec<LineVertex>,
    regions: &mut Vec<RegionGeometry>,
    i: int,
    j: int,
    k: int,
    v: int,
)
    requires
        call_ensures(
            build_scene,
            (players, players_len, win.0, win.1, sights, vertices, regions),
            (),
        ),
        0 <= i < players_len,
        0 <= j < players_len,
        i != j,
        0 <= k < 2,
        sights@[i].spheres@[j][k],
        0 <= v < 64,
    ensures
        ({
            let at = final(regions)@[i].first_vertex + 2 * lines_in_sight(
                sights@[i].lines@,
                sights@[i].lines@.len() as int,
            ) + 64 * (spheres_in_sight(sights@[i].spheres@, i, j) + (if k == 1
                && sights@[i].spheres@[j][0] {
                1int
            } else {
                0
            })) + v;
            let vertex = final(vertices)@[at];
            &&& at < final(vertices)@.len()
            &&& vertex.position == (VertexPosition::OnCircle {
                target: j as usize,
                sphere: k as usize,
                step: ((v + 1) / 2) as usize,
            })
            &&& vertex.color[0] == players@[j].color[0]
            &&& vertex.color[1] == players@[j].color[1]
            &&& vertex.color[2] == players@[j].color[2]
            &&& vertex.color[3] == 255
        }),
{
    let (n, w, h) = (players_len as int, win.0 as int, win.1 as int);
    let (lines, spheres) = (sights@[i].lines@, sights@[i].spheres@);
    lemma_line_in_sight(lines, lines.len() as int, 0, arbitrary());
    lemma_sphere_in_sight(players@, spheres, i, n, j, k, v);
    let at = 2 * lines_in_sight(lines, lines.len() as int) + 64 * (spheres_in_sight(spheres, i, j)
        + (if k == 1 && spheres[j][0] {
        1int
    } else {
        0
    })) + v;
    assert(is_region(final(regions)@[i], players@, n, w, h, sights@, i));
    lemma_viewer_in_scene(players@, n, w, h, sights@, i, n, at);
}

/// A frame holds what is in sight and nothing more: a viewer's share is two vertices for each line
/// in sight, 64 for each sphere in sight of another player, and four for the crosshair; the shares
/// follow one another in the order of the viewers, from the first vertex to the last; and every
/// viewer has one region.
pub proof fn law_frame_holds_nothing_more(
    players: &[Player],
    players_len: usize,
    win: (u32, u32),
    sights: &[Sight],
    vertices: &mut Vec<LineVertex>,
    regions: &mut Vec<RegionGeometry>,
    i: int,
)
    requires
        call_ensures(
            build_scene,
            (players, players_len, win.0, win.1, sights, vertices, regions),
            (),
        ),
    ensures
        final(regions)@.len() == players_len,
        players_len == 0 ==> final(vertices)@.len() == 0,
        0 <= i < players_len ==> ({
            let r = final(regions)@[i];
            &&& r.vertex_count == 2 * lines_in_sight(
                sights@[i].lines@,
                sights@[i].lines@.len() as int,
            ) + 64 * spheres_in_sight(sights@[i].spheres@, i, players_len as int) + 4
            &&& i == 0 ==> r.first_vertex == 0
            &&& i + 1 < players_len ==> final(regions)@[i + 1].first_vertex == r.first_vertex
                + r.vertex_count
            &&& i + 1 == players_len ==> final(vertices)@.len() == r.first_vertex + r.vertex_count
        }),
{
    let (n, w, h) = (players_len as int, win.0 as int, win.1 as int);
    if 0 <= i < n {
        let (lines, spheres) = (sights@[i].lines@, sights@[i].spheres@);
        lemma_line_in_sight(lines, lines.len() as int, 0, arbitrary());
        lemma_sphere_in_sight(players@, spheres, i, n, 0, 0, 0);
        assert(is_region(final(regions)@[i], players@, n, w, h, sights@, i));
        if i + 1 < n {
            assert(is_region(final(regions)@[i + 1], players@, n, w, h, sights@, i + 1));
        }
    }
}

/// A viewer's region is the viewer's viewport: what is drawn for a viewer is confined to the
/// rectangle that the split of the window gives to this viewer.
pub proof fn law_region_is_the_viewers_viewport(
    players: &[Player],
    players_len: usize,
    win: (u32, u32),
    sights: &[Sight],
    vertices: &mut Vec<LineVertex>,
    regions: &mut Vec<RegionGeometry>,
    i: usize,
    share: Viewport,
)
    requires
        call_ensures(
            build_scene,
            (players, players_len, win.0, win.1, sights, vertices, regions),
            (),
        ),
        call_ensures(viewport, (i, players_len, win.0, win.1), share),
        i < players_len,
    ensures
        final(regions)@[i as int].scissor.offset[0] == share.scissor.offset[0],
        final(regions)@[i as int].scissor.offset[1] == share.scissor.offset[1],
        final(regions)@[i as int].scissor.extent[0] == share.scissor.extent[0],
        final(regions)@[i as int].scissor.extent[1] == share.scissor.extent[1],
{
    assert(is_region(
        final(regions)@[i as int],
        players@,
        players_len as int,
        win.0 as int,
        win.1 as int,
        sights@,
        i as int,
    ));
}

/// A viewer's vertices end with a white crosshair at the center of the viewer's viewport: an upright
/// line and then a level one, each from ten pixels before the center to ten pixels behind it, in
/// whole pixels towards zero. This is exact as long as single precision is.
#[verifier::rlimit(50)]
pub proof fn law_crosshair_marks_the_center(
    players: &[Player],
    players_len: usize,
    win: (u32, u32),
    sights: &[Sight],
    vertices: &mut Vec<LineVertex>,
    regions: &mut Vec<RegionGeometry>,
    i: usize,
    share: Viewport,
)
    requires
        call_ensures(
            build_scene,
            (players, players_len, win.0, win.1, sights, vertices, regions),
            (),
        ),
        call_ensures(viewport, (i, players_len, win.0, win.1), share),
        i < players_len,
    ensures
        ({
            let r = final(regions)@[i as int];
            let end = r.first_vertex + r.vertex_count;
            let (x, y) = (share.origin[0] as int, share.origin[1] as int);
            let (up, down) = (signed_single(y - 40), signed_single(y + 40));
            let (left, right) = (signed_single(x - 40), signed_single(x + 40));
            let whole = |q: int|
                if q < 0 {
                    -((-q) / 4)
                } else if q < 0x2_0000_0000 {
                    q / 4
                } else {
                    0x7fff_ffff
                };
            let at = |v: int, px: int, py: int|
                {
                    &&& final(vertices)@[v].position == VertexPosition::At(
                        Pixel { x: px as i32, y: py as i32 },
                    )
                    &&& final(vertices)@[v].color == [255u8, 255u8, 255u8, 255u8]
                };
            &&& 4 <= end <= final(vertices)@.len()
            &&& at(end - 4, whole(x), whole(up))
            &&& at(end - 3, whole(x), whole(down))
            &&& at(end - 2, whole(left), whole(y))
            &&& at(end - 1, whole(right), whole(y))
            &&& y <= 0xff_ffd8 ==> up == y - 40 && down == y + 40
            &&& x <= 0xff_ffd8 ==> left == x - 40 && right == x + 40
        }),
{
    let (n, w, h) = (players_len as int, win.0 as int, win.1 as int);
    let seen = viewer_vertices(players@, n, w, h, sights@[i as int], i as int);
    assert(is_region(final(regions)@[i as int], players@, n, w, h, sights@, i as int));
    let cross = crosshair_vertices(share.origin[0] as int, share.origin[1] as int);
    assert(seen[seen.len() - 4] == cross[0] && seen[seen.len() - 3] == cross[1] && seen[seen.len()
        - 2] == cross[2] && seen[seen.len() - 1] == cross[3]);
    lemma_viewer_in_scene(players@, n, w, h, sights@, i as int, n, seen.len() - 4);
    lemma_viewer_in_scene(players@, n, w, h, sights@, i as int, n, seen.len() - 3);
    lemma_viewer_in_scene(players@, n, w, h, sights@, i as int, n, seen.len() - 2);
    lemma_viewer_in_scene(players@, n, w, h, sights@, i as int, n, seen.len() - 1);
}

/// What single precision leaves as it is: the parts of a side, as far as no number on the way is
/// too large.
proof fn lemma_exact_part(len: u32, parts: int, cell: int)
    requires
        len >= 1,
        parts == 1 || parts == 2,
        cell >= 0,
        (2 * cell + 1) * (2 * len) <= SINGLE_EXACT,
    ensures
        part_size(len as int, parts) == (if parts == 2 {
            len as int
        } else {
            2 * len
        }),
        part_origin(len as int, parts, cell) == (2 * cell + 1) * part_size(len as int, parts),
        part_offset(len as int, parts, cell) == ({
            let start = (cell * part_size(len as int, parts) + 1) / 2;
            if start < len - 1 {
                start
            } else {
                len - 1
            }
        }),
{
    let size = part_size(len as int, parts);
    assert(2 * cell + 1 <= (2 * cell + 1) * (2 * len) && 2 * len <= (2 * cell + 1) * (2 * len))
        by (nonlinear_arith)
        requires
            cell >= 0,
            len >= 1,
    ;
    assert((2 * cell + 1) * size <= (2 * cell + 1) * (2 * len)) by (nonlinear_arith)
        requires
            cell >= 0,
            size <= 2 * len,
    ;
    assert(0 <= cell * size <= (2 * cell + 1) * size) by (nonlinear_arith)
        requires
            cell >= 0,
            size >= 0,
    ;
}

/// The window is split into equal shares. Two players share it one above the other, more than two
/// by columns of two as well, and viewers take the shares row by row, from the left. A share is as
/// long as its part of the side; its rectangle starts and ends at the nearest whole pixel, halves
/// up, without leaving the window or getting empty; its center lies half a share beyond its start.
/// Lengths are given in halves, centers in quarters of a pixel. This is exact as long as single
/// precision is.
#[verifier::rlimit(50)]
pub proof fn law_shares_are_equal(
    i: usize,
    players_len: usize,
    win_w: u32,
    win_h: u32,
    v: Viewport,
)
    requires
        call_ensures(viewport, (i, players_len, win_w, win_h), v),
        i < players_len,
        win_w >= 1,
        win_h >= 1,
        4 * win_w <= 0x40_0000,
        (2 * i + 1) * (2 * win_h) <= 0x100_0000,
    ensures
        ({
            let (w, h) = (win_w as int, win_h as int);
            let (column, row) = if players_len > 2 {
                (i % 2, i / 2)
            } else {
                (0usize, i)
            };
            let least = |a: int, b: int|
                if a < b {
                    a
                } else {
                    b
                };
            &&& players_len <= 2 ==> {
                &&& v.size[0] == 2 * w
                &&& v.origin[0] == 2 * w
                &&& v.scissor.offset[0] == 0
                &&& v.scissor.extent[0] == w
            }
            &&& players_len > 2 ==> {
                &&& v.size[0] == w
                &&& v.origin[0] == (2 * column + 1) * w
                &&& v.scissor.offset[0] == least(column * ((w + 1) / 2), w - 1)
                &&& v.scissor.extent[0] == least((w + 1) / 2, w - v.scissor.offset[0])
            }
            &&& players_len <= 1 ==> {
                &&& v.size[1] == 2 * h
                &&& v.origin[1] == 2 * h
                &&& v.scissor.offset[1] == 0
                &&& v.scissor.extent[1] == h
            }
            &&& players_len > 1 ==> {
                &&& v.size[1] == h
                &&& v.origin[1] == (2 * row + 1) * h
                &&& v.scissor.offset[1] == least((row * h + 1) / 2, h - 1)
                &&& v.scissor.extent[1] == least((h + 1) / 2, h - v.scissor.offset[1])
            }
        }),
{
    let n = players_len as int;
    let (column, row) = (i as int % columns(n), i as int / columns(n));
    assert((2 * column + 1) * (2 * win_w) <= SINGLE_EXACT) by (nonlinear_arith)
        requires
            0 <= column <= 1,
            4 * win_w <= 0x40_0000,
            SINGLE_EXACT == 0x100_0000,
    ;
    assert((2 * row + 1) * (2 * win_h) <= SINGLE_EXACT) by (nonlinear_arith)
        requires
            0 <= row <= i,
            (2 * i + 1) * (2 * win_h) <= 0x100_0000,
            SINGLE_EXACT == 0x100_0000,
    ;
    lemma_exact_part(win_w, columns(n), column);
    lemma_exact_part(win_h, rows(n), row);
    let (wide, high) = (part_size(win_w as int, columns(n)), part_size(win_h as int, rows(n)));
    let half = (win_w as int + 1) / 2;
    assert(column == 0 ==> column * wide == 0 && (2 * column + 1) * wide == wide && column * half
        == 0) by (nonlinear_arith);
    assert(column == 1 ==> column * wide == wide && (2 * column + 1) * wide == 3 * wide && column
        * half == half) by (nonlinear_arith);
    assert(row == 0 ==> row * high == 0 && (2 * row + 1) * high == high) by (nonlinear_arith);
}

/// The same of every window and every viewer, with each length, place and center as single
/// precision holds it.
pub proof fn law_shares_in_single_precision(
    i: usize,
    players_len: usize,
    win_w: u32,
    win_h: u32,
    v: Viewport,
)
    requires
        call_ensures(viewport, (i, players_len, win_w, win_h), v),
    ensures
        ({
            let (column, row) = if players_len > 2 {
                (i % 2, i / 2)
            } else {
                (0usize, i)
            };
            let wide = single(win_w as nat) * (if players_len > 2 {
                1nat
            } else {
                2nat
            });
            let high = single(win_h as nat) * (if players_len > 1 {
                1nat
            } else {
                2nat
            });
            let least = |a: int, b: int|
                if a < b {
                    a
                } else {
                    b
                };
            let most = |a: int, b: int|
                if a < b {
                    b
                } else {
                    a
                };
            let start = |cell: usize, size: nat|
                (single(single(cell as nat) * size) + 1) / 2;
            let center = |cell: usize, size: nat|
                single(single(2 * single(cell as nat) + 1) * size);
            &&& v.size[0] == wide
            &&& v.size[1] == high
            &&& v.origin[0] == center(column, wide)
            &&& v.origin[1] == center(row, high)
            &&& v.scissor.offset[0] == least(start(column, wide) as int, win_w - 1)
            &&& v.scissor.offset[1] == least(start(row, high) as int, win_h - 1)
            &&& v.scissor.extent[0] == most(
                1,
                least(((wide + 1) / 2) as int, win_w - v.scissor.offset[0]),
            )
            &&& v.scissor.extent[1] == most(
                1,
                least(((high + 1) / 2) as int, win_h - v.scissor.offset[1]),
            )
        }),
{
}

/// Whether a pixel lies in a rectangle.
pub open spec fn is_inside(x: int, y: int, s: Scissor) -> bool {
    &&& s.offset[0] <= x < s.offset[0] + s.extent[0]
    &&& s.offset[1] <= y < s.offset[1] + s.extent[1]
}

/// The rectangle of a region is the set of pixels that belong to its viewer.
proof fn lemma_rectangle(
    r: RegionGeometry,
    players: Seq<Player>,
    players_len: int,
    w: u32,
    h: u32,
    sights: Seq<Sight>,
    i: int,
    x: int,
    y: int,
)
    requires
        is_region(r, players, players_len, w as int, h as int, sights, i),
        i >= 0,
        w >= 1,
        h >= 1,
    ensures
        is_inside(x, y, r.scissor) <==> in_region(x, y, i, players_len, w as int, h as int),
        r.scissor.extent[0] >= 1,
        r.scissor.extent[1] >= 1,
        is_inside(x, y, r.scissor) ==> 0 <= x < w && 0 <= y < h,
{
    let cols = columns(players_len);
    assert(i % cols >= 0 && i / cols >= 0) by (nonlinear_arith)
        requires
            i >= 0,
            cols >= 1,
    ;
    law_part_is_inside(w, cols, i % cols);
    law_part_is_inside(h, rows(players_len), i / cols);
}

/// Which viewer a pixel of the window belongs to.
#[verifier::rlimit(50)]
proof fn lemma_pixel_belongs_to_somebody(x: int, y: int, players: int, w: u32, h: u32) -> (k: int)
    requires
        1 <= players,
        0 <= x < w <= SINGLE_EXACT,
        0 <= y < h <= SINGLE_EXACT,
        players > 2 ==> w >= 2,
        players > 1 ==> h >= 2,
        !(players == 3 && x >= (w + 1) / 2 && y >= (h + 1) / 2),
    ensures
        0 <= k < players,
        in_region(x, y, k, players, w as int, h as int),
{
    law_parts_cover_the_side(w);
    law_parts_cover_the_side(h);
    law_regions_cover_the_window(x, y, players, w, h);
    let k = choose|k: int|
        (0 <= k < players || (players == 3 && k == 3)) && in_region(
            x,
            y,
            k,
            players,
            w as int,
            h as int,
        );
    if k == 3 && players == 3 {
        lemma_first_cells(w, 2);
        lemma_first_cells(h, 2);
        assert(part_offset(w as int, 2, 1) == (w + 1) / 2);
        assert(part_offset(h as int, 2, 1) == (h + 1) / 2);
    }
    k
}

/// The rectangles that the viewers of a frame are confined to lie in the window, are not empty, and
/// share no pixel, as long as every side that is split has two pixels to split. Between them they
/// hold the whole window, except that the lower right quarter stays empty while three are playing.
#[verifier::rlimit(50)]
pub proof fn law_rectangles_of_a_frame_share_the_window(
    players: &[Player],
    players_len: usize,
    win: (u32, u32),
    sights: &[Sight],
    vertices: &mut Vec<LineVertex>,
    regions: &mut Vec<RegionGeometry>,
    i: int,
    j: int,
    x: int,
    y: int,
)
    requires
        call_ensures(
            build_scene,
            (players, players_len, win.0, win.1, sights, vertices, regions),
            (),
        ),
        0 <= i < players_len <= 4,
        0 <= j < players_len,
        players_len > 2 ==> win.0 >= 2,
        players_len > 1 ==> win.1 >= 2,
        win.0 >= 1,
        win.1 >= 1,
    ensures
        is_inside(x, y, final(regions)@[i].scissor) ==> 0 <= x < win.0 && 0 <= y < win.1,
        final(regions)@[i].scissor.extent[0] >= 1 && final(regions)@[i].scissor.extent[1] >= 1,
        is_inside(x, y, final(regions)@[i].scissor) && is_inside(
            x,
            y,
            final(regions)@[j].scissor,
        ) ==> i == j,
        is_inside(x, y, final(regions)@[i].scissor) <==> in_region(
            x,
            y,
            i,
            players_len as int,
            win.0 as int,
            win.1 as int,
        ),
        0 <= x < win.0 <= 0x100_0000 && 0 <= y < win.1 <= 0x100_0000 && !(players_len == 3 && x >= (
        win.0 + 1) / 2 && y >= (win.1 + 1) / 2) ==> exists|k: int|
            0 <= k < players_len && is_inside(x, y, (#[trigger] final(regions)@[k]).scissor),
{
    let (n, w, h) = (players_len as int, win.0 as int, win.1 as int);
    let rs = final(regions)@;
    assert(is_region(rs[i], players@, n, w, h, sights@, i));
    assert(is_region(rs[j], players@, n, w, h, sights@, j));
    lemma_rectangle(rs[i], players@, n, win.0, win.1, sights@, i, x, y);
    lemma_rectangle(rs[j], players@, n, win.0, win.1, sights@, j, x, y);
    if in_region(x, y, i, n, w, h) && in_region(x, y, j, n, w, h) {
        law_regions_are_disjoint(x, y, i, j, n, win.0, win.1);
    }
    if 0 <= x < w <= SINGLE_EXACT && 0 <= y < h <= SINGLE_EXACT && !(n == 3 && x >= (w + 1) / 2 && y
        >= (h + 1) / 2) {
        let k = lemma_pixel_belongs_to_somebody(x, y, n, win.0, win.1);
        assert(is_region(rs[k], players@, n, w, h, sights@, k));
        lemma_rectangle(rs[k], players@, n, win.0, win.1, sights@, k, x, y);
    }
}

/// The center of a viewer's crosshair lies in the rectangle that the viewer is confined to, and so
/// does the crosshair of nobody else, as long as no side is so long that single precision rounds it
/// beyond 32 bits.
#[verifier::rlimit(50)]
pub proof fn law_crosshair_is_inside_the_rectangle(
    players: &[Player],
    players_len: usize,
    win: (u32, u32),
    sights: &[Sight],
    vertices: &mut Vec<LineVertex>,
    regions: &mut Vec<RegionGeometry>,
    i: int,
    j: int,
)
    requires
        call_ensures(
            build_scene,
            (players, players_len, win.0, win.1, sights, vertices, regions),
            (),
        ),
        0 <= i < players_len <= 4,
        0 <= j < players_len,
        players_len > 2 ==> win.0 >= 2,
        players_len > 1 ==> win.1 >= 2,
        1 <= win.0 <= 0xffff_ff00,
        1 <= win.1 <= 0xffff_ff00,
    ensures
        ({
            let r = final(regions)@[i];
            let end = r.first_vertex + r.vertex_count;
            let upright = final(vertices)@[end - 4].position;
            let level = final(vertices)@[end - 1].position;
            &&& upright is At && level is At
            &&& is_inside(upright->At_0.x as int, level->At_0.y as int, final(regions)@[j].scissor)
                <==> i == j
        }),
{
    let (n, w, h) = (players_len as int, win.0 as int, win.1 as int);
    let rs = final(regions)@;
    let cols = columns(n);
    let x = whole_pixels(part_origin(w, cols, i % cols));
    let y = whole_pixels(part_origin(h, rows(n), i / cols));
    lemma_center_of_the_crosshair(final(vertices)@, rs, players@, n, w, h, sights@, i);
    lemma_center_belongs_to_the_viewer(n, win.0, win.1, i);
    assert(is_inside(x, y, rs[j].scissor) <==> in_region(x, y, j, n, w, h)) by {
        assert(is_region(rs[j], players@, n, w, h, sights@, j));
        lemma_rectangle(rs[j], players@, n, win.0, win.1, sights@, j, x, y);
    }
    if in_region(x, y, j, n, w, h) {
        law_regions_are_disjoint(x, y, i, j, n, win.0, win.1);
    }
}

/// Where the crosshair of a frame's viewer has its center.
proof fn lemma_center_of_the_crosshair(
    vertices: Seq<LineVertex>,
    regions: Seq<RegionGeometry>,
    players: Seq<Player>,
    players_len: int,
    w: int,
    h: int,
    sights: Seq<Sight>,
    i: int,
)
    requires
        is_scene(vertices, regions, players, players_len, w, h, sights),
        0 <= i < players_len,
    ensures
        ({
            let end = regions[i].first_vertex + regions[i].vertex_count;
            let cols = columns(players_len);
            let x = whole_pixels(part_origin(w, cols, i % cols));
            let y = whole_pixels(part_origin(h, rows(players_len), i / cols));
            &&& vertices[end - 4].position matches VertexPosition::At(p) && p.x == x as i32
            &&& vertices[end - 1].position matches VertexPosition::At(p) && p.y == y as i32
        }),
{
    let seen = viewer_vertices(players, players_len, w, h, sights[i], i);
    assert(is_region(regions[i], players, players_len, w, h, sights, i));
    lemma_crosshair_ends_the_share(players, players_len, w, h, sights[i], i);
    lemma_viewer_in_scene(players, players_len, w, h, sights, i, players_len, seen.len() - 4);
    lemma_viewer_in_scene(players, players_len, w, h, sights, i, players_len, seen.len() - 1);
}

/// The last vertices of a share are those of the crosshair.
proof fn lemma_crosshair_ends_the_share(
    players: Seq<Player>,
    players_len: int,
    w: int,
    h: int,
    sight: Sight,
    viewer: int,
)
    ensures
        ({
            let seen = viewer_vertices(players, players_len, w, h, sight, viewer);
            let cols = columns(players_len);
            let x = whole_pixels(part_origin(w, cols, viewer % cols));
            let y = whole_pixels(part_origin(h, rows(players_len), viewer / cols));
            &&& seen.len() >= 4
            &&& seen[seen.len() - 4].position matches VertexPosition::At(p) && p.x == x as i32
            &&& seen[seen.len() - 1].position matches VertexPosition::At(p) && p.y == y as i32
        }),
{
    let seen = viewer_vertices(players, players_len, w, h, sight, viewer);
    let cols = columns(players_len);
    let cross = crosshair_vertices(
        part_origin(w, cols, viewer % cols),
        part_origin(h, rows(players_len), viewer / cols),
    );
    assert(seen[seen.len() - 4] == cross[0] && seen[seen.len() - 1] == cross[3]);
}

/// The center of a viewer's share is a pixel of the share.
#[verifier::rlimit(50)]
proof fn lemma_center_belongs_to_the_viewer(players: int, w: u32, h: u32, i: int)
    requires
        0 <= i < players <= 4,
        1 <= w <= 0xffff_ff00,
        1 <= h <= 0xffff_ff00,
    ensures
        ({
            let cols = columns(players);
            let x = whole_pixels(part_origin(w as int, cols, i % cols));
            let y = whole_pixels(part_origin(h as int, rows(players), i / cols));
            &&& 0 <= x <= i32::MAX
            &&& 0 <= y <= i32::MAX
            &&& in_region(x, y, i, players, w as int, h as int)
        }),
{
    let cols = columns(players);
    law_single_is_monotone(w as nat, 0xffff_ff00);
    law_single_is_monotone(h as nat, 0xffff_ff00);
    lemma_single_of_the_longest_side();
    assert(0 <= i % cols < cols && 0 <= i / cols < rows(players));
    law_part_is_inside(w, cols, i % cols);
    law_part_is_inside(h, rows(players), i / cols);
    law_crosshair_is_in_its_region(w, cols, i % cols);
    law_crosshair_is_in_its_region(h, rows(players), i / cols);
}

/// The longest side of 32 bits that single precision holds.
proof fn lemma_single_of_the_longest_side()
    ensures
        single(0xffff_ff00) == 0xffff_ff00,
{
    law_single_doubles(0x7fff_ff80);
    law_single_doubles(0x3fff_ffc0);
    law_single_doubles(0x1fff_ffe0);
    law_single_doubles(0x0fff_fff0);
    law_single_doubles(0x07ff_fff8);
    law_single_doubles(0x03ff_fffc);
    law_single_doubles(0x01ff_fffe);
    law_single_doubles(0x00ff_ffff);
}

} // verus!
