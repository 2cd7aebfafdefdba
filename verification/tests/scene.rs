use woodeneye::game::{init_players, Player};
use woodeneye::scene::{
    build_scene, clip_segment, viewport, Clip, LineVertex, Pixel, PlaneSide, RegionGeometry,
    Segment, Sight, VertexPosition, CIRCLE_DRAW_SIDES, GRAY, WHITE,
};
use woodeneye::single::{nearest_signed_single, nearest_single};

const SIZES: [u32; 24] = [
    1, 2, 3, 4, 5, 7, 640, 799, 800, 1023, 1080, 1919, 4194303, 4194305, 5592406, 11184811,
    16777215, 16777216, 16777217, 16777219, 50331653, 2147483747, 4294967167, 4294967295,
];

fn players() -> Vec<Player> {
    let blank = Player {
        mouse: None,
        keyboard: None,
        place: [0; 3],
        vel: [1; 3],
        yaw: 0,
        pitch: 0,
        radius: 0,
        height: 0,
        color: [0; 3],
        wasd: 0,
    };
    let mut players = vec![blank; 4];
    init_players(&mut players, 4);
    players
}

fn sight(lines: Vec<Option<Segment>>, spheres: [[bool; 2]; 4]) -> Sight {
    Sight {
        lines,
        spheres: spheres.to_vec(),
    }
}

fn segment(x0: i32, y0: i32, x1: i32, y1: i32) -> Segment {
    Segment {
        from: Pixel { x: x0, y: y0 },
        to: Pixel { x: x1, y: y1 },
    }
}

fn at(v: &LineVertex) -> (i32, i32) {
    match v.position {
        VertexPosition::At(p) => (p.x, p.y),
        VertexPosition::OnCircle { .. } => panic!("not a pixel"),
    }
}

#[test]
fn rounding_is_that_of_single_precision() {
    for n in SIZES {
        assert_eq!(nearest_single(n as u128), n as f32 as u128);
    }
    let mut n: u128 = 1;
    while n < 1 << 123 {
        for d in [0, 1, 3, n / 3, n / 5, n / 2 + 1] {
            let m = n + d;
            assert_eq!(nearest_single(m), m as f32 as u128);
            assert_eq!(nearest_signed_single(m as i128), m as f32 as i128);
            assert_eq!(nearest_signed_single(-(m as i128)), -(m as f32) as i128);
        }
        n = n * 3 / 2 + 1;
    }
    assert_eq!(nearest_single(16777217), 16777216);
    assert_eq!(nearest_single(16777219), 16777220);
    assert_eq!(nearest_signed_single(-16777219), -16777220);
}

#[test]
fn rounding_laws_on_values() {
    let mut last: u128 = 0;
    let mut n: u128 = 1;
    while n < 1 << 120 {
        let r = nearest_single(n);
        assert_eq!(nearest_single(r), r);
        assert_eq!(nearest_single(2 * n), 2 * r);
        assert!(last <= r);
        last = r;
        n = n * 5 / 4 + 1;
    }
}

// The layout worked out in single precision.
fn float_layout(i: usize, players: usize, w: u32, h: u32) -> ([u32; 4], [f32; 4]) {
    let part_hor = if players > 2 { 2 } else { 1 };
    let part_ver = if players > 1 { 2 } else { 1 };
    let size_hor = w as f32 / part_hor as f32;
    let size_ver = h as f32 / part_ver as f32;
    let mod_x = (i % part_hor) as f32;
    let mod_y = (i / part_hor) as f32;
    let off_x = ((mod_x * size_hor).round() as u32).min(w.saturating_sub(1));
    let off_y = ((mod_y * size_ver).round() as u32).min(h.saturating_sub(1));
    let ext_x = (size_hor.round() as u32).clamp(1, w - off_x);
    let ext_y = (size_ver.round() as u32).clamp(1, h - off_y);
    (
        [off_x, off_y, ext_x, ext_y],
        [
            size_hor,
            size_ver,
            (mod_x + 0.5) * size_hor,
            (mod_y + 0.5) * size_ver,
        ],
    )
}

const VIEWERS: [(usize, usize); 17] = [
    (1, 0),
    (2, 0),
    (2, 1),
    (3, 2),
    (4, 0),
    (4, 1),
    (4, 3),
    (9, 8),
    (300, 299),
    (1 << 24, 8388609),
    (1 << 26, 16777217),
    (1 << 26, 33554434),
    (1 << 26, 33554438),
    (1 << 26, 33554443),
    (1 << 41, (1 << 40) + 98765432123),
    (usize::MAX, 33554439),
    (usize::MAX, usize::MAX - 1),
];

#[test]
fn windows_are_split_as_in_single_precision() {
    for w in SIZES {
        for h in SIZES {
            for (n, i) in VIEWERS {
                let v = viewport(i, n, w, h);
                let (rect, lengths) = float_layout(i, n, w, h);
                assert_eq!(v.scissor.offset, [rect[0], rect[1]]);
                assert_eq!(v.scissor.extent, [rect[2], rect[3]]);
                assert_eq!(v.size[0] as f32 / 2.0, lengths[0]);
                assert_eq!(v.size[1] as f32 / 2.0, lengths[1]);
                assert_eq!(v.origin[0] as f32 / 4.0, lengths[2]);
                assert_eq!(v.origin[1] as f32 / 4.0, lengths[3]);
            }
        }
    }
}

#[test]
fn one_player_has_the_whole_window() {
    let v = viewport(0, 1, 800, 600);
    assert_eq!(v.scissor.offset, [0, 0]);
    assert_eq!(v.scissor.extent, [800, 600]);
    assert_eq!(v.size, [1600, 1200]);
    assert_eq!(v.origin, [1600, 1200]);
}

#[test]
fn two_players_share_top_and_bottom() {
    let v = viewport(1, 2, 801, 601);
    assert_eq!(v.scissor.offset, [0, 301]);
    assert_eq!(v.scissor.extent, [801, 300]);
    assert_eq!(v.origin, [1602, 1803]);
}

#[test]
fn four_players_have_a_quarter_each() {
    let corners: Vec<[u32; 2]> = (0..4)
        .map(|i| viewport(i, 4, 801, 601).scissor.offset)
        .collect();
    assert_eq!(corners, vec![[0, 0], [401, 0], [0, 301], [401, 301]]);
}

#[test]
fn regions_tile_the_window() {
    for (w, h) in [(2u32, 2u32), (3, 5), (8, 7), (13, 4)] {
        for n in [1usize, 2, 4] {
            for x in 0..w {
                for y in 0..h {
                    let owners = (0..n)
                        .filter(|&i| {
                            let s = viewport(i, n, w, h).scissor;
                            s.offset[0] <= x
                                && x < s.offset[0] + s.extent[0]
                                && s.offset[1] <= y
                                && y < s.offset[1] + s.extent[1]
                        })
                        .count();
                    assert_eq!(owners, 1);
                }
            }
        }
    }
}

#[test]
fn smallest_window_is_shared() {
    let a = viewport(0, 2, 1, 1).scissor;
    let b = viewport(1, 2, 1, 1).scissor;
    assert_eq!((a.offset, a.extent), ([0, 0], [1, 1]));
    assert_eq!((b.offset, b.extent), ([0, 0], [1, 1]));
}

#[test]
fn clipping_against_the_near_plane() {
    let (beyond, on, behind) = (PlaneSide::Beyond, PlaneSide::On, PlaneSide::Behind);
    assert_eq!(clip_segment(beyond, beyond), Clip::Whole);
    assert_eq!(clip_segment(beyond, on), Clip::Whole);
    assert_eq!(clip_segment(on, beyond), Clip::Whole);
    assert_eq!(clip_segment(behind, beyond), Clip::First);
    assert_eq!(clip_segment(beyond, behind), Clip::Second);
    for a in [on, behind] {
        for b in [on, behind] {
            assert_eq!(clip_segment(a, b), Clip::Hidden);
        }
    }
}

#[test]
fn no_players_no_scene() {
    let mut vertices = vec![LineVertex {
        position: VertexPosition::At(Pixel { x: 0, y: 0 }),
        color: GRAY,
    }];
    let mut regions = Vec::new();
    build_scene(&players(), 0, 0, 0, &[], &mut vertices, &mut regions);
    assert!(vertices.is_empty());
    assert!(regions.is_empty());
}

#[test]
fn lone_player_sees_lines_and_a_crosshair() {
    let lines = vec![
        Some(segment(1, 2, 3, 4)),
        None,
        Some(segment(-5, 6, 7, -8)),
    ];
    let mut vertices = Vec::new();
    let mut regions: Vec<RegionGeometry> = Vec::new();
    let sights = [sight(lines, [[true; 2]; 4])];
    build_scene(&players(), 1, 800, 600, &sights, &mut vertices, &mut regions);
    let points: Vec<(i32, i32)> = vertices.iter().map(at).collect();
    assert_eq!(
        points,
        vec![
            (1, 2),
            (3, 4),
            (-5, 6),
            (7, -8),
            (400, 290),
            (400, 310),
            (390, 300),
            (410, 300)
        ]
    );
    assert_eq!(vertices[3].color, GRAY);
    assert_eq!(vertices[4].color, WHITE);
    assert_eq!(regions.len(), 1);
    assert_eq!((regions[0].first_vertex, regions[0].vertex_count), (0, 8));
}

#[test]
fn crosshair_in_a_small_window_leaves_it() {
    for (w, h) in [(1u32, 1u32), (2, 3), (30, 41), (79, 80)] {
        for (n, i) in [(1usize, 0usize), (4, 0), (4, 3)] {
            let mut vertices = Vec::new();
            let mut regions = Vec::new();
            let sights: Vec<Sight> = (0..n).map(|_| sight(vec![], [[false; 2]; 4])).collect();
            build_scene(&players(), n, w, h, &sights, &mut vertices, &mut regions);
            let (_, lengths) = float_layout(i, n, w, h);
            let (x, y) = (lengths[2], lengths[3]);
            let v = &vertices[4 * i..4 * i + 4];
            assert_eq!(at(&v[0]), (x as i32, (y - 10.0) as i32));
            assert_eq!(at(&v[1]), (x as i32, (y + 10.0) as i32));
            assert_eq!(at(&v[2]), ((x - 10.0) as i32, y as i32));
            assert_eq!(at(&v[3]), ((x + 10.0) as i32, y as i32));
        }
    }
}

#[test]
fn crosshair_in_a_huge_window() {
    for w in SIZES {
        let mut vertices = Vec::new();
        let mut regions = Vec::new();
        let sights: Vec<Sight> = (0..4).map(|_| sight(vec![], [[false; 2]; 4])).collect();
        build_scene(&players(), 4, w, w, &sights, &mut vertices, &mut regions);
        let (_, lengths) = float_layout(3, 4, w, w);
        let (x, y) = (lengths[2], lengths[3]);
        assert_eq!(at(&vertices[12]), (x as i32, (y - 10.0) as i32));
        assert_eq!(at(&vertices[13]), (x as i32, (y + 10.0) as i32));
        assert_eq!(at(&vertices[14]), ((x - 10.0) as i32, y as i32));
        assert_eq!(at(&vertices[15]), ((x + 10.0) as i32, y as i32));
    }
}

#[test]
fn others_are_seen_as_circles() {
    let mut vertices = Vec::new();
    let mut regions = Vec::new();
    let sights = [
        sight(vec![None], [[true, true], [true, false], [true; 2], [true; 2]]),
        sight(
            vec![Some(segment(0, 0, 1, 1))],
            [[true, true], [true, true], [true; 2], [true; 2]],
        ),
    ];
    build_scene(&players(), 2, 100, 100, &sights, &mut vertices, &mut regions);

    // The first viewer sees the upper sphere of the second, the second both spheres of the first.
    assert_eq!(regions.len(), 2);
    assert_eq!((regions[0].first_vertex, regions[0].vertex_count), (0, 68));
    assert_eq!((regions[1].first_vertex, regions[1].vertex_count), (68, 134));
    assert_eq!(vertices.len(), 202);
    for s in 0..CIRCLE_DRAW_SIDES {
        let on = |step: usize| VertexPosition::OnCircle {
            target: 1,
            sphere: 0,
            step,
        };
        assert_eq!(vertices[2 * s].position, on(s));
        assert_eq!(vertices[2 * s + 1].position, on(s + 1));
        assert_eq!(vertices[2 * s].color, [0xff, 0, 0xff, 255]);
    }
    assert_eq!(
        vertices[70].position,
        VertexPosition::OnCircle {
            target: 0,
            sphere: 0,
            step: 0
        }
    );
    assert_eq!(
        vertices[70 + 127].position,
        VertexPosition::OnCircle {
            target: 0,
            sphere: 1,
            step: 32
        }
    );
    assert_eq!(vertices[70].color, [0, 0xff, 0, 255]);
    assert_eq!(regions[1].scissor.offset, [0, 50]);
    assert_eq!(regions[1].scissor.extent, [100, 50]);
}

#[test]
fn clipping_does_not_depend_on_the_order_of_the_ends() {
    let all = [PlaneSide::Beyond, PlaneSide::On, PlaneSide::Behind];
    for a in all {
        for b in all {
            let mirrored = match clip_segment(a, b) {
                Clip::First => Clip::Second,
                Clip::Second => Clip::First,
                clip => clip,
            };
            assert_eq!(clip_segment(b, a), mirrored);
        }
    }
}

#[test]
fn old_frames_do_not_show_through() {
    let lines = || vec![Some(segment(1, 2, 3, 4)), None];
    let sights = [
        sight(lines(), [[true; 2]; 4]),
        sight(lines(), [[true, false]; 4]),
        sight(lines(), [[false, true]; 4]),
    ];
    let mut vertices = Vec::new();
    let mut regions = Vec::new();
    build_scene(&players(), 3, 640, 480, &sights, &mut vertices, &mut regions);

    let mut used_vertices: Vec<LineVertex> = vertices.iter().chain(&vertices).copied().collect();
    let mut used_regions: Vec<RegionGeometry> = regions.iter().chain(&regions).copied().collect();
    build_scene(
        &players(),
        3,
        640,
        480,
        &sights,
        &mut used_vertices,
        &mut used_regions,
    );
    assert_eq!(format!("{vertices:?}"), format!("{used_vertices:?}"));
    assert_eq!(format!("{regions:?}"), format!("{used_regions:?}"));
}

#[test]
fn regions_share_out_the_vertices() {
    let sights = [
        sight(vec![Some(segment(1, 2, 3, 4))], [[true; 2]; 4]),
        sight(vec![None], [[false; 2]; 4]),
        sight(vec![], [[true, false]; 4]),
        sight(vec![None, Some(segment(0, 0, 0, 0))], [[false, true]; 4]),
    ];
    let mut vertices = Vec::new();
    let mut regions: Vec<RegionGeometry> = Vec::new();
    build_scene(&players(), 4, 640, 480, &sights, &mut vertices, &mut regions);
    assert_eq!(regions.len(), 4);
    let mut next = 0;
    for region in &regions {
        assert_eq!(region.first_vertex, next);
        assert_eq!(region.vertex_count % 2, 0);
        assert!(region.vertex_count >= 4);
        next += region.vertex_count;
    }
    assert_eq!(next as usize, vertices.len());
    assert_eq!(regions[1].vertex_count, 4);
}
