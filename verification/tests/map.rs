use woodeneye::map::{
    box_reach, floor_line_at, init_edges, BOX_EDGE_CORNERS, MAP_BOX_EDGES_LEN, MAP_BOX_SCALE,
};

fn map_lines() -> Vec<[i64; 6]> {
    let mut edges = vec![[7; 6]; MAP_BOX_EDGES_LEN];
    init_edges(MAP_BOX_SCALE, &mut edges, MAP_BOX_EDGES_LEN);
    edges
}

#[test]
fn map_has_twelve_edges_and_two_lines_per_unit() {
    assert_eq!(MAP_BOX_EDGES_LEN, 12 + 2 * MAP_BOX_SCALE as usize);
}

#[test]
fn first_edges_run_between_corners() {
    let e = map_lines();
    assert_eq!(e[0], [-20, -20, -20, 20, -20, -20]);
    assert_eq!(e[1], [20, -20, -20, 20, 20, -20]);
    assert_eq!(e[4], [20, 20, 20, -20, 20, 20]);
    assert_eq!(e[8], [-20, 20, 20, -20, 20, -20]);
    assert_eq!(e[11], [20, -20, 20, 20, -20, -20]);
}

#[test]
fn edges_follow_the_corner_bits() {
    let e = map_lines();
    for i in 0..12 {
        for j in 0..3 {
            let at = |c: u8| if c & (1 << j) != 0 { 20 } else { -20 };
            assert_eq!(e[i][j], at(BOX_EDGE_CORNERS[i * 2]));
            assert_eq!(e[i][j + 3], at(BOX_EDGE_CORNERS[i * 2 + 1]));
        }
    }
}

#[test]
fn box_edges_are_the_edges_of_a_cube() {
    let mut seen = Vec::new();
    for i in 0..12 {
        let a = BOX_EDGE_CORNERS[2 * i];
        let b = BOX_EDGE_CORNERS[2 * i + 1];
        assert_eq!((a ^ b).count_ones(), 1);
        let pair = (a.min(b), a.max(b));
        assert!(!seen.contains(&pair));
        seen.push(pair);
    }
    assert_eq!(seen.len(), 12);
}

#[test]
fn floor_lines_cross_the_floor() {
    let e = map_lines();
    assert_eq!(e[12], [-20, -20, -20, 20, -20, -20]);
    assert_eq!(e[13], [-20, -20, -18, 20, -20, -18]);
    assert_eq!(e[31], [-20, -20, 18, 20, -20, 18]);
    assert_eq!(e[32], [-20, -20, -20, -20, -20, 20]);
    assert_eq!(e[51], [18, -20, -20, 18, -20, 20]);
    for line in e.iter().skip(12) {
        assert_eq!(line[1], -20);
        assert_eq!(line[4], -20);
    }
}

#[test]
fn lines_stay_in_the_box() {
    for line in map_lines() {
        for c in line {
            assert!((-20..=20).contains(&c));
        }
    }
}

#[test]
fn entries_beyond_the_map_are_left_alone() {
    let mut edges = vec![[7; 6]; 20];
    init_edges(3, &mut edges, 20);
    assert_eq!(edges[17], [1, -3, -3, 1, -3, 3]);
    assert_eq!(edges[18], [7; 6]);
    assert_eq!(edges[19], [7; 6]);
}

#[test]
fn box_without_extent_has_its_edges_only() {
    let mut edges = vec![[7; 6]; 13];
    init_edges(0, &mut edges, 13);
    assert_eq!(edges[11], [0; 6]);
    assert_eq!(edges[12], [7; 6]);
}

#[test]
fn coordinates_are_those_of_single_precision() {
    for scale in [
        1i32, 2, 20, 1000, 8388609, 16777215, 16777216, 16777217, 16777219, 33554431, 50331649,
        123456789, 1999999999, 2147483583, 2147483647,
    ] {
        let r = scale as f32;
        assert_eq!(box_reach(scale), r as i64);
        let last = scale as usize - 1;
        for nth in [0, 1, 3, 8388607, 8388609, 12345677, last / 3, last / 2, last] {
            if nth <= last {
                let d = (nth * 2) as f32;
                assert_eq!(floor_line_at(scale, nth), (d - r) as i64);
            }
        }
    }
}

#[test]
fn small_boxes_are_exact_and_large_ones_rounded() {
    assert_eq!(box_reach(0), 0);
    assert_eq!(box_reach(16777216), 16777216);
    assert_eq!(floor_line_at(16777216, 16777215), 16777214);
    assert_eq!(box_reach(16777217), 16777216);
    assert_eq!(box_reach(2147483647), 2147483648);
    assert_eq!(floor_line_at(16777219, 0), -16777220);
    assert_eq!(floor_line_at(2147483647, 2147483646), 2147483648);
}
