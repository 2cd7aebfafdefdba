use woodeneye::game::{
    init_players, shoot, whose_keyboard, whose_mouse, Aim, DeviceNumber, Player, MAX_PLAYER_COUNT,
    PLACE_UNITS,
};
use woodeneye::map::MAP_BOX_SCALE;
use woodeneye::random::{next_random_byte, RANDOM_SEED};

const MISS: Aim = Aim {
    behind: false,
    in_reach: false,
};
const HIT: Aim = Aim {
    behind: false,
    in_reach: true,
};
const BACKWARD: Aim = Aim {
    behind: true,
    in_reach: true,
};

fn blank() -> Player {
    Player {
        mouse: Some(DeviceNumber { id: 99 }),
        keyboard: Some(DeviceNumber { id: 99 }),
        place: [1, 2, 3],
        vel: [3, 2, 1],
        yaw: 4,
        pitch: 5,
        radius: 6,
        height: 7,
        color: [8, 9, 10],
        wasd: 11,
    }
}

fn spawned(n: usize) -> Vec<Player> {
    let mut players = vec![blank(); n];
    init_players(&mut players, n);
    players
}

#[test]
fn players_spawn_in_four_quadrants() {
    let p = spawned(4);
    assert_eq!(p[0].place, [2560, -4736, 2560]);
    assert_eq!(p[1].place, [-2560, -4736, -2560]);
    assert_eq!(p[2].place, [2560, -4736, -2560]);
    assert_eq!(p[3].place, [-2560, -4736, 2560]);
}

#[test]
fn spawn_places_match_map_units() {
    for (i, p) in spawned(4).iter().enumerate() {
        let unit = PLACE_UNITS as f64;
        let half = MAP_BOX_SCALE as f64 * 0.5;
        let x = half * if i & 1 != 0 { -1.0 } else { 1.0 };
        let z = x * if i & 2 != 0 { -1.0 } else { 1.0 };
        assert_eq!(p.radius as f32 / 256.0, 0.5);
        assert_eq!(p.height as f32 / 256.0, 1.5);
        assert_eq!(p.place[0] as f64 / unit, x);
        assert_eq!(p.place[1] as f64 / unit, 1.5 - MAP_BOX_SCALE as f64);
        assert_eq!(p.place[2] as f64 / unit, z);
    }
}

#[test]
fn players_spawn_facing_the_center() {
    for p in spawned(4) {
        let yaw = p.yaw as f64 * std::f64::consts::PI / 2147483648.0;
        let ahead = (-yaw.sin(), -yaw.cos());
        let x = p.place[0] as f64;
        let z = p.place[2] as f64;
        // The view direction and the way to the center point the same way.
        assert!((ahead.0 * -z - ahead.1 * -x).abs() < 1e-6);
        assert!(ahead.0 * -x + ahead.1 * -z > 0.0);
    }
}

#[test]
fn spawned_players_hold_nothing() {
    for p in spawned(4) {
        assert_eq!(p.mouse, None);
        assert_eq!(p.keyboard, None);
        assert_eq!(p.wasd, 0);
        assert_eq!(p.vel, [0; 3]);
        assert_eq!(p.pitch, -0x08000000);
    }
    let yaws: Vec<u32> = spawned(4).iter().map(|p| p.yaw).collect();
    assert_eq!(yaws, vec![0x20000000, 0xa0000000, 0x60000000, 0xe0000000]);
}

#[test]
fn colors_by_player_number() {
    let p = spawned(8);
    assert_eq!(p[0].color, [0, 0xff, 0]);
    assert_eq!(p[1].color, [0xff, 0, 0xff]);
    assert_eq!(p[2].color, [0xff, 0, 0]);
    assert_eq!(p[3].color, [0, 0xff, 0xff]);
    assert_eq!(p[4].color, [0, 0, 0xff]);
    assert_eq!(p[5].color, [0xff, 0xff, 0]);
    assert_eq!(p[6].color, [0, 0, 0]);
    assert_eq!(p[7].color, [0xff, 0xff, 0xff]);
}

#[test]
fn colors_match_the_bit_pattern() {
    for (i, p) in spawned(64).iter().enumerate() {
        for (c, bit) in [2, 1, 4].iter().enumerate() {
            let base: u8 = if (1i32 << (i / 2)) & bit != 0 { 0 } else { 0xff };
            let expected = if i & 1 != 0 { base } else { !base };
            assert_eq!(p.color[c], expected);
        }
    }
}

#[test]
fn only_the_first_players_are_placed() {
    let mut players = vec![blank(); 4];
    init_players(&mut players, 2);
    assert_eq!(players[1].place, [-2560, -4736, -2560]);
    assert_eq!(players[2].place, [1, 2, 3]);
    assert_eq!(players[3].wasd, 11);
    init_players(&mut players, 10);
    assert_eq!(players[3].wasd, 0);
}

#[test]
fn devices_are_found_in_order() {
    let mut players = spawned(4);
    let (a, b) = (DeviceNumber { id: 1 }, DeviceNumber { id: 2 });
    assert_eq!(whose_mouse(a, &players, 4), None);
    players[1].mouse = Some(a);
    players[3].mouse = Some(a);
    players[2].keyboard = Some(b);
    assert_eq!(whose_mouse(a, &players, 4), Some(1));
    assert_eq!(whose_mouse(b, &players, 4), None);
    assert_eq!(whose_keyboard(b, &players, 1), Some(2));
    assert_eq!(whose_keyboard(a, &players, 4), None);
}

#[test]
fn hit_players_move_in_order() {
    let mut players = spawned(4);
    let mut state = RANDOM_SEED;
    let aims = [[HIT, HIT], [MISS, HIT], [MISS, MISS], [HIT, MISS]];
    let moved = shoot(0, &mut players, 4, &aims, &mut state);
    assert_eq!(moved, vec![false, true, false, true]);

    let mut again = RANDOM_SEED;
    let bytes: Vec<i32> = (0..6)
        .map(|_| next_random_byte(&mut again) as i32)
        .collect();
    let coords: Vec<i32> = bytes.iter().map(|b| 20 * (b - 128)).collect();
    assert_eq!(coords, vec![-2300, -880, 800, -60, 320, 580]);
    assert_eq!(players[0].place, [2560, -4736, 2560]);
    assert_eq!(players[1].place, [-2300, -880, 800]);
    assert_eq!(players[2].place, [2560, -4736, -2560]);
    assert_eq!(players[3].place, [-60, 320, 580]);
    assert_eq!(state, again);
    assert_eq!(players[1].yaw, 0xa0000000);
}

#[test]
fn random_places_match_map_units() {
    for byte in 0..=255u8 {
        let place = 20 * (byte as i32 - 128);
        let units = (MAP_BOX_SCALE as f64 * (byte as f64 - 128.0)) / 256.0;
        assert_eq!(place as f64 / PLACE_UNITS as f64, units);
    }
}

#[test]
fn miss_changes_nothing() {
    let mut players = spawned(MAX_PLAYER_COUNT);
    let mut state = 5;
    let aims = [[HIT, HIT], [MISS, BACKWARD], [BACKWARD, BACKWARD], [MISS, MISS]];
    let moved = shoot(0, &mut players, 4, &aims, &mut state);
    assert_eq!(moved, vec![false; 4]);
    assert_eq!(state, 5);
    assert_eq!(players[1].place, [-2560, -4736, -2560]);
}

#[test]
fn players_who_do_not_take_part_are_not_hit() {
    let mut players = spawned(4);
    let mut state = RANDOM_SEED;
    let moved = shoot(3, &mut players, 2, &[[HIT, HIT], [HIT, HIT]], &mut state);
    assert_eq!(moved, vec![true, true]);
    assert_eq!(players[2].place, [2560, -4736, -2560]);
    assert_eq!(players[3].place, [-2560, -4736, 2560]);
}
