use woodeneye::game::{
    init_players, shoot, Aim, Player, DRAG_RATE, GRAVITY, JUMP_SPEED, LOOK_SENSITIVITY,
    MOVE_ACCELERATION, PITCH_LIMIT,
};
use woodeneye::map::MAP_BOX_SCALE;
use woodeneye::motion::{bounds, look, settle, steer, update, Rest, Side, Speed, Steering};
use woodeneye::random::RANDOM_SEED;

fn players() -> Vec<Player> {
    let blank = Player {
        mouse: None,
        keyboard: None,
        place: [0; 3],
        vel: [1; 3],
        yaw: 0,
        pitch: 0,
        radius: 0,
        height: 0,
        color: [0; 3],
        wasd: 0,
    };
    let mut players = vec![blank; 4];
    init_players(&mut players, 4);
    players
}

#[test]
fn constants_of_motion() {
    assert_eq!(LOOK_SENSITIVITY, 0x00080000);
    assert_eq!(DRAG_RATE, 6);
    assert_eq!(GRAVITY, 25);
    assert_eq!(MOVE_ACCELERATION as f64, 60.0 * MAP_BOX_SCALE as f64 / 16.0);
    assert_eq!(JUMP_SPEED as f64 / 256.0, 8.4375);
}

#[test]
fn look_turns_and_tilts() {
    let mut p = players()[0];
    p.yaw = 10;
    p.pitch = 100;
    look(&mut p, -20, 30);
    assert_eq!(p.yaw, 4294967286);
    assert_eq!(p.pitch, 70);
    look(&mut p, 20, -30);
    assert_eq!(p.yaw, 10);
    assert_eq!(p.pitch, 100);
    assert_eq!(p.place, [2560, -4736, 2560]);
}

#[test]
fn look_wraps_as_binary_angles_do() {
    let deltas = [i32::MIN, -1, 0, 1, 524288, i32::MAX];
    for yaw in [0u32, 1, 0x7fffffff, 0x80000000, u32::MAX] {
        for d in deltas {
            let mut p = players()[0];
            p.yaw = yaw;
            look(&mut p, d, 0);
            assert_eq!(p.yaw, yaw.wrapping_add(d as u32));
        }
    }
}

#[test]
fn pitch_stops_at_the_limits() {
    for pitch in [-PITCH_LIMIT, -1, 0, 7, PITCH_LIMIT] {
        for d in [i32::MIN, -5, 0, 5, i32::MAX] {
            let mut p = players()[0];
            p.pitch = pitch;
            look(&mut p, 0, d);
            assert_eq!(
                p.pitch,
                pitch.saturating_sub(d).clamp(-0x40000000, 0x40000000)
            );
        }
    }
    let mut p = players()[0];
    look(&mut p, 0, i32::MIN);
    assert_eq!(p.pitch, 0x40000000);
    look(&mut p, 0, i32::MAX);
    assert_eq!(p.pitch, -0x3fffffff);
    look(&mut p, 0, i32::MAX);
    assert_eq!(p.pitch, -0x40000000);
}

#[test]
fn steering_by_keys() {
    let s = |right: i32, back: i32, norm: i32| Steering { right, back, norm };
    assert_eq!(steer(0), s(0, 0, 0));
    assert_eq!(steer(1), s(0, -1, 1));
    assert_eq!(steer(2), s(-1, 0, 1));
    assert_eq!(steer(4), s(0, 1, 1));
    assert_eq!(steer(8), s(1, 0, 1));
    assert_eq!(steer(9), s(1, -1, 2));
    assert_eq!(steer(2 + 8), s(0, 0, 0));
    assert_eq!(steer(1 + 4 + 8), s(1, 0, 1));
    assert_eq!(steer(16), s(0, 0, 0));
    assert_eq!(steer(31), s(0, 0, 0));
}

#[test]
fn walls_of_a_spawned_player() {
    let p = players()[0];
    let b = bounds(&p);
    assert_eq!(b.low, [-4992, -4736, -4992]);
    assert_eq!(b.high, [4992, 4992, 4992]);
    assert_eq!(b.high[0] as f64 / 256.0, 20.0 - 0.5);
    assert_eq!(b.low[1] as f64 / 256.0, 1.5 - 20.0);
}

#[test]
fn players_spawn_standing_on_the_floor() {
    for p in players() {
        let b = bounds(&p);
        assert_eq!(p.place[1] as i64, b.low[1]);
        for a in [0, 2] {
            assert!(b.low[a] < p.place[a] as i64 && (p.place[a] as i64) < b.high[a]);
        }
    }
}

#[test]
fn shot_players_come_back_inside_the_walls() {
    let hit = Aim {
        behind: false,
        in_reach: true,
    };
    let mut state = RANDOM_SEED;
    let mut p = players();
    for _ in 0..200 {
        shoot(0, &mut p, 4, &[[hit; 2]; 4], &mut state);
        for q in p.iter().skip(1) {
            let b = bounds(q);
            for a in 0..3 {
                assert!(b.low[a] < q.place[a] as i64 && (q.place[a] as i64) < b.high[a]);
            }
        }
    }
}

#[test]
fn inside_motion_is_left_alone() {
    for wasd in 0..32 {
        let s = settle(wasd, [Side::Within; 3]);
        assert_eq!(s.rest, [Rest::Free; 3]);
        assert_eq!(s.speed, [Speed::Kept; 3]);
    }
}

#[test]
fn walls_stop_and_the_floor_lets_jump() {
    let s = settle(0, [Side::Below, Side::Below, Side::Above]);
    assert_eq!(s.rest, [Rest::AtLow, Rest::AtLow, Rest::AtHigh]);
    assert_eq!(s.speed, [Speed::Stopped; 3]);
    let s = settle(16, [Side::Above, Side::Below, Side::Within]);
    assert_eq!(s.rest, [Rest::AtHigh, Rest::AtLow, Rest::Free]);
    assert_eq!(s.speed, [Speed::Stopped, Speed::Jump, Speed::Kept]);
    let s = settle(16, [Side::Within, Side::Above, Side::Below]);
    assert_eq!(s.speed, [Speed::Kept, Speed::Jump, Speed::Stopped]);
}

#[test]
fn update_settles_those_taking_part() {
    let mut p = players();
    p[1].wasd = 16;
    let floor = [Side::Within, Side::Below, Side::Within];
    let r = update(&p, 2, &[floor, floor]);
    assert_eq!(r.len(), 2);
    assert_eq!(r[0].speed[1], Speed::Stopped);
    assert_eq!(r[1].speed[1], Speed::Jump);
    assert_eq!(update(&p, 9, &[floor; 4]).len(), 4);
    assert_eq!(update(&p, 0, &[]).len(), 0);
}

const SIDES: [Side; 3] = [Side::Below, Side::Within, Side::Above];

#[test]
fn opposed_pairs_and_unknown_bits_do_not_matter() {
    for wasd in 0..=255u8 {
        let mut same = vec![wasd ^ 32, wasd ^ 64, wasd ^ 128, wasd & 31];
        for pair in [1 | 4, 2 | 8] {
            if wasd & pair == pair {
                same.push(wasd & !pair);
            }
        }
        for other in same {
            assert_eq!(steer(wasd), steer(other));
            for x in SIDES {
                for y in SIDES {
                    let (a, b) = (settle(wasd, [x, y, x]), settle(other, [x, y, x]));
                    assert_eq!(a.rest, b.rest);
                    assert_eq!(a.speed, b.speed);
                }
            }
        }
    }
    assert_eq!(settle(16 | 32, [Side::Within, Side::Below, Side::Within]).speed[1], Speed::Jump);
    assert_eq!(settle(224, [Side::Within, Side::Below, Side::Within]).speed[1], Speed::Stopped);
}
