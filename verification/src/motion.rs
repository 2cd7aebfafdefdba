//! Motion rules: looking around, steering, and what the walls of the map do to a player.
//!
//! Positions and velocities are integrated outside; this module says in which direction held keys
//! push, where the walls stand, and what is left of a player's motion once it meets them.

use crate::game::{
    active, is_moved, is_spawned, random_coord, spawn_coord, spawn_distance, spawn_height,
    spawn_radius, Player, DRAG_RATE, GRAVITY, JUMP_SPEED, KEY_BACK, KEY_FORWARD, KEY_JUMP, KEY_LEFT,
    KEY_RIGHT, LOOK_SENSITIVITY, MOVE_ACCELERATION, PITCH_LIMIT, PLACE_UNITS,
};
use crate::map::MAP_BOX_SCALE;
use vstd::prelude::*;

verus! {

/// Number of binary angle units in a full turn.
pub open spec fn full_turn() -> int {
    0x1_0000_0000
}

/// Yaw after turning by `delta`.
pub open spec fn turned(yaw: int, delta: int) -> int {
    (yaw + delta) % full_turn()
}

/// Pitch after tilting down by `delta`: never past straight up or straight down.
pub open spec fn tilted(pitch: int, delta: int) -> int {
    if pitch - delta < -PITCH_LIMIT {
        -PITCH_LIMIT as int
    } else if pitch - delta > PITCH_LIMIT {
        PITCH_LIMIT as int
    } else {
        pitch - delta
    }
}

/// Turns the player's view by `yaw_delta` and tilts it down by `pitch_delta`.
pub fn look(player: &mut Player, yaw_delta: i32, pitch_delta: i32)
    ensures
        *final(player) == (Player {
            yaw: turned(old(player).yaw as int, yaw_delta as int) as u32,
            pitch: tilted(old(player).pitch as int, pitch_delta as int) as i32,
            ..*old(player)
        }),
{
    let yaw: u32 = player.yaw;
    assert(yaw_delta as u32 == (yaw_delta + 0x1_0000_0000) % 0x1_0000_0000) by (bit_vector);
    player.yaw = yaw.wrapping_add(yaw_delta as u32);
    let pitch: i64 = player.pitch as i64 - pitch_delta as i64;
    player.pitch =
    if pitch < -PITCH_LIMIT as i64 {
        -PITCH_LIMIT
    } else if pitch > PITCH_LIMIT as i64 {
        PITCH_LIMIT
    } else {
        pitch as i32
    };
}

/// Whether the key of bit `key` is held down in `wasd`.
pub open spec fn held(wasd: u8, key: u8) -> bool {
    wasd & key != 0
}

/// Net effect of two opposed keys.
pub open spec fn balance(plus: bool, minus: bool) -> int {
    (if plus {
        1int
    } else {
        0
    }) - (if minus {
        1int
    } else {
        0
    })
}

/// The direction that held keys push a player in, seen from the player.
#[derive(Clone, Copy, Debug, PartialEq, Eq, Structural)]
pub struct Steering {
    /// Push to the right: -1, 0 or 1.
    pub right: i32,
    /// Push backwards: -1, 0 or 1.
    pub back: i32,
    /// Squared length of the push.
    pub norm: i32,
}

/// Whether `r` is the direction that the keys held in `wasd` push in.
pub open spec fn is_steering(r: Steering, wasd: u8) -> bool {
    &&& r.right == balance(held(wasd, KEY_RIGHT), held(wasd, KEY_LEFT))
    &&& r.back == balance(held(wasd, KEY_BACK), held(wasd, KEY_FORWARD))
    &&& r.norm == r.right * r.right + r.back * r.back
}

/// The direction that the keys held in `wasd` push in.
pub fn steer(wasd: u8) -> (r: Steering)
    ensures
        is_steering(r, wasd),
{
    let plus_x: i32 = if wasd & KEY_RIGHT != 0 {
        1
    } else {
        0
    };
    let minus_x: i32 = if wasd & KEY_LEFT != 0 {
        1
    } else {
        0
    };
    let plus_z: i32 = if wasd & KEY_BACK != 0 {
        1
    } else {
        0
    };
    let minus_z: i32 = if wasd & KEY_FORWARD != 0 {
        1
    } else {
        0
    };
    let right: i32 = plus_x - minus_x;
    let back: i32 = plus_z - minus_z;
    assert(0 <= right * right <= 1 && 0 <= back * back <= 1) by (nonlinear_arith)
        requires
            -1 <= right <= 1,
            -1 <= back <= 1,
    ;
    Steering { right, back, norm: right * right + back * back }
}

/// The walls as one player meets them, in place units.
#[derive(Clone, Copy, Debug)]
pub struct Bounds {
    pub low: [i64; 3],
    pub high: [i64; 3],
}

/// Lowest coordinate that a player may have on `axis`: its spheres touch the wall, or it stands
/// on the floor.
pub open spec fn low_bound(p: Player, axis: int) -> int {
    if axis == 1 {
        p.height - MAP_BOX_SCALE * PLACE_UNITS
    } else {
        p.radius - MAP_BOX_SCALE * PLACE_UNITS
    }
}

/// Highest coordinate that a player may have on any axis.
pub open spec fn high_bound(p: Player) -> int {
    MAP_BOX_SCALE * PLACE_UNITS - p.radius
}

/// The walls as `player` meets them.
pub fn bounds(player: &Player) -> (r: Bounds)
    ensures
        forall|a: int| 0 <= a < 3 ==> #[trigger] r.low[a] == low_bound(*player, a),
        forall|a: int| 0 <= a < 3 ==> #[trigger] r.high[a] == high_bound(*player),
{
    let scale: i64 = (MAP_BOX_SCALE * PLACE_UNITS) as i64;
    let side: i64 = scale - player.radius as i64;
    let floor: i64 = player.height as i64 - scale;
    Bounds { low: [-side, floor, -side], high: [side, side, side] }
}

/// Where a coordinate lies with respect to the bounds of its axis. One that is not a number
/// counts as below.
#[derive(Clone, Copy, Debug, PartialEq, Eq, Structural)]
pub enum Side {
    Below,
    Within,
    Above,
}

/// What becomes of a coordinate.
#[derive(Clone, Copy, Debug, PartialEq, Eq, Structural)]
pub enum Rest {
    /// It stays as it is.
    Free,
    /// It becomes the low bound.
    AtLow,
    /// It becomes the high bound.
    AtHigh,
}

/// What becomes of a component of the velocity.
#[derive(Clone, Copy, Debug, PartialEq, Eq, Structural)]
pub enum Speed {
    /// It stays as it is.
    Kept,
    /// It becomes zero.
    Stopped,
    /// It becomes the jump speed.
    Jump,
}

/// What the walls make of one player's motion.
#[derive(Clone, Copy, Debug)]
pub struct Settled {
    pub rest: [Rest; 3],
    pub speed: [Speed; 3],
}

/// What becomes of a coordinate that lies on `side`.
pub open spec fn rest_of(side: Side) -> Rest {
    match side {
        Side::Below => Rest::AtLow,
        Side::Within => Rest::Free,
        Side::Above => Rest::AtHigh,
    }
}

/// What becomes of the velocity on an axis whose coordinate lies on `side`. Whoever meets a wall
/// stops there; whoever meets the floor or the ceiling with the jump key held jumps.
pub open spec fn speed_of(side: Side, axis: int, wasd: u8) -> Speed {
    if side == Side::Within {
        Speed::Kept
    } else if axis == 1 && held(wasd, KEY_JUMP) {
        Speed::Jump
    } else {
        Speed::Stopped
    }
}

/// Whether `s` is what the walls make of a motion that ends on `sides` with `wasd` held.
pub open spec fn is_settled(s: Settled, sides: [Side; 3], wasd: u8) -> bool {
    forall|a: int|
        0 <= a < 3 ==> #[trigger] s.rest[a] == rest_of(sides[a]) && s.speed[a] == speed_of(
            sides[a],
            a,
            wasd,
        )
}

fn rest(side: Side) -> (r: Rest)
    ensures
        r == rest_of(side),
{
    match side {
        Side::Below => Rest::AtLow,
        Side::Within => Rest::Free,
        Side::Above => Rest::AtHigh,
    }
}

/// Keeps one player within the map.
pub fn settle(wasd: u8, sides: [Side; 3]) -> (s: Settled)
    ensures
        is_settled(s, sides, wasd),
{
    let stop: Speed = Speed::Stopped;
    let bounce: Speed = if wasd & KEY_JUMP != 0 {
        Speed::Jump
    } else {
        Speed::Stopped
    };
    let x: Speed = if sides[0] != Side::Within {
        stop
    } else {
        Speed::Kept
    };
    let y: Speed = if sides[1] != Side::Within {
        bounce
    } else {
        Speed::Kept
    };
    let z: Speed = if sides[2] != Side::Within {
        stop
    } else {
        Speed::Kept
    };
    Settled { rest: [rest(sides[0]), rest(sides[1]), rest(sides[2])], speed: [x, y, z] }
}

/// Ends a time step: says for each of the players that take part what the walls make of the
/// motion that ended on the given sides of its bounds.
pub fn update(players: &[Player], players_len: usize, sides: &[[Side; 3]]) -> (r: Vec<Settled>)
    requires
        sides@.len() >= active(players@.len(), players_len),
    ensures
        r@.len() == active(players@.len(), players_len),
        forall|i: int|
            0 <= i < r@.len() ==> is_settled(#[trigger] r@[i], sides@[i], players@[i].wasd),
{
    let mut r: Vec<Settled> = Vec::new();
    let mut i: usize = 0;
    while i < players.len() && i < players_len
        invariant
            r@.len() == i,
            i <= active(players@.len(), players_len) <= sides@.len(),
            forall|n: int|
                0 <= n < i ==> is_settled(#[trigger] r@[n], sides@[n], players@[n].wasd),
        decreases players@.len() - i,
    {
        r.push(settle(players[i].wasd, sides[i]));
        i += 1;
    }
    r
}

/// Turns add up: two turns in a row are one turn by their sum.
pub proof fn law_turns_add_up(yaw: int, a: int, b: int)
    ensures
        turned(turned(yaw, a), b) == turned(yaw, a + b),
{
}

/// A turn is undone by the opposite turn.
pub proof fn law_turn_back(yaw: u32, delta: int)
    ensures
        turned(turned(yaw as int, delta), -delta) == yaw,
{
    law_turns_add_up(yaw as int, delta, -delta);
}

/// However far the mouse moves, nobody looks past straight up or straight down.
pub proof fn law_pitch_stays_in_limits(pitch: int, delta: int)
    ensures
        -PITCH_LIMIT <= tilted(pitch, delta) <= PITCH_LIMIT,
{
}

/// A tilt that does not reach a limit is undone by the opposite tilt.
pub proof fn law_tilt_back(pitch: int, delta: int)
    requires
        -PITCH_LIMIT <= pitch <= PITCH_LIMIT,
        -PITCH_LIMIT <= pitch - delta <= PITCH_LIMIT,
    ensures
        tilted(tilted(pitch, delta), -delta) == pitch,
{
}

/// Opposed keys cancel each other: a player who holds both of a pair is not pushed along it.
pub proof fn law_opposed_keys_cancel(plus: bool, minus: bool)
    ensures
        balance(plus, minus) == -balance(minus, plus),
        balance(plus, minus) == 0 <==> plus == minus,
{
}

/// Holding both of a pair of opposed keys moves a player exactly as holding neither does, whatever
/// else is held.
pub proof fn law_opposed_pair_counts_as_released(
    wasd: u8,
    pair: u8,
    r: Steering,
    s: Settled,
    sides: [Side; 3],
)
    requires
        pair == KEY_FORWARD | KEY_BACK || pair == KEY_LEFT | KEY_RIGHT,
    ensures
        is_steering(r, wasd | pair) == is_steering(r, wasd & !pair),
        is_settled(s, sides, wasd | pair) == is_settled(s, sides, wasd & !pair),
{
    let (both, neither) = (wasd | pair, wasd & !pair);
    assert(1u8 | 4 == 5u8 && 2u8 | 8 == 10u8) by (bit_vector);
    assert((both & 16 != 0) == (neither & 16 != 0)) by (bit_vector)
        requires
            both == wasd | pair,
            neither == wasd & !pair,
            pair == 5 || pair == 10,
    ;
    if pair == 5 {
        assert(both & 1 != 0 && both & 4 != 0 && neither & 1 == 0 && neither & 4 == 0 && both & 2
            == neither & 2 && both & 8 == neither & 8) by (bit_vector)
            requires
                both == wasd | 5,
                neither == wasd & !5u8,
        ;
    } else {
        assert(both & 2 != 0 && both & 8 != 0 && neither & 2 == 0 && neither & 8 == 0 && both & 1
            == neither & 1 && both & 4 == neither & 4) by (bit_vector)
            requires
                both == wasd | 10,
                neither == wasd & !10u8,
        ;
    }
    lemma_jump_decides(s, sides, both, neither);
}

/// Bits that belong to no key move nobody: only the five lowest bits of `wasd` count.
pub proof fn law_unknown_bits_are_ignored(
    wasd: u8,
    other: u8,
    r: Steering,
    s: Settled,
    sides: [Side; 3],
)
    requires
        wasd % 32 == other % 32,
    ensures
        is_steering(r, wasd) == is_steering(r, other),
        is_settled(s, sides, wasd) == is_settled(s, sides, other),
{
    assert(wasd & 1 == other & 1 && wasd & 2 == other & 2 && wasd & 4 == other & 4 && wasd & 8
        == other & 8 && wasd & 16 == other & 16) by (bit_vector)
        requires
            wasd % 32 == other % 32,
    ;
    lemma_jump_decides(s, sides, wasd, other);
}

/// Of the held keys the walls only ask for the jump key.
proof fn lemma_jump_decides(s: Settled, sides: [Side; 3], wasd: u8, other: u8)
    requires
        held(wasd, KEY_JUMP) == held(other, KEY_JUMP),
    ensures
        is_settled(s, sides, wasd) == is_settled(s, sides, other),
{
    assert(forall|side: Side, a: int| speed_of(side, a, wasd) == speed_of(side, a, other));
}

/// Acceleration grows with the size of the map: 60 for each 16 units of scale.
pub proof fn law_acceleration_scales()
    ensures
        16 * MOVE_ACCELERATION == 60 * MAP_BOX_SCALE,
{
}

/// Everybody enters the map on their feet: exactly as high as the floor stops them, and away from
/// every wall.
pub proof fn law_spawn_on_the_floor(p: Player, i: int)
    requires
        is_spawned(p, i),
    ensures
        p.place[1] == low_bound(p, 1),
        p.place[1] < high_bound(p),
        low_bound(p, 0) < p.place[0] < high_bound(p),
        low_bound(p, 2) < p.place[2] < high_bound(p),
{
}

/// Everybody enters half way between the center and a wall, along x and along z.
pub proof fn law_spawn_half_way(i: int)
    ensures
        spawn_coord(i, 0) == spawn_distance() || spawn_coord(i, 0) == -spawn_distance(),
        spawn_coord(i, 2) == spawn_distance() || spawn_coord(i, 2) == -spawn_distance(),
        2 * spawn_distance() == MAP_BOX_SCALE * PLACE_UNITS,
{
}

/// Whoever is shot comes back inside the walls, above the floor and below the ceiling.
pub proof fn law_moved_within_bounds(p: Player, q: Player, state: u64)
    requires
        is_moved(p, q, state),
        p.radius == spawn_radius(),
        p.height == spawn_height(),
    ensures
        forall|a: int| 0 <= a < 3 ==> low_bound(q, a) < #[trigger] q.place[a] < high_bound(q),
{
    assert forall|b: u8| -2560 <= #[trigger] random_coord(b) <= 2540 by {}
    assert forall|a: int| 0 <= a < 3 implies low_bound(q, a) < #[trigger] q.place[a]
        < high_bound(q) by {
        assert(a == 0 || a == 1 || a == 2);
    }
}

/// A motion that ends within the walls is left alone.
pub proof fn law_inside_is_untouched(s: Settled, sides: [Side; 3], wasd: u8)
    requires
        is_settled(s, sides, wasd),
        forall|a: int| 0 <= a < 3 ==> #[trigger] sides[a] == Side::Within,
    ensures
        forall|a: int| 0 <= a < 3 ==> #[trigger] s.rest[a] == Rest::Free,
        forall|a: int| 0 <= a < 3 ==> #[trigger] s.speed[a] == Speed::Kept,
{
    assert forall|a: int| 0 <= a < 3 implies #[trigger] s.speed[a] == Speed::Kept by {
        assert(s.rest[a] == rest_of(sides[a]));
    }
}

/// `c` brought up to the low bound and then down to the high bound of an axis.
pub open spec fn confined(p: Player, axis: int, c: int) -> int {
    let raised = if c < low_bound(p, axis) {
        low_bound(p, axis)
    } else {
        c
    };
    if raised > high_bound(p) {
        high_bound(p)
    } else {
        raised
    }
}

/// The side of the bounds of an axis that a coordinate of `c` place units lies on.
pub open spec fn side_of(p: Player, axis: int, c: int) -> Side {
    if confined(p, axis, c) == c {
        Side::Within
    } else if confined(p, axis, c) == high_bound(p) {
        Side::Above
    } else {
        Side::Below
    }
}

/// The coordinate that `rest` makes of a coordinate of `c` place units.
pub open spec fn placed(p: Player, axis: int, c: int, rest: Rest) -> int {
    match rest {
        Rest::Free => c,
        Rest::AtLow => low_bound(p, axis),
        Rest::AtHigh => high_bound(p),
    }
}

/// A coordinate that has been settled is the confined one.
pub proof fn law_settled_coordinate_is_confined(p: Player, axis: int, c: int)
    ensures
        placed(p, axis, c, rest_of(side_of(p, axis, c))) == confined(p, axis, c),
{
}

/// Everybody stays within the map: wherever the motion of a player ended, each settled coordinate
/// lies between the walls that the player meets, and one that was there already is unchanged. The
/// player has to fit into the map.
pub proof fn law_settled_player_is_within_the_map(
    p: Player,
    pos: Seq<int>,
    sides: [Side; 3],
    s: Settled,
    axis: int,
)
    requires
        pos.len() == 3,
        0 <= axis < 3,
        p.radius <= MAP_BOX_SCALE * PLACE_UNITS,
        p.height + p.radius <= 2 * MAP_BOX_SCALE * PLACE_UNITS,
        forall|a: int| 0 <= a < 3 ==> #[trigger] sides[a] == side_of(p, a, pos[a]),
        is_settled(s, sides, p.wasd),
    ensures
        low_bound(p, axis) <= placed(p, axis, pos[axis], s.rest[axis]) <= high_bound(p),
        low_bound(p, axis) <= pos[axis] <= high_bound(p) ==> placed(
            p,
            axis,
            pos[axis],
            s.rest[axis],
        ) == pos[axis] && s.speed[axis] == Speed::Kept,
{
    assert(s.rest[axis] == rest_of(sides[axis]));
}

/// Settling is final: a settled coordinate lies within the bounds and is not moved again. The
/// player has to fit into the map.
pub proof fn law_settling_is_final(p: Player, axis: int, c: int)
    requires
        p.radius <= MAP_BOX_SCALE * PLACE_UNITS,
        p.height + p.radius <= 2 * MAP_BOX_SCALE * PLACE_UNITS,
    ensures
        side_of(p, axis, confined(p, axis, c)) == Side::Within,
{
}

/// Nobody starts in mid-air: a player who has just entered and is pulled down by any distance is
/// put back exactly where it entered, with its fall stopped and the rest of its velocity kept.
pub proof fn law_spawned_player_keeps_standing(
    p: Player,
    i: int,
    fall: int,
    sides: [Side; 3],
    s: Settled,
)
    requires
        is_spawned(p, i),
        fall > 0,
        sides[0] == side_of(p, 0, p.place[0] as int),
        sides[1] == side_of(p, 1, p.place[1] - fall),
        sides[2] == side_of(p, 2, p.place[2] as int),
        is_settled(s, sides, p.wasd),
    ensures
        placed(p, 0, p.place[0] as int, s.rest[0]) == p.place[0],
        placed(p, 1, p.place[1] - fall, s.rest[1]) == p.place[1],
        placed(p, 2, p.place[2] as int, s.rest[2]) == p.place[2],
        s.speed[0] == Speed::Kept,
        s.speed[1] == Speed::Stopped,
        s.speed[2] == Speed::Kept,
{
    law_spawn_on_the_floor(p, i);
    assert(s.rest[0] == rest_of(sides[0]) && s.rest[1] == rest_of(sides[1]) && s.rest[2] == rest_of(
        sides[2],
    ));
    assert(0u8 & KEY_JUMP == 0) by (bit_vector);
}

/// No coordinate outside the bounds survives, and none comes to rest with its speed unchanged.
pub proof fn law_outside_comes_to_rest(s: Settled, sides: [Side; 3], wasd: u8, axis: int)
    requires
        is_settled(s, sides, wasd),
        0 <= axis < 3,
        sides[axis] != Side::Within,
    ensures
        s.rest[axis] != Rest::Free,
        s.speed[axis] != Speed::Kept,
{
    assert(s.rest[axis] == rest_of(sides[axis]));
}

/// The bits of `wasd`, from the lowest up, say which keys are held.
proof fn lemma_held_bits(wasd: u8)
    ensures
        held(wasd, KEY_FORWARD) <==> wasd % 2 == 1,
        held(wasd, KEY_LEFT) <==> (wasd / 2) % 2 == 1,
        held(wasd, KEY_BACK) <==> (wasd / 4) % 2 == 1,
        held(wasd, KEY_RIGHT) <==> (wasd / 8) % 2 == 1,
        held(wasd, KEY_JUMP) <==> (wasd / 16) % 2 == 1,
{
    assert((wasd & 1 != 0) == (wasd % 2 == 1) && (wasd & 2 != 0) == ((wasd / 2) % 2 == 1) && (wasd
        & 4 != 0) == ((wasd / 4) % 2 == 1) && (wasd & 8 != 0) == ((wasd / 8) % 2 == 1) && (wasd & 16
        != 0) == ((wasd / 16) % 2 == 1)) by (bit_vector);
}

/// Looking around turns the view by exactly `yaw_delta`, full turns left out of account, and tilts
/// it down by exactly `pitch_delta` as far as straight up and straight down, a quarter turn from
/// level, allow. Nothing else about the player changes.
pub proof fn law_look_follows_the_mouse(player: &mut Player, yaw_delta: i32, pitch_delta: i32)
    requires
        call_ensures(look, (player, yaw_delta, pitch_delta), ()),
    ensures
        (final(player).yaw - (old(player).yaw + yaw_delta)) % 0x1_0000_0000 == 0,
        -0x4000_0000 <= old(player).pitch - pitch_delta <= 0x4000_0000 ==> final(player).pitch
            == old(player).pitch - pitch_delta,
        old(player).pitch - pitch_delta < -0x4000_0000 ==> final(player).pitch == -0x4000_0000,
        old(player).pitch - pitch_delta > 0x4000_0000 ==> final(player).pitch == 0x4000_0000,
        final(player).mouse == old(player).mouse,
        final(player).keyboard == old(player).keyboard,
        final(player).place == old(player).place,
        final(player).vel == old(player).vel,
        final(player).radius == old(player).radius,
        final(player).height == old(player).height,
        final(player).color == old(player).color,
        final(player).wasd == old(player).wasd,
{
}

/// Tilts add up like turns: a player who tilts twice, with no limit reached in between, looks where
/// one tilt by the sum would have led.
pub proof fn law_looks_add_up(
    first: &mut Player,
    second: &mut Player,
    both: &mut Player,
    yaw: (i32, i32, i32),
    pitch: (i32, i32, i32),
)
    requires
        *old(second) == *final(first),
        *old(both) == *old(first),
        yaw.2 == yaw.0 + yaw.1,
        pitch.2 == pitch.0 + pitch.1,
        -0x4000_0000 <= old(first).pitch - pitch.0 <= 0x4000_0000,
        call_ensures(look, (first, yaw.0, pitch.0), ()),
        call_ensures(look, (second, yaw.1, pitch.1), ()),
        call_ensures(look, (both, yaw.2, pitch.2), ()),
    ensures
        *final(second) == *final(both),
{
    law_turns_add_up(old(first).yaw as int, yaw.0 as int, yaw.1 as int);
}

/// Held keys push along the axis of their pair, one step each way: right against left, back against
/// forward. The push is 0, 1 or 2 when squared: as many as there are axes that it acts along.
pub proof fn law_keys_push_their_way(wasd: u8, r: Steering)
    requires
        call_ensures(steer, (wasd,), r),
    ensures
        r.right == (wasd / 8) % 2 - (wasd / 2) % 2,
        r.back == (wasd / 4) % 2 - wasd % 2,
        r.norm == (if r.right == 0 && r.back == 0 {
            0int
        } else if r.right == 0 || r.back == 0 {
            1
        } else {
            2
        }),
{
    lemma_held_bits(wasd);
    assert(r.right * r.right == (if r.right == 0 {
        0int
    } else {
        1
    }) && r.back * r.back == (if r.back == 0 {
        0int
    } else {
        1
    })) by (nonlinear_arith)
        requires
            -1 <= r.right <= 1,
            -1 <= r.back <= 1,
    ;
}

/// The walls stand where the map ends: a player at a bound of x or z, or at the high bound of y,
/// touches wall or ceiling with its spheres, and one at the low bound of y stands on the floor.
pub proof fn law_bounds_touch_the_walls(player: &Player, r: Bounds)
    requires
        call_ensures(bounds, (player,), r),
    ensures
        r.low[0] - player.radius == -20 * 256,
        r.low[1] - player.height == -20 * 256,
        r.low[2] - player.radius == -20 * 256,
        r.high[0] + player.radius == 20 * 256,
        r.high[1] + player.radius == 20 * 256,
        r.high[2] + player.radius == 20 * 256,
{
    assert(r.low[0] == low_bound(*player, 0) && r.low[1] == low_bound(*player, 1) && r.low[2]
        == low_bound(*player, 2));
    assert(r.high[0] == high_bound(*player) && r.high[1] == high_bound(*player) && r.high[2]
        == high_bound(*player));
}

/// What [`is_settled`] comes to on one axis.
pub proof fn lemma_settled_axis(s: Settled, sides: [Side; 3], wasd: u8, axis: int)
    requires
        is_settled(s, sides, wasd),
        0 <= axis < 3,
    ensures
        s.rest[axis] == Rest::AtLow <==> sides[axis] == Side::Below,
        s.rest[axis] == Rest::Free <==> sides[axis] == Side::Within,
        s.rest[axis] == Rest::AtHigh <==> sides[axis] == Side::Above,
        s.speed[axis] == Speed::Kept <==> sides[axis] == Side::Within,
        s.speed[axis] == Speed::Jump <==> axis == 1 && sides[1] != Side::Within && (wasd / 16) % 2
            == 1,
{
    lemma_held_bits(wasd);
    assert(s.rest[axis] == rest_of(sides[axis]));
}

/// Walls stop a player and do nothing else. On every axis a coordinate outside its bounds is put on
/// the bound that it passed, and one within them is left alone together with its speed. On x and z
/// whoever meets a wall stops. Floor and ceiling stop a player too, unless the jump key is held:
/// then, and only then, the player jumps.
pub proof fn law_walls_stop_and_floors_launch(wasd: u8, sides: [Side; 3], s: Settled, axis: int)
    requires
        call_ensures(settle, (wasd, sides), s),
        0 <= axis < 3,
    ensures
        s.rest[axis] == Rest::AtLow <==> sides[axis] == Side::Below,
        s.rest[axis] == Rest::Free <==> sides[axis] == Side::Within,
        s.rest[axis] == Rest::AtHigh <==> sides[axis] == Side::Above,
        s.speed[axis] == Speed::Kept <==> sides[axis] == Side::Within,
        s.speed[axis] == Speed::Jump <==> axis == 1 && sides[1] != Side::Within && (wasd / 16) % 2
            == 1,
        axis != 1 && sides[axis] != Side::Within ==> s.speed[axis] == Speed::Stopped,
{
    lemma_settled_axis(s, sides, wasd, axis);
}

/// A time step settles every player who takes part, each by its own keys and the sides that its own
/// motion ended on.
pub proof fn law_update_settles_everybody(
    players: &[Player],
    players_len: usize,
    sides: &[[Side; 3]],
    r: Vec<Settled>,
    i: int,
    axis: int,
)
    requires
        call_ensures(update, (players, players_len, sides), r),
        0 <= i < players@.len(),
        i < players_len,
        0 <= axis < 3,
    ensures
        r@.len() <= players@.len(),
        r@.len() <= players_len,
        i < r@.len(),
        r@[i].rest[axis] == Rest::AtLow <==> sides@[i][axis] == Side::Below,
        r@[i].rest[axis] == Rest::Free <==> sides@[i][axis] == Side::Within,
        r@[i].rest[axis] == Rest::AtHigh <==> sides@[i][axis] == Side::Above,
        r@[i].speed[axis] == Speed::Kept <==> sides@[i][axis] == Side::Within,
        r@[i].speed[axis] == Speed::Jump <==> axis == 1 && sides@[i][1] != Side::Within && (
        players@[i].wasd / 16) % 2 == 1,
{
    lemma_settled_axis(r@[i], sides@[i], players@[i].wasd, axis);
}

/// A coordinate lies below, within or above its bounds as it compares with them, and settling moves
/// it no further than to the nearest place within them. The player has to fit into the map with
/// room to move.
pub proof fn law_sides_are_told_by_the_bounds(p: Player, axis: int, c: int, place: int, r: Bounds)
    requires
        call_ensures(bounds, (&p,), r),
        0 <= axis < 3,
        p.radius < 20 * 256,
        p.height + p.radius < 2 * 20 * 256,
        r.low[axis] <= place <= r.high[axis],
    ensures
        side_of(p, axis, c) == Side::Below <==> c < r.low[axis],
        side_of(p, axis, c) == Side::Above <==> c > r.high[axis],
        r.low[axis] <= confined(p, axis, c) <= r.high[axis],
        c <= place ==> c <= confined(p, axis, c) <= place,
        c >= place ==> c >= confined(p, axis, c) >= place,
{
    assert(r.low[axis] == low_bound(p, axis) && r.high[axis] == high_bound(p));
}

/// The pace of the game. 8192 pixels of mouse motion are a full turn. A jump starts at 135
/// sixteenths of a map unit per second, against a gravity of 25 map units per second squared. Drag
/// takes away six times the speed per second, and so a steering player gets no faster than a sixth
/// of its acceleration, which is 75 map units per second squared.
pub proof fn law_pace_of_the_game()
    ensures
        8192 * LOOK_SENSITIVITY == 0x1_0000_0000,
        16 * JUMP_SPEED == 135 * PLACE_UNITS,
        PLACE_UNITS == 256,
        GRAVITY == 25,
        DRAG_RATE == 6,
        MOVE_ACCELERATION == 75,
{
}

} // verus!
