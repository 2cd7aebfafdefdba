//! Game simulation: players, steering, walls, shooting, and device-to-player assignment.
//!
//! Distances that the rules fix (where players enter the map, how large they are, where the walls
//! stop them) are whole numbers of place units, of which [`PLACE_UNITS`] make one map unit.

use crate::map::MAP_BOX_SCALE;
use crate::random::{next_random_byte, next_state, state_byte};
use vstd::prelude::*;

verus! {

/// Maximum number of players.
pub const MAX_PLAYER_COUNT: usize = 4;

/// Binary angle units of rotation per pixel of mouse motion.
pub const LOOK_SENSITIVITY: u32 = 524_288;

/// Place units per map unit.
pub const PLACE_UNITS: i32 = 256;

/// The steepest pitch, up or down: a quarter turn in binary angle units.
pub const PITCH_LIMIT: i32 = 0x4000_0000;

/// Rate at which drag slows players down, per second.
pub const DRAG_RATE: i32 = 6;

/// Downward acceleration, in map units per second squared.
pub const GRAVITY: i32 = 25;

/// Acceleration of a steering player, in map units per second squared. It grows with the map: 60
/// for each 16 units of scale.
pub const MOVE_ACCELERATION: i32 = 75;

/// Upward speed of a jump, in place units per second.
pub const JUMP_SPEED: i32 = 2160;

/// Bit of [`Player::wasd`] for the key that steers forward.
pub const KEY_FORWARD: u8 = 1;

/// Bit of [`Player::wasd`] for the key that steers left.
pub const KEY_LEFT: u8 = 2;

/// Bit of [`Player::wasd`] for the key that steers back.
pub const KEY_BACK: u8 = 4;

/// Bit of [`Player::wasd`] for the key that steers right.
pub const KEY_RIGHT: u8 = 8;

/// Bit of [`Player::wasd`] for the jump key.
pub const KEY_JUMP: u8 = 16;

/// Identity of an input device.
#[derive(Clone, Copy, Debug, PartialEq, Eq, Structural)]
pub struct DeviceNumber {
    pub id: u64,
}

/// A player, apart from the current position and velocity, which motion integrates.
#[derive(Clone, Copy, Debug)]
pub struct Player {
    /// The mouse that steers the player's view.
    pub mouse: Option<DeviceNumber>,
    /// The keyboard that moves the player.
    pub keyboard: Option<DeviceNumber>,
    /// Where the game last put the player (x, y, z), in place units.
    pub place: [i32; 3],
    /// Velocity that the player entered the map with (x, y, z), in place units per second.
    pub vel: [i32; 3],
    /// Horizontal rotation: a full turn is 2 to the 32.
    pub yaw: u32,
    /// Vertical rotation, in the same unit.
    pub pitch: i32,
    /// Radius of the player's spheres, in place units.
    pub radius: i32,
    /// Height of the player's eyes above the floor, in place units.
    pub height: i32,
    /// RGB color.
    pub color: [u8; 3],
    /// Bitmask of the keys held down.
    pub wasd: u8,
}

/// The mouse of each player.
pub open spec fn mice(players: Seq<Player>) -> Seq<Option<DeviceNumber>> {
    players.map_values(|p: Player| p.mouse)
}

/// The keyboard of each player.
pub open spec fn keyboards(players: Seq<Player>) -> Seq<Option<DeviceNumber>> {
    players.map_values(|p: Player| p.keyboard)
}

/// The first slot at or after `from` that holds exactly `want`.
pub open spec fn first_slot_from(
    slots: Seq<Option<DeviceNumber>>,
    want: Option<DeviceNumber>,
    from: int,
) -> Option<usize>
    decreases slots.len() - from,
{
    if from >= slots.len() {
        None
    } else if slots[from] == want {
        Some(from as usize)
    } else {
        first_slot_from(slots, want, from + 1)
    }
}

/// The first slot that holds exactly `want`: the owner of a device for `Some`, the first free slot
/// for `None`.
pub open spec fn first_slot(slots: Seq<Option<DeviceNumber>>, want: Option<DeviceNumber>) -> Option<usize> {
    first_slot_from(slots, want, 0)
}

/// What a result of [`first_slot`] says of the slots.
pub proof fn lemma_first_slot(slots: Seq<Option<DeviceNumber>>, want: Option<DeviceNumber>, r: Option<usize>)
    requires
        slots.len() <= usize::MAX,
        r == first_slot(slots, want),
    ensures
        r matches Some(i) ==> i < slots.len() && slots[i as int] == want && forall|j: int|
            0 <= j < i ==> #[trigger] slots[j] != want,
        r is None ==> forall|j: int| 0 <= j < slots.len() ==> #[trigger] slots[j] != want,
{
    lemma_first_slot_from(slots, want, 0);
}

proof fn lemma_first_slot_from(slots: Seq<Option<DeviceNumber>>, want: Option<DeviceNumber>, from: int)
    requires
        slots.len() <= usize::MAX,
        0 <= from <= slots.len(),
    ensures
        first_slot_from(slots, want, from) matches Some(i) ==> from <= i < slots.len()
            && slots[i as int] == want && forall|j: int|
            from <= j < i ==> #[trigger] slots[j] != want,
        first_slot_from(slots, want, from) is None ==> forall|j: int|
            from <= j < slots.len() ==> #[trigger] slots[j] != want,
    decreases slots.len() - from,
{
    if from < slots.len() && slots[from] != want {
        lemma_first_slot_from(slots, want, from + 1);
    }
}

/// The result of [`first_slot`] is the one that the slots' contents allow.
pub proof fn lemma_first_slot_is(slots: Seq<Option<DeviceNumber>>, want: Option<DeviceNumber>, i: int)
    requires
        0 <= i <= slots.len() <= usize::MAX,
        forall|j: int| 0 <= j < i ==> #[trigger] slots[j] != want,
    ensures
        i < slots.len() && slots[i] == want ==> first_slot(slots, want) == Some(i as usize),
        i == slots.len() ==> first_slot(slots, want) is None,
{
    lemma_first_slot(slots, want, first_slot(slots, want));
}

/// Finds the player that `mouse` belongs to.
pub fn whose_mouse(mouse: DeviceNumber, players: &[Player], _players_len: usize) -> (r: Option<usize>)
    ensures
        r == first_slot(mice(players@), Some(mouse)),
        r matches Some(i) ==> i < players@.len() && players@[i as int].mouse == Some(mouse),
        r is None ==> forall|i: int|
            #![trigger players@[i]]
            0 <= i < players@.len() ==> players@[i].mouse != Some(mouse),
{
    let mut i: usize = 0;
    while i < players.len()
        invariant
            i <= players@.len(),
            forall|j: int| 0 <= j < i ==> (#[trigger] players@[j]).mouse != Some(mouse),
        decreases players@.len() - i,
    {
        if let Some(owned) = players[i].mouse {
            if owned == mouse {
                proof {
                    lemma_first_slot_is(mice(players@), Some(mouse), i as int);
                }
                return Some(i);
            }
        }
        i += 1;
    }
    proof {
        lemma_first_slot_is(mice(players@), Some(mouse), i as int);
    }
    None
}

/// Finds the player that `keyboard` belongs to.
pub fn whose_keyboard(keyboard: DeviceNumber, players: &[Player], _players_len: usize) -> (r: Option<
    usize,
>)
    ensures
        r == first_slot(keyboards(players@), Some(keyboard)),
        r matches Some(i) ==> i < players@.len() && players@[i as int].keyboard == Some(keyboard),
        r is None ==> forall|i: int|
            #![trigger players@[i]]
            0 <= i < players@.len() ==> players@[i].keyboard != Some(keyboard),
{
    let mut i: usize = 0;
    while i < players.len()
        invariant
            i <= players@.len(),
            forall|j: int| 0 <= j < i ==> (#[trigger] players@[j]).keyboard != Some(keyboard),
        decreases players@.len() - i,
    {
        if let Some(owned) = players[i].keyboard {
            if owned == keyboard {
                proof {
                    lemma_first_slot_is(keyboards(players@), Some(keyboard), i as int);
                }
                return Some(i);
            }
        }
        i += 1;
    }
    proof {
        lemma_first_slot_is(keyboards(players@), Some(keyboard), i as int);
    }
    None
}

/// How many of `total` players take part when `len` are playing.
pub open spec fn active(total: nat, len: usize) -> nat {
    if len < total {
        len as nat
    } else {
        total
    }
}

/// Distance from the center of the map to a spawn point along x and along z: half way to the
/// walls.
pub open spec fn spawn_distance() -> int {
    MAP_BOX_SCALE * PLACE_UNITS / 2
}

/// Radius of a player's spheres: half a map unit.
pub open spec fn spawn_radius() -> int {
    PLACE_UNITS as int / 2
}

/// Height of a player's eyes: one and a half map units.
pub open spec fn spawn_height() -> int {
    3 * PLACE_UNITS / 2
}

/// Coordinate `axis` of the point where player `i` enters the map.
pub open spec fn spawn_coord(i: int, axis: int) -> int {
    if axis == 1 {
        spawn_height() - MAP_BOX_SCALE * PLACE_UNITS
    } else if axis == 0 {
        if i % 2 == 1 {
            -spawn_distance()
        } else {
            spawn_distance()
        }
    } else {
        if (i % 2 == 1) != ((i / 2) % 2 == 1) {
            -spawn_distance()
        } else {
            spawn_distance()
        }
    }
}

/// Where player `i` looks on entering the map.
pub open spec fn spawn_yaw(i: int) -> int {
    0x2000_0000 + (if i % 2 == 1 {
        0x8000_0000int
    } else {
        0
    }) + (if (i / 2) % 2 == 1 {
        0x4000_0000int
    } else {
        0
    })
}

/// Channel `c` (0 red, 1 green, 2 blue) of the color of player `i`. Players come in pairs of one
/// pure color and its complement: first green, then red, then blue.
pub open spec fn spawn_color(i: int, c: int) -> u8 {
    let pure = if c == 0 {
        1int
    } else if c == 1 {
        0
    } else {
        2
    };
    if (i / 2 == pure) == (i % 2 == 0) {
        0xff
    } else {
        0
    }
}

/// Whether `p` is as player `i` enters the map.
pub open spec fn is_spawned(p: Player, i: int) -> bool {
    &&& p.mouse is None
    &&& p.keyboard is None
    &&& forall|a: int| 0 <= a < 3 ==> #[trigger] p.place[a] == spawn_coord(i, a)
    &&& forall|a: int| 0 <= a < 3 ==> #[trigger] p.vel[a] == 0
    &&& p.yaw == spawn_yaw(i)
    &&& p.pitch == -0x0800_0000
    &&& p.radius == spawn_radius()
    &&& p.height == spawn_height()
    &&& forall|c: int| 0 <= c < 3 ==> #[trigger] p.color[c] == spawn_color(i, c)
    &&& p.wasd == 0
}

/// One channel of a spawn color: full when the player's pair is `pure` and the player is the
/// first of it, or when neither holds.
fn color_channel(i: usize, pure: usize) -> (r: u8)
    ensures
        r == (if (i / 2 == pure) == (i % 2 == 0) {
            0xffu8
        } else {
            0u8
        }),
{
    if (i / 2 == pure) == (i % 2 == 0) {
        0xff
    } else {
        0
    }
}

/// Puts the first `len` players at their spawn points, standing still on the floor and facing the
/// center, with nothing held down and no device assigned.
pub fn init_players(players: &mut [Player], len: usize)
    requires
        active(old(players)@.len(), len) <= 64,
    ensures
        final(players)@.len() == old(players)@.len(),
        forall|i: int|
            0 <= i < active(old(players)@.len(), len) ==> is_spawned(
                #[trigger] final(players)@[i],
                i,
            ),
        forall|i: int|
            active(old(players)@.len(), len) <= i < old(players)@.len() ==> #[trigger] final(players)@[i] == old(players)@[i],
{
    let ghost before = players@;
    let mut i: usize = 0;
    while i < players.len() && i < len
        invariant
            players@.len() == before.len(),
            i <= active(before.len(), len) <= 64,
            forall|n: int| 0 <= n < i ==> is_spawned(#[trigger] players@[n], n),
            forall|n: int| i <= n < before.len() ==> #[trigger] players@[n] == before[n],
        decreases players@.len() - i,
    {
        let mirrored: bool = i % 2 == 1;
        let turned: bool = (i / 2) % 2 == 1;
        let half: i32 = MAP_BOX_SCALE * PLACE_UNITS / 2;
        let height: i32 = 3 * PLACE_UNITS / 2;
        let x: i32 = if mirrored {
            -half
        } else {
            half
        };
        let z: i32 = if mirrored != turned {
            -half
        } else {
            half
        };
        let half_turn: u32 = if mirrored {
            0x8000_0000
        } else {
            0
        };
        let quarter_turn: u32 = if turned {
            0x4000_0000
        } else {
            0
        };
        players[i] = Player {
            mouse: None,
            keyboard: None,
            place: [x, height - MAP_BOX_SCALE * PLACE_UNITS, z],
            vel: [0, 0, 0],
            yaw: 0x2000_0000 + half_turn + quarter_turn,
            pitch: -0x0800_0000,
            radius: PLACE_UNITS / 2,
            height,
            color: [color_channel(i, 1), color_channel(i, 0), color_channel(i, 2)],
            wasd: 0,
        };
        i += 1;
    }
}

/// What aiming at one sphere of a target found.
#[derive(Clone, Copy, Debug)]
pub struct Aim {
    /// The sphere lies behind the shooter.
    pub behind: bool,
    /// The line of fire passes within the sphere's radius of its center.
    pub in_reach: bool,
}

/// Whether a shot meets at least one of the two spheres, head and feet, of a target.
pub open spec fn is_hit(aims: [Aim; 2]) -> bool {
    ||| !aims[0].behind && aims[0].in_reach
    ||| !aims[1].behind && aims[1].in_reach
}

/// Coordinate that a random byte stands for, in place units.
pub open spec fn random_coord(byte: u8) -> int {
    MAP_BOX_SCALE * (byte - 128)
}

/// State of the generator once a shot has dealt with the first `n` players.
pub open spec fn state_after(shooter: int, aims: Seq<[Aim; 2]>, n: int, state: u64) -> u64
    decreases n,
{
    if n <= 0 {
        state
    } else {
        let s = state_after(shooter, aims, n - 1, state);
        if n - 1 != shooter && is_hit(aims[n - 1]) {
            next_state(next_state(next_state(s)))
        } else {
            s
        }
    }
}

/// Whether `q` is `p` put down where three bytes drawn from `state` say.
pub open spec fn is_moved(p: Player, q: Player, state: u64) -> bool {
    let s0 = next_state(state);
    let s1 = next_state(s0);
    let s2 = next_state(s1);
    &&& q.place[0] == random_coord(state_byte(s0))
    &&& q.place[1] == random_coord(state_byte(s1))
    &&& q.place[2] == random_coord(state_byte(s2))
    &&& q == Player { place: q.place, ..p }
}

/// Draws one coordinate.
fn draw_coord(state: &mut u64) -> (r: i32)
    ensures
        *final(state) == next_state(*old(state)),
        r == random_coord(state_byte(next_state(*old(state)))),
{
    let byte: u8 = next_random_byte(state);
    MAP_BOX_SCALE * (byte as i32 - 128)
}

/// Fires a shot. `aims` holds, for each player, what aiming at its head and at its feet found.
/// Every active player that is hit, other than the shooter, is put at a random place. Returns
/// for each active player whether it was moved.
pub fn shoot(
    shooter: usize,
    players: &mut [Player],
    players_len: usize,
    aims: &[[Aim; 2]],
    state: &mut u64,
) -> (moved: Vec<bool>)
    requires
        shooter < old(players)@.len(),
        aims@.len() >= active(old(players)@.len(), players_len),
    ensures
        final(players)@.len() == old(players)@.len(),
        moved@.len() == active(old(players)@.len(), players_len),
        forall|i: int|
            0 <= i < moved@.len() ==> #[trigger] moved@[i] == (i != shooter && is_hit(aims@[i])),
        forall|i: int|
            0 <= i < moved@.len() && #[trigger] moved@[i] ==> is_moved(
                old(players)@[i],
                final(players)@[i],
                state_after(shooter as int, aims@, i, *old(state)),
            ),
        forall|i: int|
            0 <= i < old(players)@.len() && !(i < moved@.len() && moved@[i])
                ==> #[trigger] final(players)@[i] == old(players)@[i],
        *final(state) == state_after(
            shooter as int,
            aims@,
            active(old(players)@.len(), players_len) as int,
            *old(state),
        ),
{
    let ghost before = players@;
    let ghost start = *state;
    let mut moved: Vec<bool> = Vec::new();
    let mut i: usize = 0;
    while i < players.len() && i < players_len
        invariant
            players@.len() == before.len(),
            i <= active(before.len(), players_len) <= aims@.len(),
            moved@.len() == i,
            *state == state_after(shooter as int, aims@, i as int, start),
            forall|n: int|
                0 <= n < i ==> #[trigger] moved@[n] == (n != shooter && is_hit(aims@[n])),
            forall|n: int|
                0 <= n < i && #[trigger] moved@[n] ==> is_moved(
                    before[n],
                    players@[n],
                    state_after(shooter as int, aims@, n, start),
                ),
            forall|n: int|
                0 <= n < before.len() && !(n < i && moved@[n]) ==> #[trigger] players@[n]
                    == before[n],
        decreases players@.len() - i,
    {
        let mut hit: u32 = 0;
        if i != shooter {
            let target: [Aim; 2] = aims[i];
            let mut j: usize = 0;
            while j < 2
                invariant
                    j <= 2,
                    hit <= j,
                    hit > 0 <==> (exists|k: int|
                        0 <= k < j && !(#[trigger] target[k]).behind && target[k].in_reach),
                decreases 2 - j,
            {
                if !target[j].behind && target[j].in_reach {
                    hit += 1;
                }
                j += 1;
            }
        }
        if hit > 0 {
            let x: i32 = draw_coord(state);
            let y: i32 = draw_coord(state);
            let z: i32 = draw_coord(state);
            let mut target: Player = players[i];
            target.place = [x, y, z];
            players[i] = target;
        }
        moved.push(hit > 0);
        i += 1;
    }
    moved
}

/// Sign of the sine of a binary angle.
pub open spec fn sine_sign(yaw: int) -> int {
    if yaw == 0 || yaw == 0x8000_0000 {
        0
    } else if yaw < 0x8000_0000 {
        1
    } else {
        -1
    }
}

/// Sign of the cosine of a binary angle.
pub open spec fn cosine_sign(yaw: int) -> int {
    if yaw == 0x4000_0000 || yaw == 0xc000_0000 {
        0
    } else if yaw < 0x4000_0000 || yaw > 0xc000_0000 {
        1
    } else {
        -1
    }
}

/// Everybody enters the map facing its center. A player looks along minus sine and minus cosine of
/// its yaw; at spawn these point against the signs of x and z, on the exact diagonal, and x and z
/// are equally far from the center.
pub proof fn law_spawn_faces_the_center(i: int)
    requires
        i >= 0,
    ensures
        0 <= spawn_yaw(i) < 0x1_0000_0000,
        spawn_yaw(i) % 0x4000_0000 == 0x2000_0000,
        sine_sign(spawn_yaw(i)) == 1 <==> spawn_coord(i, 0) > 0,
        sine_sign(spawn_yaw(i)) == -1 <==> spawn_coord(i, 0) < 0,
        cosine_sign(spawn_yaw(i)) == 1 <==> spawn_coord(i, 2) > 0,
        cosine_sign(spawn_yaw(i)) == -1 <==> spawn_coord(i, 2) < 0,
        spawn_coord(i, 0) == spawn_coord(i, 2) || spawn_coord(i, 0) == -spawn_coord(i, 2),
{
}

/// No two of the players enter at the same place.
pub proof fn law_spawns_are_apart(i: int, j: int)
    requires
        0 <= i < j < MAX_PLAYER_COUNT,
    ensures
        spawn_coord(i, 0) != spawn_coord(j, 0) || spawn_coord(i, 2) != spawn_coord(j, 2),
{
}

/// No two of the first eight players, and so no two who play together, have the same color.
pub proof fn law_colors_differ(i: int, j: int)
    requires
        0 <= i < j < 8,
    ensures
        exists|c: int| 0 <= c < 3 && #[trigger] spawn_color(i, c) != spawn_color(j, c),
{
    assert(spawn_color(i, 0) != spawn_color(j, 0) || spawn_color(i, 1) != spawn_color(j, 1)
        || spawn_color(i, 2) != spawn_color(j, 2));
}

/// A shot that hits nobody draws nothing from the generator.
pub proof fn law_miss_draws_nothing(shooter: int, aims: Seq<[Aim; 2]>, n: int, state: u64)
    requires
        0 <= n <= aims.len(),
        forall|i: int| 0 <= i < n && i != shooter ==> !is_hit(#[trigger] aims[i]),
    ensures
        state_after(shooter, aims, n, state) == state,
    decreases n,
{
    if n > 0 {
        law_miss_draws_nothing(shooter, aims, n - 1, state);
    }
}

/// What aiming at the shooter itself finds does not matter.
pub proof fn law_shooter_is_not_a_target(
    shooter: int,
    aims: Seq<[Aim; 2]>,
    own: [Aim; 2],
    n: int,
    state: u64,
)
    requires
        0 <= n <= aims.len(),
        0 <= shooter < aims.len(),
    ensures
        state_after(shooter, aims.update(shooter, own), n, state) == state_after(
            shooter,
            aims,
            n,
            state,
        ),
    decreases n,
{
    if n > 0 {
        law_shooter_is_not_a_target(shooter, aims, own, n - 1, state);
    }
}

/// A target that is entirely behind the shooter is not hit.
pub proof fn law_nobody_behind_is_hit(aims: [Aim; 2])
    requires
        aims[0].behind,
        aims[1].behind,
    ensures
        !is_hit(aims),
{
}

/// A mouse belongs to the first player who holds it, and to nobody exactly when no player does.
pub proof fn law_mouse_is_found_where_it_is_held(
    mouse: DeviceNumber,
    players: &[Player],
    players_len: usize,
    r: Option<usize>,
)
    requires
        call_ensures(whose_mouse, (mouse, players, players_len), r),
        players@.len() <= usize::MAX,
    ensures
        r matches Some(i) ==> i < players@.len() && players@[i as int].mouse == Some(mouse)
            && forall|j: int| 0 <= j < i ==> (#[trigger] players@[j]).mouse != Some(mouse),
        r is None ==> forall|j: int|
            0 <= j < players@.len() ==> (#[trigger] players@[j]).mouse != Some(mouse),
{
    lemma_first_slot(mice(players@), Some(mouse), r);
    if let Some(i) = r {
        assert forall|j: int| 0 <= j < i implies (#[trigger] players@[j]).mouse != Some(mouse) by {
            assert(mice(players@)[j] != Some(mouse));
        }
    }
}

/// A keyboard belongs to the first player who holds it, and to nobody exactly when no player does.
pub proof fn law_keyboard_is_found_where_it_is_held(
    keyboard: DeviceNumber,
    players: &[Player],
    players_len: usize,
    r: Option<usize>,
)
    requires
        call_ensures(whose_keyboard, (keyboard, players, players_len), r),
        players@.len() <= usize::MAX,
    ensures
        r matches Some(i) ==> i < players@.len() && players@[i as int].keyboard == Some(keyboard)
            && forall|j: int| 0 <= j < i ==> (#[trigger] players@[j]).keyboard != Some(keyboard),
        r is None ==> forall|j: int|
            0 <= j < players@.len() ==> (#[trigger] players@[j]).keyboard != Some(keyboard),
{
    lemma_first_slot(keyboards(players@), Some(keyboard), r);
    if let Some(i) = r {
        assert forall|j: int| 0 <= j < i implies (#[trigger] players@[j]).keyboard != Some(
            keyboard,
        ) by {
            assert(keyboards(players@)[j] != Some(keyboard));
        }
    }
}

/// What [`is_spawned`] comes to, value by value.
pub proof fn lemma_spawned(p: Player, i: int)
    requires
        is_spawned(p, i),
        i >= 0,
    ensures
        p.mouse is None && p.keyboard is None && p.wasd == 0,
        p.place[0] == (if i % 2 == 0 {
            2560int
        } else {
            -2560
        }),
        p.place[1] == -4736,
        p.place[2] == (if i % 4 == 0 || i % 4 == 3 {
            2560int
        } else {
            -2560
        }),
        p.vel[0] == 0 && p.vel[1] == 0 && p.vel[2] == 0,
        i % 4 == 0 ==> p.yaw == 0x2000_0000,
        i % 4 == 1 ==> p.yaw == 0xa000_0000,
        i % 4 == 2 ==> p.yaw == 0x6000_0000,
        i % 4 == 3 ==> p.yaw == 0xe000_0000,
        p.pitch == -0x0800_0000,
        p.radius == 128,
        p.height == 384,
        p.color[0] == 255 <==> (i == 2 || (i % 2 == 1 && i != 3)),
        p.color[1] == 255 <==> (i == 0 || (i % 2 == 1 && i != 1)),
        p.color[2] == 255 <==> (i == 4 || (i % 2 == 1 && i != 5)),
        p.color[0] == 0 || p.color[0] == 255,
        p.color[1] == 0 || p.color[1] == 255,
        p.color[2] == 0 || p.color[2] == 255,
{
    assert(p.place[0] == spawn_coord(i, 0) && p.place[1] == spawn_coord(i, 1) && p.place[2]
        == spawn_coord(i, 2));
    assert(p.color[0] == spawn_color(i, 0) && p.color[1] == spawn_color(i, 1) && p.color[2]
        == spawn_color(i, 2));
}

/// Players enter in turn at the four points half way between the center and the walls, on the
/// floor, each looking at the center and a little down, standing still, with nothing held and no
/// device: first at positive x and z, then opposite, then at negative z, then opposite again. The
/// first of each pair has a color of one channel (green, red, blue), the second its complement.
/// Whoever does not enter is left alone.
pub proof fn law_players_enter_in_turn(players: &mut [Player], len: usize, i: int)
    requires
        call_ensures(init_players, (players, len), ()),
        0 <= i < old(players)@.len(),
    ensures
        final(players)@.len() == old(players)@.len(),
        i >= len ==> final(players)@[i] == old(players)@[i],
        i < len ==> ({
            let p = final(players)@[i];
            &&& p.mouse is None && p.keyboard is None && p.wasd == 0
            &&& p.place[0] == (if i % 2 == 0 {
                2560int
            } else {
                -2560
            })
            &&& p.place[1] == -4736
            &&& p.place[2] == (if i % 4 == 0 || i % 4 == 3 {
                2560int
            } else {
                -2560
            })
            &&& p.vel[0] == 0 && p.vel[1] == 0 && p.vel[2] == 0
            &&& i % 4 == 0 ==> p.yaw == 0x2000_0000
            &&& i % 4 == 1 ==> p.yaw == 0xa000_0000
            &&& i % 4 == 2 ==> p.yaw == 0x6000_0000
            &&& i % 4 == 3 ==> p.yaw == 0xe000_0000
            &&& p.pitch == -0x0800_0000
            &&& p.radius == 128
            &&& p.height == 384
            &&& p.color[0] == 255 <==> (i == 2 || (i % 2 == 1 && i != 3))
            &&& p.color[1] == 255 <==> (i == 0 || (i % 2 == 1 && i != 1))
            &&& p.color[2] == 255 <==> (i == 4 || (i % 2 == 1 && i != 5))
            &&& p.color[0] == 0 || p.color[0] == 255
            &&& p.color[1] == 0 || p.color[1] == 255
            &&& p.color[2] == 0 || p.color[2] == 255
        }),
{
    if i < len {
        lemma_spawned(final(players)@[i], i);
    }
}

/// The state that a generator in `state` reaches after `draws` steps.
pub open spec fn drawn(state: u64, draws: nat) -> u64
    decreases draws,
{
    if draws == 0 {
        state
    } else {
        next_state(drawn(state, (draws - 1) as nat))
    }
}

/// How many of the first `n` targets a shot of `shooter` meets.
pub open spec fn hits(shooter: int, aims: Seq<[Aim; 2]>, n: int) -> nat
    decreases n,
{
    if n <= 0 {
        0
    } else {
        let a = aims[n - 1];
        let met = (a[0].in_reach && !a[0].behind) || (a[1].in_reach && !a[1].behind);
        hits(shooter, aims, n - 1) + (if n - 1 != shooter && met {
            1nat
        } else {
            0
        })
    }
}

/// A shot draws three times for each target it meets.
pub proof fn lemma_three_draws_per_hit(shooter: int, aims: Seq<[Aim; 2]>, n: int, state: u64)
    ensures
        state_after(shooter, aims, n, state) == drawn(state, 3 * hits(shooter, aims, n)),
    decreases n,
{
    if n > 0 {
        lemma_three_draws_per_hit(shooter, aims, n - 1, state);
        reveal_with_fuel(drawn, 4);
    }
}

/// Where the three draws that follow the first `3 * hit` put a player.
pub proof fn lemma_moved_by_draws(p: Player, q: Player, state: u64, hit: nat)
    requires
        is_moved(p, q, drawn(state, 3 * hit)),
    ensures
        q.place[0] == 20 * (state_byte(drawn(state, 3 * hit + 1)) - 128),
        q.place[1] == 20 * (state_byte(drawn(state, 3 * hit + 2)) - 128),
        q.place[2] == 20 * (state_byte(drawn(state, 3 * hit + 3)) - 128),
        q.mouse == p.mouse && q.keyboard == p.keyboard && q.wasd == p.wasd,
        q.vel == p.vel && q.yaw == p.yaw && q.pitch == p.pitch,
        q.radius == p.radius && q.height == p.height && q.color == p.color,
{
    reveal_with_fuel(drawn, 4);
}

/// A shot moves exactly the players it meets: those taking part, other than the shooter, of whom at
/// least one sphere is in front of the shooter and in reach. Each of them comes back where the next
/// three bytes of the generator say, x, y and z in this order, spread evenly from wall to wall, and
/// is otherwise unchanged. Nobody else changes, and no byte is skipped or used twice.
pub proof fn law_shot_moves_whom_it_meets(
    shooter: usize,
    players: &mut [Player],
    players_len: usize,
    aims: &[[Aim; 2]],
    state: &mut u64,
    moved: Vec<bool>,
    i: int,
)
    requires
        call_ensures(shoot, (shooter, players, players_len, aims, state), moved),
        0 <= i < old(players)@.len(),
    ensures
        final(players)@.len() == old(players)@.len(),
        i < moved@.len() <==> i < players_len,
        moved@.len() <= old(players)@.len(),
        i < players_len ==> (moved@[i] <==> i != shooter && exists|k: int|
            0 <= k < 2 && (#[trigger] aims@[i][k]).in_reach && !aims@[i][k].behind),
        i < players_len && moved@[i] ==> ({
            let (p, q) = (old(players)@[i], final(players)@[i]);
            let h = hits(shooter as int, aims@, i);
            &&& q.place[0] == 20 * (state_byte(drawn(*old(state), 3 * h + 1)) - 128)
            &&& q.place[1] == 20 * (state_byte(drawn(*old(state), 3 * h + 2)) - 128)
            &&& q.place[2] == 20 * (state_byte(drawn(*old(state), 3 * h + 3)) - 128)
            &&& q.mouse == p.mouse && q.keyboard == p.keyboard && q.wasd == p.wasd
            &&& q.vel == p.vel && q.yaw == p.yaw && q.pitch == p.pitch
            &&& q.radius == p.radius && q.height == p.height && q.color == p.color
        }),
        i >= players_len || !moved@[i] ==> final(players)@[i] == old(players)@[i],
        *final(state) == drawn(
            *old(state),
            3 * hits(shooter as int, aims@, moved@.len() as int),
        ),
{
    lemma_three_draws_per_hit(shooter as int, aims@, i, *old(state));
    lemma_three_draws_per_hit(shooter as int, aims@, moved@.len() as int, *old(state));
    if i < players_len {
        let a = aims@[i];
        assert(is_hit(a) <==> exists|k: int| 0 <= k < 2 && (#[trigger] a[k]).in_reach && !a[k].behind);
        if moved@[i] {
            lemma_moved_by_draws(
                old(players)@[i],
                final(players)@[i],
                *old(state),
                hits(shooter as int, aims@, i),
            );
        }
    }
}

} // verus!
