//! The state of a running game, and what input events do to it.

use crate::frame::{FrameEvent, FrameState};
use crate::game::{
    active, drawn, first_slot, hits, init_players, is_hit, is_moved, is_spawned, keyboards,
    lemma_first_slot, lemma_first_slot_is, lemma_moved_by_draws, lemma_three_draws_per_hit, mice,
    spawn_height, spawn_radius, state_after, whose_keyboard, whose_mouse, Aim, DeviceNumber, Player,
    MAX_PLAYER_COUNT, PITCH_LIMIT,
};
use crate::input::{bit_of_key, key_bit, law_five_keys_have_bits, Key};
use crate::map::{init_edges, is_map_line, MAP_BOX_EDGES_LEN, MAP_BOX_SCALE};
use crate::motion::{
    is_settled, lemma_settled_axis, look, tilted, turned, Rest, Settled, Side, Speed,
};
use crate::random::{state_byte, RANDOM_SEED};
use crate::scene::{
    is_scene, law_frame_is_determined, lemma_scene_size, LineVertex, RegionGeometry, Sight,
};
use vstd::prelude::*;

verus! {

/// The state of a running game.
pub struct App {
    /// How many players are playing.
    pub player_count: usize,
    pub players: [Player; MAX_PLAYER_COUNT],
    /// The lines of the map.
    pub edges: [[i64; 6]; MAP_BOX_EDGES_LEN],
    /// State of the random generator.
    pub random: u64,
    pub frame: FrameState,
}

/// Something that happened to the window.
#[derive(Debug)]
pub enum WindowEvent {
    /// The user asked to close it.
    CloseRequested,
    /// Its size changed.
    Resized,
    /// A mouse button went down (`pressed`) or up.
    MouseInput { device: DeviceNumber, pressed: bool },
    /// A key went down (`pressed`) or up.
    KeyboardInput { device: DeviceNumber, key: Key, pressed: bool },
    /// It is time to draw it.
    RedrawRequested,
    /// Anything else.
    Other,
}

/// What an event asks to be done outside of the game's state.
#[derive(Clone, Copy, Debug, PartialEq, Eq, Structural)]
pub enum Action {
    Nothing,
    /// Leave the game.
    Exit,
    /// Fire a shot of this player.
    Shoot(usize),
    /// Draw a frame.
    Redraw,
}

/// A game's state as a mathematical value.
#[verifier::ext_equal]
pub struct AppView {
    pub count: int,
    pub players: Seq<Player>,
    pub edges: Seq<[i64; 6]>,
    pub random: u64,
    pub frame: FrameState,
}

impl View for App {
    type V = AppView;

    open spec fn view(&self) -> AppView {
        AppView {
            count: self.player_count as int,
            players: self.players@,
            edges: self.edges@,
            random: self.random,
            frame: self.frame,
        }
    }
}

/// Number of slots before the first free one.
pub open spec fn filled(slots: Seq<Option<DeviceNumber>>) -> int {
    match first_slot(slots, None) {
        Some(i) => i as int,
        None => slots.len() as int,
    }
}

/// The free slots come after all others.
pub open spec fn packed(slots: Seq<Option<DeviceNumber>>) -> bool {
    forall|i: int| filled(slots) <= i < slots.len() ==> #[trigger] slots[i] is None
}

/// No device holds two slots.
pub open spec fn distinct(slots: Seq<Option<DeviceNumber>>) -> bool {
    forall|i: int, j: int|
        0 <= i < j < slots.len() && slots[i] is Some ==> #[trigger] slots[i] != #[trigger] slots[j]
}

/// The larger of two numbers.
pub open spec fn larger(a: int, b: int) -> int {
    if a < b {
        b
    } else {
        a
    }
}

/// Number of players once the first free slot, if there is one, is taken.
pub open spec fn grown(count: int, slots: Seq<Option<DeviceNumber>>) -> int {
    match first_slot(slots, None) {
        Some(i) => larger(count, i + 1),
        None => count,
    }
}

/// Whether a player is one that the game's rules can lead to.
pub open spec fn player_wf(p: Player) -> bool {
    &&& p.radius == spawn_radius()
    &&& p.height == spawn_height()
    &&& -PITCH_LIMIT <= p.pitch <= PITCH_LIMIT
    &&& p.wasd < 32
}

impl AppView {
    /// Whether the state is one that the game's rules can lead to.
    pub open spec fn wf(self) -> bool {
        &&& self.players.len() == MAX_PLAYER_COUNT
        &&& packed(mice(self.players))
        &&& packed(keyboards(self.players))
        &&& distinct(mice(self.players))
        &&& distinct(keyboards(self.players))
        &&& self.count == larger(
            1,
            larger(filled(mice(self.players)), filled(keyboards(self.players))),
        )
        &&& forall|i: int| 0 <= i < self.players.len() ==> player_wf(#[trigger] self.players[i])
        &&& self.edges.len() == MAP_BOX_EDGES_LEN
        &&& forall|i: int|
            0 <= i < self.edges.len() ==> is_map_line(
                #[trigger] self.edges[i],
                MAP_BOX_SCALE as int,
                i,
            )
    }

    /// The player that `mouse` belongs to.
    pub open spec fn owner_of_mouse(self, mouse: DeviceNumber) -> Option<usize> {
        first_slot(mice(self.players), Some(mouse))
    }

    /// The player that `keyboard` belongs to.
    pub open spec fn owner_of_keyboard(self, keyboard: DeviceNumber) -> Option<usize> {
        first_slot(keyboards(self.players), Some(keyboard))
    }

    /// The state once `mouse` holds the first slot without a mouse.
    pub open spec fn with_mouse(self, mouse: DeviceNumber) -> AppView {
        match first_slot(mice(self.players), None) {
            Some(i) => AppView {
                players: self.players.update(
                    i as int,
                    Player { mouse: Some(mouse), ..self.players[i as int] },
                ),
                count: grown(self.count, mice(self.players)),
                ..self
            },
            None => self,
        }
    }

    /// The state once `keyboard` holds the first slot without a keyboard.
    pub open spec fn with_keyboard(self, keyboard: DeviceNumber) -> AppView {
        match first_slot(keyboards(self.players), None) {
            Some(i) => AppView {
                players: self.players.update(
                    i as int,
                    Player { keyboard: Some(keyboard), ..self.players[i as int] },
                ),
                count: grown(self.count, keyboards(self.players)),
                ..self
            },
            None => self,
        }
    }

    /// The state once `mouse` has been heard of.
    pub open spec fn knowing_mouse(self, mouse: DeviceNumber) -> AppView {
        if self.owner_of_mouse(mouse) is None {
            self.with_mouse(mouse)
        } else {
            self
        }
    }

    /// The state once `keyboard` has been heard of.
    pub open spec fn knowing_keyboard(self, keyboard: DeviceNumber) -> AppView {
        if self.owner_of_keyboard(keyboard) is None {
            self.with_keyboard(keyboard)
        } else {
            self
        }
    }

    /// The state once the key of bit `bit` of player `i` has gone down or up.
    pub open spec fn with_key(self, i: int, bit: u8, pressed: bool) -> AppView {
        let p = self.players[i];
        AppView {
            players: self.players.update(
                i,
                Player {
                    wasd: if pressed {
                        p.wasd | bit
                    } else {
                        p.wasd & !bit
                    },
                    ..p
                },
            ),
            ..self
        }
    }

    /// The state once player `i` has looked around.
    pub open spec fn with_look(self, i: int, yaw_delta: int, pitch_delta: int) -> AppView {
        let p = self.players[i];
        AppView {
            players: self.players.update(
                i,
                Player {
                    yaw: turned(p.yaw as int, yaw_delta) as u32,
                    pitch: tilted(p.pitch as int, pitch_delta) as i32,
                    ..p
                },
            ),
            ..self
        }
    }

    /// Whether `event` ends the game.
    pub open spec fn ends_game(event: WindowEvent) -> bool {
        match event {
            WindowEvent::CloseRequested => true,
            WindowEvent::KeyboardInput { key, pressed, .. } => key is Escape && !pressed,
            _ => false,
        }
    }

    /// The state after a window event.
    pub open spec fn after_window_event(self, event: WindowEvent) -> AppView {
        if Self::ends_game(event) {
            self
        } else {
            match event {
                WindowEvent::Resized => AppView {
                    frame: self.frame.after(FrameEvent::Resized),
                    ..self
                },
                WindowEvent::MouseInput { device, pressed } => if pressed {
                    self.knowing_mouse(device)
                } else {
                    self
                },
                WindowEvent::KeyboardInput { device, key, pressed } => {
                    let known = self.knowing_keyboard(device);
                    match (known.owner_of_keyboard(device), key_bit(key)) {
                        (Some(i), Some(bit)) => known.with_key(i as int, bit, pressed),
                        _ => known,
                    }
                },
                _ => self,
            }
        }
    }

    /// What a window event asks to be done.
    pub open spec fn action(self, event: WindowEvent) -> Action {
        if Self::ends_game(event) {
            Action::Exit
        } else {
            match event {
                WindowEvent::MouseInput { device, pressed } => {
                    match self.knowing_mouse(device).owner_of_mouse(device) {
                        Some(i) if pressed => Action::Shoot(i),
                        _ => Action::Nothing,
                    }
                },
                WindowEvent::RedrawRequested => Action::Redraw,
                _ => Action::Nothing,
            }
        }
    }

    /// The state after the mouse `mouse` has moved.
    pub open spec fn after_motion(
        self,
        mouse: DeviceNumber,
        yaw_delta: int,
        pitch_delta: int,
    ) -> AppView {
        let known = self.knowing_mouse(mouse);
        match known.owner_of_mouse(mouse) {
            Some(i) => known.with_look(i as int, yaw_delta, pitch_delta),
            None => known,
        }
    }
}

impl App {
    /// A new game: one player, everybody at their spawn points, no devices, no window yet.
    pub fn new() -> (a: App)
        ensures
            a@.wf(),
            a.player_count == 1,
            forall|i: int| 0 <= i < MAX_PLAYER_COUNT ==> is_spawned(#[trigger] a.players[i], i),
            a.random == RANDOM_SEED,
            a.frame == (FrameState { ready: false, recreate_swapchain: false, last_frame: None }),
    {
        let blank: Player = Player {
            mouse: None,
            keyboard: None,
            place: [0, 0, 0],
            vel: [0, 0, 0],
            yaw: 0,
            pitch: 0,
            radius: 0,
            height: 0,
            color: [0, 0, 0],
            wasd: 0,
        };
        let mut players: [Player; MAX_PLAYER_COUNT] = [blank; MAX_PLAYER_COUNT];
        let mut edges: [[i64; 6]; MAP_BOX_EDGES_LEN] = [[0; 6]; MAP_BOX_EDGES_LEN];
        init_players(&mut players, MAX_PLAYER_COUNT);
        init_edges(MAP_BOX_SCALE, &mut edges, MAP_BOX_EDGES_LEN);
        proof {
            assert forall|i: int| 0 <= i < 4 implies #[trigger] mice(players@)[i] is None by {
                assert(is_spawned(players@[i], i));
            }
            assert forall|i: int| 0 <= i < 4 implies #[trigger] keyboards(players@)[i] is None by {
                assert(is_spawned(players@[i], i));
            }
            lemma_first_slot_is(mice(players@), None, 0);
            lemma_first_slot_is(keyboards(players@), None, 0);
        }
        App { player_count: 1, players, edges, random: RANDOM_SEED, frame: FrameState::new() }
    }

    /// Finds the player that `mouse` belongs to.
    pub fn whose_mouse(&self, mouse: DeviceNumber) -> (r: Option<usize>)
        ensures
            r == self@.owner_of_mouse(mouse),
            r matches Some(i) ==> i < MAX_PLAYER_COUNT,
    {
        whose_mouse(mouse, self.players.as_slice(), self.player_count)
    }

    /// Finds the player that `keyboard` belongs to.
    pub fn whose_keyboard(&self, keyboard: DeviceNumber) -> (r: Option<usize>)
        ensures
            r == self@.owner_of_keyboard(keyboard),
            r matches Some(i) ==> i < MAX_PLAYER_COUNT,
    {
        whose_keyboard(keyboard, self.players.as_slice(), self.player_count)
    }

    /// Assigns a mouse to the first player without one, who joins in if not playing yet.
    pub fn claim_mouse(&mut self, mouse: DeviceNumber)
        ensures
            final(self)@ == old(self)@.with_mouse(mouse),
    {
        let mut i: usize = 0;
        while i < MAX_PLAYER_COUNT
            invariant
                i <= MAX_PLAYER_COUNT,
                *self == *old(self),
                forall|j: int| 0 <= j < i ==> (#[trigger] self.players@[j]).mouse is Some,
            decreases MAX_PLAYER_COUNT - i,
        {
            if self.players[i].mouse.is_none() {
                proof {
                    lemma_first_slot_is(mice(self.players@), None, i as int);
                }
                self.players[i].mouse = Some(mouse);
                if self.player_count < i + 1 {
                    self.player_count = i + 1;
                }
                return;
            }
            i += 1;
        }
        proof {
            lemma_first_slot_is(mice(self.players@), None, i as int);
        }
    }

    /// Assigns a keyboard to the first player without one, who joins in if not playing yet.
    pub fn claim_keyboard(&mut self, keyboard: DeviceNumber)
        ensures
            final(self)@ == old(self)@.with_keyboard(keyboard),
    {
        let mut i: usize = 0;
        while i < MAX_PLAYER_COUNT
            invariant
                i <= MAX_PLAYER_COUNT,
                *self == *old(self),
                forall|j: int| 0 <= j < i ==> (#[trigger] self.players@[j]).keyboard is Some,
            decreases MAX_PLAYER_COUNT - i,
        {
            if self.players[i].keyboard.is_none() {
                proof {
                    lemma_first_slot_is(keyboards(self.players@), None, i as int);
                }
                self.players[i].keyboard = Some(keyboard);
                if self.player_count < i + 1 {
                    self.player_count = i + 1;
                }
                return;
            }
            i += 1;
        }
        proof {
            lemma_first_slot_is(keyboards(self.players@), None, i as int);
        }
    }

    /// A window and a swapchain that fits it have been made.
    pub fn resumed(&mut self, now: u128)
        ensures
            final(self)@ == (AppView {
                frame: old(self).frame.after(FrameEvent::Resumed { now }),
                ..old(self)@
            }),
    {
        self.frame.resumed(now);
    }

    /// Whether the game wants to be drawn again: always, once there is a window.
    pub fn about_to_wait(&self) -> (redraw: bool)
        ensures
            redraw == self.frame.ready,
    {
        self.frame.ready
    }

    /// Handles a window event, and says what is to be done outside of the game's state.
    pub fn window_event(&mut self, event: WindowEvent) -> (action: Action)
        ensures
            final(self)@ == old(self)@.after_window_event(event),
            action == old(self)@.action(event),
            old(self)@.wf() ==> final(self)@.wf(),
            action matches Action::Shoot(i) ==> i < MAX_PLAYER_COUNT,
    {
        proof {
            if self@.wf() {
                law_window_event_keeps_wf(self@, event);
            }
        }
        match event {
            WindowEvent::CloseRequested => Action::Exit,
            WindowEvent::Resized => {
                self.frame.resized();
                Action::Nothing
            },
            WindowEvent::MouseInput { device, pressed } => {
                if pressed && self.whose_mouse(device).is_none() {
                    self.claim_mouse(device);
                }
                if pressed {
                    if let Some(index) = self.whose_mouse(device) {
                        return Action::Shoot(index);
                    }
                }
                Action::Nothing
            },
            WindowEvent::KeyboardInput { device, key, pressed } => {
                if let Key::Escape = key {
                    if !pressed {
                        return Action::Exit;
                    }
                }
                if self.whose_keyboard(device).is_none() {
                    self.claim_keyboard(device);
                }
                if let Some(index) = self.whose_keyboard(device) {
                    if let Some(bit) = bit_of_key(&key) {
                        if pressed {
                            self.players[index].wasd = self.players[index].wasd | bit;
                        } else {
                            self.players[index].wasd = self.players[index].wasd & !bit;
                        }
                    }
                }
                Action::Nothing
            },
            WindowEvent::RedrawRequested => Action::Redraw,
            WindowEvent::Other => Action::Nothing,
        }
    }

    /// Handles motion of a mouse: turns and tilts the view of the player it belongs to.
    pub fn device_event(&mut self, device: DeviceNumber, yaw_delta: i32, pitch_delta: i32)
        ensures
            final(self)@ == old(self)@.after_motion(
                device,
                yaw_delta as int,
                pitch_delta as int,
            ),
            old(self)@.wf() ==> final(self)@.wf(),
    {
        proof {
            if self@.wf() {
                law_motion_keeps_wf(self@, device, yaw_delta as int, pitch_delta as int);
            }
        }
        if self.whose_mouse(device).is_none() {
            self.claim_mouse(device);
        }
        if let Some(index) = self.whose_mouse(device) {
            look(&mut self.players[index], yaw_delta, pitch_delta);
        }
    }

    /// Fires a shot of player `shooter`. Returns for each player taking part whether it was moved.
    pub fn shoot(&mut self, shooter: usize, aims: &[[Aim; 2]]) -> (moved: Vec<bool>)
        requires
            shooter < MAX_PLAYER_COUNT,
            aims@.len() >= active(MAX_PLAYER_COUNT as nat, old(self).player_count),
        ensures
            moved@.len() == active(MAX_PLAYER_COUNT as nat, old(self).player_count),
            forall|i: int|
                0 <= i < moved@.len() ==> #[trigger] moved@[i] == (i != shooter && is_hit(
                    aims@[i],
                )),
            forall|i: int|
                0 <= i < moved@.len() && #[trigger] moved@[i] ==> is_moved(
                    old(self).players@[i],
                    final(self).players@[i],
                    state_after(shooter as int, aims@, i, old(self).random),
                ),
            forall|i: int|
                0 <= i < MAX_PLAYER_COUNT && !(i < moved@.len() && moved@[i])
                    ==> #[trigger] final(self).players@[i] == old(self).players@[i],
            final(self)@ == (AppView {
                players: final(self).players@,
                random: state_after(
                    shooter as int,
                    aims@,
                    moved@.len() as int,
                    old(self).random,
                ),
                ..old(self)@
            }),
            old(self)@.wf() ==> final(self)@.wf(),
    {
        let ghost before = self@;
        let moved: Vec<bool> = crate::game::shoot(
            shooter,
            &mut self.players,
            self.player_count,
            aims,
            &mut self.random,
        );
        proof {
            assert forall|i: int| 0 <= i < 4 implies {
                let p = before.players[i];
                let q = #[trigger] self.players@[i];
                &&& p.mouse == q.mouse
                &&& p.keyboard == q.keyboard
                &&& player_wf(p) ==> player_wf(q)
            } by {
                if i < moved@.len() && moved@[i] {
                    assert(is_moved(
                        before.players[i],
                        self.players@[i],
                        state_after(shooter as int, aims@, i, before.random),
                    ));
                }
            }
            assert(mice(self.players@) =~= mice(before.players));
            assert(keyboards(self.players@) =~= keyboards(before.players));
        }
        moved
    }

    /// Ends a time step: what the walls make of the motion of each player taking part.
    pub fn update(&self, sides: &[[Side; 3]]) -> (r: Vec<Settled>)
        requires
            sides@.len() >= active(MAX_PLAYER_COUNT as nat, self.player_count),
        ensures
            r@.len() == active(MAX_PLAYER_COUNT as nat, self.player_count),
            forall|i: int|
                0 <= i < r@.len() ==> is_settled(
                    #[trigger] r@[i],
                    sides@[i],
                    self.players@[i].wasd,
                ),
    {
        crate::motion::update(self.players.as_slice(), self.player_count, sides)
    }

    /// Builds the frame for a window of `win_w` by `win_h` pixels from what each player sees.
    pub fn build_scene(
        &self,
        win_w: u32,
        win_h: u32,
        sights: &[Sight],
        vertices: &mut Vec<LineVertex>,
        regions: &mut Vec<RegionGeometry>,
    )
        requires
            self@.wf(),
            win_w >= 1,
            win_h >= 1,
            self.player_count <= sights@.len(),
            forall|i: int|
                0 <= i < self.player_count ==> (#[trigger] sights@[i]).lines@.len()
                    <= MAP_BOX_EDGES_LEN && self.player_count <= sights@[i].spheres@.len(),
        ensures
            is_scene(
                final(vertices)@,
                final(regions)@,
                self.players@,
                self.player_count as int,
                win_w as int,
                win_h as int,
                sights@,
            ),
    {
        proof {
            let n = self.player_count as int;
            law_player_count_is_in_range(self@);
            lemma_scene_size(
                self.players@,
                n,
                win_w as int,
                win_h as int,
                sights@,
                MAP_BOX_EDGES_LEN as int,
                n,
            );
            let each = 2 * MAP_BOX_EDGES_LEN + 128 * n + 4;
            assert(n * each <= 4 * each) by (nonlinear_arith)
                requires
                    n <= 4,
                    each >= 0,
            ;
        }
        crate::scene::build_scene(
            self.players.as_slice(),
            self.player_count,
            win_w,
            win_h,
            sights,
            vertices,
            regions,
        );
    }
}

proof fn lemma_mice_updated(players: Seq<Player>, i: int, p: Player)
    requires
        0 <= i < players.len(),
    ensures
        mice(players.update(i, p)) == mice(players).update(i, p.mouse),
        keyboards(players.update(i, p)) == keyboards(players).update(i, p.keyboard),
{
    assert(mice(players.update(i, p)) =~= mice(players).update(i, p.mouse));
    assert(keyboards(players.update(i, p)) =~= keyboards(players).update(i, p.keyboard));
}

/// Taking the first free slot keeps the slots packed and their devices distinct.
proof fn lemma_claim(slots: Seq<Option<DeviceNumber>>, device: DeviceNumber)
    requires
        slots.len() <= usize::MAX,
        packed(slots),
        distinct(slots),
        first_slot(slots, Some(device)) is None,
        first_slot(slots, None) is Some,
    ensures
        ({
            let after = slots.update(filled(slots), Some(device));
            &&& packed(after)
            &&& distinct(after)
            &&& filled(after) == filled(slots) + 1
            &&& first_slot(after, Some(device)) == Some(filled(slots) as usize)
        }),
{
    let i = filled(slots);
    let after = slots.update(i, Some(device));
    lemma_first_slot(slots, None, first_slot(slots, None));
    lemma_first_slot(slots, Some(device), first_slot(slots, Some(device)));
    lemma_first_slot_is(after, None, i + 1);
    lemma_first_slot_is(after, Some(device), i);
}

/// A mouse that is heard of for the first time takes the first free slot, and the state stays one
/// that the rules can lead to.
pub proof fn law_new_mouse_keeps_wf(s: AppView, mouse: DeviceNumber)
    requires
        s.wf(),
    ensures
        s.knowing_mouse(mouse).wf(),
{
    lemma_first_slot(mice(s.players), None, first_slot(mice(s.players), None));
    if s.owner_of_mouse(mouse) is None && first_slot(mice(s.players), None) is Some {
        let i = filled(mice(s.players));
        lemma_claim(mice(s.players), mouse);
        lemma_mice_updated(s.players, i, Player { mouse: Some(mouse), ..s.players[i] });
        assert(keyboards(s.players).update(i, s.players[i].keyboard) =~= keyboards(s.players));
    }
}

/// A keyboard that is heard of for the first time takes the first free slot, and the state stays
/// one that the rules can lead to.
pub proof fn law_new_keyboard_keeps_wf(s: AppView, keyboard: DeviceNumber)
    requires
        s.wf(),
    ensures
        s.knowing_keyboard(keyboard).wf(),
{
    lemma_first_slot(keyboards(s.players), None, first_slot(keyboards(s.players), None));
    if s.owner_of_keyboard(keyboard) is None && first_slot(keyboards(s.players), None) is Some {
        let i = filled(keyboards(s.players));
        lemma_claim(keyboards(s.players), keyboard);
        lemma_mice_updated(s.players, i, Player { keyboard: Some(keyboard), ..s.players[i] });
        assert(mice(s.players).update(i, s.players[i].mouse) =~= mice(s.players));
    }
}

/// Replacing a player by one with the same devices keeps the state one that the rules can lead to.
proof fn lemma_same_devices_keep_wf(s: AppView, i: int, p: Player)
    requires
        s.wf(),
        0 <= i < s.players.len(),
        p.mouse == s.players[i].mouse,
        p.keyboard == s.players[i].keyboard,
        player_wf(p),
    ensures
        (AppView { players: s.players.update(i, p), ..s }).wf(),
{
    lemma_mice_updated(s.players, i, p);
    assert(mice(s.players).update(i, p.mouse) =~= mice(s.players));
    assert(keyboards(s.players).update(i, p.keyboard) =~= keyboards(s.players));
}

/// No window event leads to a state that the rules do not allow.
pub proof fn law_window_event_keeps_wf(s: AppView, event: WindowEvent)
    requires
        s.wf(),
    ensures
        s.after_window_event(event).wf(),
{
    match event {
        WindowEvent::MouseInput { device, pressed } => {
            law_new_mouse_keeps_wf(s, device);
        },
        WindowEvent::KeyboardInput { device, key, pressed } => {
            law_new_keyboard_keeps_wf(s, device);
            let known = s.knowing_keyboard(device);
            match (known.owner_of_keyboard(device), key_bit(key)) {
                (Some(i), Some(bit)) => {
                    lemma_first_slot(keyboards(known.players), Some(device), Some(i));
                    let wasd = known.players[i as int].wasd;
                    assert(wasd | bit < 32 && wasd & !bit < 32) by (bit_vector)
                        requires
                            wasd < 32,
                            bit < 32,
                    ;
                    let p = known.with_key(i as int, bit, pressed).players[i as int];
                    lemma_same_devices_keep_wf(known, i as int, p);
                },
                _ => {},
            }
        },
        _ => {},
    }
}

/// No motion of a mouse leads to a state that the rules do not allow.
pub proof fn law_motion_keeps_wf(s: AppView, mouse: DeviceNumber, yaw_delta: int, pitch_delta: int)
    requires
        s.wf(),
    ensures
        s.after_motion(mouse, yaw_delta, pitch_delta).wf(),
{
    law_new_mouse_keeps_wf(s, mouse);
    let known = s.knowing_mouse(mouse);
    if let Some(i) = known.owner_of_mouse(mouse) {
        lemma_first_slot(mice(known.players), Some(mouse), Some(i));
        let p = known.with_look(i as int, yaw_delta, pitch_delta).players[i as int];
        lemma_same_devices_keep_wf(known, i as int, p);
    }
}

/// There are always between one and four players, as many as the devices heard of call for.
pub proof fn law_player_count_is_in_range(s: AppView)
    requires
        s.wf(),
    ensures
        1 <= s.count <= MAX_PLAYER_COUNT,
        filled(mice(s.players)) <= s.count,
        filled(keyboards(s.players)) <= s.count,
{
    lemma_first_slot(mice(s.players), None, first_slot(mice(s.players), None));
    lemma_first_slot(keyboards(s.players), None, first_slot(keyboards(s.players), None));
}

/// Nobody leaves: no event makes the number of players smaller.
pub proof fn law_nobody_leaves(
    s: AppView,
    event: WindowEvent,
    mouse: DeviceNumber,
    yaw_delta: int,
    pitch_delta: int,
)
    ensures
        s.after_window_event(event).count >= s.count,
        s.after_motion(mouse, yaw_delta, pitch_delta).count >= s.count,
{
}

/// Whoever has a device is playing.
pub proof fn law_owners_are_playing(s: AppView, device: DeviceNumber)
    requires
        s.wf(),
    ensures
        s.owner_of_mouse(device) matches Some(i) ==> i < s.count,
        s.owner_of_keyboard(device) matches Some(i) ==> i < s.count,
{
    law_player_count_is_in_range(s);
    lemma_first_slot(mice(s.players), Some(device), s.owner_of_mouse(device));
    lemma_first_slot(keyboards(s.players), Some(device), s.owner_of_keyboard(device));
}

/// Shots are fired by players who are playing.
pub proof fn law_shooters_are_playing(s: AppView, event: WindowEvent)
    requires
        s.wf(),
    ensures
        s.action(event) matches Action::Shoot(i) ==> i < s.after_window_event(event).count,
{
    if let WindowEvent::MouseInput { device, pressed } = event {
        law_new_mouse_keeps_wf(s, device);
        law_owners_are_playing(s.knowing_mouse(device), device);
    }
}

/// Owners do not change when a free slot is taken by somebody else.
proof fn lemma_claim_keeps_owner(
    slots: Seq<Option<DeviceNumber>>,
    device: DeviceNumber,
    other: DeviceNumber,
)
    requires
        slots.len() <= usize::MAX,
        first_slot(slots, None) is Some,
        first_slot(slots, Some(device)) is Some,
        other != device,
    ensures
        first_slot(slots.update(filled(slots), Some(other)), Some(device)) == first_slot(
            slots,
            Some(device),
        ),
{
    lemma_first_slot(slots, None, first_slot(slots, None));
    lemma_first_slot(slots, Some(device), first_slot(slots, Some(device)));
    let after = slots.update(filled(slots), Some(other));
    lemma_first_slot_is(after, Some(device), first_slot(slots, Some(device)).unwrap() as int);
}

/// Hearing of a mouse takes no mouse from its player.
pub proof fn law_mice_are_kept(s: AppView, mouse: DeviceNumber, heard: DeviceNumber)
    requires
        s.wf(),
        s.owner_of_mouse(mouse) is Some,
    ensures
        s.knowing_mouse(heard).owner_of_mouse(mouse) == s.owner_of_mouse(mouse),
{
    if s.owner_of_mouse(heard) is None && first_slot(mice(s.players), None) is Some {
        let i = filled(mice(s.players));
        lemma_first_slot(mice(s.players), None, first_slot(mice(s.players), None));
        lemma_mice_updated(s.players, i, Player { mouse: Some(heard), ..s.players[i] });
        lemma_claim_keeps_owner(mice(s.players), mouse, heard);
    }
}

/// Hearing of a keyboard takes no keyboard from its player.
pub proof fn law_keyboards_are_kept(s: AppView, keyboard: DeviceNumber, heard: DeviceNumber)
    requires
        s.wf(),
        s.owner_of_keyboard(keyboard) is Some,
    ensures
        s.knowing_keyboard(heard).owner_of_keyboard(keyboard) == s.owner_of_keyboard(keyboard),
{
    if s.owner_of_keyboard(heard) is None && first_slot(keyboards(s.players), None) is Some {
        let i = filled(keyboards(s.players));
        lemma_first_slot(keyboards(s.players), None, first_slot(keyboards(s.players), None));
        lemma_mice_updated(s.players, i, Player { keyboard: Some(heard), ..s.players[i] });
        lemma_claim_keeps_owner(keyboards(s.players), keyboard, heard);
    }
}

/// A device stays with its player for good, whatever window events come.
pub proof fn law_devices_stay_with_their_players(
    s: AppView,
    event: WindowEvent,
    device: DeviceNumber,
)
    requires
        s.wf(),
    ensures
        s.owner_of_mouse(device) is Some ==> s.after_window_event(event).owner_of_mouse(device)
            == s.owner_of_mouse(device),
        s.owner_of_keyboard(device) is Some ==> s.after_window_event(event).owner_of_keyboard(
            device,
        ) == s.owner_of_keyboard(device),
{
    match event {
        WindowEvent::MouseInput { device: heard, pressed } => {
            if s.owner_of_mouse(device) is Some {
                law_mice_are_kept(s, device, heard);
            }
            lemma_first_slot(mice(s.players), None, first_slot(mice(s.players), None));
            if first_slot(mice(s.players), None) is Some {
                let i = filled(mice(s.players));
                lemma_mice_updated(s.players, i, Player { mouse: Some(heard), ..s.players[i] });
                assert(keyboards(s.players).update(i, s.players[i].keyboard) =~= keyboards(
                    s.players,
                ));
            }
        },
        WindowEvent::KeyboardInput { device: heard, key, pressed } => {
            if s.owner_of_keyboard(device) is Some {
                law_keyboards_are_kept(s, device, heard);
            }
            lemma_first_slot(keyboards(s.players), None, first_slot(keyboards(s.players), None));
            if first_slot(keyboards(s.players), None) is Some {
                let i = filled(keyboards(s.players));
                lemma_mice_updated(s.players, i, Player { keyboard: Some(heard), ..s.players[i] });
                assert(mice(s.players).update(i, s.players[i].mouse) =~= mice(s.players));
            }
            let known = s.knowing_keyboard(heard);
            law_new_keyboard_keeps_wf(s, heard);
            match (known.owner_of_keyboard(heard), key_bit(key)) {
                (Some(i), Some(bit)) => {
                    lemma_first_slot(keyboards(known.players), Some(heard), Some(i));
                    let p = known.with_key(i as int, bit, pressed).players[i as int];
                    lemma_mice_updated(known.players, i as int, p);
                    assert(mice(known.players).update(i as int, p.mouse) =~= mice(known.players));
                    assert(keyboards(known.players).update(i as int, p.keyboard) =~= keyboards(
                        known.players,
                    ));
                },
                _ => {},
            }
        },
        _ => {},
    }
}

/// A device stays with its player for good, however the mice move.
pub proof fn law_motion_keeps_devices(
    s: AppView,
    moving: DeviceNumber,
    yaw_delta: int,
    pitch_delta: int,
    device: DeviceNumber,
)
    requires
        s.wf(),
    ensures
        s.owner_of_mouse(device) is Some ==> s.after_motion(
            moving,
            yaw_delta,
            pitch_delta,
        ).owner_of_mouse(device) == s.owner_of_mouse(device),
        s.after_motion(moving, yaw_delta, pitch_delta).owner_of_keyboard(device)
            == s.owner_of_keyboard(device),
{
    if s.owner_of_mouse(device) is Some {
        law_mice_are_kept(s, device, moving);
    }
    lemma_first_slot(mice(s.players), None, first_slot(mice(s.players), None));
    if first_slot(mice(s.players), None) is Some {
        let i = filled(mice(s.players));
        lemma_mice_updated(s.players, i, Player { mouse: Some(moving), ..s.players[i] });
        assert(keyboards(s.players).update(i, s.players[i].keyboard) =~= keyboards(s.players));
    }
    let known = s.knowing_mouse(moving);
    if let Some(i) = known.owner_of_mouse(moving) {
        lemma_first_slot(mice(known.players), Some(moving), Some(i));
        let p = known.with_look(i as int, yaw_delta, pitch_delta).players[i as int];
        lemma_mice_updated(known.players, i as int, p);
        assert(mice(known.players).update(i as int, p.mouse) =~= mice(known.players));
        assert(keyboards(known.players).update(i as int, p.keyboard) =~= keyboards(known.players));
    }
}

/// Input reaches nobody but the player whose device it comes from.
pub proof fn law_input_reaches_its_player_only(
    s: AppView,
    device: DeviceNumber,
    key: Key,
    pressed: bool,
    yaw_delta: int,
    pitch_delta: int,
    j: int,
)
    requires
        s.wf(),
        0 <= j < s.players.len(),
    ensures
        s.knowing_keyboard(device).owner_of_keyboard(device) != Some(j as usize)
            ==> s.after_window_event(
            WindowEvent::KeyboardInput { device, key, pressed },
        ).players[j] == s.players[j],
        s.knowing_mouse(device).owner_of_mouse(device) != Some(j as usize) ==> s.after_motion(
            device,
            yaw_delta,
            pitch_delta,
        ).players[j] == s.players[j],
{
    lemma_first_slot(mice(s.players), None, first_slot(mice(s.players), None));
    lemma_first_slot(keyboards(s.players), None, first_slot(keyboards(s.players), None));
    if s.owner_of_mouse(device) is None && first_slot(mice(s.players), None) is Some {
        let i = filled(mice(s.players));
        lemma_claim(mice(s.players), device);
        lemma_mice_updated(s.players, i, Player { mouse: Some(device), ..s.players[i] });
    }
    if s.owner_of_keyboard(device) is None && first_slot(keyboards(s.players), None) is Some {
        let i = filled(keyboards(s.players));
        lemma_claim(keyboards(s.players), device);
        lemma_mice_updated(s.players, i, Player { keyboard: Some(device), ..s.players[i] });
    }
    let m = s.knowing_mouse(device);
    lemma_first_slot(mice(m.players), Some(device), m.owner_of_mouse(device));
    let k = s.knowing_keyboard(device);
    lemma_first_slot(keyboards(k.players), Some(device), k.owner_of_keyboard(device));
}

/// A mouse that is heard of while a slot is free belongs to a player from then on, and the press
/// it was heard by is already that player's shot.
pub proof fn law_new_mouse_shoots_at_once(s: AppView, mouse: DeviceNumber)
    requires
        s.wf(),
        s.owner_of_mouse(mouse) is None,
        filled(mice(s.players)) < MAX_PLAYER_COUNT,
    ensures
        s.action(WindowEvent::MouseInput { device: mouse, pressed: true }) == Action::Shoot(
            filled(mice(s.players)) as usize,
        ),
        s.after_window_event(
            WindowEvent::MouseInput { device: mouse, pressed: true },
        ).owner_of_mouse(mouse) == Some(filled(mice(s.players)) as usize),
{
    lemma_first_slot(mice(s.players), None, first_slot(mice(s.players), None));
    let i = filled(mice(s.players));
    lemma_claim(mice(s.players), mouse);
    lemma_mice_updated(s.players, i, Player { mouse: Some(mouse), ..s.players[i] });
}

/// Once every player has a mouse, a further one changes nothing and fires no shot.
pub proof fn law_further_mouse_is_ignored(s: AppView, mouse: DeviceNumber, pressed: bool)
    requires
        s.wf(),
        s.owner_of_mouse(mouse) is None,
        filled(mice(s.players)) == MAX_PLAYER_COUNT,
    ensures
        s.after_window_event(WindowEvent::MouseInput { device: mouse, pressed }) == s,
        s.action(WindowEvent::MouseInput { device: mouse, pressed }) == Action::Nothing,
        forall|yaw: int, pitch: int| #[trigger] s.after_motion(mouse, yaw, pitch) == s,
{
    lemma_first_slot(mice(s.players), None, first_slot(mice(s.players), None));
}

/// Once every player has a keyboard, a further one changes nothing.
pub proof fn law_further_keyboard_is_ignored(
    s: AppView,
    keyboard: DeviceNumber,
    key: Key,
    pressed: bool,
)
    requires
        s.wf(),
        s.owner_of_keyboard(keyboard) is None,
        filled(keyboards(s.players)) == MAX_PLAYER_COUNT,
    ensures
        s.after_window_event(WindowEvent::KeyboardInput { device: keyboard, key, pressed }) == s,
{
    lemma_first_slot(keyboards(s.players), None, first_slot(keyboards(s.players), None));
}

/// Releasing a key undoes pressing it.
pub proof fn law_release_undoes_press(s: AppView, i: int, bit: u8)
    requires
        0 <= i < s.players.len(),
        s.players[i].wasd & bit == 0,
    ensures
        s.with_key(i, bit, true).with_key(i, bit, false) == s,
{
    let wasd = s.players[i].wasd;
    assert((wasd | bit) & !bit == wasd) by (bit_vector)
        requires
            wasd & bit == 0,
    ;
    assert(s.with_key(i, bit, true).with_key(i, bit, false).players =~= s.players);
}

/// While a key is down its bit is set, and no other key's bit depends on it.
pub proof fn law_keys_are_independent(s: AppView, i: int, bit: u8, other: u8, pressed: bool)
    requires
        0 <= i < s.players.len(),
        bit & other == 0,
    ensures
        s.with_key(i, bit, pressed).players[i].wasd & other == s.players[i].wasd & other,
        s.with_key(i, bit, true).players[i].wasd & bit == bit,
        s.with_key(i, bit, false).players[i].wasd & bit == 0,
{
    let wasd = s.players[i].wasd;
    assert((wasd | bit) & other == wasd & other && (wasd & !bit) & other == wasd & other)
        by (bit_vector)
        requires
            bit & other == 0,
    ;
    assert((wasd | bit) & bit == bit && (wasd & !bit) & bit == 0) by (bit_vector);
}

/// Whether player `i` is the one whom the mouse `device` speaks for: the first who has it or, while
/// nobody has it, the first who has none.
pub open spec fn mouse_speaks_for(players: Seq<Player>, device: DeviceNumber, i: int) -> bool {
    &&& 0 <= i < players.len()
    &&& {
        ||| players[i].mouse == Some(device) && forall|j: int|
            0 <= j < i ==> (#[trigger] players[j]).mouse != Some(device)
        ||| players[i].mouse is None && (forall|j: int|
            0 <= j < i ==> (#[trigger] players[j]).mouse is Some) && forall|j: int|
            0 <= j < players.len() ==> (#[trigger] players[j]).mouse != Some(device)
    }
}

/// Whether player `i` is the one whom the keyboard `device` speaks for: the first who has it or,
/// while nobody has it, the first who has none.
pub open spec fn keyboard_speaks_for(players: Seq<Player>, device: DeviceNumber, i: int) -> bool {
    &&& 0 <= i < players.len()
    &&& {
        ||| players[i].keyboard == Some(device) && forall|j: int|
            0 <= j < i ==> (#[trigger] players[j]).keyboard != Some(device)
        ||| players[i].keyboard is None && (forall|j: int|
            0 <= j < i ==> (#[trigger] players[j]).keyboard is Some) && forall|j: int|
            0 <= j < players.len() ==> (#[trigger] players[j]).keyboard != Some(device)
    }
}

/// Whether the mouse `device` speaks for nobody: everybody has another one.
pub open spec fn mouse_speaks_for_nobody(players: Seq<Player>, device: DeviceNumber) -> bool {
    forall|j: int|
        0 <= j < players.len() ==> (#[trigger] players[j]).mouse is Some && players[j].mouse
            != Some(device)
}

/// Whether the keyboard `device` speaks for nobody: everybody has another one.
pub open spec fn keyboard_speaks_for_nobody(players: Seq<Player>, device: DeviceNumber) -> bool {
    forall|j: int|
        0 <= j < players.len() ==> (#[trigger] players[j]).keyboard is Some && players[j].keyboard
            != Some(device)
}

/// What hearing of a mouse does, by the player it speaks for.
proof fn lemma_hearing_of_a_mouse(s: AppView, device: DeviceNumber, i: int)
    requires
        s.players.len() <= usize::MAX,
    ensures
        mouse_speaks_for(s.players, device, i) ==> {
            let known = s.knowing_mouse(device);
            &&& known.owner_of_mouse(device) == Some(i as usize)
            &&& known.players == s.players.update(
                i,
                Player { mouse: Some(device), ..s.players[i] },
            )
            &&& known.count == (if s.players[i].mouse is None && s.count < i + 1 {
                i + 1
            } else {
                s.count
            })
            &&& known == AppView { players: known.players, count: known.count, ..s }
        },
        mouse_speaks_for_nobody(s.players, device) ==> s.knowing_mouse(device) == s
            && s.owner_of_mouse(device) is None,
{
    let slots = mice(s.players);
    if mouse_speaks_for(s.players, device, i) {
        if s.players[i].mouse == Some(device) {
            assert forall|j: int| 0 <= j < i implies #[trigger] slots[j] != Some(device) by {
                assert(s.players[j].mouse != Some(device));
            }
            lemma_first_slot_is(slots, Some(device), i);
            assert(s.players.update(i, Player { mouse: Some(device), ..s.players[i] })
                =~= s.players);
        } else {
            assert forall|j: int| 0 <= j < slots.len() implies #[trigger] slots[j] != Some(
                device,
            ) by {
                assert(s.players[j].mouse != Some(device));
            }
            assert forall|j: int| 0 <= j < i implies #[trigger] slots[j] is Some by {
                assert(s.players[j].mouse is Some);
            }
            lemma_first_slot_is(slots, Some(device), slots.len() as int);
            lemma_first_slot_is(slots, None, i);
            let p = Player { mouse: Some(device), ..s.players[i] };
            lemma_mice_updated(s.players, i, p);
            lemma_first_slot_is(slots.update(i, Some(device)), Some(device), i);
        }
    }
    if mouse_speaks_for_nobody(s.players, device) {
        assert forall|j: int| 0 <= j < slots.len() implies #[trigger] slots[j] != Some(device)
            && slots[j] is Some by {
            assert(s.players[j].mouse is Some && s.players[j].mouse != Some(device));
        }
        lemma_first_slot_is(slots, Some(device), slots.len() as int);
        lemma_first_slot_is(slots, None, slots.len() as int);
    }
}

/// What hearing of a keyboard does, by the player it speaks for.
proof fn lemma_hearing_of_a_keyboard(s: AppView, device: DeviceNumber, i: int)
    requires
        s.players.len() <= usize::MAX,
    ensures
        keyboard_speaks_for(s.players, device, i) ==> {
            let known = s.knowing_keyboard(device);
            &&& known.owner_of_keyboard(device) == Some(i as usize)
            &&& known.players == s.players.update(
                i,
                Player { keyboard: Some(device), ..s.players[i] },
            )
            &&& known.count == (if s.players[i].keyboard is None && s.count < i + 1 {
                i + 1
            } else {
                s.count
            })
            &&& known == AppView { players: known.players, count: known.count, ..s }
        },
        keyboard_speaks_for_nobody(s.players, device) ==> s.knowing_keyboard(device) == s
            && s.owner_of_keyboard(device) is None,
{
    let slots = keyboards(s.players);
    if keyboard_speaks_for(s.players, device, i) {
        if s.players[i].keyboard == Some(device) {
            assert forall|j: int| 0 <= j < i implies #[trigger] slots[j] != Some(device) by {
                assert(s.players[j].keyboard != Some(device));
            }
            lemma_first_slot_is(slots, Some(device), i);
            assert(s.players.update(i, Player { keyboard: Some(device), ..s.players[i] })
                =~= s.players);
        } else {
            assert forall|j: int| 0 <= j < slots.len() implies #[trigger] slots[j] != Some(
                device,
            ) by {
                assert(s.players[j].keyboard != Some(device));
            }
            assert forall|j: int| 0 <= j < i implies #[trigger] slots[j] is Some by {
                assert(s.players[j].keyboard is Some);
            }
            lemma_first_slot_is(slots, Some(device), slots.len() as int);
            lemma_first_slot_is(slots, None, i);
            let p = Player { keyboard: Some(device), ..s.players[i] };
            lemma_mice_updated(s.players, i, p);
            lemma_first_slot_is(slots.update(i, Some(device)), Some(device), i);
        }
    }
    if keyboard_speaks_for_nobody(s.players, device) {
        assert forall|j: int| 0 <= j < slots.len() implies #[trigger] slots[j] != Some(device)
            && slots[j] is Some by {
            assert(s.players[j].keyboard is Some && s.players[j].keyboard != Some(device));
        }
        lemma_first_slot_is(slots, Some(device), slots.len() as int);
        lemma_first_slot_is(slots, None, slots.len() as int);
    }
}

/// A press of a mouse fires a shot of the player it speaks for, who has it from then on, and whose
/// joining can only make the number of players grow. Nobody and nothing else changes, and the press
/// of a mouse that speaks for nobody does nothing at all.
pub proof fn law_press_shoots_for_the_owner(
    app: &mut App,
    device: DeviceNumber,
    action: Action,
    i: int,
)
    requires
        call_ensures(
            App::window_event,
            (app, WindowEvent::MouseInput { device, pressed: true }),
            action,
        ),
    ensures
        mouse_speaks_for(old(app).players@, device, i) ==> {
            &&& action == Action::Shoot(i as usize)
            &&& final(app).players@ == old(app).players@.update(
                i,
                Player { mouse: Some(device), ..old(app).players@[i] },
            )
            &&& final(app).player_count == (if old(app).players@[i].mouse is None && old(app).player_count <= i {
                i + 1
            } else {
                old(app).player_count as int
            })
            &&& final(app).edges@ == old(app).edges@
            &&& final(app).random == old(app).random
            &&& final(app).frame == old(app).frame
        },
        mouse_speaks_for_nobody(old(app).players@, device) ==> action == Action::Nothing && final(app)@ == old(app)@,
{
    lemma_hearing_of_a_mouse(old(app)@, device, i);
}

/// Letting a mouse button go does nothing, whoever has the mouse.
pub proof fn law_letting_go_does_nothing(app: &mut App, device: DeviceNumber, action: Action)
    requires
        call_ensures(
            App::window_event,
            (app, WindowEvent::MouseInput { device, pressed: false }),
            action,
        ),
    ensures
        action == Action::Nothing,
        final(app)@ == old(app)@,
{
}

/// A shot is only ever fired by a press of the shooter's own mouse.
pub proof fn law_shots_come_from_the_own_mouse(
    app: &mut App,
    event: WindowEvent,
    action: Action,
    i: usize,
)
    requires
        call_ensures(App::window_event, (app, event), action),
        action == Action::Shoot(i),
    ensures
        event matches WindowEvent::MouseInput { device, pressed } && pressed && i < 4 && final(app).players@[i as int].mouse == Some(device),
{
    if let WindowEvent::MouseInput { device, pressed } = event {
        let known = old(app)@.knowing_mouse(device);
        lemma_first_slot(mice(known.players), Some(device), known.owner_of_mouse(device));
    }
}

/// Motion of a mouse turns and tilts the view of the player it speaks for, by as much as it says
/// and never past straight up or straight down, and gives the player the mouse. Nobody and nothing
/// else changes, and a mouse that speaks for nobody moves nothing.
pub proof fn law_motion_moves_the_view_of_the_owner(
    app: &mut App,
    device: DeviceNumber,
    yaw_delta: i32,
    pitch_delta: i32,
    i: int,
)
    requires
        call_ensures(App::device_event, (app, device, yaw_delta, pitch_delta), ()),
    ensures
        mouse_speaks_for(old(app).players@, device, i) ==> {
            let (p, q) = (old(app).players@[i], final(app).players@[i]);
            &&& final(app).players@ == old(app).players@.update(
                i,
                Player { mouse: Some(device), yaw: q.yaw, pitch: q.pitch, ..p },
            )
            &&& (q.yaw - (p.yaw + yaw_delta)) % 0x1_0000_0000 == 0
            &&& -0x4000_0000 <= p.pitch - pitch_delta <= 0x4000_0000 ==> q.pitch == p.pitch
                - pitch_delta
            &&& p.pitch - pitch_delta < -0x4000_0000 ==> q.pitch == -0x4000_0000
            &&& p.pitch - pitch_delta > 0x4000_0000 ==> q.pitch == 0x4000_0000
            &&& final(app).player_count == (if p.mouse is None && old(app).player_count <= i {
                i + 1
            } else {
                old(app).player_count as int
            })
            &&& final(app).edges@ == old(app).edges@
            &&& final(app).random == old(app).random
            &&& final(app).frame == old(app).frame
        },
        mouse_speaks_for_nobody(old(app).players@, device) ==> final(app)@ == old(app)@,
{
    lemma_hearing_of_a_mouse(old(app)@, device, i);
    if mouse_speaks_for(old(app).players@, device, i) {
        let (p, q) = (old(app).players@[i], final(app).players@[i]);
        assert(final(app).players@ =~= old(app).players@.update(
            i,
            Player { mouse: Some(device), yaw: q.yaw, pitch: q.pitch, ..p },
        ));
    }
}

proof fn lemma_bit_goes_down_and_up(wasd: u8, bit: u8)
    requires
        bit == 1 || bit == 2 || bit == 4 || bit == 8 || bit == 16,
    ensures
        (wasd | bit) == (if (wasd / bit) % 2 == 1 {
            wasd as int
        } else {
            wasd + bit
        }),
        (wasd & !bit) == (if (wasd / bit) % 2 == 1 {
            wasd - bit
        } else {
            wasd as int
        }),
{
    assert((wasd | bit) == (if (wasd / bit) % 2 == 1 {
        wasd as int
    } else {
        wasd + bit
    })) by (bit_vector)
        requires
            bit == 1 || bit == 2 || bit == 4 || bit == 8 || bit == 16,
    ;
    assert((wasd & !bit) == (if (wasd / bit) % 2 == 1 {
        wasd - bit
    } else {
        wasd as int
    })) by (bit_vector)
        requires
            bit == 1 || bit == 2 || bit == 4 || bit == 8 || bit == 16,
    ;
}

/// A key that goes down adds its bit to the keys that the player of the keyboard holds, unless it
/// is there already, and takes it out again when it goes up, unless it is not there; the player has
/// the keyboard from then on. A key without a bit changes no held key. Nobody and nothing else
/// changes, and a keyboard that speaks for nobody changes nothing. Letting the escape key go is
/// left to [`law_actions_by_event`].
#[verifier::rlimit(50)]
pub proof fn law_keys_are_held_while_down(
    app: &mut App,
    device: DeviceNumber,
    key: Key,
    pressed: bool,
    action: Action,
    bit: Option<u8>,
    i: int,
)
    requires
        call_ensures(
            App::window_event,
            (app, WindowEvent::KeyboardInput { device, key, pressed }),
            action,
        ),
        call_ensures(bit_of_key, (&key,), bit),
        pressed || !(key is Escape),
    ensures
        action == Action::Nothing,
        keyboard_speaks_for(old(app).players@, device, i) ==> {
            let (p, q) = (old(app).players@[i], final(app).players@[i]);
            &&& final(app).players@ == old(app).players@.update(
                i,
                Player { keyboard: Some(device), wasd: q.wasd, ..p },
            )
            &&& bit is None ==> q.wasd == p.wasd
            &&& bit matches Some(b) ==> b > 0 && ({
                let down = (p.wasd / b) % 2 == 1;
                q.wasd == (if pressed && !down {
                    p.wasd + b
                } else if !pressed && down {
                    p.wasd - b
                } else {
                    p.wasd as int
                })
            })
            &&& final(app).player_count == (if p.keyboard is None && old(app).player_count <= i {
                i + 1
            } else {
                old(app).player_count as int
            })
            &&& final(app).edges@ == old(app).edges@
            &&& final(app).random == old(app).random
            &&& final(app).frame == old(app).frame
        },
        keyboard_speaks_for_nobody(old(app).players@, device) ==> final(app)@ == old(app)@,
{
    lemma_hearing_of_a_keyboard(old(app)@, device, i);
    law_five_keys_have_bits(&key, bit);
    if keyboard_speaks_for(old(app).players@, device, i) {
        let (p, q) = (old(app).players@[i], final(app).players@[i]);
        if let Some(b) = bit {
            lemma_bit_goes_down_and_up(p.wasd, b);
        }
        assert(final(app).players@ =~= old(app).players@.update(
            i,
            Player { keyboard: Some(device), wasd: q.wasd, ..p },
        ));
    }
}

/// The game ends exactly when its window is asked to close or the escape key is let go, and then
/// nothing changes any more. A frame is drawn exactly when it is asked for. A new size of the
/// window concerns the swapchain alone. Other events do nothing.
pub proof fn law_actions_by_event(app: &mut App, event: WindowEvent, action: Action)
    requires
        call_ensures(App::window_event, (app, event), action),
    ensures
        action == Action::Exit <==> (event is CloseRequested || (event matches
            WindowEvent::KeyboardInput { key, pressed, .. } && key is Escape && !pressed)),
        action == Action::Redraw <==> event is RedrawRequested,
        action is Shoot ==> event is MouseInput,
        action == Action::Exit || action == Action::Redraw || event is Other ==> final(app)@ == old(app)@,
        event is Resized ==> {
            &&& final(app).players@ == old(app).players@
            &&& final(app).player_count == old(app).player_count
            &&& final(app).edges@ == old(app).edges@
            &&& final(app).random == old(app).random
            &&& final(app).frame.ready == old(app).frame.ready
            &&& final(app).frame.last_frame == old(app).frame.last_frame
            &&& final(app).frame.recreate_swapchain == (old(app).frame.recreate_swapchain || old(app).frame.ready)
        },
{
}

/// What the rules of the game keep up, said of the players one by one: a device has at most one
/// player, and whoever has a mouse or a keyboard comes before everybody without one; those playing
/// are the first player and everybody up to the last with a device; nobody looks past straight up
/// or straight down or holds a key that there is not; and everybody is of the same size.
pub proof fn law_rules_of_the_game(s: AppView, i: int, j: int, device: DeviceNumber)
    requires
        s.wf(),
        0 <= i < j < 4,
    ensures
        s.players.len() == 4,
        s.players[i].mouse == Some(device) ==> s.players[j].mouse != Some(device),
        s.players[i].keyboard == Some(device) ==> s.players[j].keyboard != Some(device),
        s.players[i].mouse is None ==> s.players[j].mouse is None,
        s.players[i].keyboard is None ==> s.players[j].keyboard is None,
        1 <= s.count <= 4,
        s.players[j].mouse is Some || s.players[j].keyboard is Some ==> j < s.count,
        s.count > 1 ==> s.players[s.count - 1].mouse is Some || s.players[s.count - 1].keyboard
            is Some,
        -0x4000_0000 <= s.players[i].pitch <= 0x4000_0000,
        -0x4000_0000 <= s.players[j].pitch <= 0x4000_0000,
        s.players[i].wasd < 32 && s.players[j].wasd < 32,
        s.players[i].radius == 128 && s.players[j].radius == 128,
        s.players[i].height == 384 && s.players[j].height == 384,
        s.edges.len() == 52,
{
    let (m, k) = (mice(s.players), keyboards(s.players));
    law_player_count_is_in_range(s);
    lemma_first_slot(m, None, first_slot(m, None));
    lemma_first_slot(k, None, first_slot(k, None));
    assert(m[i] == s.players[i].mouse && m[j] == s.players[j].mouse);
    assert(k[i] == s.players[i].keyboard && k[j] == s.players[j].keyboard);
    assert(player_wf(s.players[i]) && player_wf(s.players[j]));
    if s.count > 1 {
        let last = s.count - 1;
        assert(m[last] == s.players[last].mouse && k[last] == s.players[last].keyboard);
    }
}

/// A new game has one player playing, nobody with a device and no window. Everybody is where
/// players enter, and the lines are those of the map.
pub proof fn law_new_game(a: App, i: int, edges: &mut [[i64; 6]], line: int)
    requires
        call_ensures(App::new, (), a),
        call_ensures(init_edges, (20, edges, 52), ()),
        old(edges)@.len() == 52,
        0 <= i < 4,
        0 <= line < 52,
    ensures
        a@.wf(),
        a.player_count == 1,
        a.random == 0x9e3779b97f4a7c15,
        !a.frame.ready && !a.frame.recreate_swapchain && a.frame.last_frame is None,
        a.players@[i].mouse is None && a.players@[i].keyboard is None,
        a.players@[i].wasd == 0,
        is_spawned(a.players@[i], i),
        a.edges@.len() == 52,
        a.edges@[line]@ == final(edges)@[line]@,
{
    assert(is_spawned(a.players[i], i));
    assert(is_map_line(a.edges@[line], MAP_BOX_SCALE as int, line));
    assert(is_map_line(final(edges)@[line], MAP_BOX_SCALE as int, line));
    assert forall|k: int| 0 <= k < 6 implies a.edges@[line][k] == final(edges)@[line][k] by {}
    assert(a.edges@[line]@ =~= final(edges)@[line]@);
}

/// A window changes nothing but when and where frames are drawn: the game is ready, its swapchain
/// fits, and time counts from now.
pub proof fn law_window_makes_the_game_ready(app: &mut App, now: u128)
    requires
        call_ensures(App::resumed, (app, now), ()),
    ensures
        final(app).frame.ready,
        !final(app).frame.recreate_swapchain,
        final(app).frame.last_frame == Some(now),
        final(app).players@ == old(app).players@,
        final(app).player_count == old(app).player_count,
        final(app).edges@ == old(app).edges@,
        final(app).random == old(app).random,
{
}

/// A game is drawn over and over as soon as it has a window, and not before.
pub proof fn law_ready_game_is_redrawn(app: &App, redraw: bool)
    requires
        call_ensures(App::about_to_wait, (app,), redraw),
    ensures
        redraw <==> app.frame.ready,
{
}

/// A device is found at the first player who has it, and nowhere exactly if nobody has it.
pub proof fn law_owners_are_found(
    app: &App,
    device: DeviceNumber,
    mouse: Option<usize>,
    keyboard: Option<usize>,
    i: int,
)
    requires
        call_ensures(App::whose_mouse, (app, device), mouse),
        call_ensures(App::whose_keyboard, (app, device), keyboard),
        0 <= i < 4,
    ensures
        mouse == Some(i as usize) <==> app.players@[i].mouse == Some(device) && forall|j: int|
            0 <= j < i ==> (#[trigger] app.players@[j]).mouse != Some(device),
        mouse is None ==> app.players@[i].mouse != Some(device),
        keyboard == Some(i as usize) <==> app.players@[i].keyboard == Some(device) && forall|j: int|
            0 <= j < i ==> (#[trigger] app.players@[j]).keyboard != Some(device),
        keyboard is None ==> app.players@[i].keyboard != Some(device),
        mouse matches Some(o) ==> o < 4,
        keyboard matches Some(o) ==> o < 4,
{
    let (m, k) = (mice(app.players@), keyboards(app.players@));
    lemma_first_slot(m, Some(device), mouse);
    lemma_first_slot(k, Some(device), keyboard);
    assert forall|j: int| 0 <= j < 4 implies m[j] == (#[trigger] app.players@[j]).mouse && k[j]
        == app.players@[j].keyboard by {}
    if app.players@[i].mouse == Some(device) && forall|j: int|
        0 <= j < i ==> (#[trigger] app.players@[j]).mouse != Some(device) {
        lemma_first_slot_is(m, Some(device), i);
    }
    if app.players@[i].keyboard == Some(device) && forall|j: int|
        0 <= j < i ==> (#[trigger] app.players@[j]).keyboard != Some(device) {
        lemma_first_slot_is(k, Some(device), i);
    }
}

/// A mouse is claimed for the first player without one, who is playing from then on. Nobody and
/// nothing else changes, and nothing at all if everybody has one.
pub proof fn law_mouse_is_claimed_for_the_first_without(app: &mut App, mouse: DeviceNumber, i: int)
    requires
        call_ensures(App::claim_mouse, (app, mouse), ()),
    ensures
        0 <= i < 4 && old(app).players@[i].mouse is None && (forall|j: int|
            0 <= j < i ==> (#[trigger] old(app).players@[j]).mouse is Some) ==> {
            &&& final(app).players@ == old(app).players@.update(
                i,
                Player { mouse: Some(mouse), ..old(app).players@[i] },
            )
            &&& final(app).player_count == (if old(app).player_count <= i {
                i + 1
            } else {
                old(app).player_count as int
            })
            &&& final(app).edges@ == old(app).edges@
            &&& final(app).random == old(app).random
            &&& final(app).frame == old(app).frame
        },
        (forall|j: int| 0 <= j < 4 ==> (#[trigger] old(app).players@[j]).mouse is Some) ==> final(app)@ == old(app)@,
{
    let m = mice(old(app).players@);
    assert forall|j: int| 0 <= j < 4 implies m[j] == (#[trigger] old(app).players@[j]).mouse by {}
    lemma_first_slot(m, None, first_slot(m, None));
    if 0 <= i < 4 && m[i] is None && (forall|j: int| 0 <= j < i ==> (#[trigger] m[j]) is Some) {
        lemma_first_slot_is(m, None, i);
    }
}

/// A keyboard is claimed for the first player without one, who is playing from then on. Nobody and
/// nothing else changes, and nothing at all if everybody has one.
pub proof fn law_keyboard_is_claimed_for_the_first_without(
    app: &mut App,
    keyboard: DeviceNumber,
    i: int,
)
    requires
        call_ensures(App::claim_keyboard, (app, keyboard), ()),
    ensures
        0 <= i < 4 && old(app).players@[i].keyboard is None && (forall|j: int|
            0 <= j < i ==> (#[trigger] old(app).players@[j]).keyboard is Some) ==> {
            &&& final(app).players@ == old(app).players@.update(
                i,
                Player { keyboard: Some(keyboard), ..old(app).players@[i] },
            )
            &&& final(app).player_count == (if old(app).player_count <= i {
                i + 1
            } else {
                old(app).player_count as int
            })
            &&& final(app).edges@ == old(app).edges@
            &&& final(app).random == old(app).random
            &&& final(app).frame == old(app).frame
        },
        (forall|j: int| 0 <= j < 4 ==> (#[trigger] old(app).players@[j]).keyboard is Some)
            ==> final(app)@ == old(app)@,
{
    let k = keyboards(old(app).players@);
    assert forall|j: int| 0 <= j < 4 implies k[j] == (#[trigger] old(app).players@[j]).keyboard by {}
    lemma_first_slot(k, None, first_slot(k, None));
    if 0 <= i < 4 && k[i] is None && (forall|j: int| 0 <= j < i ==> (#[trigger] k[j]) is Some) {
        lemma_first_slot_is(k, None, i);
    }
}

/// A shot in a game moves exactly the players it meets, of those playing and other than the
/// shooter, each to where the next three bytes of the game's generator say. Nobody and nothing else
/// changes but the generator, by three steps for each player moved.
pub proof fn law_shot_in_a_game(
    app: &mut App,
    shooter: usize,
    aims: &[[Aim; 2]],
    moved: Vec<bool>,
    i: int,
)
    requires
        call_ensures(App::shoot, (app, shooter, aims), moved),
        0 <= i < 4,
    ensures
        i < moved@.len() <==> i < old(app).player_count,
        moved@.len() <= 4,
        i < moved@.len() ==> (moved@[i] <==> i != shooter && exists|k: int|
            0 <= k < 2 && (#[trigger] aims@[i][k]).in_reach && !aims@[i][k].behind),
        i < moved@.len() && moved@[i] ==> ({
            let (p, q) = (old(app).players@[i], final(app).players@[i]);
            let h = hits(shooter as int, aims@, i);
            &&& q.place[0] == 20 * (state_byte(drawn(old(app).random, 3 * h + 1)) - 128)
            &&& q.place[1] == 20 * (state_byte(drawn(old(app).random, 3 * h + 2)) - 128)
            &&& q.place[2] == 20 * (state_byte(drawn(old(app).random, 3 * h + 3)) - 128)
            &&& q.mouse == p.mouse && q.keyboard == p.keyboard && q.wasd == p.wasd
            &&& q.vel == p.vel && q.yaw == p.yaw && q.pitch == p.pitch
            &&& q.radius == p.radius && q.height == p.height && q.color == p.color
        }),
        i >= moved@.len() || !moved@[i] ==> final(app).players@[i] == old(app).players@[i],
        final(app).random == drawn(
            old(app).random,
            3 * hits(shooter as int, aims@, moved@.len() as int),
        ),
        final(app).player_count == old(app).player_count,
        final(app).edges@ == old(app).edges@,
        final(app).frame == old(app).frame,
{
    lemma_three_draws_per_hit(shooter as int, aims@, i, old(app).random);
    lemma_three_draws_per_hit(shooter as int, aims@, moved@.len() as int, old(app).random);
    if i < moved@.len() {
        let a = aims@[i];
        assert(is_hit(a) <==> exists|k: int|
            0 <= k < 2 && (#[trigger] a[k]).in_reach && !a[k].behind);
        if moved@[i] {
            lemma_moved_by_draws(
                old(app).players@[i],
                final(app).players@[i],
                old(app).random,
                hits(shooter as int, aims@, i),
            );
        }
    }
}

/// A time step of a game settles everybody who is playing, by their own keys and the sides that
/// their own motion ended on.
pub proof fn law_everybody_playing_is_settled(
    app: &App,
    sides: &[[Side; 3]],
    r: Vec<Settled>,
    i: int,
    axis: int,
)
    requires
        call_ensures(App::update, (app, sides), r),
        0 <= i < 4,
        0 <= axis < 3,
    ensures
        r@.len() <= 4,
        i < r@.len() <==> i < app.player_count,
        i < r@.len() ==> {
            &&& r@[i].rest[axis] == Rest::AtLow <==> sides@[i][axis] == Side::Below
            &&& r@[i].rest[axis] == Rest::Free <==> sides@[i][axis] == Side::Within
            &&& r@[i].rest[axis] == Rest::AtHigh <==> sides@[i][axis] == Side::Above
            &&& r@[i].speed[axis] == Speed::Kept <==> sides@[i][axis] == Side::Within
            &&& r@[i].speed[axis] == Speed::Jump <==> axis == 1 && sides@[i][1] != Side::Within && (
            app.players@[i].wasd / 16) % 2 == 1
        },
{
    if i < r@.len() {
        lemma_settled_axis(r@[i], sides@[i], app.players@[i].wasd, axis);
    }
}

/// A game's frame is the frame of those who are playing, in the order of the players.
pub proof fn law_frame_of_a_game(
    app: &App,
    win: (u32, u32),
    sights: &[Sight],
    vertices: &mut Vec<LineVertex>,
    regions: &mut Vec<RegionGeometry>,
    players: &[Player],
    other_vertices: &mut Vec<LineVertex>,
    other_regions: &mut Vec<RegionGeometry>,
)
    requires
        call_ensures(App::build_scene, (app, win.0, win.1, sights, vertices, regions), ()),
        call_ensures(
            crate::scene::build_scene,
            (
                players,
                app.player_count,
                win.0,
                win.1,
                sights,
                other_vertices,
                other_regions,
            ),
            (),
        ),
        players@ == app.players@,
    ensures
        final(vertices)@ == final(other_vertices)@,
        final(regions)@ == final(other_regions)@,
{
    law_frame_is_determined(
        final(vertices)@,
        final(regions)@,
        final(other_vertices)@,
        final(other_regions)@,
        players@,
        app.player_count as int,
        win.0 as int,
        win.1 as int,
        sights@,
    );
}

} // verus!
