use woodeneye::app::{Action, App, WindowEvent};
use woodeneye::frame::FrameState;
use woodeneye::game::{Aim, DeviceNumber, MAX_PLAYER_COUNT};
use woodeneye::input::Key;
use woodeneye::motion::{Side, Speed};
use woodeneye::random::RANDOM_SEED;
use woodeneye::scene::Sight;

fn dev(id: u64) -> DeviceNumber {
    DeviceNumber { id }
}

fn click(app: &mut App, id: u64) -> Action {
    app.window_event(WindowEvent::MouseInput {
        device: dev(id),
        pressed: true,
    })
}

fn key(app: &mut App, id: u64, key: Key, pressed: bool) -> Action {
    app.window_event(WindowEvent::KeyboardInput {
        device: dev(id),
        key,
        pressed,
    })
}

fn typed(text: &str) -> Key {
    Key::Character(text.to_string())
}

#[test]
fn new_game_has_one_player() {
    let app = App::new();
    assert_eq!(app.player_count, 1);
    assert_eq!(app.players.len(), MAX_PLAYER_COUNT);
    assert_eq!(app.players[3].place, [-2560, -4736, 2560]);
    assert_eq!(app.edges[51], [18, -20, -20, 18, -20, 20]);
    assert_eq!(app.random, RANDOM_SEED);
    assert_eq!(app.frame, FrameState::new());
    assert!(!app.about_to_wait());
}

#[test]
fn closing_and_escape_end_the_game() {
    let mut app = App::new();
    assert_eq!(app.window_event(WindowEvent::CloseRequested), Action::Exit);
    assert_eq!(key(&mut app, 1, Key::Escape, false), Action::Exit);
    assert_eq!(app.whose_keyboard(dev(1)), None);
    assert_eq!(key(&mut app, 1, Key::Escape, true), Action::Nothing);
    assert_eq!(app.whose_keyboard(dev(1)), Some(0));
    assert_eq!(app.players[0].wasd, 0);
}

#[test]
fn new_mouse_joins_and_shoots_at_once() {
    let mut app = App::new();
    assert_eq!(click(&mut app, 10), Action::Shoot(0));
    assert_eq!(app.player_count, 1);
    assert_eq!(click(&mut app, 11), Action::Shoot(1));
    assert_eq!(app.player_count, 2);
    assert_eq!(click(&mut app, 10), Action::Shoot(0));
    assert_eq!(app.whose_mouse(dev(11)), Some(1));
}

#[test]
fn releasing_a_button_does_nothing() {
    let mut app = App::new();
    let released = WindowEvent::MouseInput {
        device: dev(10),
        pressed: false,
    };
    assert_eq!(app.window_event(released), Action::Nothing);
    assert_eq!(app.whose_mouse(dev(10)), None);
}

#[test]
fn fifth_mouse_is_ignored() {
    let mut app = App::new();
    for i in 0..4 {
        assert_eq!(click(&mut app, i), Action::Shoot(i as usize));
    }
    assert_eq!(app.player_count, 4);
    assert_eq!(click(&mut app, 4), Action::Nothing);
    app.device_event(dev(4), 1, 1);
    assert_eq!(app.player_count, 4);
    assert_eq!(app.whose_mouse(dev(4)), None);
    for i in 0..4 {
        assert_eq!(app.whose_mouse(dev(i)), Some(i as usize));
    }
}

#[test]
fn fifth_keyboard_is_ignored() {
    let mut app = App::new();
    for i in 0..5 {
        key(&mut app, i, typed("w"), true);
    }
    assert_eq!(app.player_count, 4);
    assert_eq!(app.whose_keyboard(dev(4)), None);
    assert!(app.players.iter().all(|p| p.wasd == 1));
}

#[test]
fn player_count_follows_the_larger_set_of_devices() {
    let mut app = App::new();
    key(&mut app, 1, typed("q"), true);
    key(&mut app, 2, typed("q"), false);
    key(&mut app, 3, typed("q"), true);
    assert_eq!(app.player_count, 3);
    click(&mut app, 1);
    assert_eq!(app.player_count, 3);
    assert_eq!(app.whose_mouse(dev(1)), Some(0));
}

#[test]
fn keys_set_and_clear_bits() {
    let mut app = App::new();
    key(&mut app, 1, typed("w"), true);
    key(&mut app, 1, typed("D"), true);
    key(&mut app, 1, Key::Space, true);
    assert_eq!(app.players[0].wasd, 1 + 8 + 16);
    key(&mut app, 1, typed("W"), false);
    assert_eq!(app.players[0].wasd, 8 + 16);
    key(&mut app, 1, typed("x"), true);
    key(&mut app, 1, typed("a"), false);
    assert_eq!(app.players[0].wasd, 8 + 16);
    key(&mut app, 1, typed("d"), false);
    key(&mut app, 1, Key::Space, false);
    assert_eq!(app.players[0].wasd, 0);
}

#[test]
fn keys_reach_their_own_player() {
    let mut app = App::new();
    key(&mut app, 1, typed("s"), true);
    key(&mut app, 2, typed("a"), true);
    let held: Vec<u8> = app.players.iter().map(|p| p.wasd).collect();
    assert_eq!(held, vec![4, 2, 0, 0]);
}

#[test]
fn motion_turns_its_own_player() {
    let mut app = App::new();
    app.device_event(dev(1), 5, 7);
    app.device_event(dev(2), -5, -7);
    assert_eq!(app.players[0].yaw, 0x20000005);
    assert_eq!(app.players[0].pitch, -0x08000007);
    assert_eq!(app.players[1].yaw, 0x9ffffffb);
    assert_eq!(app.players[1].pitch, -0x07fffff9);
    assert_eq!(app.players[2].yaw, 0x60000000);
    assert_eq!(app.player_count, 2);
}

#[test]
fn claims_take_the_first_free_slot() {
    let mut app = App::new();
    app.players[0].mouse = Some(dev(9));
    app.claim_mouse(dev(5));
    assert_eq!(app.players[1].mouse, Some(dev(5)));
    app.claim_keyboard(dev(6));
    assert_eq!(app.players[0].keyboard, Some(dev(6)));
    assert_eq!(app.player_count, 2);
}

#[test]
fn window_events_of_the_frame() {
    let mut app = App::new();
    assert_eq!(app.window_event(WindowEvent::Resized), Action::Nothing);
    assert!(!app.frame.recreate_swapchain);
    app.resumed(3);
    assert!(app.about_to_wait());
    assert_eq!(app.window_event(WindowEvent::Resized), Action::Nothing);
    assert!(app.frame.recreate_swapchain);
    assert_eq!(
        app.window_event(WindowEvent::RedrawRequested),
        Action::Redraw
    );
    assert_eq!(app.window_event(WindowEvent::Other), Action::Nothing);
}

#[test]
fn shots_move_the_players_that_are_hit() {
    let mut app = App::new();
    click(&mut app, 1);
    click(&mut app, 2);
    let hit = Aim {
        behind: false,
        in_reach: true,
    };
    assert_eq!(app.shoot(0, &[[hit; 2]; 2]), vec![false, true]);
    assert_eq!(app.players[1].place, [-2300, -880, 800]);
    assert_ne!(app.random, RANDOM_SEED);
    assert_eq!(app.players[2].place, [2560, -4736, -2560]);
}

#[test]
fn updates_settle_the_players_taking_part() {
    let mut app = App::new();
    key(&mut app, 1, Key::Space, true);
    let settled = app.update(&[[Side::Within, Side::Below, Side::Within]]);
    assert_eq!(settled.len(), 1);
    assert_eq!(settled[0].speed, [Speed::Kept, Speed::Jump, Speed::Kept]);
}

#[test]
fn scene_has_a_region_per_player() {
    let mut app = App::new();
    for i in 0..3 {
        click(&mut app, i);
    }
    let sights: Vec<Sight> = (0..3)
        .map(|_| Sight {
            lines: (0..52).map(|_| None).collect(),
            spheres: vec![[true; 2]; 3],
        })
        .collect();
    let mut vertices = Vec::new();
    let mut regions = Vec::new();
    app.build_scene(640, 480, &sights, &mut vertices, &mut regions);
    assert_eq!(regions.len(), 3);
    assert_eq!(vertices.len(), 3 * (2 * 128 + 4));
    assert_eq!(regions[2].first_vertex, 520);
    assert_eq!(regions[2].scissor.offset, [0, 240]);
}
