use woodeneye::devices::DeviceTable;
use woodeneye::game::DeviceNumber;
use woodeneye::input::{bit_of_key, bit_of_text, Key};

fn typed(text: &str) -> Key {
    Key::Character(text.to_string())
}

#[test]
fn keys_that_move_a_player() {
    assert_eq!(bit_of_key(&typed("w")), Some(1));
    assert_eq!(bit_of_key(&typed("a")), Some(2));
    assert_eq!(bit_of_key(&typed("s")), Some(4));
    assert_eq!(bit_of_key(&typed("d")), Some(8));
    assert_eq!(bit_of_key(&Key::Space), Some(16));
}

#[test]
fn upper_case_counts_as_lower_case() {
    for text in ["W", "A", "S", "D"] {
        let lower = text.to_lowercase();
        assert_ne!(lower, text);
        assert_eq!(bit_of_key(&typed(text)), bit_of_key(&typed(&lower)));
        assert!(bit_of_key(&typed(text)).is_some());
        assert_eq!(bit_of_text(text), None);
    }
}

#[test]
fn other_keys_do_nothing() {
    assert_eq!(bit_of_key(&typed("q")), None);
    assert_eq!(bit_of_key(&typed("")), None);
    assert_eq!(bit_of_key(&typed("wa")), None);
    assert_eq!(bit_of_key(&typed("\u{e4}")), None);
    assert_eq!(bit_of_key(&Key::Escape), None);
    assert_eq!(bit_of_key(&Key::Other), None);
}

#[test]
fn lower_case_text_is_told_apart() {
    assert_eq!(bit_of_text("w"), Some(1));
    assert_eq!(bit_of_text("d"), Some(8));
    assert_eq!(bit_of_text("dd"), None);
    assert_eq!(bit_of_text(""), None);
}

#[test]
fn a_device_keeps_its_number() {
    let mut table = DeviceTable::new();
    let device = winit::event::DeviceId::dummy();
    assert_eq!(table.number(device), DeviceNumber { id: 0 });
    assert_eq!(table.number(device), DeviceNumber { id: 0 });
}

#[test]
fn every_ascii_key_counts_as_its_lower_case() {
    for c in 0..128u8 {
        let text = (c as char).to_string();
        let lower = (c.to_ascii_lowercase() as char).to_string();
        assert_eq!(bit_of_key(&typed(&text)), bit_of_text(&lower));
        let twice = text.repeat(2);
        assert_eq!(bit_of_key(&typed(&twice)), None);
    }
}

#[test]
fn letters_beyond_ascii_do_nothing() {
    for text in ["\u{174}", "\u{c4}", "\u{17f}", "\u{212a}", "\u{ff37}"] {
        assert_eq!(bit_of_key(&typed(text)), None);
    }
}
