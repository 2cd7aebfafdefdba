//! Keys and input devices, as events report them.

use crate::game::{KEY_BACK, KEY_FORWARD, KEY_JUMP, KEY_LEFT, KEY_RIGHT};
use vstd::prelude::*;
use vstd::string::StrSliceExecFns;

verus! {

/// A key of a keyboard.
#[derive(Debug)]
pub enum Key {
    /// A key that types the given text.
    Character(String),
    /// The space bar.
    Space,
    /// The escape key.
    Escape,
    /// Any other key.
    Other,
}

/// Whether every character of `text` is an ASCII character.
pub open spec fn is_ascii(text: Seq<char>) -> bool {
    forall|i: int| 0 <= i < text.len() ==> (#[trigger] text[i] as u32) < 128
}

/// The lower case of an ASCII character: the letters `A` to `Z` become `a` to `z`.
pub open spec fn ascii_lower(c: char) -> char {
    if 'A' <= c <= 'Z' {
        (c as u32 + 32) as char
    } else {
        c
    }
}

/// The lower case of an ASCII text, one character for each.
pub open spec fn ascii_lowercase(text: Seq<char>) -> Seq<char> {
    text.map_values(|c: char| ascii_lower(c))
}

/// The text that [`str::to_lowercase`] makes of `text`.
pub uninterp spec fn lowercase(text: Seq<char>) -> Seq<char>;

/// Calls [`str::to_lowercase`]. What is claimed of it is that its result depends on the text
/// alone, and that it lowers ASCII letters one for one in a text of ASCII characters. How it maps
/// other characters is not said.
#[verifier::external_body]
fn to_lowercase(text: &str) -> (r: String)
    ensures
        r@ == lowercase(text@),
        is_ascii(text@) ==> r@ == ascii_lowercase(text@),
{
    text.to_lowercase()
}

/// The bit of the key that types `text`, in lower case.
pub open spec fn text_bit(text: Seq<char>) -> Option<u8> {
    if text == seq!['w'] {
        Some(KEY_FORWARD)
    } else if text == seq!['a'] {
        Some(KEY_LEFT)
    } else if text == seq!['s'] {
        Some(KEY_BACK)
    } else if text == seq!['d'] {
        Some(KEY_RIGHT)
    } else {
        None
    }
}

/// The bit that `key` sets while it is held down, if it is one of the keys that move a player.
pub open spec fn key_bit(key: Key) -> Option<u8> {
    match key {
        Key::Character(text) => if is_ascii(text@) {
            text_bit(ascii_lowercase(text@))
        } else {
            text_bit(lowercase(text@))
        },
        Key::Space => Some(KEY_JUMP),
        Key::Escape => None,
        Key::Other => None,
    }
}

/// The bit of the key that types `text`, which is in lower case.
pub fn bit_of_text(text: &str) -> (r: Option<u8>)
    ensures
        r == text_bit(text@),
{
    if text.unicode_len() != 1 {
        return None;
    }
    let c: char = text.get_char(0);
    assert(text@ =~= seq![c]);
    assert(seq!['w'][0] == 'w' && seq!['a'][0] == 'a' && seq!['s'][0] == 's' && seq!['d'][0]
        == 'd');
    if c == 'w' {
        Some(KEY_FORWARD)
    } else if c == 'a' {
        Some(KEY_LEFT)
    } else if c == 's' {
        Some(KEY_BACK)
    } else if c == 'd' {
        Some(KEY_RIGHT)
    } else {
        None
    }
}

/// The bit that `key` sets while it is held down, if it is one of the keys that move a player.
/// Letters count alike in upper and lower case.
pub fn bit_of_key(key: &Key) -> (r: Option<u8>)
    ensures
        r == key_bit(*key),
{
    match key {
        Key::Character(text) => bit_of_text(to_lowercase(text.as_str()).as_str()),
        Key::Space => Some(KEY_JUMP),
        Key::Escape => None,
        Key::Other => None,
    }
}

/// Upper case counts as lower case: a key that types an ASCII text sets the bit of the key that
/// types the same text in lower case.
pub proof fn law_upper_case_counts_as_lower_case(typed: String, lower: String)
    requires
        is_ascii(typed@),
        lower@ == ascii_lowercase(typed@),
    ensures
        key_bit(Key::Character(typed)) == key_bit(Key::Character(lower)),
{
    assert forall|i: int| 0 <= i < lower@.len() implies (#[trigger] lower@[i] as u32) < 128
        && ascii_lower(lower@[i]) == lower@[i] by {
        assert(lower@[i] == ascii_lower(typed@[i]));
    }
    assert(ascii_lowercase(lower@) =~= lower@);
}

/// Each of the four letters, in either case, sets the bit of its own direction.
pub proof fn law_letters_move_a_player(text: String)
    ensures
        text@ == seq!['w'] || text@ == seq!['W'] ==> key_bit(Key::Character(text)) == Some(
            KEY_FORWARD,
        ),
        text@ == seq!['a'] || text@ == seq!['A'] ==> key_bit(Key::Character(text)) == Some(
            KEY_LEFT,
        ),
        text@ == seq!['s'] || text@ == seq!['S'] ==> key_bit(Key::Character(text)) == Some(
            KEY_BACK,
        ),
        text@ == seq!['d'] || text@ == seq!['D'] ==> key_bit(Key::Character(text)) == Some(
            KEY_RIGHT,
        ),
{
    if text@.len() == 1 {
        let c = text@[0];
        assert(ascii_lowercase(text@) =~= seq![ascii_lower(c)]);
        assert(seq!['w'][0] == 'w' && seq!['a'][0] == 'a' && seq!['s'][0] == 's' && seq!['d'][0]
            == 'd');
        assert(seq!['W'][0] == 'W' && seq!['A'][0] == 'A' && seq!['S'][0] == 'S' && seq!['D'][0]
            == 'D');
    }
}

/// Each of the four letters has a bit of its own, and no other text has one.
pub proof fn law_four_letters_have_bits(text: &str, r: Option<u8>)
    requires
        call_ensures(bit_of_text, (text,), r),
    ensures
        r == Some(1u8) <==> text@.len() == 1 && text@[0] == 'w',
        r == Some(2u8) <==> text@.len() == 1 && text@[0] == 'a',
        r == Some(4u8) <==> text@.len() == 1 && text@[0] == 's',
        r == Some(8u8) <==> text@.len() == 1 && text@[0] == 'd',
        r matches Some(bit) ==> bit == 1 || bit == 2 || bit == 4 || bit == 8,
{
    lemma_one_letter(text@);
}

proof fn lemma_one_letter(text: Seq<char>)
    ensures
        forall|c: char| text == seq![c] <==> text.len() == 1 && text[0] == c,
{
    assert forall|c: char| text == seq![c] <==> text.len() == 1 && text[0] == c by {
        if text.len() == 1 && text[0] == c {
            assert(text =~= seq![c]);
        }
    }
}

/// Five keys move a player, each by a bit of its own: w, a, s and d in either case, and the space
/// bar. No other key that types ASCII characters, and none that types nothing, has a bit. A key
/// that types other characters has the bit of the letter that they are in lower case, if any.
pub proof fn law_five_keys_have_bits(key: &Key, r: Option<u8>)
    requires
        call_ensures(bit_of_key, (key,), r),
    ensures
        r == Some(16u8) <==> key is Space,
        r matches Some(bit) ==> bit == 1 || bit == 2 || bit == 4 || bit == 8 || bit == 16,
        key is Escape || key is Other ==> r is None,
        key matches Key::Character(text) ==> is_ascii(text@) ==> {
            &&& r == Some(1u8) <==> text@.len() == 1 && (text@[0] == 'w' || text@[0] == 'W')
            &&& r == Some(2u8) <==> text@.len() == 1 && (text@[0] == 'a' || text@[0] == 'A')
            &&& r == Some(4u8) <==> text@.len() == 1 && (text@[0] == 's' || text@[0] == 'S')
            &&& r == Some(8u8) <==> text@.len() == 1 && (text@[0] == 'd' || text@[0] == 'D')
        },
        key matches Key::Character(text) ==> !is_ascii(text@) ==> {
            let lower = lowercase(text@);
            &&& r == Some(1u8) <==> lower.len() == 1 && lower[0] == 'w'
            &&& r == Some(2u8) <==> lower.len() == 1 && lower[0] == 'a'
            &&& r == Some(4u8) <==> lower.len() == 1 && lower[0] == 's'
            &&& r == Some(8u8) <==> lower.len() == 1 && lower[0] == 'd'
        },
{
    if let Key::Character(text) = *key {
        lemma_one_letter(lowercase(text@));
        lemma_one_letter(ascii_lowercase(text@));
        if text@.len() == 1 {
            let c = text@[0];
            assert(ascii_lowercase(text@)[0] == ascii_lower(c));
            if is_ascii(text@) {
                assert((text@[0] as u32) < 128);
            }
        }
    }
}

} // verus!
