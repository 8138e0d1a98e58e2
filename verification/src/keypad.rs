//! The sixteen-key hexadecimal keypad and the keyboard layout that drives it.

use vstd::prelude::*;

verus! {

/// Number of keys on the keypad.
pub const KEY_COUNT: usize = 16;

/// State of one key.
#[derive(Clone, Copy, Debug, PartialEq, Eq, Structural)]
pub enum KeyState {
    Pressed,
    Released,
}

/// The keyboard key code of each keypad key, by keypad index. The codes are
/// those of the lower-case characters, so that the keyboard block
///
/// ```text
/// 1 2 3 4        1 2 3 C
/// q w e r  acts  4 5 6 D
/// a s d f   as   7 8 9 E
/// z x c v        A 0 B F
/// ```
pub const KEY_CODES: [i32; 16] = [
    120, 49, 50, 51, 113, 119, 101, 97, 115, 100, 122, 99, 52, 114, 102, 118,
];

/// Key code of the escape key, which ends a run.
pub const ESCAPE_KEY: i32 = 27;

/// An input event, reduced to what the machine reacts to.
#[derive(Clone, Copy, Debug, PartialEq, Eq, Structural)]
pub enum InputEvent {
    /// The user asked to leave.
    Quit,
    /// The key with this key code went down.
    KeyDown(i32),
    /// The key with this key code went up.
    KeyUp(i32),
    /// Anything else.
    Other,
}

/// Whether `keycode` is the keyboard key of keypad key `key`.
pub open spec fn names_key(keycode: i32, key: int) -> bool {
    0 <= key < 16 && KEY_CODES[key] == keycode
}

/// The keypad key that a keyboard key stands for, if it stands for one.
pub open spec fn key_named(keycode: i32) -> Option<u8> {
    if exists|key: u8| names_key(keycode, key as int) {
        Some(choose|key: u8| names_key(keycode, key as int))
    } else {
        None
    }
}

/// No two keypad keys share a keyboard key.
pub proof fn lemma_key_codes_distinct(a: int, b: int)
    requires
        0 <= a < 16,
        0 <= b < 16,
        KEY_CODES[a] == KEY_CODES[b],
    ensures
        a == b,
{
}

/// `key_named` is the one key that the key code names.
pub proof fn lemma_key_named(keycode: i32, key: int)
    requires
        names_key(keycode, key),
    ensures
        key_named(keycode) == Some(key as u8),
{
    assert(names_key(keycode, (key as u8) as int));
    let chosen = choose|k: u8| names_key(keycode, k as int);
    lemma_key_codes_distinct(chosen as int, key);
}

/// Looks a keyboard key up in the layout.
pub fn keypad_index(keycode: i32) -> (key: Option<u8>)
    ensures
        key == key_named(keycode),
        key matches Some(k) ==> names_key(keycode, k as int),
        key is None ==> forall|k: int| !names_key(keycode, k),
{
    let mut i: u8 = 0;
    while i < 16
        invariant
            i <= 16,
            forall|k: int| 0 <= k < i ==> !names_key(keycode, k),
        decreases 16 - i,
    {
        if KEY_CODES[i as usize] == keycode {
            proof {
                lemma_key_named(keycode, i as int);
            }
            return Some(i);
        }
        i += 1;
    }
    None
}

/// Whether `key` is pressed and no key with a lower number is.
pub open spec fn is_lowest_pressed(keys: Seq<KeyState>, key: int) -> bool {
    &&& 0 <= key < keys.len()
    &&& keys[key] == KeyState::Pressed
    &&& forall|lower: int| 0 <= lower < key ==> keys[lower] != KeyState::Pressed
}

/// The pressed key with the lowest number, if any key is pressed.
pub open spec fn lowest_pressed(keys: Seq<KeyState>) -> Option<u8> {
    if exists|key: u8| is_lowest_pressed(keys, key as int) {
        Some(choose|key: u8| is_lowest_pressed(keys, key as int))
    } else {
        None
    }
}

/// `lowest_pressed` is the one key that is pressed with none below it.
pub proof fn lemma_lowest_pressed(keys: Seq<KeyState>, key: u8)
    requires
        is_lowest_pressed(keys, key as int),
    ensures
        lowest_pressed(keys) == Some(key),
{
    let chosen = choose|k: u8| is_lowest_pressed(keys, k as int);
    assert(!(chosen < key));
    assert(!(key < chosen));
}

/// Where no key is pressed, `lowest_pressed` is `None`.
pub proof fn lemma_none_pressed(keys: Seq<KeyState>)
    requires
        forall|key: int| 0 <= key < keys.len() ==> keys[key] != KeyState::Pressed,
    ensures
        lowest_pressed(keys) is None,
{
}

} // verus!
