//! Keys, and what pressing them comes to.
use vstd::prelude::*;

verus! {

/// A key.
#[derive(Clone, Copy, Debug, PartialEq, Eq, Structural)]
pub enum Key {
    Control,
    Shift,
    Alt,
    Meta,
    Escape,
    Tab,
    LeftArrow,
    RightArrow,
    UpArrow,
    DownArrow,
    Home,
    End,
    PageUp,
    PageDown,
    F5,
    F11,
    F12,
    Unicode(char),
}

/// What is reported to the system: a key code or a code unit of a character, and what
/// happens to it.
#[derive(Clone, Copy, Debug, PartialEq, Eq, Structural)]
pub struct KeyInput {
    /// The code of the key; zero for a character.
    pub vk: u16,
    /// The code unit of the character; zero for a key.
    pub scan: u16,
    pub flags: u32,
}

/// The key goes up.
pub const KEYEVENTF_KEYUP: u32 = 2;

/// The input is a character.
pub const KEYEVENTF_UNICODE: u32 = 4;

/// The input is a character that goes up.
pub const KEYEVENTF_UNICODE_UP: u32 = 6;

/// The letters that have a key of their own here, in upper case.
pub open spec fn is_key_letter(c: char) -> bool {
    ||| c == 'A' || c == 'C' || c == 'D' || c == 'F' || c == 'H' || c == 'J'
    ||| c == 'L' || c == 'N' || c == 'R' || c == 'T' || c == 'V' || c == 'W'
}

/// The upper-case form of an ASCII letter.
pub open spec fn upper(c: char) -> char {
    if 'a' <= c <= 'z' {
        ((c as u32) - 32) as char
    } else {
        c
    }
}

/// The code of a key.
pub open spec fn key_code(key: Key) -> Option<u16> {
    match key {
        Key::Control => Some(0x11),
        Key::Shift => Some(0x10),
        Key::Alt => Some(0x12),
        Key::Meta => Some(0x5b),
        Key::Escape => Some(0x1b),
        Key::Tab => Some(0x09),
        Key::LeftArrow => Some(0x25),
        Key::RightArrow => Some(0x27),
        Key::UpArrow => Some(0x26),
        Key::DownArrow => Some(0x28),
        Key::Home => Some(0x24),
        Key::End => Some(0x23),
        Key::PageUp => Some(0x21),
        Key::PageDown => Some(0x22),
        Key::F5 => Some(0x74),
        Key::F11 => Some(0x7a),
        Key::F12 => Some(0x7b),
        Key::Unicode(c) => if is_key_letter(upper(c)) {
            Some(upper(c) as u16)
        } else if '0' <= c <= '9' {
            Some(c as u16)
        } else {
            None
        },
    }
}

/// The code of a key. Characters without a key have none.
pub fn key_to_vk(key: Key) -> (r: Option<u16>)
    ensures
        r == key_code(key),
{
    match key {
        Key::Control => Some(0x11),
        Key::Shift => Some(0x10),
        Key::Alt => Some(0x12),
        Key::Meta => Some(0x5b),
        Key::Escape => Some(0x1b),
        Key::Tab => Some(0x09),
        Key::LeftArrow => Some(0x25),
        Key::RightArrow => Some(0x27),
        Key::UpArrow => Some(0x26),
        Key::DownArrow => Some(0x28),
        Key::Home => Some(0x24),
        Key::End => Some(0x23),
        Key::PageUp => Some(0x21),
        Key::PageDown => Some(0x22),
        Key::F5 => Some(0x74),
        Key::F11 => Some(0x7a),
        Key::F12 => Some(0x7b),
        Key::Unicode(c) => {
            let u: u32 = if 'a' <= c && c <= 'z' {
                c as u32 - 32
            } else {
                c as u32
            };
            let has_key = u == 0x41 || u == 0x43 || u == 0x44 || u == 0x46 || u == 0x48 || u == 0x4a
                || u == 0x4c || u == 0x4e || u == 0x52 || u == 0x54 || u == 0x56 || u == 0x57;
            if has_key {
                Some(u as u16)
            } else if '0' <= c && c <= '9' {
                Some(c as u16)
            } else {
                None
            }
        },
    }
}

/// The code units of the UTF-16 form of a character.
pub open spec fn utf16(c: char) -> Seq<u16> {
    let n = c as u32;
    if n < 0x10000 {
        seq![n as u16]
    } else {
        seq![
            (0xd800 + (n - 0x10000) / 0x400) as u16,
            (0xdc00 + (n - 0x10000) % 0x400) as u16,
        ]
    }
}

fn utf16_units(c: char) -> (r: Vec<u16>)
    ensures
        r@ == utf16(c),
{
    let n: u32 = c as u32;
    let mut out: Vec<u16> = Vec::new();
    if n < 0x10000 {
        out.push(n as u16);
    } else {
        out.push((0xd800 + (n - 0x10000) / 0x400) as u16);
        out.push((0xdc00 + (n - 0x10000) % 0x400) as u16);
    }
    out
}

/// What the character `c` is reported as.
pub open spec fn char_inputs(c: char, flags: u32) -> Seq<KeyInput> {
    utf16(c).map_values(|u: u16| KeyInput { vk: 0, scan: u, flags })
}

/// What pressing a key is reported as.
pub open spec fn press_inputs(key: Key) -> Seq<KeyInput> {
    match key_code(key) {
        Some(vk) => seq![KeyInput { vk, scan: 0, flags: 0 }],
        None => match key {
            Key::Unicode(c) => char_inputs(c, KEYEVENTF_UNICODE),
            _ => seq![],
        },
    }
}

/// What releasing a key is reported as.
pub open spec fn release_inputs(key: Key) -> Seq<KeyInput> {
    match key_code(key) {
        Some(vk) => seq![KeyInput { vk, scan: 0, flags: KEYEVENTF_KEYUP }],
        None => match key {
            Key::Unicode(c) => char_inputs(c, KEYEVENTF_UNICODE_UP),
            _ => seq![],
        },
    }
}

fn char_input_list(c: char, flags: u32) -> (r: Vec<KeyInput>)
    ensures
        r@ == char_inputs(c, flags),
{
    let units = utf16_units(c);
    let mut out: Vec<KeyInput> = Vec::new();
    for i in 0..units.len()
        invariant
            out@ == units@.take(i as int).map_values(
                |u: u16| KeyInput { vk: 0, scan: u, flags },
            ),
    {
        out.push(KeyInput { vk: 0, scan: units[i], flags });
        assert(units@.take(i + 1) =~= units@.take(i as int).push(units@[i as int]));
    }
    assert(units@.take(units@.len() as int) =~= units@);
    out
}

/// What pressing a key is reported as.
pub fn send_key_press(key: Key) -> (r: Vec<KeyInput>)
    ensures
        r@ == press_inputs(key),
{
    match key_to_vk(key) {
        Some(vk) => vec![KeyInput { vk, scan: 0, flags: 0 }],
        None => match key {
            Key::Unicode(c) => char_input_list(c, KEYEVENTF_UNICODE),
            _ => Vec::new(),
        },
    }
}

/// What releasing a key is reported as.
pub fn send_key_release(key: Key) -> (r: Vec<KeyInput>)
    ensures
        r@ == release_inputs(key),
{
    match key_to_vk(key) {
        Some(vk) => vec![KeyInput { vk, scan: 0, flags: KEYEVENTF_KEYUP }],
        None => match key {
            Key::Unicode(c) => char_input_list(c, KEYEVENTF_UNICODE_UP),
            _ => Vec::new(),
        },
    }
}

/// What pressing and releasing a key is reported as.
pub fn send_key_click(key: Key) -> (r: Vec<KeyInput>)
    ensures
        r@ == press_inputs(key) + release_inputs(key),
{
    let mut out = send_key_press(key);
    let mut up = send_key_release(key);
    out.append(&mut up);
    out
}

/// What goes down comes up: a key is released by the same codes that it is pressed by.
pub proof fn law_release_undoes_press(key: Key)
    ensures
        press_inputs(key).len() == release_inputs(key).len(),
        press_inputs(key).len() > 0,
        forall|i: int|
            0 <= i < press_inputs(key).len() ==> (#[trigger] press_inputs(key)[i]).vk
                == release_inputs(key)[i].vk && press_inputs(key)[i].scan == release_inputs(
                key,
            )[i].scan && release_inputs(key)[i].flags == press_inputs(key)[i].flags
                + KEYEVENTF_KEYUP,
{
}

/// Two keys that are no characters have different codes, and none of them has that of a
/// letter or a digit.
pub proof fn law_keys_have_codes_of_their_own(a: Key, b: Key)
    requires
        !(a is Unicode),
        a != b,
    ensures
        key_code(a) is Some,
        key_code(a) != key_code(b),
{
}

/// A letter has the same key in either case, and characters are reported by the same key only
/// where they differ in case alone.
pub proof fn law_letters_share_a_key_with_their_capital(c: char, d: char)
    ensures
        'a' <= c <= 'z' ==> key_code(Key::Unicode(c)) == key_code(
            Key::Unicode(((c as u32) - 32) as char),
        ),
        key_code(Key::Unicode(c)) is Some && key_code(Key::Unicode(c)) == key_code(
            Key::Unicode(d),
        ) ==> c == d || (c as u32) + 32 == d as u32 || (d as u32) + 32 == c as u32,
        '0' <= c <= '9' ==> key_code(Key::Unicode(c)) == Some(c as u16),
        key_code(Key::Unicode(c)) is Some ==> (c as u32) < 0x80,
{
}

/// A character without a key is reported as itself: its code units give it back.
pub proof fn law_code_units_stand_for_the_character(c: char)
    ensures
        (c as u32) < 0x10000 ==> utf16(c).len() == 1 && utf16(c)[0] as u32 == c as u32,
        (c as u32) >= 0x10000 ==> {
            &&& utf16(c).len() == 2
            &&& 0xd800 <= utf16(c)[0] < 0xdc00
            &&& 0xdc00 <= utf16(c)[1] < 0xe000
            &&& 0x10000 + (utf16(c)[0] - 0xd800) * 0x400 + (utf16(c)[1] - 0xdc00) == c as u32
        },
        key_code(Key::Unicode(c)) is None ==> press_inputs(Key::Unicode(c)).len() == utf16(
            c,
        ).len() && forall|i: int|
            0 <= i < utf16(c).len() ==> (#[trigger] press_inputs(Key::Unicode(c))[i]).scan
                == utf16(c)[i] && press_inputs(Key::Unicode(c))[i].vk == 0,
{
}

/// The keys have the codes that the system knows them by: the arrows in a row, the keys that
/// scroll before them, the function keys in a row from the first on, and the modifiers.
pub proof fn law_keys_have_the_codes_of_the_system()
    ensures
        key_code(Key::LeftArrow)->0 + 1 == key_code(Key::UpArrow)->0,
        key_code(Key::UpArrow)->0 + 1 == key_code(Key::RightArrow)->0,
        key_code(Key::RightArrow)->0 + 1 == key_code(Key::DownArrow)->0,
        key_code(Key::PageUp)->0 + 1 == key_code(Key::PageDown)->0,
        key_code(Key::PageDown)->0 + 1 == key_code(Key::End)->0,
        key_code(Key::End)->0 + 1 == key_code(Key::Home)->0,
        key_code(Key::Home)->0 + 1 == key_code(Key::LeftArrow)->0,
        key_code(Key::F5)->0 + 6 == key_code(Key::F11)->0,
        key_code(Key::F11)->0 + 1 == key_code(Key::F12)->0,
        key_code(Key::Shift)->0 + 1 == key_code(Key::Control)->0,
        key_code(Key::Control)->0 + 1 == key_code(Key::Alt)->0,
        key_code(Key::Control) == Some(0x11u16),
        key_code(Key::F5) == Some(0x74u16),
        key_code(Key::LeftArrow) == Some(0x25u16),
{
}

} // verus!
