//! Decoding of raw key-down events into key messages.

use vstd::prelude::*;
use vstd::string::*;

verus! {

/// Key code of the Return key.
pub const KEY_RETURN: i64 = 0x24;

/// Key code of the keypad Enter key.
pub const KEY_KEYPAD_ENTER: i64 = 0x4C;

/// Key code of the Tab key.
pub const KEY_TAB: i64 = 0x30;

/// What one key-down event contributes to a scan.
#[derive(Debug, Clone, Copy, PartialEq, Eq, Structural)]
pub enum KeyMessage {
    /// A printable character.
    Char(char),
    /// The primary trigger key (Return or keypad Enter).
    Enter,
    /// The secondary trigger key (Tab).
    Tab,
}

/// A control character: Unicode general category Cc.
pub open spec fn is_control_char(c: char) -> bool {
    (c as u32) <= 0x1f || (0x7f <= (c as u32) && (c as u32) <= 0x9f)
}

/// The message, if any, that a key event with this key code and translated
/// character stands for.
pub open spec fn message_for(keycode: i64, unicode_char: Option<char>) -> Option<KeyMessage> {
    if keycode == KEY_RETURN || keycode == KEY_KEYPAD_ENTER {
        Some(KeyMessage::Enter)
    } else if keycode == KEY_TAB {
        Some(KeyMessage::Tab)
    } else {
        match unicode_char {
            Some(c) => if is_control_char(c) {
                None
            } else {
                Some(KeyMessage::Char(c))
            },
            None => None,
        }
    }
}

/// Relies on char::is_control: true exactly for general category Cc,
/// which is U+0000..=U+001F and U+007F..=U+009F.
#[verifier::external_body]
fn char_is_control(c: char) -> (r: bool)
    ensures
        r == is_control_char(c),
{
    c.is_control()
}

/// Decodes a key event. The trigger keys win over any translated character;
/// other keys yield their character unless it is a control character, and
/// keys without a single translated character are ignored.
pub fn keycode_to_message(keycode: i64, unicode_char: Option<char>) -> (r: Option<KeyMessage>)
    ensures
        r == message_for(keycode, unicode_char),
{
    if keycode == KEY_RETURN || keycode == KEY_KEYPAD_ENTER {
        Some(KeyMessage::Enter)
    } else if keycode == KEY_TAB {
        Some(KeyMessage::Tab)
    } else {
        match unicode_char {
            Some(c) => {
                if char_is_control(c) {
                    None
                } else {
                    Some(KeyMessage::Char(c))
                }
            },
            None => None,
        }
    }
}

/// The character a key event stands for when the key is not a trigger: the
/// event's name when that is exactly one character, else the character the
/// key has on its own.
pub open spec fn event_char(name: Option<Seq<char>>, key_char: Option<char>) -> Option<char> {
    match name {
        Some(n) => if n.len() == 1 {
            Some(n[0])
        } else {
            key_char
        },
        None => key_char,
    }
}

/// Picks the character of a key event from its name and the key's own
/// character.
pub fn char_from_event_name(name: Option<&str>, key_char: Option<char>) -> (r: Option<char>)
    ensures
        r == event_char(
            match name {
                Some(n) => Some(n@),
                None => None,
            },
            key_char,
        ),
{
    match name {
        Some(n) => {
            if n.unicode_len() == 1 {
                Some(n.get_char(0))
            } else {
                key_char
            }
        },
        None => key_char,
    }
}

} // verus!
