//! Key codes for backends that take keyboard input as virtual-key codes.

use vstd::prelude::*;

verus! {

/// The named keys that have a virtual-key code here.
#[derive(Clone, Copy, Debug, PartialEq, Eq, Structural)]
pub enum NamedKey {
    Enter,
    Tab,
    Space,
    Backspace,
    Delete,
    Escape,
    Insert,
    Home,
    End,
    PageUp,
    PageDown,
    ArrowUp,
    ArrowDown,
    ArrowLeft,
    ArrowRight,
    F1,
    F2,
    F3,
    F4,
    F5,
    F6,
    F7,
    F8,
    F9,
    F10,
    F11,
    F12,
}

/// The modifier flag for the shift key.
pub const SHIFT_DOWN: u32 = 2;

/// The modifier flag for the control key.
pub const CONTROL_DOWN: u32 = 4;

/// The modifier flag for the alt key.
pub const ALT_DOWN: u32 = 8;

/// The virtual-key code of a named key and the character it produces, zero
/// where it produces none.
pub open spec fn named_code(key: NamedKey) -> (i32, u16) {
    match key {
        NamedKey::Enter => (0x0D, 0x0D),
        NamedKey::Tab => (0x09, 0x09),
        NamedKey::Space => (0x20, 0x20),
        NamedKey::Backspace => (0x08, 0x08),
        NamedKey::Delete => (0x2E, 0),
        NamedKey::Escape => (0x1B, 0x1B),
        NamedKey::Insert => (0x2D, 0),
        NamedKey::Home => (0x24, 0),
        NamedKey::End => (0x23, 0),
        NamedKey::PageUp => (0x21, 0),
        NamedKey::PageDown => (0x22, 0),
        NamedKey::ArrowUp => (0x26, 0),
        NamedKey::ArrowDown => (0x28, 0),
        NamedKey::ArrowLeft => (0x25, 0),
        NamedKey::ArrowRight => (0x27, 0),
        NamedKey::F1 => (0x70, 0),
        NamedKey::F2 => (0x71, 0),
        NamedKey::F3 => (0x72, 0),
        NamedKey::F4 => (0x73, 0),
        NamedKey::F5 => (0x74, 0),
        NamedKey::F6 => (0x75, 0),
        NamedKey::F7 => (0x76, 0),
        NamedKey::F8 => (0x77, 0),
        NamedKey::F9 => (0x78, 0),
        NamedKey::F10 => (0x79, 0),
        NamedKey::F11 => (0x7A, 0),
        NamedKey::F12 => (0x7B, 0),
    }
}

/// The virtual-key code of a character key: the code point, and for an
/// ASCII letter the code point of its capital.
pub open spec fn char_code(c: char) -> int {
    if 'a' <= c && c <= 'z' {
        c as int - 32
    } else {
        c as int
    }
}

/// The modifier flags for the keys held down: the sum of the flags of the
/// keys that are.
pub open spec fn modifier_flags(shift: bool, control: bool, alt: bool) -> u32 {
    ((if shift {
        2
    } else {
        0int
    }) + (if control {
        4
    } else {
        0int
    }) + (if alt {
        8
    } else {
        0int
    })) as u32
}

/// Gives the virtual-key code of a named key and the character it produces.
pub fn named_key_code(key: NamedKey) -> (r: (i32, u16))
    ensures
        r == named_code(key),
{
    match key {
        NamedKey::Enter => (0x0D, 0x0D),
        NamedKey::Tab => (0x09, 0x09),
        NamedKey::Space => (0x20, 0x20),
        NamedKey::Backspace => (0x08, 0x08),
        NamedKey::Delete => (0x2E, 0),
        NamedKey::Escape => (0x1B, 0x1B),
        NamedKey::Insert => (0x2D, 0),
        NamedKey::Home => (0x24, 0),
        NamedKey::End => (0x23, 0),
        NamedKey::PageUp => (0x21, 0),
        NamedKey::PageDown => (0x22, 0),
        NamedKey::ArrowUp => (0x26, 0),
        NamedKey::ArrowDown => (0x28, 0),
        NamedKey::ArrowLeft => (0x25, 0),
        NamedKey::ArrowRight => (0x27, 0),
        NamedKey::F1 => (0x70, 0),
        NamedKey::F2 => (0x71, 0),
        NamedKey::F3 => (0x72, 0),
        NamedKey::F4 => (0x73, 0),
        NamedKey::F5 => (0x74, 0),
        NamedKey::F6 => (0x75, 0),
        NamedKey::F7 => (0x76, 0),
        NamedKey::F8 => (0x77, 0),
        NamedKey::F9 => (0x78, 0),
        NamedKey::F10 => (0x79, 0),
        NamedKey::F11 => (0x7A, 0),
        NamedKey::F12 => (0x7B, 0),
    }
}

/// Gives the virtual-key code of a character key and the character as a
/// 16-bit unit. A character beyond the 16-bit range keeps its low 16 bits.
pub fn char_key_code(c: char) -> (r: (i32, u16))
    ensures
        r.0 == char_code(c),
        r.1 == (c as u32) % 0x1_0000,
{
    let n: u32 = c as u32;
    let code: u32 = if 'a' <= c && c <= 'z' {
        n - 32
    } else {
        n
    };
    let unit: u16 = (n % 0x1_0000) as u16;
    (code as i32, unit)
}

/// Gives the modifier flags for the keys held down.
pub fn modifiers(shift: bool, control: bool, alt: bool) -> (r: u32)
    ensures
        r == modifier_flags(shift, control, alt),
{
    let mut flags: u32 = 0;
    if shift {
        flags = flags + SHIFT_DOWN;
    }
    if control {
        flags = flags + CONTROL_DOWN;
    }
    if alt {
        flags = flags + ALT_DOWN;
    }
    flags
}

} // verus!
