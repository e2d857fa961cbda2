//! Keyboard and pointer input for the guest's PS/2 controller: which host keys
//! reach the guest as which physical key codes, the modifier press/release
//! events synthesised from modifier state, and the PS/2 mouse packets built
//! from button changes and cursor motion.

use vstd::prelude::*;

verus! {

/// A key as the GUI toolkit reports it. Keys the guest is never sent are
/// `Other`.
#[derive(Debug, Clone, Copy, PartialEq, Eq, Structural)]
pub enum Key {
    A,
    B,
    C,
    D,
    E,
    F,
    G,
    H,
    I,
    J,
    K,
    L,
    M,
    N,
    O,
    P,
    Q,
    R,
    S,
    T,
    U,
    V,
    W,
    X,
    Y,
    Z,
    Num0,
    Num1,
    Num2,
    Num3,
    Num4,
    Num5,
    Num6,
    Num7,
    Num8,
    Num9,
    Escape,
    Tab,
    Backspace,
    Enter,
    Space,
    Insert,
    Delete,
    Home,
    End,
    PageUp,
    PageDown,
    ArrowUp,
    ArrowDown,
    ArrowLeft,
    ArrowRight,
    Comma,
    Period,
    Slash,
    Backslash,
    Minus,
    Equals,
    Plus,
    Semicolon,
    Colon,
    Quote,
    OpenBracket,
    CloseBracket,
    Backtick,
    F1,
    F2,
    F3,
    F4,
    F6,
    F7,
    F8,
    F9,
    F10,
    F12,
    F5,
    F11,
    Other,
}

/// A physical key code, as the PS/2 scancode mapper takes it.
#[derive(Debug, Clone, Copy, PartialEq, Eq, Structural)]
pub enum KeyCode {
    KeyA,
    KeyB,
    KeyC,
    KeyD,
    KeyE,
    KeyF,
    KeyG,
    KeyH,
    KeyI,
    KeyJ,
    KeyK,
    KeyL,
    KeyM,
    KeyN,
    KeyO,
    KeyP,
    KeyQ,
    KeyR,
    KeyS,
    KeyT,
    KeyU,
    KeyV,
    KeyW,
    KeyX,
    KeyY,
    KeyZ,
    Digit0,
    Digit1,
    Digit2,
    Digit3,
    Digit4,
    Digit5,
    Digit6,
    Digit7,
    Digit8,
    Digit9,
    Escape,
    Tab,
    Backspace,
    Enter,
    Space,
    Insert,
    Delete,
    Home,
    End,
    PageUp,
    PageDown,
    ArrowUp,
    ArrowDown,
    ArrowLeft,
    ArrowRight,
    Comma,
    Period,
    Slash,
    Backslash,
    Minus,
    Equal,
    Semicolon,
    Quote,
    BracketLeft,
    BracketRight,
    Backquote,
    F1,
    F2,
    F3,
    F4,
    F6,
    F7,
    F8,
    F9,
    F10,
    F12,
    ShiftLeft,
    ControlLeft,
    AltLeft,
    SuperLeft,
}

/// The key code a host key is forwarded as; `None` for keys the scancode
/// mapper doesn't recognise (they are dropped rather than given a fallback).
/// F11 is consumed by the GUI (fullscreen toggle) and never forwarded.
pub open spec fn spec_map_key(k: Key) -> Option<KeyCode> {
    match k {
        Key::A => Some(KeyCode::KeyA),
        Key::B => Some(KeyCode::KeyB),
        Key::C => Some(KeyCode::KeyC),
        Key::D => Some(KeyCode::KeyD),
        Key::E => Some(KeyCode::KeyE),
        Key::F => Some(KeyCode::KeyF),
        Key::G => Some(KeyCode::KeyG),
        Key::H => Some(KeyCode::KeyH),
        Key::I => Some(KeyCode::KeyI),
        Key::J => Some(KeyCode::KeyJ),
        Key::K => Some(KeyCode::KeyK),
        Key::L => Some(KeyCode::KeyL),
        Key::M => Some(KeyCode::KeyM),
        Key::N => Some(KeyCode::KeyN),
        Key::O => Some(KeyCode::KeyO),
        Key::P => Some(KeyCode::KeyP),
        Key::Q => Some(KeyCode::KeyQ),
        Key::R => Some(KeyCode::KeyR),
        Key::S => Some(KeyCode::KeyS),
        Key::T => Some(KeyCode::KeyT),
        Key::U => Some(KeyCode::KeyU),
        Key::V => Some(KeyCode::KeyV),
        Key::W => Some(KeyCode::KeyW),
        Key::X => Some(KeyCode::KeyX),
        Key::Y => Some(KeyCode::KeyY),
        Key::Z => Some(KeyCode::KeyZ),
        Key::Num0 => Some(KeyCode::Digit0),
        Key::Num1 => Some(KeyCode::Digit1),
        Key::Num2 => Some(KeyCode::Digit2),
        Key::Num3 => Some(KeyCode::Digit3),
        Key::Num4 => Some(KeyCode::Digit4),
        Key::Num5 => Some(KeyCode::Digit5),
        Key::Num6 => Some(KeyCode::Digit6),
        Key::Num7 => Some(KeyCode::Digit7),
        Key::Num8 => Some(KeyCode::Digit8),
        Key::Num9 => Some(KeyCode::Digit9),
        Key::Escape => Some(KeyCode::Escape),
        Key::Tab => Some(KeyCode::Tab),
        Key::Backspace => Some(KeyCode::Backspace),
        Key::Enter => Some(KeyCode::Enter),
        Key::Space => Some(KeyCode::Space),
        Key::Insert => Some(KeyCode::Insert),
        Key::Delete => Some(KeyCode::Delete),
        Key::Home => Some(KeyCode::Home),
        Key::End => Some(KeyCode::End),
        Key::PageUp => Some(KeyCode::PageUp),
        Key::PageDown => Some(KeyCode::PageDown),
        Key::ArrowUp => Some(KeyCode::ArrowUp),
        Key::ArrowDown => Some(KeyCode::ArrowDown),
        Key::ArrowLeft => Some(KeyCode::ArrowLeft),
        Key::ArrowRight => Some(KeyCode::ArrowRight),
        Key::Comma => Some(KeyCode::Comma),
        Key::Period => Some(KeyCode::Period),
        Key::Slash => Some(KeyCode::Slash),
        Key::Backslash => Some(KeyCode::Backslash),
        Key::Minus => Some(KeyCode::Minus),
        Key::Equals => Some(KeyCode::Equal),
        Key::Plus => Some(KeyCode::Equal),
        Key::Semicolon => Some(KeyCode::Semicolon),
        Key::Colon => Some(KeyCode::Semicolon),
        Key::Quote => Some(KeyCode::Quote),
        Key::OpenBracket => Some(KeyCode::BracketLeft),
        Key::CloseBracket => Some(KeyCode::BracketRight),
        Key::Backtick => Some(KeyCode::Backquote),
        Key::F1 => Some(KeyCode::F1),
        Key::F2 => Some(KeyCode::F2),
        Key::F3 => Some(KeyCode::F3),
        Key::F4 => Some(KeyCode::F4),
        Key::F6 => Some(KeyCode::F6),
        Key::F7 => Some(KeyCode::F7),
        Key::F8 => Some(KeyCode::F8),
        Key::F9 => Some(KeyCode::F9),
        Key::F10 => Some(KeyCode::F10),
        Key::F12 => Some(KeyCode::F12),
        _ => None,
    }
}

/// Host key to physical key code (see [`spec_map_key`]).
pub fn map_key(k: Key) -> (r: Option<KeyCode>)
    ensures
        r == spec_map_key(k),
{
    match k {
        Key::A => Some(KeyCode::KeyA),
        Key::B => Some(KeyCode::KeyB),
        Key::C => Some(KeyCode::KeyC),
        Key::D => Some(KeyCode::KeyD),
        Key::E => Some(KeyCode::KeyE),
        Key::F => Some(KeyCode::KeyF),
        Key::G => Some(KeyCode::KeyG),
        Key::H => Some(KeyCode::KeyH),
        Key::I => Some(KeyCode::KeyI),
        Key::J => Some(KeyCode::KeyJ),
        Key::K => Some(KeyCode::KeyK),
        Key::L => Some(KeyCode::KeyL),
        Key::M => Some(KeyCode::KeyM),
        Key::N => Some(KeyCode::KeyN),
        Key::O => Some(KeyCode::KeyO),
        Key::P => Some(KeyCode::KeyP),
        Key::Q => Some(KeyCode::KeyQ),
        Key::R => Some(KeyCode::KeyR),
        Key::S => Some(KeyCode::KeyS),
        Key::T => Some(KeyCode::KeyT),
        Key::U => Some(KeyCode::KeyU),
        Key::V => Some(KeyCode::KeyV),
        Key::W => Some(KeyCode::KeyW),
        Key::X => Some(KeyCode::KeyX),
        Key::Y => Some(KeyCode::KeyY),
        Key::Z => Some(KeyCode::KeyZ),
        Key::Num0 => Some(KeyCode::Digit0),
        Key::Num1 => Some(KeyCode::Digit1),
        Key::Num2 => Some(KeyCode::Digit2),
        Key::Num3 => Some(KeyCode::Digit3),
        Key::Num4 => Some(KeyCode::Digit4),
        Key::Num5 => Some(KeyCode::Digit5),
        Key::Num6 => Some(KeyCode::Digit6),
        Key::Num7 => Some(KeyCode::Digit7),
        Key::Num8 => Some(KeyCode::Digit8),
        Key::Num9 => Some(KeyCode::Digit9),
        Key::Escape => Some(KeyCode::Escape),
        Key::Tab => Some(KeyCode::Tab),
        Key::Backspace => Some(KeyCode::Backspace),
        Key::Enter => Some(KeyCode::Enter),
        Key::Space => Some(KeyCode::Space),
        Key::Insert => Some(KeyCode::Insert),
        Key::Delete => Some(KeyCode::Delete),
        Key::Home => Some(KeyCode::Home),
        Key::End => Some(KeyCode::End),
        Key::PageUp => Some(KeyCode::PageUp),
        Key::PageDown => Some(KeyCode::PageDown),
        Key::ArrowUp => Some(KeyCode::ArrowUp),
        Key::ArrowDown => Some(KeyCode::ArrowDown),
        Key::ArrowLeft => Some(KeyCode::ArrowLeft),
        Key::ArrowRight => Some(KeyCode::ArrowRight),
        Key::Comma => Some(KeyCode::Comma),
        Key::Period => Some(KeyCode::Period),
        Key::Slash => Some(KeyCode::Slash),
        Key::Backslash => Some(KeyCode::Backslash),
        Key::Minus => Some(KeyCode::Minus),
        Key::Equals => Some(KeyCode::Equal),
        Key::Plus => Some(KeyCode::Equal),
        Key::Semicolon => Some(KeyCode::Semicolon),
        Key::Colon => Some(KeyCode::Semicolon),
        Key::Quote => Some(KeyCode::Quote),
        Key::OpenBracket => Some(KeyCode::BracketLeft),
        Key::CloseBracket => Some(KeyCode::BracketRight),
        Key::Backtick => Some(KeyCode::Backquote),
        Key::F1 => Some(KeyCode::F1),
        Key::F2 => Some(KeyCode::F2),
        Key::F3 => Some(KeyCode::F3),
        Key::F4 => Some(KeyCode::F4),
        Key::F6 => Some(KeyCode::F6),
        Key::F7 => Some(KeyCode::F7),
        Key::F8 => Some(KeyCode::F8),
        Key::F9 => Some(KeyCode::F9),
        Key::F10 => Some(KeyCode::F10),
        Key::F12 => Some(KeyCode::F12),
        _ => None,
    }
}

/// The modifier keys the guest sees, as the GUI reports their state (it
/// delivers modifiers as state, not as key events).
/// The USB HID keyboard usage of each physical key code (HID Usage Tables,
/// Keyboard/Keypad page): the identity of the physical key.
pub open spec fn hid_usage(c: KeyCode) -> int {
    match c {
        KeyCode::KeyA => 0x04,
        KeyCode::KeyB => 0x05,
        KeyCode::KeyC => 0x06,
        KeyCode::KeyD => 0x07,
        KeyCode::KeyE => 0x08,
        KeyCode::KeyF => 0x09,
        KeyCode::KeyG => 0x0A,
        KeyCode::KeyH => 0x0B,
        KeyCode::KeyI => 0x0C,
        KeyCode::KeyJ => 0x0D,
        KeyCode::KeyK => 0x0E,
        KeyCode::KeyL => 0x0F,
        KeyCode::KeyM => 0x10,
        KeyCode::KeyN => 0x11,
        KeyCode::KeyO => 0x12,
        KeyCode::KeyP => 0x13,
        KeyCode::KeyQ => 0x14,
        KeyCode::KeyR => 0x15,
        KeyCode::KeyS => 0x16,
        KeyCode::KeyT => 0x17,
        KeyCode::KeyU => 0x18,
        KeyCode::KeyV => 0x19,
        KeyCode::KeyW => 0x1A,
        KeyCode::KeyX => 0x1B,
        KeyCode::KeyY => 0x1C,
        KeyCode::KeyZ => 0x1D,
        KeyCode::Digit0 => 0x27,
        KeyCode::Digit1 => 0x1E,
        KeyCode::Digit2 => 0x1F,
        KeyCode::Digit3 => 0x20,
        KeyCode::Digit4 => 0x21,
        KeyCode::Digit5 => 0x22,
        KeyCode::Digit6 => 0x23,
        KeyCode::Digit7 => 0x24,
        KeyCode::Digit8 => 0x25,
        KeyCode::Digit9 => 0x26,
        KeyCode::Escape => 0x29,
        KeyCode::Tab => 0x2B,
        KeyCode::Backspace => 0x2A,
        KeyCode::Enter => 0x28,
        KeyCode::Space => 0x2C,
        KeyCode::Insert => 0x49,
        KeyCode::Delete => 0x4C,
        KeyCode::Home => 0x4A,
        KeyCode::End => 0x4D,
        KeyCode::PageUp => 0x4B,
        KeyCode::PageDown => 0x4E,
        KeyCode::ArrowUp => 0x52,
        KeyCode::ArrowDown => 0x51,
        KeyCode::ArrowLeft => 0x50,
        KeyCode::ArrowRight => 0x4F,
        KeyCode::Comma => 0x36,
        KeyCode::Period => 0x37,
        KeyCode::Slash => 0x38,
        KeyCode::Backslash => 0x31,
        KeyCode::Minus => 0x2D,
        KeyCode::Equal => 0x2E,
        KeyCode::Semicolon => 0x33,
        KeyCode::Quote => 0x34,
        KeyCode::BracketLeft => 0x2F,
        KeyCode::BracketRight => 0x30,
        KeyCode::Backquote => 0x35,
        KeyCode::F1 => 0x3A,
        KeyCode::F2 => 0x3B,
        KeyCode::F3 => 0x3C,
        KeyCode::F4 => 0x3D,
        KeyCode::F6 => 0x3F,
        KeyCode::F7 => 0x40,
        KeyCode::F8 => 0x41,
        KeyCode::F9 => 0x42,
        KeyCode::F10 => 0x43,
        KeyCode::F12 => 0x45,
        KeyCode::ShiftLeft => 0xE1,
        KeyCode::ControlLeft => 0xE0,
        KeyCode::AltLeft => 0xE2,
        KeyCode::SuperLeft => 0xE3,
    }
}

/// The HID usage of the physical key that produces key `k` on a US layout;
/// the shifted `+` and `:` come from the `=` and `;` keys. `None` for keys
/// with no physical key of their own.
pub open spec fn key_usage(k: Key) -> Option<int> {
    match k {
        Key::A => Some(0x04int),
        Key::B => Some(0x05int),
        Key::C => Some(0x06int),
        Key::D => Some(0x07int),
        Key::E => Some(0x08int),
        Key::F => Some(0x09int),
        Key::G => Some(0x0Aint),
        Key::H => Some(0x0Bint),
        Key::I => Some(0x0Cint),
        Key::J => Some(0x0Dint),
        Key::K => Some(0x0Eint),
        Key::L => Some(0x0Fint),
        Key::M => Some(0x10int),
        Key::N => Some(0x11int),
        Key::O => Some(0x12int),
        Key::P => Some(0x13int),
        Key::Q => Some(0x14int),
        Key::R => Some(0x15int),
        Key::S => Some(0x16int),
        Key::T => Some(0x17int),
        Key::U => Some(0x18int),
        Key::V => Some(0x19int),
        Key::W => Some(0x1Aint),
        Key::X => Some(0x1Bint),
        Key::Y => Some(0x1Cint),
        Key::Z => Some(0x1Dint),
        Key::Num0 => Some(0x27int),
        Key::Num1 => Some(0x1Eint),
        Key::Num2 => Some(0x1Fint),
        Key::Num3 => Some(0x20int),
        Key::Num4 => Some(0x21int),
        Key::Num5 => Some(0x22int),
        Key::Num6 => Some(0x23int),
        Key::Num7 => Some(0x24int),
        Key::Num8 => Some(0x25int),
        Key::Num9 => Some(0x26int),
        Key::Escape => Some(0x29int),
        Key::Tab => Some(0x2Bint),
        Key::Backspace => Some(0x2Aint),
        Key::Enter => Some(0x28int),
        Key::Space => Some(0x2Cint),
        Key::Insert => Some(0x49int),
        Key::Delete => Some(0x4Cint),
        Key::Home => Some(0x4Aint),
        Key::End => Some(0x4Dint),
        Key::PageUp => Some(0x4Bint),
        Key::PageDown => Some(0x4Eint),
        Key::ArrowUp => Some(0x52int),
        Key::ArrowDown => Some(0x51int),
        Key::ArrowLeft => Some(0x50int),
        Key::ArrowRight => Some(0x4Fint),
        Key::Comma => Some(0x36int),
        Key::Period => Some(0x37int),
        Key::Slash => Some(0x38int),
        Key::Backslash => Some(0x31int),
        Key::Minus => Some(0x2Dint),
        Key::Equals => Some(0x2Eint),
        Key::Plus => Some(0x2Eint),
        Key::Semicolon => Some(0x33int),
        Key::Colon => Some(0x33int),
        Key::Quote => Some(0x34int),
        Key::OpenBracket => Some(0x2Fint),
        Key::CloseBracket => Some(0x30int),
        Key::Backtick => Some(0x35int),
        Key::F1 => Some(0x3Aint),
        Key::F2 => Some(0x3Bint),
        Key::F3 => Some(0x3Cint),
        Key::F4 => Some(0x3Dint),
        Key::F6 => Some(0x3Fint),
        Key::F7 => Some(0x40int),
        Key::F8 => Some(0x41int),
        Key::F9 => Some(0x42int),
        Key::F10 => Some(0x43int),
        Key::F12 => Some(0x45int),
        Key::F5 => Some(0x3Eint),
        Key::F11 => Some(0x44int),
        Key::Other => None,
    }
}

/// Every key that is sent reaches the guest as the physical key that produces
/// it, so no two keys are swapped or merged, apart from the shifted `+` and
/// `:`, which go as their unshifted keys. Every key with a physical key is
/// sent except F5 and F11 (the GUI's fullscreen toggle).
pub proof fn law_keys_reach_their_physical_key(k: Key)
    ensures
        spec_map_key(k) matches Some(c) ==> key_usage(k) == Some(hid_usage(c)),
        key_usage(k) is Some && k != Key::F5 && k != Key::F11 ==> spec_map_key(k) is Some,
        spec_map_key(k) is None <==> (k == Key::F5 || k == Key::F11 || k == Key::Other),
{
}

/// Different physical key codes are different physical keys.
pub proof fn law_hid_usage_identifies_the_key(c1: KeyCode, c2: KeyCode)
    ensures
        hid_usage(c1) == hid_usage(c2) ==> c1 == c2,
{
}

#[derive(Debug, Clone, Copy, PartialEq, Eq, Structural)]
pub struct Modifiers {
    pub alt: bool,
    pub ctrl: bool,
    pub shift: bool,
    pub mac_cmd: bool,
}

impl Modifiers {
    pub fn none() -> (m: Self)
        ensures
            !m.alt && !m.ctrl && !m.shift && !m.mac_cmd,
    {
        Modifiers { alt: false, ctrl: false, shift: false, mac_cmd: false }
    }
}

/// The press (`true`) or release (`false`) of `code` when a modifier goes from
/// `was` to `now`; nothing when it is unchanged.
pub open spec fn modifier_edge(code: KeyCode, was: bool, now: bool) -> Seq<(KeyCode, bool)> {
    if now && !was {
        seq![(code, true)]
    } else if !now && was {
        seq![(code, false)]
    } else {
        Seq::empty()
    }
}

/// The synthesised key events for a modifier change, in the order shift,
/// control, alt, super.
pub open spec fn modifier_events(prev: Modifiers, cur: Modifiers) -> Seq<(KeyCode, bool)> {
    modifier_edge(KeyCode::ShiftLeft, prev.shift, cur.shift) + modifier_edge(
        KeyCode::ControlLeft,
        prev.ctrl,
        cur.ctrl,
    ) + modifier_edge(KeyCode::AltLeft, prev.alt, cur.alt) + modifier_edge(
        KeyCode::SuperLeft,
        prev.mac_cmd,
        cur.mac_cmd,
    )
}

/// Modifier events only report changes: once the guest has been told about
/// a modifier state, the same state again sends nothing, and a state that
/// differs sends one event per changed modifier.
pub proof fn law_modifier_events_track_changes(prev: Modifiers, cur: Modifiers)
    ensures
        modifier_events(cur, cur) == Seq::<(KeyCode, bool)>::empty(),
        modifier_events(prev, cur).len() == (if prev.shift != cur.shift {
            1int
        } else {
            0
        }) + (if prev.ctrl != cur.ctrl {
            1int
        } else {
            0
        }) + (if prev.alt != cur.alt {
            1int
        } else {
            0
        }) + (if prev.mac_cmd != cur.mac_cmd {
            1int
        } else {
            0
        }),
{
    assert(modifier_events(cur, cur) =~= Seq::<(KeyCode, bool)>::empty());
}

fn push_edge(out: &mut Vec<(KeyCode, bool)>, code: KeyCode, was: bool, now: bool)
    ensures
        final(out)@ == old(out)@ + modifier_edge(code, was, now),
{
    if now && !was {
        out.push((code, true));
        assert(final(out)@ =~= old(out)@ + modifier_edge(code, was, now));
    } else if !now && was {
        out.push((code, false));
        assert(final(out)@ =~= old(out)@ + modifier_edge(code, was, now));
    } else {
        assert(final(out)@ =~= old(out)@ + modifier_edge(code, was, now));
    }
}

/// PS/2 button bits from the pointer state: bit 0 left, bit 1 right, bit 2
/// middle.
pub open spec fn spec_pointer_buttons(primary: bool, secondary: bool, middle: bool) -> u8 {
    ((if primary {
        1u8
    } else {
        0u8
    }) | (if secondary {
        2u8
    } else {
        0u8
    }) | (if middle {
        4u8
    } else {
        0u8
    })) as u8
}

pub fn pointer_buttons(primary: bool, secondary: bool, middle: bool) -> (b: u8)
    ensures
        b == spec_pointer_buttons(primary, secondary, middle),
        b < 8,
{
    let l: u8 = if primary {
        1u8
    } else {
        0u8
    };
    let r: u8 = if secondary {
        2u8
    } else {
        0u8
    };
    let m: u8 = if middle {
        4u8
    } else {
        0u8
    };
    assert((l | r | m) < 8) by (bit_vector)
        requires
            l == 0 || l == 1,
            r == 0 || r == 2,
            m == 0 || m == 4,
    ;
    l | r | m
}

/// `v` clamped to the 9-bit signed range of a PS/2 motion field.
pub open spec fn clamp9(v: i32) -> i32 {
    if v < -256 {
        -256i32
    } else if v > 255 {
        255i32
    } else {
        v
    }
}

/// One PS/2 mouse packet: byte 0 has bit 3 always set, the buttons in bits
/// 2..0 (M/R/L), the X and Y sign in bits 4 and 5, and the X/Y overflow flags
/// in bits 6 and 7; bytes 1 and 2 are the low bytes of the clamped motion.
pub open spec fn spec_mouse_packet(buttons: u8, dx: i32, dy: i32) -> (u8, u8, u8) {
    let sx = clamp9(dx);
    let sy = clamp9(dy);
    let b0 = (0x08u8 | (buttons & 0x07u8)) | (if sx < 0 {
        0x10u8
    } else {
        0u8
    }) | (if sy < 0 {
        0x20u8
    } else {
        0u8
    }) | (if sx < -256 || sx > 255 {
        0x40u8
    } else {
        0u8
    }) | (if sy < -256 || sy > 255 {
        0x80u8
    } else {
        0u8
    });
    (b0 as u8, sx as u8, sy as u8)
}

/// Build one PS/2 mouse packet (see [`spec_mouse_packet`]). Large moves are
/// clamped rather than split, so the overflow flags never come up.
pub fn mouse_packet(buttons: u8, dx: i32, dy: i32) -> (p: (u8, u8, u8))
    ensures
        p == spec_mouse_packet(buttons, dx, dy),
        p.0 & 0x08u8 == 0x08u8,
        p.0 & 0xC0u8 == 0u8,
{
    // Clamp to the 9-bit signed range expected by the protocol. Real drivers
    // split large moves; the GUI delivers small per-frame deltas.
    let sx = if dx < -256 {
        -256i32
    } else if dx > 255 {
        255i32
    } else {
        dx
    };
    let sy = if dy < -256 {
        -256i32
    } else if dy > 255 {
        255i32
    } else {
        dy
    };
    let xs: u8 = if sx < 0 {
        0x10u8
    } else {
        0u8
    };
    let ys: u8 = if sy < 0 {
        0x20u8
    } else {
        0u8
    };
    let xo: u8 = if sx < -256 || sx > 255 {
        0x40u8
    } else {
        0u8
    };
    let yo: u8 = if sy < -256 || sy > 255 {
        0x80u8
    } else {
        0u8
    };
    let b0: u8 = (0x08u8 | (buttons & 0x07u8)) | xs | ys | xo | yo;
    assert(b0 & 0x08u8 == 0x08u8 && b0 & 0xC0u8 == 0u8) by (bit_vector)
        requires
            b0 == (0x08u8 | (buttons & 0x07u8)) | xs | ys | xo | yo,
            xs == 0 || xs == 0x10,
            ys == 0 || ys == 0x20,
            xo == 0,
            yo == 0,
    ;
    (b0, sx as u8, sy as u8)
}

/// What the input pump remembers between frames: the last modifier
/// state and the last button state sent to the guest.
#[derive(Debug, Clone, Copy, PartialEq, Eq)]
pub struct InputState {
    pub last_mods: Modifiers,
    pub last_buttons: u8,
}

impl Default for InputState {
    fn default() -> (s: Self)
        ensures
            s.last_mods == Modifiers::none_spec(),
            s.last_buttons == 0,
    {
        InputState { last_mods: Modifiers::none(), last_buttons: 0 }
    }
}

impl Modifiers {
    pub open spec fn none_spec() -> Modifiers {
        Modifiers { alt: false, ctrl: false, shift: false, mac_cmd: false }
    }
}

impl InputState {
    /// Diff the previous modifier state against `cur`, returning the key
    /// events to send (press/release of the left-hand modifier keys).
    pub fn update_modifiers(&mut self, cur: Modifiers) -> (events: Vec<(KeyCode, bool)>)
        ensures
            events@ == modifier_events(old(self).last_mods, cur),
            final(self).last_mods == cur,
            final(self).last_buttons == old(self).last_buttons,
    {
        let prev = self.last_mods;
        let mut out: Vec<(KeyCode, bool)> = Vec::new();
        push_edge(&mut out, KeyCode::ShiftLeft, prev.shift, cur.shift);
        push_edge(&mut out, KeyCode::ControlLeft, prev.ctrl, cur.ctrl);
        push_edge(&mut out, KeyCode::AltLeft, prev.alt, cur.alt);
        push_edge(&mut out, KeyCode::SuperLeft, prev.mac_cmd, cur.mac_cmd);
        self.last_mods = cur;
        assert(out@ =~= modifier_events(prev, cur));
        out
    }

    /// One frame of pointer input over the framebuffer: a packet is sent when
    /// the buttons changed or the cursor moved by (`dx`, `dy`) screen pixels
    /// (PS/2's Y axis points up, so the packet carries `-dy`).
    pub fn mouse_step(&mut self, buttons: u8, dx: i32, dy: i32) -> (p: Option<(u8, u8, u8)>)
        requires
            dy != i32::MIN,
        ensures
            if buttons != old(self).last_buttons || dx != 0 || dy != 0 {
                p == Some(spec_mouse_packet(buttons, dx, (-dy) as i32)) && final(self).last_buttons
                    == buttons
            } else {
                p is None && final(self).last_buttons == old(self).last_buttons
            },
            final(self).last_mods == old(self).last_mods,
    {
        if buttons != self.last_buttons || dx != 0 || dy != 0 {
            let pkt = mouse_packet(buttons, dx, -dy);
            self.last_buttons = buttons;
            Some(pkt)
        } else {
            None
        }
    }
}

} // verus!
