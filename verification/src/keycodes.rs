//! Logical key identities and their HID encodings.
//!
//! Every physical key meaning is one [`KeyCode`]: letters, digits,
//! punctuation, the eight modifiers, and two sentinels (`No` for an
//! unassigned position, `FnKey` for the reserved layer key that carries
//! no HID encoding). Each modifier carries a bit position 0..7 used when
//! packing the modifier byte of a report.

use vstd::prelude::*;

verus! {

/// Identity of one physical key meaning.
#[derive(Clone, Copy, PartialEq, Eq, Structural, Debug)]
pub enum KeyCode {
    /// Unassigned position: pressing it must have no effect on a report.
    No,
    A,
    B,
    C,
    D,
    E,
    F,
    G,
    H,
    I,
    J,
    K,
    L,
    M,
    N,
    O,
    P,
    Q,
    R,
    S,
    T,
    U,
    V,
    W,
    X,
    Y,
    Z,
    Kb1,
    Kb2,
    Kb3,
    Kb4,
    Kb5,
    Kb6,
    Kb7,
    Kb8,
    Kb9,
    Kb0,
    Enter,
    Escape,
    BSpace,
    Tab,
    Space,
    Minus,
    Equal,
    LBracket,
    RBracket,
    Bslash,
    SColon,
    Quote,
    Grave,
    Comma,
    Dot,
    Slash,
    LCtrl,
    LShift,
    LAlt,
    LGui,
    RCtrl,
    RShift,
    RAlt,
    RGui,
    /// Reserved function/layer key: recognized but carries no HID encoding.
    FnKey,
}

impl KeyCode {
    /// HID usage code of this key. Sentinels map to 0; modifiers map to
    /// their usage 0xE0..=0xE7.
    pub open spec fn code_spec(self) -> u8 {
        match self {
            KeyCode::No => 0,
            KeyCode::A => 4,
            KeyCode::B => 5,
            KeyCode::C => 6,
            KeyCode::D => 7,
            KeyCode::E => 8,
            KeyCode::F => 9,
            KeyCode::G => 10,
            KeyCode::H => 11,
            KeyCode::I => 12,
            KeyCode::J => 13,
            KeyCode::K => 14,
            KeyCode::L => 15,
            KeyCode::M => 16,
            KeyCode::N => 17,
            KeyCode::O => 18,
            KeyCode::P => 19,
            KeyCode::Q => 20,
            KeyCode::R => 21,
            KeyCode::S => 22,
            KeyCode::T => 23,
            KeyCode::U => 24,
            KeyCode::V => 25,
            KeyCode::W => 26,
            KeyCode::X => 27,
            KeyCode::Y => 28,
            KeyCode::Z => 29,
            KeyCode::Kb1 => 30,
            KeyCode::Kb2 => 31,
            KeyCode::Kb3 => 32,
            KeyCode::Kb4 => 33,
            KeyCode::Kb5 => 34,
            KeyCode::Kb6 => 35,
            KeyCode::Kb7 => 36,
            KeyCode::Kb8 => 37,
            KeyCode::Kb9 => 38,
            KeyCode::Kb0 => 39,
            KeyCode::Enter => 40,
            KeyCode::Escape => 41,
            KeyCode::BSpace => 42,
            KeyCode::Tab => 43,
            KeyCode::Space => 44,
            KeyCode::Minus => 45,
            KeyCode::Equal => 46,
            KeyCode::LBracket => 47,
            KeyCode::RBracket => 48,
            KeyCode::Bslash => 49,
            KeyCode::SColon => 51,
            KeyCode::Quote => 52,
            KeyCode::Grave => 53,
            KeyCode::Comma => 54,
            KeyCode::Dot => 55,
            KeyCode::Slash => 56,
            KeyCode::LCtrl => 224,
            KeyCode::LShift => 225,
            KeyCode::LAlt => 226,
            KeyCode::LGui => 227,
            KeyCode::RCtrl => 228,
            KeyCode::RShift => 229,
            KeyCode::RAlt => 230,
            KeyCode::RGui => 231,
            KeyCode::FnKey => 0,
        }
    }

    /// HID usage code of this key.
    pub fn code(self) -> (r: u8)
        ensures
            r == self.code_spec(),
    {
        match self {
            KeyCode::No => 0,
            KeyCode::A => 4,
            KeyCode::B => 5,
            KeyCode::C => 6,
            KeyCode::D => 7,
            KeyCode::E => 8,
            KeyCode::F => 9,
            KeyCode::G => 10,
            KeyCode::H => 11,
            KeyCode::I => 12,
            KeyCode::J => 13,
            KeyCode::K => 14,
            KeyCode::L => 15,
            KeyCode::M => 16,
            KeyCode::N => 17,
            KeyCode::O => 18,
            KeyCode::P => 19,
            KeyCode::Q => 20,
            KeyCode::R => 21,
            KeyCode::S => 22,
            KeyCode::T => 23,
            KeyCode::U => 24,
            KeyCode::V => 25,
            KeyCode::W => 26,
            KeyCode::X => 27,
            KeyCode::Y => 28,
            KeyCode::Z => 29,
            KeyCode::Kb1 => 30,
            KeyCode::Kb2 => 31,
            KeyCode::Kb3 => 32,
            KeyCode::Kb4 => 33,
            KeyCode::Kb5 => 34,
            KeyCode::Kb6 => 35,
            KeyCode::Kb7 => 36,
            KeyCode::Kb8 => 37,
            KeyCode::Kb9 => 38,
            KeyCode::Kb0 => 39,
            KeyCode::Enter => 40,
            KeyCode::Escape => 41,
            KeyCode::BSpace => 42,
            KeyCode::Tab => 43,
            KeyCode::Space => 44,
            KeyCode::Minus => 45,
            KeyCode::Equal => 46,
            KeyCode::LBracket => 47,
            KeyCode::RBracket => 48,
            KeyCode::Bslash => 49,
            KeyCode::SColon => 51,
            KeyCode::Quote => 52,
            KeyCode::Grave => 53,
            KeyCode::Comma => 54,
            KeyCode::Dot => 55,
            KeyCode::Slash => 56,
            KeyCode::LCtrl => 224,
            KeyCode::LShift => 225,
            KeyCode::LAlt => 226,
            KeyCode::LGui => 227,
            KeyCode::RCtrl => 228,
            KeyCode::RShift => 229,
            KeyCode::RAlt => 230,
            KeyCode::RGui => 231,
            KeyCode::FnKey => 0,
        }
    }

    /// Whether this key is one of the eight modifiers.
    pub open spec fn is_modifier_spec(self) -> bool {
        match self {
            KeyCode::LCtrl
            | KeyCode::LShift
            | KeyCode::LAlt
            | KeyCode::LGui
            | KeyCode::RCtrl
            | KeyCode::RShift
            | KeyCode::RAlt
            | KeyCode::RGui => true,
            _ => false,
        }
    }

    /// Whether this key is one of the eight modifiers.
    pub fn is_modifier(&self) -> (r: bool)
        ensures
            r == self.is_modifier_spec(),
    {
        match self {
            KeyCode::LCtrl
            | KeyCode::LShift
            | KeyCode::LAlt
            | KeyCode::LGui
            | KeyCode::RCtrl
            | KeyCode::RShift
            | KeyCode::RAlt
            | KeyCode::RGui => true,
            _ => false,
        }
    }

    /// Bit position (0..7) of a modifier in the report's modifier byte:
    /// left ctrl = bit 0 up to right gui = bit 7. Non-modifiers map to 0.
    pub open spec fn modifier_bit_spec(self) -> u8 {
        match self {
            KeyCode::LCtrl => 0,
            KeyCode::LShift => 1,
            KeyCode::LAlt => 2,
            KeyCode::LGui => 3,
            KeyCode::RCtrl => 4,
            KeyCode::RShift => 5,
            KeyCode::RAlt => 6,
            KeyCode::RGui => 7,
            _ => 0,
        }
    }

    /// Bit position of this modifier in the modifier byte.
    pub fn modifier_bit(&self) -> (r: u8)
        ensures
            r == self.modifier_bit_spec(),
            r < 8,
    {
        match self {
            KeyCode::LCtrl => 0,
            KeyCode::LShift => 1,
            KeyCode::LAlt => 2,
            KeyCode::LGui => 3,
            KeyCode::RCtrl => 4,
            KeyCode::RShift => 5,
            KeyCode::RAlt => 6,
            KeyCode::RGui => 7,
            _ => 0,
        }
    }

    /// One-bit mask of this modifier in the modifier byte.
    pub fn as_modifier_bit(&self) -> (r: u8)
        requires
            self.is_modifier_spec(),
        ensures
            r == 1u8 << self.modifier_bit_spec(),
    {
        let b = self.modifier_bit();
        1u8 << b
    }

    /// A key that takes a slot in the full NKRO bitmap and the fake-boot
    /// buffer: neither a sentinel nor a modifier.
    pub open spec fn is_normal_spec(self) -> bool {
        self != KeyCode::No && self != KeyCode::FnKey && !self.is_modifier_spec()
    }
}

/// The modifier key that owns a given bit of the modifier byte.
pub open spec fn modifier_of_bit(b: u8) -> KeyCode {
    if b == 0 {
        KeyCode::LCtrl
    } else if b == 1 {
        KeyCode::LShift
    } else if b == 2 {
        KeyCode::LAlt
    } else if b == 3 {
        KeyCode::LGui
    } else if b == 4 {
        KeyCode::RCtrl
    } else if b == 5 {
        KeyCode::RShift
    } else if b == 6 {
        KeyCode::RAlt
    } else {
        KeyCode::RGui
    }
}

/// Every key that feeds the NKRO bitmap has a nonzero usage code below
/// 120, so it owns exactly one bit of the 120-bit `keys` field and can
/// never be mistaken for an empty fake-boot slot.
pub proof fn lemma_normal_code_range(k: KeyCode)
    ensures
        k.is_normal_spec() ==> 4 <= k.code_spec() < 120,
{
}

/// A modifier's designated bit always addresses the 8-bit modifier byte.
pub proof fn lemma_modifier_bit_range(k: KeyCode)
    ensures
        k.modifier_bit_spec() < 8,
{
}

/// Exactly eight modifier identities exist, one per bit of the modifier
/// byte: every bit 0..7 is owned by one modifier, and a modifier is
/// determined by its bit.
pub proof fn lemma_modifier_bits_exhaustive()
    ensures
        forall|b: u8|
            b < 8 ==> (#[trigger] modifier_of_bit(b)).is_modifier_spec()
                && modifier_of_bit(b).modifier_bit_spec() == b,
        forall|k: KeyCode| #[trigger]
            k.is_modifier_spec() ==> modifier_of_bit(k.modifier_bit_spec()) == k,
{
}

} // verus!
