//! PS/2 keyboard scancode decoding: a scancode maps to an ASCII byte,
//! and a modifier state (shifts, control, alt, caps lock) updated on
//! every scancode decides the final character.

use vstd::prelude::*;

use crate::io::PortIo;

verus! {

/// Data port of the PS/2 controller.
pub const KEYBOARD_DATA: u16 = 0x60;

/// Modifier bit: left shift held.
pub const MOD_L_SHIFT: u8 = 0x80;

/// Modifier bit: right shift held.
pub const MOD_R_SHIFT: u8 = 0x40;

/// Modifier bit: right control held.
pub const MOD_R_CTRL: u8 = 0x20;

/// Modifier bit: left control held.
pub const MOD_L_CTRL: u8 = 0x10;

/// Modifier bit: right alt held.
pub const MOD_R_ALT: u8 = 0x08;

/// Modifier bit: left alt held.
pub const MOD_L_ALT: u8 = 0x04;

/// Modifier bit: caps lock active.
pub const MOD_CAPSLOCK: u8 = 0x02;

/// Modifier bit: num lock active.
pub const MOD_NUMLOCK: u8 = 0x01;

/// The ASCII byte of a make scancode, for the keys this keyboard
/// layout decodes; `None` for everything else.
pub open spec fn spec_to_ascii(code: u8) -> Option<u8> {
    match code {
        0x01 => Some(0x1Bu8),
        0x02 => Some(0x31u8),
        0x03 => Some(0x32u8),
        0x04 => Some(0x33u8),
        0x05 => Some(0x34u8),
        0x06 => Some(0x35u8),
        0x07 => Some(0x36u8),
        0x08 => Some(0x37u8),
        0x09 => Some(0x38u8),
        0x0A => Some(0x39u8),
        0x0B => Some(0x30u8),
        0x0C => Some(0x2Du8),
        0x0D => Some(0x3Du8),
        0x0E => Some(0x08u8),
        0x0F => Some(0x09u8),
        0x10 => Some(0x71u8),
        0x11 => Some(0x77u8),
        0x12 => Some(0x65u8),
        0x13 => Some(0x72u8),
        0x14 => Some(0x74u8),
        0x15 => Some(0x79u8),
        0x16 => Some(0x75u8),
        0x17 => Some(0x69u8),
        0x18 => Some(0x6Fu8),
        0x19 => Some(0x70u8),
        0x1A => Some(0x5Bu8),
        0x1B => Some(0x5Du8),
        0x1C => Some(0x0Au8),
        0x1E => Some(0x61u8),
        0x1F => Some(0x73u8),
        0x20 => Some(0x64u8),
        0x21 => Some(0x66u8),
        0x22 => Some(0x67u8),
        0x23 => Some(0x68u8),
        0x24 => Some(0x6Au8),
        0x25 => Some(0x6Bu8),
        0x26 => Some(0x6Cu8),
        0x27 => Some(0x3Bu8),
        0x28 => Some(0x27u8),
        0x29 => Some(0x60u8),
        0x2B => Some(0x5Cu8),
        0x2C => Some(0x7Au8),
        0x2D => Some(0x78u8),
        0x2E => Some(0x63u8),
        0x2F => Some(0x76u8),
        0x30 => Some(0x62u8),
        0x31 => Some(0x6Eu8),
        0x32 => Some(0x6Du8),
        0x33 => Some(0x2Cu8),
        0x34 => Some(0x2Eu8),
        0x35 => Some(0x2Fu8),
        0x39 => Some(0x20u8),
        _ => None,
    }
}

/// One raw scancode byte.
#[derive(Debug, Clone, Copy, PartialEq, Eq, Structural)]
pub struct Scancode(pub u8);

impl Scancode {
    /// The ASCII byte of this scancode, if the layout decodes it.
    pub fn to_ascii(&self) -> (r: Option<u8>)
        ensures
            r == spec_to_ascii(self.0),
    {
        match self.0 {
            0x01 => Some(0x1B),
            0x02 => Some(0x31u8),
            0x03 => Some(0x32u8),
            0x04 => Some(0x33u8),
            0x05 => Some(0x34u8),
            0x06 => Some(0x35u8),
            0x07 => Some(0x36u8),
            0x08 => Some(0x37u8),
            0x09 => Some(0x38u8),
            0x0A => Some(0x39u8),
            0x0B => Some(0x30u8),
            0x0C => Some(0x2Du8),
            0x0D => Some(0x3Du8),
            0x0E => Some(0x08),
            0x0F => Some(0x09u8),
            0x10 => Some(0x71u8),
            0x11 => Some(0x77u8),
            0x12 => Some(0x65u8),
            0x13 => Some(0x72u8),
            0x14 => Some(0x74u8),
            0x15 => Some(0x79u8),
            0x16 => Some(0x75u8),
            0x17 => Some(0x69u8),
            0x18 => Some(0x6Fu8),
            0x19 => Some(0x70u8),
            0x1A => Some(0x5Bu8),
            0x1B => Some(0x5Du8),
            0x1C => Some(0x0Au8),
            0x1E => Some(0x61u8),
            0x1F => Some(0x73u8),
            0x20 => Some(0x64u8),
            0x21 => Some(0x66u8),
            0x22 => Some(0x67u8),
            0x23 => Some(0x68u8),
            0x24 => Some(0x6Au8),
            0x25 => Some(0x6Bu8),
            0x26 => Some(0x6Cu8),
            0x27 => Some(0x3Bu8),
            0x28 => Some(0x27u8),
            0x29 => Some(0x60u8),
            0x2B => Some(0x5Cu8),
            0x2C => Some(0x7Au8),
            0x2D => Some(0x78u8),
            0x2E => Some(0x63u8),
            0x2F => Some(0x76u8),
            0x30 => Some(0x62u8),
            0x31 => Some(0x6Eu8),
            0x32 => Some(0x6Du8),
            0x33 => Some(0x2Cu8),
            0x34 => Some(0x2Eu8),
            0x35 => Some(0x2Fu8),
            0x39 => Some(0x20u8),
            _ => None,
        }
    }
}

/// The modifier state after seeing a scancode: shifts, control and alt
/// follow their make and break codes, caps lock toggles on its leading
/// edge.
pub open spec fn spec_update(m: Modifiers, code: u8) -> Modifiers {
    match code {
        0x1D => Modifiers { bits: m.bits | MOD_L_CTRL },
        0x2A => Modifiers { bits: m.bits | MOD_L_SHIFT },
        0x36 => Modifiers { bits: m.bits | MOD_R_SHIFT },
        0x38 => Modifiers { bits: m.bits | MOD_L_ALT },
        0x3A => Modifiers { bits: m.bits ^ MOD_CAPSLOCK },
        0x9D => Modifiers { bits: m.bits & !MOD_L_CTRL },
        0xAA => Modifiers { bits: m.bits & !MOD_L_SHIFT },
        0xB6 => Modifiers { bits: m.bits & !MOD_R_SHIFT },
        0xB8 => Modifiers { bits: m.bits & !MOD_L_ALT },
        _ => m,
    }
}

/// Either shift key held.
pub open spec fn spec_shifted(m: Modifiers) -> bool {
    m.bits & MOD_L_SHIFT == MOD_L_SHIFT || m.bits & MOD_R_SHIFT == MOD_R_SHIFT
}

/// Letters come out uppercase: shift and caps lock cancel out.
pub open spec fn spec_uppercase(m: Modifiers) -> bool {
    spec_shifted(m) != (m.bits & MOD_CAPSLOCK == MOD_CAPSLOCK)
}

/// The modifiers applied to a decoded ASCII byte: letters are raised
/// when the state is uppercase, digits become their shifted symbols.
pub open spec fn spec_modify(m: Modifiers, ascii: u8) -> u8 {
    if 0x61u8 <= ascii <= 0x7Au8 && spec_uppercase(m) {
        (ascii - 0x61u8 + 0x41u8) as u8
    } else if 0x31u8 <= ascii <= 0x39u8 && spec_shifted(m) {
        (ascii - 0x31u8 + 0x21u8) as u8
    } else if ascii == 0x30u8 && spec_shifted(m) {
        0x29u8
    } else {
        ascii
    }
}

/// The keyboard's modifier state, one bit per modifier.
#[derive(Debug, Clone, Copy, PartialEq, Eq, Structural)]
pub struct Modifiers {
    /// The packed modifier bits.
    pub bits: u8,
}

impl Modifiers {
    /// No modifier active.
    pub fn new() -> (r: Modifiers)
        ensures
            r.bits == 0,
    {
        Modifiers { bits: 0x00 }
    }

    /// Either shift key held.
    pub fn is_shifted(&self) -> (r: bool)
        ensures
            r == spec_shifted(*self),
    {
        self.bits & MOD_L_SHIFT == MOD_L_SHIFT || self.bits & MOD_R_SHIFT == MOD_R_SHIFT
    }

    /// Whether letters currently come out uppercase.
    pub fn is_uppercase(&self) -> (r: bool)
        ensures
            r == spec_uppercase(*self),
    {
        self.is_shifted() ^ (self.bits & MOD_CAPSLOCK == MOD_CAPSLOCK)
    }

    /// Track a scancode's effect on the modifier state.
    pub fn update(&mut self, scancode: Scancode)
        ensures
            *final(self) == spec_update(*old(self), scancode.0),
    {
        match scancode.0 {
            0x1D => { self.bits = self.bits | MOD_L_CTRL },
            0x2A => { self.bits = self.bits | MOD_L_SHIFT },
            0x36 => { self.bits = self.bits | MOD_R_SHIFT },
            0x38 => { self.bits = self.bits | MOD_L_ALT },
            0x3A => { self.bits = self.bits ^ MOD_CAPSLOCK },
            0x9D => { self.bits = self.bits & !MOD_L_CTRL },
            0xAA => { self.bits = self.bits & !MOD_L_SHIFT },
            0xB6 => { self.bits = self.bits & !MOD_R_SHIFT },
            0xB8 => { self.bits = self.bits & !MOD_L_ALT },
            _ => {},
        }
    }

    /// Apply the modifier state to a decoded ASCII byte.
    pub fn modify(&self, ascii: u8) -> (r: u8)
        ensures
            r == spec_modify(*self, ascii),
    {
        if 0x61u8 <= ascii && ascii <= 0x7Au8 && self.is_uppercase() {
            ascii - 0x61u8 + 0x41u8
        } else if 0x31u8 <= ascii && ascii <= 0x39u8 && self.is_shifted() {
            ascii - 0x31u8 + 0x21u8
        } else if ascii == 0x30u8 && self.is_shifted() {
            0x29u8
        } else {
            ascii
        }
    }
}

/// The keyboard state after seeing one scancode byte.
pub open spec fn spec_keyboard_after(k: Keyboard, code: u8) -> Keyboard {
    Keyboard { scancode: Scancode(code), state: spec_update(k.state, code) }
}

/// The character one scancode byte produces, given the state before it.
pub open spec fn spec_keyboard_char(k: Keyboard, code: u8) -> Option<char> {
    match spec_to_ascii(code) {
        Some(ascii) => Some(spec_modify(spec_update(k.state, code), ascii) as char),
        None => None,
    }
}

/// The PS/2 keyboard: the last scancode seen and the modifier state.
#[derive(Debug, Clone, Copy, PartialEq, Eq, Structural)]
pub struct Keyboard {
    /// The last scancode read.
    pub scancode: Scancode,
    /// The current modifier state.
    pub state: Modifiers,
}

impl Keyboard {
    /// A keyboard that has seen nothing.
    pub fn new() -> (r: Keyboard)
        ensures
            r.scancode.0 == 0,
            r.state.bits == 0,
    {
        Keyboard { scancode: Scancode(0x00), state: Modifiers::new() }
    }

    /// Pull the next scancode byte from the controller. Nothing is
    /// promised about what the hardware hands over.
    pub fn read_scancode<P: PortIo>(&mut self, ports: &mut P)
        ensures
            final(self).state == old(self).state,
    {
        self.scancode = Scancode(ports.inb(KEYBOARD_DATA));
    }

    /// Track the last scancode's effect on the modifier state.
    pub fn update(&mut self)
        ensures
            *final(self) == spec_keyboard_after(*old(self), old(self).scancode.0),
    {
        self.state.update(self.scancode);
    }

    /// Read one scancode and decode it: some byte came off the port,
    /// and the new state and the result follow from it exactly.
    pub fn read_char<P: PortIo>(&mut self, ports: &mut P) -> (r: Option<char>)
        ensures
            exists|code: u8|
                *final(self) == spec_keyboard_after(*old(self), code) && r == spec_keyboard_char(
                    *old(self),
                    code,
                ),
    {
        let ghost start = *self;
        self.read_scancode(ports);
        let ghost code = self.scancode.0;
        self.update();
        let r = match self.scancode.to_ascii() {
            Some(ascii) => Some(self.state.modify(ascii) as char),
            None => None,
        };
        proof {
            assert(*self == spec_keyboard_after(start, code) && r == spec_keyboard_char(
                start,
                code,
            ));
        }
        r
    }
}

/// Read one character from the keyboard, if the scancode that arrived
/// decodes to one.
pub fn read_char<P: PortIo>(keyboard: &mut Keyboard, ports: &mut P) -> (r: Option<char>)
    ensures
        exists|code: u8|
            *final(keyboard) == spec_keyboard_after(*old(keyboard), code) && r == spec_keyboard_char(
                *old(keyboard),
                code,
            ),
{
    keyboard.read_char(ports)
}

} // verus!
