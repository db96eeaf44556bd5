//! Minitel / Videotex protocol constants.
//!
//! `CANCEL` is the real C0 "CAN" control character (0x18), which clears to the
//! end of the line; it is not the two-byte status-line sequence.
use vstd::prelude::*;

verus! {

// --- C0 control characters ---
pub const NUL: u8 = 0x00;
pub const START_OF_HEADING: u8 = 0x01;
pub const END_OF_TRANSMISSION: u8 = 0x04;
pub const ENQUIRY: u8 = 0x05;
pub const BELL: u8 = 0x07;
pub const BACKSPACE: u8 = 0x08;
pub const TAB: u8 = 0x09;
pub const LINE_FEED: u8 = 0x0A;
pub const VERTICAL_TAB: u8 = 0x0B;
pub const FORM_FEED: u8 = 0x0C;
pub const CARRIAGE_RETURN: u8 = 0x0D;
pub const SHIFT_OUT: u8 = 0x0E;
pub const SHIFT_IN: u8 = 0x0F;
pub const CURSOR_ON: u8 = 0x11;
pub const REPEAT: u8 = 0x12;
pub const DEVICE_CONTROL_3: u8 = 0x13;
pub const CURSOR_OFF: u8 = 0x14;
pub const CANCEL: u8 = 0x18;
pub const SINGLE_SHIFT_2: u8 = 0x19;
pub const ESCAPE: u8 = 0x1B;
pub const RECORD_SEPARATOR: u8 = 0x1E;
pub const UNIT_SEPARATOR: u8 = 0x1F;

/// DC3 also serves as the separator in some protocol sequences.
pub const SEPARATOR: u8 = DEVICE_CONTROL_3;

// --- multi-byte sequence prefixes ---
pub const CSI: [u8; 2] = [ESCAPE, 0x5B];
pub const PROTOCOL_1: [u8; 2] = [ESCAPE, 0x39];
pub const PROTOCOL_2: [u8; 2] = [ESCAPE, 0x3A];
pub const PROTOCOL_3: [u8; 2] = [ESCAPE, 0x3B];

// --- protocol commands ---
pub const ENQUIRY_ROM: u8 = 0x7B;
pub const STATUS_TERMINAL: u8 = 0x70;
pub const STATUS_OPERATION: u8 = 0x72;
pub const START: u8 = 0x69;
pub const STOP: u8 = 0x6A;
pub const PROGRAM: u8 = 0x6B;

// routing (keyboard -> screen echo)
pub const ROUTING_OFF: u8 = 0x60;
pub const ROUTING_ON: u8 = 0x61;
pub const RECV_SCREEN: u8 = 0x58;
pub const RECV_KEYBOARD: u8 = 0x59;
pub const EMIT_MODEM: u8 = 0x52;

// keyboard options
pub const EXTENDED: u8 = 0x41;
pub const CONTROL_0: u8 = 0x43;
pub const LOWERCASE: u8 = 0x45;

// --- expected acknowledgement lengths ---
pub const PROTOCOL_1_LENGTH: usize = 3;
pub const PROTOCOL_2_LENGTH: usize = 4;
pub const PROTOCOL_3_LENGTH: usize = 5;

/// Supported speeds and their programming code (PRO2 PROGRAM command).
///
/// A Minitel 1B tops out at 4800 bps: 9600 must never be probed first.
#[derive(Debug, Clone, Copy, PartialEq, Eq, Structural)]
pub enum Baud {
    B300,
    B1200,
    B4800,
    B9600,
}

/// Programming code of a speed (PRO2 PROGRAM <code>).
pub open spec fn baud_code(b: Baud) -> u8 {
    match b {
        Baud::B300 => 0x52,
        Baud::B1200 => 0x64,
        Baud::B4800 => 0x76,
        Baud::B9600 => 0x7F,
    }
}

/// Line rate in bauds.
pub open spec fn baud_rate(b: Baud) -> u32 {
    match b {
        Baud::B300 => 300,
        Baud::B1200 => 1200,
        Baud::B4800 => 4800,
        Baud::B9600 => 9600,
    }
}

impl Baud {
    /// Speed programming code (PRO2 PROGRAM <code>).
    pub fn code(self) -> (c: u8)
        ensures
            c == baud_code(self),
    {
        match self {
            Baud::B300 => 0x52,
            Baud::B1200 => 0x64,
            Baud::B4800 => 0x76,
            Baud::B9600 => 0x7F,
        }
    }

    /// Rate in bauds, for the serial port configuration.
    pub fn rate(self) -> (r: u32)
        ensures
            r == baud_rate(self),
    {
        match self {
            Baud::B300 => 300,
            Baud::B1200 => 1200,
            Baud::B4800 => 4800,
            Baud::B9600 => 9600,
        }
    }

    /// Safe detection order for a 1B: most common first, never 9600
    /// (outside the 1B's specification). The 1B boots at 1200.
    pub fn detection_order() -> (order: [Baud; 3])
        ensures
            order@ == seq![Baud::B1200, Baud::B4800, Baud::B300],
    {
        let order = [Baud::B1200, Baud::B4800, Baud::B300];
        assert(order@ =~= seq![Baud::B1200, Baud::B4800, Baud::B300]);
        order
    }
}

// --- function keys (sent by the Minitel as SEP=DC3 then the code) ---
pub const FKEY_SEND: u8 = 0x41;
pub const FKEY_RETURN: u8 = 0x42;
pub const FKEY_REPEAT: u8 = 0x43;
pub const FKEY_GUIDE: u8 = 0x44;
pub const FKEY_CANCEL: u8 = 0x45;
pub const FKEY_SUMMARY: u8 = 0x46;
pub const FKEY_CORRECTION: u8 = 0x47;
pub const FKEY_NEXT: u8 = 0x48;
pub const FKEY_CONNECT: u8 = 0x49;

/// Videotex colours, ordered by increasing luminance (codes 0..7).
#[derive(Debug, Clone, Copy, PartialEq, Eq, Structural)]
pub enum Color {
    Black,
    Red,
    Green,
    Yellow,
    Blue,
    Magenta,
    Cyan,
    White,
}

/// Attribute code 0..7 of a colour.
pub open spec fn color_code(c: Color) -> u8 {
    match c {
        Color::Black => 0,
        Color::Red => 1,
        Color::Green => 2,
        Color::Yellow => 3,
        Color::Blue => 4,
        Color::Magenta => 5,
        Color::Cyan => 6,
        Color::White => 7,
    }
}

impl Color {
    /// Attribute code 0..7 of the colour.
    pub fn code(self) -> (c: u8)
        ensures
            c == color_code(self),
            c < 8,
    {
        match self {
            Color::Black => 0,
            Color::Red => 1,
            Color::Green => 2,
            Color::Yellow => 3,
            Color::Blue => 4,
            Color::Magenta => 5,
            Color::Cyan => 6,
            Color::White => 7,
        }
    }
}

// Videotex attributes: ESC then a byte in 0x40..0x5F.
// Text colour = ESC (0x40 + code); background = ESC (0x50 + code).
pub const ATTR_FG_BASE: u8 = 0x40;
pub const ATTR_BG_BASE: u8 = 0x50;

} // verus!
