//! Videotex protocol layer: building byte sequences.
//!
//! Pure functions (values to bytes), without I/O. The session layer sends
//! them over the serial link.
use vstd::prelude::*;
use vstd::string::StringSliceAdditionalSpecFns;
use crate::constants::{
    baud_code, Baud, BELL, CANCEL, CURSOR_OFF, CURSOR_ON, EMIT_MODEM, ENQUIRY_ROM, ESCAPE, FORM_FEED,
    LINE_FEED, LOWERCASE, PROGRAM, PROTOCOL_1, PROTOCOL_2, PROTOCOL_3, RECV_SCREEN, ROUTING_OFF,
    ROUTING_ON, START, STATUS_OPERATION, STOP, UNIT_SEPARATOR,
};

verus! {

/// A byte that the Minitel displays as such (printable ASCII).
pub open spec fn is_printable(b: u8) -> bool {
    0x20 <= b <= 0x7E
}

/// The printable bytes of `s`, in order.
pub open spec fn keep_printable(s: Seq<u8>) -> Seq<u8>
    decreases s.len(),
{
    if s.len() == 0 {
        seq![]
    } else {
        keep_printable(s.drop_last()) + if is_printable(s.last()) {
            seq![s.last()]
        } else {
            seq![]
        }
    }
}

/// Direct cursor addressing `US <0x40+row> <0x40+col>`.
pub open spec fn move_to_seq(col: u8, row: u8) -> Seq<u8> {
    seq![UNIT_SEPARATOR, (0x40 + row) as u8, (0x40 + col) as u8]
}

/// Clears the whole screen (form feed).
pub fn clear_screen() -> (v: Vec<u8>)
    ensures
        v@ == seq![FORM_FEED],
{
    vec![FORM_FEED]
}

/// Clears from the cursor to the end of the line (the CAN control character).
pub fn clear_line_end() -> (v: Vec<u8>)
    ensures
        v@ == seq![CANCEL],
{
    vec![CANCEL]
}

/// Clears the status line (row 0).
pub fn clear_status() -> (v: Vec<u8>)
    ensures
        v@ == seq![UNIT_SEPARATOR, 0x40u8, 0x41u8, CANCEL, LINE_FEED],
{
    vec![UNIT_SEPARATOR, 0x40, 0x41, CANCEL, LINE_FEED]
}

/// Beep.
pub fn beep() -> (v: Vec<u8>)
    ensures
        v@ == seq![BELL],
{
    vec![BELL]
}

/// Shows or hides the cursor.
pub fn cursor(visible: bool) -> (v: Vec<u8>)
    ensures
        v@ == seq![if visible { CURSOR_ON } else { CURSOR_OFF }],
{
    vec![if visible { CURSOR_ON } else { CURSOR_OFF }]
}

/// Turns the local keyboard-to-screen echo on or off (PRO3 routing).
///
/// The Minitel initialisation must turn the echo off, otherwise every key
/// shows twice once the host draws the screen itself.
pub fn set_echo(active: bool) -> (v: Vec<u8>)
    ensures
        v@ == seq![
            ESCAPE,
            0x3Bu8,
            if active { ROUTING_ON } else { ROUTING_OFF },
            RECV_SCREEN,
            EMIT_MODEM,
        ],
{
    let action = if active { ROUTING_ON } else { ROUTING_OFF };
    vec![PROTOCOL_3[0], PROTOCOL_3[1], action, RECV_SCREEN, EMIT_MODEM]
}

/// Turns a keyboard option on or off (PRO2 `START`/`STOP <option>`).
pub fn keyboard_option(option: u8, active: bool) -> (v: Vec<u8>)
    ensures
        v@ == seq![ESCAPE, 0x3Au8, if active { START } else { STOP }, option],
{
    let action = if active { START } else { STOP };
    vec![PROTOCOL_2[0], PROTOCOL_2[1], action, option]
}

/// Switches the keyboard to lower case (PRO2 START LOWERCASE).
///
/// The 1B starts in upper case and does not remember the option: it must be
/// sent again on every (re)connection.
pub fn keyboard_lowercase() -> (v: Vec<u8>)
    ensures
        v@ == seq![ESCAPE, 0x3Au8, START, LOWERCASE],
{
    keyboard_option(LOWERCASE, true)
}

/// Asks the terminal ROM for its identification.
/// Expected answer: `SOH <maker> <type> <version> EOT`.
pub fn identify_request() -> (v: Vec<u8>)
    ensures
        v@ == seq![ESCAPE, 0x39u8, ENQUIRY_ROM],
{
    vec![PROTOCOL_1[0], PROTOCOL_1[1], ENQUIRY_ROM]
}

/// Asks for the operating status.
pub fn status_operation_request() -> (v: Vec<u8>)
    ensures
        v@ == seq![ESCAPE, 0x39u8, STATUS_OPERATION],
{
    vec![PROTOCOL_1[0], PROTOCOL_1[1], STATUS_OPERATION]
}

/// PRO2 speed programming command: `ESC 0x3A PROGRAM <code>`.
pub fn set_speed(baud: Baud) -> (v: Vec<u8>)
    ensures
        v@ == seq![ESCAPE, 0x3Au8, PROGRAM, baud_code(baud)],
{
    vec![PROTOCOL_2[0], PROTOCOL_2[1], PROGRAM, baud.code()]
}

/// Moves the cursor to (column, row), 1-based, by direct `US` addressing:
/// `US <0x40+row> <0x40+col>`.
pub fn move_to(col: u8, row: u8) -> (v: Vec<u8>)
    requires
        col < 0xC0,
        row < 0xC0,
    ensures
        v@ == move_to_seq(col, row),
{
    vec![UNIT_SEPARATOR, 0x40 + row, 0x40 + col]
}

/// Enters row 0 (the service row above the screen), column 1: `US 0x40 0x41`.
pub fn goto_row0() -> (v: Vec<u8>)
    ensures
        v@ == seq![UNIT_SEPARATOR, 0x40u8, 0x41u8],
{
    vec![UNIT_SEPARATOR, 0x40, 0x41]
}

/// Keeps the printable ASCII bytes of `s` (best effort, accents dropped).
pub fn text_ascii(s: &str) -> (v: Vec<u8>)
    ensures
        v@ == keep_printable(s.spec_bytes()),
{
    let bytes = s.as_bytes();
    let mut out: Vec<u8> = Vec::new();
    let mut i: usize = 0;
    while i < bytes.len()
        invariant
            i <= bytes@.len(),
            bytes@ == s.spec_bytes(),
            out@ == keep_printable(bytes@.take(i as int)),
        decreases bytes@.len() - i,
    {
        let b = bytes[i];
        assert(bytes@.take(i + 1).drop_last() =~= bytes@.take(i as int));
        if 0x20 <= b && b <= 0x7E {
            out.push(b);
        }
        i = i + 1;
    }
    assert(bytes@.take(bytes@.len() as int) =~= bytes@);
    out
}

} // verus!
