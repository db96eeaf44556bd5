use minitel::constants::{Baud, Color, LOWERCASE};
use minitel::protocol::{
    beep, clear_line_end, clear_screen, clear_status, cursor, goto_row0, identify_request,
    keyboard_lowercase, keyboard_option, move_to, set_echo, set_speed, status_operation_request,
    text_ascii,
};

#[test]
fn clear_line_end_is_can_not_the_python_bug() {
    assert_eq!(clear_line_end(), vec![0x18]);
}

#[test]
fn set_echo_off_sequence() {
    assert_eq!(set_echo(false), vec![0x1B, 0x3B, 0x60, 0x58, 0x52]);
}

#[test]
fn keyboard_lowercase_sequence() {
    assert_eq!(keyboard_lowercase(), vec![0x1B, 0x3A, 0x69, 0x45]);
}

#[test]
fn set_speed_4800_sequence() {
    assert_eq!(set_speed(Baud::B4800), vec![0x1B, 0x3A, 0x6B, 0x76]);
}

#[test]
fn move_to_is_one_based_us_addressing() {
    assert_eq!(move_to(1, 1), vec![0x1F, 0x41, 0x41]);
}

#[test]
fn other_protocol_sequences() {
    assert_eq!(clear_screen(), vec![0x0C]);
    assert_eq!(clear_status(), vec![0x1F, 0x40, 0x41, 0x18, 0x0A]);
    assert_eq!(beep(), vec![0x07]);
    assert_eq!(cursor(true), vec![0x11]);
    assert_eq!(cursor(false), vec![0x14]);
    assert_eq!(set_echo(true), vec![0x1B, 0x3B, 0x61, 0x58, 0x52]);
    assert_eq!(keyboard_option(LOWERCASE, false), vec![0x1B, 0x3A, 0x6A, 0x45]);
    assert_eq!(identify_request(), vec![0x1B, 0x39, 0x7B]);
    assert_eq!(status_operation_request(), vec![0x1B, 0x39, 0x72]);
    assert_eq!(goto_row0(), vec![0x1F, 0x40, 0x41]);
    assert_eq!(move_to(40, 24), vec![0x1F, 0x58, 0x68]);
    assert_eq!(text_ascii("é a\n~"), vec![b' ', b'a', b'~']);
}

#[test]
fn baud_and_colour_codes() {
    assert_eq!(Baud::B300.code(), 0x52);
    assert_eq!(Baud::B1200.code(), 0x64);
    assert_eq!(Baud::B9600.code(), 0x7F);
    assert_eq!(Baud::B4800.rate(), 4800);
    assert_eq!(Baud::detection_order(), [Baud::B1200, Baud::B4800, Baud::B300]);
    assert_eq!(Color::White.code(), 7);
    assert_eq!(Color::Black.code(), 0);
    assert_eq!(set_speed(Baud::B300), vec![0x1B, 0x3A, 0x6B, 0x52]);
}
