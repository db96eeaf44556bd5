use minitel::constants::Color;
use minitel::input::{Decoder, Event};
use minitel::videotex::{bg, colored, encode_text, fg, mosaic, rep, size, wrap, Size};

#[test]
fn wrap_respects_width_and_words() {
    let w = wrap("le minitel est un terminal videotex francais", 20);
    assert!(w.iter().all(|l| l.chars().count() <= 20));
    assert_eq!(w.join(" "), "le minitel est un terminal videotex francais");
}

#[test]
fn wrap_breaks_overlong_word() {
    let w = wrap("aaaaaaaaaaaaaaaaaaaaaaaaa", 10); // 25 'a'
    assert_eq!(w.len(), 3);
    assert!(w.iter().all(|l| l.chars().count() <= 10));
}

#[test]
fn ascii_passthrough() {
    assert_eq!(encode_text("AB1"), vec![b'A', b'B', b'1']);
}

#[test]
fn e_aigu_roundtrip_with_decoder() {
    let bytes = encode_text("é");
    assert_eq!(bytes, vec![0x19, 0x42, b'e']);
    let mut d = Decoder::new();
    assert_eq!(d.push(&bytes), vec![Event::Char('é')]);
}

#[test]
fn cedilla_and_accents_in_word() {
    assert_eq!(encode_text("café"), vec![b'c', b'a', b'f', 0x19, 0x42, b'e']);
}

#[test]
fn mosaic_encoding() {
    assert_eq!(mosaic(0x00), 0x20);
    assert_eq!(mosaic(0x3F), 0x7F);
    assert_eq!(mosaic(0x20), 0x60);
}

#[test]
fn rep_sequence() {
    assert_eq!(rep(5), vec![0x12, 0x45]);
    assert_eq!(rep(200), vec![0x12, 0x40 + 63]);
}

#[test]
fn fg_color_sequence() {
    assert_eq!(fg(Color::Red), vec![0x1B, 0x41]);
    assert_eq!(bg(Color::Blue), vec![0x1B, 0x54]);
}

#[test]
fn wrap_keeps_every_word_in_order_at_width_40() {
    let text = "Capitale de la Croatie, Zagreb compte environ huit cent mille habitants.";
    let w = wrap(text, 40);
    assert_eq!(w, vec!["Capitale de la Croatie, Zagreb compte", "environ huit cent mille habitants."]);
    assert_eq!(w.join(" "), text);
}

#[test]
fn wrap_of_blank_text_is_empty_and_width_zero_quirk() {
    assert!(wrap("   \n\t ", 10).is_empty());
    assert!(wrap("", 10).is_empty());
    // width 0: the overlong cut first closes an empty chunk
    assert_eq!(wrap("ab", 0), vec!["".to_string(), "ab".to_string()]);
}

#[test]
fn wrap_cuts_overlong_word_after_current_line() {
    assert_eq!(wrap("ok abcdefghij", 4), vec!["ok", "abcd", "efgh", "ij"]);
}

#[test]
fn encode_drops_unrepresentable_and_keeps_specials() {
    assert_eq!(encode_text("a€b"), vec![b'a', b'b']);
    assert_eq!(encode_text("£½Œ"), vec![0x19, 0x23, 0x19, 0x3D, 0x19, 0x6A]);
    assert_eq!(encode_text("À\u{2019}"), vec![0x19, 0x41, b'A', 0x19, 0x4B, 0x27]);
    assert_eq!(encode_text("\n\t"), Vec::<u8>::new());
}

#[test]
fn colored_and_size_attributes() {
    assert_eq!(colored(Color::Cyan, "é!"), vec![0x1B, 0x46, 0x19, 0x42, b'e', b'!']);
    assert_eq!(size(Size::DoubleSize), vec![0x1B, 0x4F]);
    assert_eq!(size(Size::Normal), vec![0x1B, 0x4C]);
    assert_eq!(minitel::videotex::blink(true), vec![0x1B, 0x48]);
    assert_eq!(minitel::videotex::invert(false), vec![0x1B, 0x5C]);
    assert_eq!(minitel::videotex::underline(true), vec![0x1B, 0x5A]);
    assert_eq!(minitel::videotex::g1(), 0x0E);
    assert_eq!(minitel::videotex::g0(), 0x0F);
    assert_eq!(mosaic(0x15), 0x35);
}

#[test]
fn decoding_the_encoding_gives_the_text_back() {
    let text = "Ça? non: ça! £ œ ß ← é à ù ü ç";
    // 'Ç' is encoded but read back as Unknown: the law excludes it
    let readable = "ca non: ca! £ œ ß ← é à ù ü ç";
    let mut d = Decoder::new();
    let events = d.push(&encode_text(readable));
    let expected: Vec<Event> = readable.chars().map(Event::Char).collect();
    assert_eq!(events, expected);
    let mut d2 = Decoder::new();
    let ev = d2.push(&encode_text(text));
    assert_eq!(ev[0], Event::Unknown(b'C'));
}
