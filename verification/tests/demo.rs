use minitel::constants::Color;
use minitel::demo::{demo, demo_greeting, demo_key, menu, show_frame, title};
use minitel::input::{Event, FnKey};
use minitel::protocol::{cursor, set_echo};
use minitel::videotex::{colored, encode_text};

fn contains(hay: &[u8], needle: &[u8]) -> bool {
    needle.is_empty() || hay.windows(needle.len()).any(|w| w == needle)
}

#[test]
fn menu_lists_the_ten_demos() {
    let m = menu();
    assert_eq!(&m[..4], &[0x0C, 0x1F, 0x41, 0x41]);
    assert!(contains(&m, &colored(Color::White, "DEMOS VIDEOTEX")));
    for i in 0..10u8 {
        let line = format!("{i}  {}", title(i));
        let mut at = vec![0x1F, 0x40 + 4 + i, 0x41];
        at.extend(colored(Color::Cyan, &line));
        assert!(contains(&m, &at), "{line}");
    }
    assert!(m.ends_with(&colored(Color::Green, "Tape un chiffre 0-9")));
    assert_eq!(demo(10), m);
    assert_eq!(demo(255), m);
}

#[test]
fn demo_screens() {
    let d1 = demo(1);
    assert!(contains(&d1, &colored(Color::Yellow, "Couleurs (8 gris)")));
    assert!(contains(&d1, &colored(Color::Black, "####### noir")));
    assert!(contains(&d1, &colored(Color::White, "####### blanc")));
    let d2 = demo(2);
    assert!(contains(&d2, &encode_text("e a i o u -> é à î ô û  ç ê ë")));
    let d5 = demo(5);
    assert!(contains(&d5, &[0x0E, 0x21, 0x20, 0x22, 0x20, 0x24, 0x20, 0x28, 0x20, 0x30, 0x20, 0x60, 0x20, 0x0F]));
    assert!(contains(&d5, &[0x0E, 0x7F, 0x35, 0x6A, 0x0F]));
    let d9 = demo(9);
    assert!(contains(&d9, &[0x1B, 0x41, b'#', 0x12, 0x62]));
    let d0 = demo(0);
    let mut even = vec![0x1F, 0x46, 0x43, 0x0E];
    for _ in 0..18 {
        even.extend([0x7F, 0x20]);
    }
    even.push(0x0F);
    assert!(contains(&d0, &even));
    let d8 = demo(8);
    assert_eq!(&d8[..4], &[0x0C, 0x1F, 0x40, 0x41]);
    assert!(d8.ends_with(&colored(Color::Green, "0-9=demo  SOMMAIRE=menu")));
}

#[test]
fn keys_of_the_demo() {
    assert_eq!(demo_key(&Event::Char('3')), Some(demo(3)));
    assert_eq!(demo_key(&Event::Char('0')), Some(demo(0)));
    assert_eq!(demo_key(&Event::Char('a')), None);
    assert_eq!(demo_key(&Event::Function(FnKey::Summary)), Some(menu()));
    assert_eq!(demo_key(&Event::Enter), None);
}

#[test]
fn greeting_and_viewer() {
    let mut g = set_echo(false);
    g.extend(cursor(false));
    g.extend(menu());
    assert_eq!(demo_greeting(), g);
    let mut v = set_echo(false);
    v.extend(cursor(false));
    v.extend([0x0C, 0x1F, 0x40, 0x41, 0x18, 9, 8]);
    assert_eq!(show_frame(&[9, 8]), v);
}
