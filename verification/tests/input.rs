use minitel::input::{Arrow, Decoder, Event, FnKey};

#[test]
fn plain_text() {
    let mut d = Decoder::new();
    assert_eq!(d.push(b"Hi"), vec![Event::Char('H'), Event::Char('i')]);
}

#[test]
fn enter_key() {
    let mut d = Decoder::new();
    assert_eq!(d.push(&[0x0D]), vec![Event::Enter]);
}

#[test]
fn function_key_envoi() {
    let mut d = Decoder::new();
    assert_eq!(d.push(&[0x13, 0x41]), vec![Event::Function(FnKey::Send)]);
}

#[test]
fn function_key_sommaire_split_across_pushes() {
    let mut d = Decoder::new();
    assert_eq!(d.push(&[0x13]), vec![]);
    assert_eq!(d.push(&[0x46]), vec![Event::Function(FnKey::Summary)]);
}

#[test]
fn accented_e_aigu() {
    let mut d = Decoder::new();
    assert_eq!(d.push(&[0x19, 0x42, b'e']), vec![Event::Char('é')]);
}

#[test]
fn cedilla() {
    let mut d = Decoder::new();
    assert_eq!(d.push(&[0x19, 0x4B, b'c']), vec![Event::Char('ç')]);
}

#[test]
fn protocol_ack_pro3_not_seen_as_keys() {
    let mut d = Decoder::new();
    let ev = d.push(&[0x1B, 0x3B, 0x60, 0x58, 0x52]);
    assert_eq!(ev, vec![Event::ProtocolAck(vec![0x3B, 0x60, 0x58, 0x52])]);
}

#[test]
fn identify_response() {
    let mut d = Decoder::new();
    let ev = d.push(&[0x01, b'B', b'v', b'4', 0x04]);
    assert_eq!(ev, vec![Event::Identify { constructor: b'B', device: b'v', version: b'4' }]);
}

#[test]
fn arrow_up_decoded() {
    let mut d = Decoder::new();
    assert_eq!(d.push(&[0x1B, 0x5B, 0x41]), vec![Event::Arrow(Arrow::Up)]);
}

#[test]
fn split_batches_decode_like_one_batch() {
    let stream: Vec<u8> = vec![b'a', 0x1B, 0x5B, 0x42, 0x19, 0x43, b'o', 0x13, 0x47, 0x01, 1, 2, 3, 0x04, 0x0D];
    let mut whole = Decoder::new();
    let all = whole.push(&stream);
    for cut in 0..=stream.len() {
        let mut d = Decoder::new();
        let mut ev = d.push(&stream[..cut]);
        ev.extend(d.push(&stream[cut..]));
        assert_eq!(ev, all, "cut at {cut}");
    }
    assert_eq!(
        all,
        vec![
            Event::Char('a'),
            Event::Arrow(Arrow::Down),
            Event::Char('ô'),
            Event::Function(FnKey::Correction),
            Event::Identify { constructor: 1, device: 2, version: 3 },
            Event::Enter,
        ]
    );
}

#[test]
fn unknown_bytes_and_odd_sequences() {
    let mut d = Decoder::new();
    assert_eq!(d.push(&[0x07]), vec![Event::Unknown(0x07)]);
    assert_eq!(d.push(&[0x13, 0x30]), vec![Event::Unknown(0x30)]);
    assert_eq!(d.push(&[0x19, 0x99]), vec![Event::Unknown(0x99)]);
    assert_eq!(d.push(&[0x19, 0x42, b'z']), vec![Event::Unknown(b'z')]);
    assert_eq!(d.push(&[0x19, 0x30]), vec![Event::Char('°')]);
    // identification of the wrong length: kept raw
    assert_eq!(d.push(&[0x01, 9, 0x04]), vec![Event::ProtocolAck(vec![0x01, 9, 0x04])]);
    // lone attribute after ESC, CSI that is not an arrow, PRO1 and PRO2
    assert_eq!(d.push(&[0x1B, 0x41]), vec![Event::ProtocolAck(vec![0x41])]);
    assert_eq!(d.push(&[0x1B, 0x5B, 0x32, 0x4A]), vec![Event::ProtocolAck(vec![0x5B, 0x32, 0x4A])]);
    assert_eq!(d.push(&[0x1B, 0x39, 0x70]), vec![Event::ProtocolAck(vec![0x39, 0x70])]);
    assert_eq!(d.push(&[0x1B, 0x3A, 0x69, 0x45]), vec![Event::ProtocolAck(vec![0x3A, 0x69, 0x45])]);
    assert_eq!(d.push(&[0x1B, 0x5B, 0x44, 0x1B, 0x5B, 0x43]), vec![Event::Arrow(Arrow::Left), Event::Arrow(Arrow::Right)]);
}

#[test]
fn never_more_events_than_bytes() {
    let mut d = minitel::input::Decoder::new();
    for batch in [&b"abc\r"[..], &[0x1B, 0x5B, 0x41, 0x13], &[0x41, 0x19, 0x42, 0x65, 0x01, 1, 2, 3, 0x04], &[0xFF, 0x00]] {
        assert!(d.push(batch).len() <= batch.len());
    }
}
