//! Decoder of the byte stream coming from the Minitel.
//!
//! Not every byte received is a key: the Minitel also answers protocol
//! commands (PRO2/PRO3 acknowledgements), sends its identification
//! (`SOH ... EOT`), function keys (`SEP=0x13 <code>`), arrows (`CSI ...`) and
//! accented characters (`SS2=0x19 <accent> <letter>`).
//!
//! [`Decoder`] is a state machine: raw bytes are pushed in ([`Decoder::push`])
//! and complete [`Event`]s come out. It does no I/O.
use vstd::prelude::*;
use crate::constants::{
    CARRIAGE_RETURN, DEVICE_CONTROL_3, END_OF_TRANSMISSION, ESCAPE, FKEY_CANCEL, FKEY_CONNECT,
    FKEY_CORRECTION, FKEY_GUIDE, FKEY_NEXT, FKEY_REPEAT, FKEY_RETURN, FKEY_SEND, FKEY_SUMMARY,
    SINGLE_SHIFT_2, START_OF_HEADING,
};

use crate::videotex::{encode_char, encode_spec, is_ascii_printable};

verus! {

/// Function key of the Minitel (the row of keys under the screen).
#[derive(Debug, Clone, Copy, PartialEq, Eq, Structural)]
pub enum FnKey {
    Send,
    Return,
    Repeat,
    Guide,
    Cancel,
    Summary,
    Correction,
    Next,
    Connect,
}

/// The function key that a code after SEP stands for.
pub open spec fn fn_key_of(code: u8) -> Option<FnKey> {
    if code == FKEY_SEND {
        Some(FnKey::Send)
    } else if code == FKEY_RETURN {
        Some(FnKey::Return)
    } else if code == FKEY_REPEAT {
        Some(FnKey::Repeat)
    } else if code == FKEY_GUIDE {
        Some(FnKey::Guide)
    } else if code == FKEY_CANCEL {
        Some(FnKey::Cancel)
    } else if code == FKEY_SUMMARY {
        Some(FnKey::Summary)
    } else if code == FKEY_CORRECTION {
        Some(FnKey::Correction)
    } else if code == FKEY_NEXT {
        Some(FnKey::Next)
    } else if code == FKEY_CONNECT {
        Some(FnKey::Connect)
    } else {
        None
    }
}

impl FnKey {
    fn from_code(code: u8) -> (k: Option<FnKey>)
        ensures
            k == fn_key_of(code),
    {
        match code {
            FKEY_SEND => Some(FnKey::Send),
            FKEY_RETURN => Some(FnKey::Return),
            FKEY_REPEAT => Some(FnKey::Repeat),
            FKEY_GUIDE => Some(FnKey::Guide),
            FKEY_CANCEL => Some(FnKey::Cancel),
            FKEY_SUMMARY => Some(FnKey::Summary),
            FKEY_CORRECTION => Some(FnKey::Correction),
            FKEY_NEXT => Some(FnKey::Next),
            FKEY_CONNECT => Some(FnKey::Connect),
            _ => None,
        }
    }
}

/// Direction of an arrow key.
#[derive(Debug, Clone, Copy, PartialEq, Eq, Structural)]
pub enum Arrow {
    Up,
    Down,
    Left,
    Right,
}

/// Event decoded from the Minitel.
#[derive(Debug, Clone, PartialEq)]
pub enum Event {
    /// Printable character typed (already decoded, accents included).
    Char(char),
    /// Enter key (CR).
    Enter,
    /// Function key.
    Function(FnKey),
    /// Cursor arrow.
    Arrow(Arrow),
    /// Protocol acknowledgement / answer (raw sequence after ESC), for the
    /// protocol layer, not for the UI.
    ProtocolAck(Vec<u8>),
    /// ROM identification answer: `SOH <maker> <type> <version> EOT`.
    Identify { constructor: u8, device: u8, version: u8 },
    /// Unrecognised byte (reported so that nothing is lost silently).
    Unknown(u8),
}

/// Mathematical model of an [`Event`]: the same, with the acknowledgement
/// bytes as a sequence.
pub enum EventView {
    Char(char),
    Enter,
    Function(FnKey),
    Arrow(Arrow),
    ProtocolAck(Seq<u8>),
    Identify { constructor: u8, device: u8, version: u8 },
    Unknown(u8),
}

impl View for Event {
    type V = EventView;

    open spec fn view(&self) -> EventView {
        match self {
            Event::Char(c) => EventView::Char(*c),
            Event::Enter => EventView::Enter,
            Event::Function(k) => EventView::Function(*k),
            Event::Arrow(a) => EventView::Arrow(*a),
            Event::ProtocolAck(v) => EventView::ProtocolAck(v@),
            Event::Identify { constructor, device, version } => EventView::Identify {
                constructor: *constructor,
                device: *device,
                version: *version,
            },
            Event::Unknown(b) => EventView::Unknown(*b),
        }
    }
}

/// The models of a sequence of events.
pub open spec fn events_view(v: Seq<Event>) -> Seq<EventView> {
    v.map_values(|e: Event| e@)
}

/// State of the decoder between two bytes.
pub enum DecodeState {
    /// Between events.
    Ground,
    /// After ESC: the bytes of a protocol/CSI sequence so far.
    Escape(Seq<u8>),
    /// After SEP (0x13): waiting for the function key code.
    Sep,
    /// After SS2 (0x19): the accent bytes so far.
    Accent(Seq<u8>),
    /// After SOH (0x01): the identification bytes so far, until EOT.
    Identify(Seq<u8>),
}

/// Is an ESC-prefixed sequence (bytes after ESC) complete?
///  - CSI (`[`): ends on a final byte 0x40..0x7E;
///  - PRO1/PRO2/PRO3 (0x39/0x3A/0x3B): fixed lengths 2/3/4;
///  - anything else (a lone attribute...): one byte.
pub open spec fn escape_complete(acc: Seq<u8>) -> bool {
    if acc.len() == 0 {
        false
    } else if acc[0] == 0x5B {
        acc.len() >= 2 && 0x40 <= acc.last() <= 0x7E
    } else if acc[0] == 0x39 {
        acc.len() >= 2
    } else if acc[0] == 0x3A {
        acc.len() >= 3
    } else if acc[0] == 0x3B {
        acc.len() >= 4
    } else {
        true
    }
}

/// The arrow that a complete CSI sequence `[0x5B, dir]` stands for.
pub open spec fn arrow_of(acc: Seq<u8>) -> Option<Arrow> {
    if acc.len() == 2 && acc[0] == 0x5B {
        if acc[1] == 0x41 {
            Some(Arrow::Up)
        } else if acc[1] == 0x42 {
            Some(Arrow::Down)
        } else if acc[1] == 0x44 {
            Some(Arrow::Left)
        } else if acc[1] == 0x43 {
            Some(Arrow::Right)
        } else {
            None
        }
    } else {
        None
    }
}

/// Accented letter for SS2 + diacritic (0x41 grave, 0x42 acute,
/// 0x43 circumflex, 0x48 diaeresis, 0x4B cedilla) + base letter.
pub open spec fn accent_pair(diac: u8, letter: u8) -> Option<char> {
    if diac == 0x41 && letter == 0x61 { Some('à') }
    else if diac == 0x42 && letter == 0x61 { Some('á') }
    else if diac == 0x43 && letter == 0x61 { Some('â') }
    else if diac == 0x48 && letter == 0x61 { Some('ä') }
    else if diac == 0x41 && letter == 0x65 { Some('è') }
    else if diac == 0x42 && letter == 0x65 { Some('é') }
    else if diac == 0x43 && letter == 0x65 { Some('ê') }
    else if diac == 0x48 && letter == 0x65 { Some('ë') }
    else if diac == 0x41 && letter == 0x69 { Some('ì') }
    else if diac == 0x42 && letter == 0x69 { Some('í') }
    else if diac == 0x43 && letter == 0x69 { Some('î') }
    else if diac == 0x48 && letter == 0x69 { Some('ï') }
    else if diac == 0x41 && letter == 0x6F { Some('ò') }
    else if diac == 0x42 && letter == 0x6F { Some('ó') }
    else if diac == 0x43 && letter == 0x6F { Some('ô') }
    else if diac == 0x48 && letter == 0x6F { Some('ö') }
    else if diac == 0x41 && letter == 0x75 { Some('ù') }
    else if diac == 0x42 && letter == 0x75 { Some('ú') }
    else if diac == 0x43 && letter == 0x75 { Some('û') }
    else if diac == 0x48 && letter == 0x75 { Some('ü') }
    else if diac == 0x4B && letter == 0x63 { Some('ç') }
    else { None }
}

/// Special character for SS2 followed by one byte.
pub open spec fn ss2_special(code: u8) -> Option<char> {
    if code == 0x23 { Some('£') }
    else if code == 0x30 { Some('°') }
    else if code == 0x31 { Some('±') }
    else if code == 0x2C { Some('←') }
    else if code == 0x2D { Some('↑') }
    else if code == 0x2E { Some('→') }
    else if code == 0x2F { Some('↓') }
    else if code == 0x6A { Some('Œ') }
    else if code == 0x7A { Some('œ') }
    else if code == 0x7B { Some('ß') }
    else { None }
}

/// The event that the bytes after SS2 stand for.
pub open spec fn ss2_event(acc: Seq<u8>) -> EventView {
    if acc.len() == 2 {
        match accent_pair(acc[0], acc[1]) {
            Some(c) => EventView::Char(c),
            None => EventView::Unknown(acc[1]),
        }
    } else if acc.len() == 1 {
        match ss2_special(acc[0]) {
            Some(c) => EventView::Char(c),
            None => EventView::Unknown(acc[0]),
        }
    } else if acc.len() == 0 {
        EventView::Unknown(0)
    } else {
        EventView::Unknown(acc.last())
    }
}

/// A diacritic announces a second byte after SS2.
pub open spec fn is_diacritic(b: u8) -> bool {
    0x41 <= b <= 0x4B
}

/// Transition on one byte received between events.
pub open spec fn ground_step(b: u8) -> (DecodeState, Seq<EventView>) {
    if b == ESCAPE {
        (DecodeState::Escape(seq![]), seq![])
    } else if b == DEVICE_CONTROL_3 {
        (DecodeState::Sep, seq![])
    } else if b == SINGLE_SHIFT_2 {
        (DecodeState::Accent(seq![]), seq![])
    } else if b == START_OF_HEADING {
        (DecodeState::Identify(seq![]), seq![])
    } else if b == CARRIAGE_RETURN {
        (DecodeState::Ground, seq![EventView::Enter])
    } else if 0x20 <= b <= 0x7E {
        (DecodeState::Ground, seq![EventView::Char(b as char)])
    } else {
        (DecodeState::Ground, seq![EventView::Unknown(b)])
    }
}

/// Transition of the decoder on one byte: the next state and the events
/// completed by this byte (at most one).
pub open spec fn step_spec(s: DecodeState, b: u8) -> (DecodeState, Seq<EventView>) {
    match s {
        DecodeState::Ground => ground_step(b),
        DecodeState::Escape(acc) => {
            let a = acc.push(b);
            if escape_complete(a) {
                (
                    DecodeState::Ground,
                    seq![
                        match arrow_of(a) {
                            Some(d) => EventView::Arrow(d),
                            None => EventView::ProtocolAck(a),
                        },
                    ],
                )
            } else {
                (DecodeState::Escape(a), seq![])
            }
        },
        DecodeState::Sep => (
            DecodeState::Ground,
            seq![
                match fn_key_of(b) {
                    Some(k) => EventView::Function(k),
                    None => EventView::Unknown(b),
                },
            ],
        ),
        DecodeState::Accent(acc) => {
            let a = acc.push(b);
            if (a.len() == 1 && !is_diacritic(a[0])) || a.len() >= 2 {
                (DecodeState::Ground, seq![ss2_event(a)])
            } else {
                (DecodeState::Accent(a), seq![])
            }
        },
        DecodeState::Identify(acc) => {
            if b == END_OF_TRANSMISSION {
                (
                    DecodeState::Ground,
                    seq![
                        if acc.len() == 3 {
                            EventView::Identify { constructor: acc[0], device: acc[1], version: acc[2] }
                        } else {
                            EventView::ProtocolAck(seq![START_OF_HEADING] + acc + seq![END_OF_TRANSMISSION])
                        },
                    ],
                )
            } else {
                (DecodeState::Identify(acc.push(b)), seq![])
            }
        },
    }
}

/// Decoding of a byte sequence from a state: the final state and the
/// events, in order.
pub open spec fn run_spec(s: DecodeState, bytes: Seq<u8>) -> (DecodeState, Seq<EventView>)
    decreases bytes.len(),
{
    if bytes.len() == 0 {
        (s, seq![])
    } else {
        let (s1, e1) = run_spec(s, bytes.drop_last());
        let (s2, e2) = step_spec(s1, bytes.last());
        (s2, e1 + e2)
    }
}

/// Internal state of the state machine.
#[derive(Debug, Clone, PartialEq)]
enum State {
    Ground,
    Escape(Vec<u8>),
    Sep,
    Accent(Vec<u8>),
    Identify(Vec<u8>),
}

impl View for State {
    type V = DecodeState;

    closed spec fn view(&self) -> DecodeState {
        match self {
            State::Ground => DecodeState::Ground,
            State::Escape(v) => DecodeState::Escape(v@),
            State::Sep => DecodeState::Sep,
            State::Accent(v) => DecodeState::Accent(v@),
            State::Identify(v) => DecodeState::Identify(v@),
        }
    }
}

/// Incremental decoder of the Minitel stream into [`Event`]s.
#[derive(Debug)]
pub struct Decoder {
    state: State,
}

impl View for Decoder {
    type V = DecodeState;

    closed spec fn view(&self) -> DecodeState {
        self.state@
    }
}

impl Default for Decoder {
    fn default() -> (d: Self)
        ensures
            d@ == DecodeState::Ground,
    {
        Decoder { state: State::Ground }
    }
}

impl Decoder {
    /// A decoder between events.
    pub fn new() -> (d: Self)
        ensures
            d@ == DecodeState::Ground,
    {
        Decoder { state: State::Ground }
    }

    /// Pushes a batch of bytes; returns the complete events decoded.
    pub fn push(&mut self, bytes: &[u8]) -> (out: Vec<Event>)
        ensures
            final(self)@ == run_spec(old(self)@, bytes@).0,
            events_view(out@) == run_spec(old(self)@, bytes@).1,
            out@.len() <= bytes@.len(),
    {
        proof { law_events_at_most_bytes(old(self)@, bytes@); }
        let mut out: Vec<Event> = Vec::new();
        let mut i: usize = 0;
        while i < bytes.len()
            invariant
                i <= bytes@.len(),
                self@ == run_spec(old(self)@, bytes@.take(i as int)).0,
                events_view(out@) == run_spec(old(self)@, bytes@.take(i as int)).1,
            decreases bytes@.len() - i,
        {
            assert(bytes@.take(i + 1).drop_last() =~= bytes@.take(i as int));
            self.step(bytes[i], &mut out);
            i = i + 1;
        }
        assert(bytes@.take(bytes@.len() as int) =~= bytes@);
        out
    }

    fn step(&mut self, b: u8, out: &mut Vec<Event>)
        ensures
            final(self)@ == step_spec(old(self)@, b).0,
            events_view(final(out)@) == events_view(old(out)@) + step_spec(old(self)@, b).1,
            final(out)@.len() <= old(out)@.len() + 1,
            forall|i: int| 0 <= i < old(out)@.len() ==> #[trigger] final(out)@[i] == old(out)@[i],
    {
        proof { lemma_step_at_most_one(self@, b); }
        let ghost s0 = self@;
        let ghost out0 = out@;
        let mut st = State::Ground;
        std::mem::swap(&mut st, &mut self.state);
        match st {
            State::Ground => self.ground(b, out),
            State::Escape(mut acc) => {
                acc.push(b);
                if seq_complete(&acc) {
                    match arrow_from_csi(&acc) {
                        Some(a) => out.push(Event::Arrow(a)),
                        None => out.push(Event::ProtocolAck(acc)),
                    }
                    self.state = State::Ground;
                } else {
                    self.state = State::Escape(acc);
                }
                assert(events_view(out@) =~= events_view(out0) + step_spec(s0, b).1);
            },
            State::Sep => {
                match FnKey::from_code(b) {
                    Some(k) => out.push(Event::Function(k)),
                    None => out.push(Event::Unknown(b)),
                }
                self.state = State::Ground;
                assert(events_view(out@) =~= events_view(out0) + step_spec(s0, b).1);
            },
            State::Accent(mut acc) => {
                acc.push(b);
                if acc.len() == 1 && !(0x41 <= acc[0] && acc[0] <= 0x4B) {
                    out.push(decode_ss2(&acc));
                    self.state = State::Ground;
                } else if acc.len() >= 2 {
                    out.push(decode_ss2(&acc));
                    self.state = State::Ground;
                } else {
                    self.state = State::Accent(acc);
                }
                assert(events_view(out@) =~= events_view(out0) + step_spec(s0, b).1);
            },
            State::Identify(mut acc) => {
                if b == END_OF_TRANSMISSION {
                    if acc.len() == 3 {
                        out.push(Event::Identify { constructor: acc[0], device: acc[1], version: acc[2] });
                    } else {
                        let mut v: Vec<u8> = Vec::new();
                        v.push(START_OF_HEADING);
                        let ghost head = v@;
                        let mut j: usize = 0;
                        while j < acc.len()
                            invariant
                                j <= acc@.len(),
                                v@ == seq![START_OF_HEADING] + acc@.take(j as int),
                            decreases acc@.len() - j,
                        {
                            v.push(acc[j]);
                            assert(acc@.take(j + 1) =~= acc@.take(j as int).push(acc@[j as int]));
                            j = j + 1;
                        }
                        v.push(END_OF_TRANSMISSION);
                        assert(acc@.take(acc@.len() as int) =~= acc@);
                        assert(v@ =~= seq![START_OF_HEADING] + acc@ + seq![END_OF_TRANSMISSION]);
                        out.push(Event::ProtocolAck(v));
                    }
                    self.state = State::Ground;
                } else {
                    acc.push(b);
                    self.state = State::Identify(acc);
                }
                assert(events_view(out@) =~= events_view(out0) + step_spec(s0, b).1);
            },
        }
    }

    fn ground(&mut self, b: u8, out: &mut Vec<Event>)
        ensures
            final(self)@ == ground_step(b).0,
            events_view(final(out)@) == events_view(old(out)@) + ground_step(b).1,
            final(out)@.len() <= old(out)@.len() + 1,
            forall|i: int| 0 <= i < old(out)@.len() ==> #[trigger] final(out)@[i] == old(out)@[i],
    {
        let ghost out0 = out@;
        if b == ESCAPE {
            self.state = State::Escape(Vec::new());
        } else if b == DEVICE_CONTROL_3 {
            self.state = State::Sep;
        } else if b == SINGLE_SHIFT_2 {
            self.state = State::Accent(Vec::new());
        } else if b == START_OF_HEADING {
            self.state = State::Identify(Vec::new());
        } else if b == CARRIAGE_RETURN {
            self.state = State::Ground;
            out.push(Event::Enter);
        } else if 0x20 <= b && b <= 0x7E {
            self.state = State::Ground;
            out.push(Event::Char(b as char));
        } else {
            self.state = State::Ground;
            out.push(Event::Unknown(b));
        }
        assert(events_view(out@) =~= events_view(out0) + ground_step(b).1);
    }
}

/// Is an ESC-prefixed sequence complete? (`acc` starts after ESC.)
fn seq_complete(acc: &Vec<u8>) -> (r: bool)
    ensures
        r == escape_complete(acc@),
{
    if acc.len() == 0 {
        false
    } else if acc[0] == 0x5B {
        acc.len() >= 2 && 0x40 <= acc[acc.len() - 1] && acc[acc.len() - 1] <= 0x7E
    } else if acc[0] == 0x39 {
        acc.len() >= 2
    } else if acc[0] == 0x3A {
        acc.len() >= 3
    } else if acc[0] == 0x3B {
        acc.len() >= 4
    } else {
        true
    }
}

/// Recognises an arrow among complete CSI sequences (`[0x5B, dir]`).
fn arrow_from_csi(acc: &Vec<u8>) -> (r: Option<Arrow>)
    ensures
        r == arrow_of(acc@),
{
    if acc.len() == 2 && acc[0] == 0x5B {
        match acc[1] {
            0x41 => Some(Arrow::Up),
            0x42 => Some(Arrow::Down),
            0x44 => Some(Arrow::Left),
            0x43 => Some(Arrow::Right),
            _ => None,
        }
    } else {
        None
    }
}

/// Decodes an SS2 sequence (accent) into a Unicode character.
fn decode_ss2(acc: &Vec<u8>) -> (e: Event)
    ensures
        e@ == ss2_event(acc@),
{
    if acc.len() == 2 {
        let c = match (acc[0], acc[1]) {
            (0x41, 0x61) => 'à', (0x42, 0x61) => 'á', (0x43, 0x61) => 'â', (0x48, 0x61) => 'ä',
            (0x41, 0x65) => 'è', (0x42, 0x65) => 'é', (0x43, 0x65) => 'ê', (0x48, 0x65) => 'ë',
            (0x41, 0x69) => 'ì', (0x42, 0x69) => 'í', (0x43, 0x69) => 'î', (0x48, 0x69) => 'ï',
            (0x41, 0x6F) => 'ò', (0x42, 0x6F) => 'ó', (0x43, 0x6F) => 'ô', (0x48, 0x6F) => 'ö',
            (0x41, 0x75) => 'ù', (0x42, 0x75) => 'ú', (0x43, 0x75) => 'û', (0x48, 0x75) => 'ü',
            (0x4B, 0x63) => 'ç',
            _ => return Event::Unknown(acc[1]),
        };
        return Event::Char(c);
    }
    if acc.len() == 1 {
        let c = match acc[0] {
            0x23 => '£', 0x30 => '°', 0x31 => '±',
            0x2C => '←', 0x2D => '↑', 0x2E => '→', 0x2F => '↓',
            0x6A => 'Œ', 0x7A => 'œ', 0x7B => 'ß',
            other => return Event::Unknown(other),
        };
        return Event::Char(c);
    }
    if acc.len() == 0 {
        Event::Unknown(0)
    } else {
        Event::Unknown(acc[acc.len() - 1])
    }
}

/// The code that the Minitel sends after SEP for a function key, by the
/// key's name in the protocol (`FKEY_SEND` for Envoi, `FKEY_RETURN` for
/// Retour, `FKEY_NEXT` for Suite, ...).
pub open spec fn key_code(k: FnKey) -> u8 {
    match k {
        FnKey::Send => FKEY_SEND,
        FnKey::Return => FKEY_RETURN,
        FnKey::Repeat => FKEY_REPEAT,
        FnKey::Guide => FKEY_GUIDE,
        FnKey::Cancel => FKEY_CANCEL,
        FnKey::Summary => FKEY_SUMMARY,
        FnKey::Correction => FKEY_CORRECTION,
        FnKey::Next => FKEY_NEXT,
        FnKey::Connect => FKEY_CONNECT,
    }
}

/// A function key is decoded as the key whose code the Minitel sent: SEP
/// then a key's code gives that key and nothing else, and a code is read as
/// a key only when it is that key's code (two keys never share a code).
pub proof fn law_function_keys_by_code(k: FnKey, code: u8)
    ensures
        fn_key_of(key_code(k)) == Some(k),
        fn_key_of(code) == Some(k) ==> code == key_code(k),
        run_spec(DecodeState::Ground, seq![DEVICE_CONTROL_3, key_code(k)])
            == (DecodeState::Ground, seq![EventView::Function(k)]),
{
    let b = seq![DEVICE_CONTROL_3, key_code(k)];
    assert(b.drop_last() =~= seq![DEVICE_CONTROL_3]);
    assert(b.drop_last().drop_last() =~= Seq::<u8>::empty());
    reveal_with_fuel(run_spec, 3);
    assert(run_spec(DecodeState::Ground, b).1 =~= seq![EventView::Function(k)]);
}

/// A byte completes at most one event.
proof fn lemma_step_at_most_one(s: DecodeState, b: u8)
    ensures
        step_spec(s, b).1.len() <= 1,
{
}

/// Decoding never yields more events than bytes: each byte completes at
/// most one event, and the others are kept for the next ones.
pub proof fn law_events_at_most_bytes(s: DecodeState, bytes: Seq<u8>)
    ensures
        run_spec(s, bytes).1.len() <= bytes.len(),
    decreases bytes.len(),
{
    if bytes.len() > 0 {
        law_events_at_most_bytes(s, bytes.drop_last());
        lemma_step_at_most_one(run_spec(s, bytes.drop_last()).0, bytes.last());
    }
}

/// Decoding is incremental: pushing `a` and then `b` gives the same final
/// state, and the same events in the same order, as pushing `a + b` at once.
/// A sequence split across two batches is decoded as if it had come whole.
pub proof fn law_push_split(s: DecodeState, a: Seq<u8>, b: Seq<u8>)
    ensures
        run_spec(s, a + b).0 == run_spec(run_spec(s, a).0, b).0,
        run_spec(s, a + b).1 == run_spec(s, a).1 + run_spec(run_spec(s, a).0, b).1,
    decreases b.len(),
{
    if b.len() == 0 {
        assert(a + b =~= a);
        assert(run_spec(s, a).1 + seq![] =~= run_spec(s, a).1);
    } else {
        law_push_split(s, a, b.drop_last());
        assert((a + b).drop_last() =~= a + b.drop_last());
        assert((a + b).last() == b.last());
        let (s1, e1) = run_spec(s, a);
        let (s2, e2) = run_spec(s1, b.drop_last());
        let (s3, e3) = step_spec(s2, b.last());
        assert(e1 + e2 + e3 =~= e1 + (e2 + e3));
    }
}

/// Characters that the decoder reads back from their own encoding: printable
/// ASCII, the lower-case accented letters and the special characters that
/// both tables share. (Upper-case accented letters, the typographic
/// apostrophe and the fractions are encoded but read back as `Unknown`.)
pub open spec fn reads_back(c: char) -> bool {
    ||| is_ascii_printable(c)
    ||| c == 'à' || c == 'á' || c == 'â' || c == 'ä'
    ||| c == 'è' || c == 'é' || c == 'ê' || c == 'ë'
    ||| c == 'ì' || c == 'í' || c == 'î' || c == 'ï'
    ||| c == 'ò' || c == 'ó' || c == 'ô' || c == 'ö'
    ||| c == 'ù' || c == 'ú' || c == 'û' || c == 'ü'
    ||| c == 'ç'
    ||| c == '£' || c == '°' || c == '±'
    ||| c == '←' || c == '↑' || c == '→' || c == '↓'
    ||| c == 'Œ' || c == 'œ' || c == 'ß'
}

proof fn lemma_char_reads_back(c: char)
    requires
        reads_back(c),
    ensures
        run_spec(DecodeState::Ground, encode_char(c)) == (DecodeState::Ground, seq![EventView::Char(c)]),
{
    let e = encode_char(c);
    reveal_with_fuel(run_spec, 4);
    if is_ascii_printable(c) {
        let b = (c as u32) as u8;
        assert(e == seq![b]);
        assert(e.drop_last() =~= Seq::<u8>::empty());
        assert((b as char) == c);
        assert(run_spec(DecodeState::Ground, e).1 =~= seq![EventView::Char(c)]);
    } else {
        assert(e.len() == 2 || e.len() == 3);
        if e.len() == 2 {
            assert(e.drop_last().drop_last() =~= Seq::<u8>::empty());
            assert(e.drop_last() =~= seq![e[0]]);
            assert(run_spec(DecodeState::Ground, e).1 =~= seq![EventView::Char(c)]);
        } else {
            assert(e.drop_last().drop_last() =~= seq![e[0]]);
            assert(e.drop_last() =~= seq![e[0], e[1]]);
            assert(seq![e[1]].push(e[2]) =~= seq![e[1], e[2]]);
            assert(Seq::<u8>::empty().push(e[1]) =~= seq![e[1]]);
            assert(run_spec(DecodeState::Ground, e).1 =~= seq![EventView::Char(c)]);
        }
    }
}

proof fn lemma_single_char_event(c: char)
    ensures
        seq![EventView::Char(c)][0] == EventView::Char(c),
{
}

/// Decoding inverts encoding: for a text made of characters that both tables
/// share, decoding `encode_text(s)` from the ground state gives back one
/// `Char` event per character of `s`, in order, and ends between events.
pub proof fn law_decode_inverts_encode(s: Seq<char>)
    requires
        forall|i: int| 0 <= i < s.len() ==> reads_back(#[trigger] s[i]),
    ensures
        run_spec(DecodeState::Ground, encode_spec(s)).0 == DecodeState::Ground,
        run_spec(DecodeState::Ground, encode_spec(s)).1.len() == s.len(),
        forall|i: int|
            0 <= i < s.len() ==> run_spec(DecodeState::Ground, encode_spec(s)).1[i]
                == EventView::Char(#[trigger] s[i]),
    decreases s.len(),
{
    if s.len() == 0 {
    } else {
        let init = s.drop_last();
        assert forall|i: int| 0 <= i < init.len() implies reads_back(#[trigger] init[i]) by {
            assert(init[i] == s[i]);
        }
        law_decode_inverts_encode(init);
        assert(reads_back(s[s.len() - 1]));
        lemma_char_reads_back(s.last());
        law_push_split(DecodeState::Ground, encode_spec(init), encode_char(s.last()));
        let r = run_spec(DecodeState::Ground, encode_spec(s)).1;
        let r0 = run_spec(DecodeState::Ground, encode_spec(init)).1;
        assert(encode_spec(s) == encode_spec(init) + encode_char(s.last()));
        assert(r == r0 + seq![EventView::Char(s.last())]);
        assert forall|i: int| 0 <= i < s.len() implies r[i] == EventView::Char(#[trigger] s[i]) by {
            if i < s.len() - 1 {
                assert(init[i] == s[i]);
                assert(r[i] == r0[i]);
            } else {
                let c = s.last();
                assert(r0.len() == init.len());
                assert(i == r0.len());
                lemma_single_char_event(c);
                assert(r[i] == seq![EventView::Char(c)][0]);
                assert(s[i] == c);
            }
        }
    }
}

} // verus!
