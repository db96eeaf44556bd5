//! Videotex codec: encoding for the Minitel screen.
//!
//! Pure functions (to `Vec<u8>`), without I/O: Unicode accents to G2 and
//! colour/size attributes.
use vstd::prelude::*;
use crate::chars::{char_is_whitespace, is_whitespace, chars_of, string_of, strings_view, lemma_strings_view_push};
use crate::constants::{color_code, Color, ATTR_BG_BASE, ATTR_FG_BASE, ESCAPE, REPEAT, SHIFT_IN, SHIFT_OUT, SINGLE_SHIFT_2};

verus! {

/// SS2 sequence of an accented letter: SS2, diacritic, base letter.
pub open spec fn acc(diac: u8, letter: u8) -> Option<Seq<u8>> {
    Some(seq![SINGLE_SHIFT_2, diac, letter])
}

/// The dedicated Videotex (SS2) sequence of a character, if it has one.
pub open spec fn ss2_encoding(c: char) -> Option<Seq<u8>> {
    if c == 'à' { acc(0x41, 0x61) }
    else if c == 'á' { acc(0x42, 0x61) }
    else if c == 'â' { acc(0x43, 0x61) }
    else if c == 'ä' { acc(0x48, 0x61) }
    else if c == 'è' { acc(0x41, 0x65) }
    else if c == 'é' { acc(0x42, 0x65) }
    else if c == 'ê' { acc(0x43, 0x65) }
    else if c == 'ë' { acc(0x48, 0x65) }
    else if c == 'ì' { acc(0x41, 0x69) }
    else if c == 'í' { acc(0x42, 0x69) }
    else if c == 'î' { acc(0x43, 0x69) }
    else if c == 'ï' { acc(0x48, 0x69) }
    else if c == 'ò' { acc(0x41, 0x6F) }
    else if c == 'ó' { acc(0x42, 0x6F) }
    else if c == 'ô' { acc(0x43, 0x6F) }
    else if c == 'ö' { acc(0x48, 0x6F) }
    else if c == 'ù' { acc(0x41, 0x75) }
    else if c == 'ú' { acc(0x42, 0x75) }
    else if c == 'û' { acc(0x43, 0x75) }
    else if c == 'ü' { acc(0x48, 0x75) }
    else if c == 'ç' { acc(0x4B, 0x63) }
    else if c == 'À' { acc(0x41, 0x41) }
    else if c == 'Â' { acc(0x43, 0x41) }
    else if c == 'Ä' { acc(0x48, 0x41) }
    else if c == 'É' { acc(0x42, 0x45) }
    else if c == 'È' { acc(0x41, 0x45) }
    else if c == 'Ê' { acc(0x43, 0x45) }
    else if c == 'Ë' { acc(0x48, 0x45) }
    else if c == 'Î' { acc(0x43, 0x49) }
    else if c == 'Ï' { acc(0x48, 0x49) }
    else if c == 'Ô' { acc(0x43, 0x4F) }
    else if c == 'Ö' { acc(0x48, 0x4F) }
    else if c == 'Û' { acc(0x43, 0x55) }
    else if c == 'Ü' { acc(0x48, 0x55) }
    else if c == 'Ù' { acc(0x41, 0x55) }
    else if c == 'Ç' { acc(0x4B, 0x43) }
    else if c == '\u{2019}' { acc(0x4B, 0x27) }
    else if c == '£' { Some(seq![SINGLE_SHIFT_2, 0x23u8]) }
    else if c == '°' { Some(seq![SINGLE_SHIFT_2, 0x30u8]) }
    else if c == '±' { Some(seq![SINGLE_SHIFT_2, 0x31u8]) }
    else if c == '←' { Some(seq![SINGLE_SHIFT_2, 0x2Cu8]) }
    else if c == '↑' { Some(seq![SINGLE_SHIFT_2, 0x2Du8]) }
    else if c == '→' { Some(seq![SINGLE_SHIFT_2, 0x2Eu8]) }
    else if c == '↓' { Some(seq![SINGLE_SHIFT_2, 0x2Fu8]) }
    else if c == '¼' { Some(seq![SINGLE_SHIFT_2, 0x3Cu8]) }
    else if c == '½' { Some(seq![SINGLE_SHIFT_2, 0x3Du8]) }
    else if c == '¾' { Some(seq![SINGLE_SHIFT_2, 0x3Eu8]) }
    else if c == 'Œ' { Some(seq![SINGLE_SHIFT_2, 0x6Au8]) }
    else if c == 'œ' { Some(seq![SINGLE_SHIFT_2, 0x7Au8]) }
    else if c == 'ß' { Some(seq![SINGLE_SHIFT_2, 0x7Bu8]) }
    else { None }
}

/// An accented capital is encoded with the diacritic of its small letter:
/// for a small Latin-1 letter (U+00E0 to U+00FE) and its capital (32 code
/// points below) that both have an SS2 sequence, the capital's sequence is
/// the small letter's with the base letter in upper case. (The small
/// letters' sequences are the ones the decoder reads back.)
pub proof fn law_capitals_share_diacritic(c: char)
    requires
        0xE0 <= c as u32 <= 0xFE,
        ss2_encoding(c) is Some,
        ss2_encoding(((c as u32) - 0x20) as char) is Some,
    ensures
        ss2_encoding(c).unwrap().len() == 3,
        ss2_encoding(((c as u32) - 0x20) as char) == Some(seq![
            SINGLE_SHIFT_2,
            ss2_encoding(c).unwrap()[1],
            (ss2_encoding(c).unwrap()[2] - 0x20) as u8,
        ]),
{
}

/// No two characters share an SS2 sequence: what the Minitel shows for one
/// character is never what it shows for another.
#[verifier::spinoff_prover]
pub proof fn law_ss2_distinct(c1: char, c2: char)
    requires
        c1 != c2,
        ss2_encoding(c1) is Some,
        ss2_encoding(c2) is Some,
    ensures
        ss2_encoding(c1) != ss2_encoding(c2),
{
}

/// Videotex diacritic of the letter at place `off` of a Latin-1 vowel block,
/// whose order is grave, acute, circumflex, (tilde,) diaeresis; the
/// diaeresis stands at `diaeresis_at`.
pub open spec fn block_mark(off: int, diaeresis_at: int) -> Option<u8> {
    if off == 0 {
        Some(0x41u8)
    } else if off == 1 {
        Some(0x42u8)
    } else if off == 2 {
        Some(0x43u8)
    } else if off == diaeresis_at {
        Some(0x48u8)
    } else {
        None
    }
}

/// Diacritic and base letter of an accented Latin-1 capital (U+00C0 to
/// U+00DE), read from where it stands in the Unicode block.
pub open spec fn latin1_capital_parts(k: int) -> Option<(u8, u8)> {
    let with_base = |m: Option<u8>, base: u8|
        match m {
            Some(d) => Some((d, base)),
            None => None::<(u8, u8)>,
        };
    if 0xC0 <= k <= 0xC5 {
        with_base(block_mark(k - 0xC0, 4), 0x41)
    } else if k == 0xC7 {
        Some((0x4Bu8, 0x43u8))
    } else if 0xC8 <= k <= 0xCB {
        with_base(block_mark(k - 0xC8, 3), 0x45)
    } else if 0xCC <= k <= 0xCF {
        with_base(block_mark(k - 0xCC, 3), 0x49)
    } else if 0xD2 <= k <= 0xD6 {
        with_base(block_mark(k - 0xD2, 4), 0x4F)
    } else if 0xD9 <= k <= 0xDC {
        with_base(block_mark(k - 0xD9, 3), 0x55)
    } else {
        None
    }
}

/// Diacritic and base letter of an accented Latin-1 letter: a small letter
/// (U+00E0 to U+00FE) is its capital's mark on the small base letter.
pub open spec fn latin1_parts(c: char) -> Option<(u8, u8)> {
    let u = c as int;
    if 0xE0 <= u <= 0xFE {
        match latin1_capital_parts(u - 0x20) {
            Some((d, b)) => Some((d, (b + 0x20) as u8)),
            None => None,
        }
    } else {
        latin1_capital_parts(u)
    }
}

/// Each accented letter is written with the diacritic of its own accent
/// (0x41 grave, 0x42 acute, 0x43 circumflex, 0x48 diaeresis, 0x4B cedilla)
/// followed by its base letter, as Unicode's Latin-1 block orders them; and
/// every small accented letter of French has its sequence.
#[verifier::spinoff_prover]
pub proof fn law_ss2_accents_follow_latin1(c: char)
    requires
        latin1_parts(c) is Some,
    ensures
        ss2_encoding(c) is Some ==> ss2_encoding(c) == acc(latin1_parts(c).unwrap().0, latin1_parts(c).unwrap().1),
        0xE0 <= c as u32 ==> ss2_encoding(c) is Some,
{
}

/// A character shown as itself (printable ASCII).
pub open spec fn is_ascii_printable(c: char) -> bool {
    0x20 <= (c as u32) <= 0x7E
}

/// Videotex bytes of one character: itself if printable ASCII, else its SS2
/// sequence, else nothing (characters without an equivalent are dropped).
pub open spec fn encode_char(c: char) -> Seq<u8> {
    if is_ascii_printable(c) {
        seq![(c as u32) as u8]
    } else {
        match ss2_encoding(c) {
            Some(v) => v,
            None => seq![],
        }
    }
}

/// Videotex bytes of a text: the encodings of its characters, concatenated.
pub open spec fn encode_spec(s: Seq<char>) -> Seq<u8>
    decreases s.len(),
{
    if s.len() == 0 {
        seq![]
    } else {
        encode_spec(s.drop_last()) + encode_char(s.last())
    }
}

/// SS2 sequence (accent / special character) of a `char`, `None` when the
/// character has no dedicated Videotex equivalent.
fn ss2_sequence(c: char) -> (r: Option<Vec<u8>>)
    ensures
        r matches Some(v) ==> ss2_encoding(c) == Some(v@),
        r is None ==> ss2_encoding(c) is None,
{
    let ss2 = SINGLE_SHIFT_2;
    let (a, b): (u8, u8) = match c {
        'à' => (0x41, 0x61), 'á' => (0x42, 0x61), 'â' => (0x43, 0x61), 'ä' => (0x48, 0x61),
        'è' => (0x41, 0x65), 'é' => (0x42, 0x65), 'ê' => (0x43, 0x65), 'ë' => (0x48, 0x65),
        'ì' => (0x41, 0x69), 'í' => (0x42, 0x69), 'î' => (0x43, 0x69), 'ï' => (0x48, 0x69),
        'ò' => (0x41, 0x6F), 'ó' => (0x42, 0x6F), 'ô' => (0x43, 0x6F), 'ö' => (0x48, 0x6F),
        'ù' => (0x41, 0x75), 'ú' => (0x42, 0x75), 'û' => (0x43, 0x75), 'ü' => (0x48, 0x75),
        'ç' => (0x4B, 0x63),
        'À' => (0x41, 0x41), 'Â' => (0x43, 0x41), 'Ä' => (0x48, 0x41),
        'É' => (0x42, 0x45), 'È' => (0x41, 0x45), 'Ê' => (0x43, 0x45), 'Ë' => (0x48, 0x45),
        'Î' => (0x43, 0x49), 'Ï' => (0x48, 0x49),
        'Ô' => (0x43, 0x4F), 'Ö' => (0x48, 0x4F),
        'Û' => (0x43, 0x55), 'Ü' => (0x48, 0x55), 'Ù' => (0x41, 0x55),
        'Ç' => (0x4B, 0x43),
        '\u{2019}' => (0x4B, 0x27),
        _ => {
            let code: u8 = match c {
                '£' => 0x23, '°' => 0x30, '±' => 0x31,
                '←' => 0x2C, '↑' => 0x2D, '→' => 0x2E, '↓' => 0x2F,
                '¼' => 0x3C, '½' => 0x3D, '¾' => 0x3E,
                'Œ' => 0x6A, 'œ' => 0x7A, 'ß' => 0x7B,
                _ => return None,
            };
            let v = vec![ss2, code];
            assert(v@ =~= seq![SINGLE_SHIFT_2, code]);
            return Some(v);
        },
    };
    let v = vec![ss2, a, b];
    assert(v@ =~= seq![SINGLE_SHIFT_2, a, b]);
    Some(v)
}

/// Encodes a Unicode string into Videotex bytes (accents handled).
/// Characters without an equivalent are skipped (best effort, never panics).
pub fn encode_text(s: &str) -> (out: Vec<u8>)
    ensures
        out@ == encode_spec(s@),
{
    let mut out: Vec<u8> = Vec::new();
    let ghost done: Seq<char> = seq![];
    for c in it: s.chars()
        invariant
            it.seq() == s@,
            out@ == encode_spec(s@.take(it.index() as int)),
    {
        assert(s@.take(it.index() + 1).drop_last() =~= s@.take(it.index() as int));
        assert(c == s@[it.index()]);
        if 0x20 <= (c as u32) && (c as u32) <= 0x7E {
            out.push((c as u32) as u8);
        } else if let Some(mut seq) = ss2_sequence(c) {
            out.append(&mut seq);
        }
    }
    assert(s@.take(s@.len() as int) =~= s@);
    out
}

/// Attribute: text colour (`ESC 0x40+code`).
pub fn fg(color: Color) -> (v: Vec<u8>)
    ensures
        v@ == seq![ESCAPE, (0x40 + color_code(color)) as u8],
{
    vec![ESCAPE, ATTR_FG_BASE + color.code()]
}

/// Attribute: background colour (`ESC 0x50+code`).
pub fn bg(color: Color) -> (v: Vec<u8>)
    ensures
        v@ == seq![ESCAPE, (0x50 + color_code(color)) as u8],
{
    vec![ESCAPE, ATTR_BG_BASE + color.code()]
}

/// Coloured text: colour attribute then the encoded text.
pub open spec fn colored_spec(c: Color, s: Seq<char>) -> Seq<u8> {
    seq![ESCAPE, (0x40 + color_code(c)) as u8] + encode_spec(s)
}

/// Coloured text ready to send: `fg(color)` then the encoded text.
pub fn colored(color: Color, s: &str) -> (v: Vec<u8>)
    ensures
        v@ == seq![ESCAPE, (0x40 + color_code(color)) as u8] + encode_spec(s@),
        v@ == colored_spec(color, s@),
{
    let mut v = fg(color);
    let mut t = encode_text(s);
    v.append(&mut t);
    v
}

/// Character size (attribute `ESC 0x4C..0x4F`).
#[derive(Debug, Clone, Copy, PartialEq, Eq, Structural)]
pub enum Size {
    Normal,
    DoubleHeight,
    DoubleWidth,
    DoubleSize,
}

/// Attribute byte of a size.
pub open spec fn size_code(s: Size) -> u8 {
    match s {
        Size::Normal => 0x4C,
        Size::DoubleHeight => 0x4D,
        Size::DoubleWidth => 0x4E,
        Size::DoubleSize => 0x4F,
    }
}

/// Size attribute bytes.
pub open spec fn size_spec(s: Size) -> Seq<u8> {
    seq![ESCAPE, size_code(s)]
}

/// Size attribute. Double height/size is forbidden on line 1, in row 0 and in
/// mosaic (G1).
pub fn size(s: Size) -> (v: Vec<u8>)
    ensures
        v@ == seq![ESCAPE, size_code(s)],
        v@ == size_spec(s),
{
    let code: u8 = match s {
        Size::Normal => 0x4C,
        Size::DoubleHeight => 0x4D,
        Size::DoubleWidth => 0x4E,
        Size::DoubleSize => 0x4F,
    };
    vec![ESCAPE, code]
}

/// Blinking on/off.
pub fn blink(on: bool) -> (v: Vec<u8>)
    ensures
        v@ == seq![ESCAPE, if on { 0x48u8 } else { 0x49u8 }],
{
    vec![ESCAPE, if on { 0x48 } else { 0x49 }]
}

/// Inverse video on/off (zone attribute: a delimiting space is needed).
pub fn invert(on: bool) -> (v: Vec<u8>)
    ensures
        v@ == seq![ESCAPE, if on { 0x5Du8 } else { 0x5Cu8 }],
{
    vec![ESCAPE, if on { 0x5D } else { 0x5C }]
}

/// Underline on/off (zone attribute; in G1: disjoint/joined mosaic).
pub fn underline(on: bool) -> (v: Vec<u8>)
    ensures
        v@ == seq![ESCAPE, if on { 0x5Au8 } else { 0x59u8 }],
{
    vec![ESCAPE, if on { 0x5A } else { 0x59 }]
}

/// Switches to the G1 set (semi-graphic mosaic).
pub fn g1() -> (b: u8)
    ensures
        b == SHIFT_OUT,
{
    SHIFT_OUT
}

/// Back to the G0 set (alphanumeric).
pub fn g0() -> (b: u8)
    ensures
        b == SHIFT_IN,
{
    SHIFT_IN
}

/// Displayable G1 byte of a 2x3 mosaic pattern (6 bits).
///
/// Bits: b0 top-left, b1 top-right, b2 middle-left, b3 middle-right,
/// b4 bottom-left, b5 bottom-right: `0x20 + (p & 0x1F) + (0x40 if b5)`.
pub open spec fn mosaic_spec(pattern: u8) -> int {
    0x20 + (pattern & 0x1F) + if pattern & 0x20 != 0 { 0x40int } else { 0int }
}

/// Encodes a 2x3 mosaic pattern (6 bits) into a displayable G1 byte.
pub fn mosaic(pattern: u8) -> (b: u8)
    ensures
        b == mosaic_spec(pattern),
        0x20 <= b <= 0x7F,
{
    let low = pattern & 0x1F;
    assert(pattern & 0x1F <= 0x1F) by (bit_vector);
    0x20 + low + if pattern & 0x20 != 0 { 0x40 } else { 0 }
}

/// Repeats the last character sent `n` times (`n` at most 63).
/// To send right after the character to repeat.
pub fn rep(n: u8) -> (v: Vec<u8>)
    ensures
        v@ == seq![REPEAT, (0x40 + if n < 63 { n } else { 63u8 }) as u8],
{
    let m: u8 = if n < 63 { n } else { 63 };
    vec![REPEAT, 0x40 + m]
}

/// The words of a text: its maximal runs of non-whitespace characters, in
/// order.
pub open spec fn words_of(s: Seq<char>) -> Seq<Seq<char>>
    decreases s.len(),
{
    if s.len() == 0 {
        seq![]
    } else {
        let w = words_of(s.drop_last());
        let c = s.last();
        if char_is_whitespace(c) {
            w
        } else if s.len() >= 2 && !char_is_whitespace(s[s.len() - 2]) {
            w.drop_last().push(w.last().push(c))
        } else {
            w.push(seq![c])
        }
    }
}

/// The words of `t` (`str::split_whitespace`).
pub fn split_words(t: &str) -> (words: Vec<String>)
    ensures
        strings_view(words@) == words_of(t@),
{
    let chars = chars_of(t);
    let mut words: Vec<String> = Vec::new();
    let mut word: Vec<char> = Vec::new();
    let mut i: usize = 0;
    assert(strings_view(words@) =~= Seq::<Seq<char>>::empty());
    while i < chars.len()
        invariant
            i <= chars@.len(),
            chars@ == t@,
            words_of(chars@.take(i as int)) == if word@.len() > 0 { strings_view(words@).push(word@) } else { strings_view(words@) },
            word@.len() > 0 <==> (i > 0 && !char_is_whitespace(chars@[i - 1])),
        decreases chars@.len() - i,
    {
        let c = chars[i];
        let ghost done = strings_view(words@);
        let ghost p = chars@.take(i as int);
        assert(chars@.take(i + 1).drop_last() =~= p);
        assert(chars@.take(i + 1).last() == c);
        if is_whitespace(c) {
            assert(words_of(chars@.take(i + 1)) == words_of(p));
            if word.len() > 0 {
                let w = string_of(word.as_slice());
                proof { lemma_strings_view_push(words@, w); }
                words.push(w);
                word = Vec::new();
            }
        } else {
            proof {
                if word@.len() > 0 {
                    assert(chars@.take(i + 1)[i - 1] == chars@[i - 1]);
                    assert(words_of(chars@.take(i + 1)) == words_of(p).drop_last().push(words_of(p).last().push(c)));
                    assert(done.push(word@).drop_last() =~= done);
                    assert(done.push(word@).drop_last().push(word@.push(c)) =~= done.push(word@.push(c)));
                } else if i > 0 {
                    assert(chars@.take(i + 1)[i - 1] == chars@[i - 1]);
                    assert(words_of(chars@.take(i + 1)) == words_of(p).push(seq![c]));
                } else {
                    assert(words_of(chars@.take(i + 1)) == words_of(p).push(seq![c]));
                }
            }
            let ghost w0 = word@;
            word.push(c);
            assert(w0.len() == 0 ==> word@ =~= seq![c]);
        }
        i = i + 1;
    }
    assert(chars@.take(chars@.len() as int) =~= chars@);
    if word.len() > 0 {
        let w = string_of(word.as_slice());
        proof { lemma_strings_view_push(words@, w); }
        words.push(w);
    }
    words
}

/// Lines completed so far and the line being filled.
pub struct WrapAcc {
    pub lines: Seq<Seq<char>>,
    pub cur: Seq<char>,
}

/// Hard cut of an over-long word: its characters go into a chunk, and a
/// chunk that already holds `width` characters is closed as a line first.
pub open spec fn chunk_fold(lines: Seq<Seq<char>>, w: Seq<char>, width: nat) -> (Seq<Seq<char>>, Seq<char>)
    decreases w.len(),
{
    if w.len() == 0 {
        (lines, seq![])
    } else {
        let (l, c) = chunk_fold(lines, w.drop_last(), width);
        if c.len() == width {
            (l.push(c), seq![w.last()])
        } else {
            (l, c.push(w.last()))
        }
    }
}

/// Places one word: an over-long word closes the current line and is cut
/// into chunks of `width`; otherwise the word joins the current line after a
/// space, or starts a new line when it would not fit.
pub open spec fn add_word(acc: WrapAcc, w: Seq<char>, width: nat) -> WrapAcc {
    if w.len() > width {
        let lines1 = if acc.cur.len() > 0 { acc.lines.push(acc.cur) } else { acc.lines };
        let (l, c) = chunk_fold(lines1, w, width);
        WrapAcc { lines: l, cur: c }
    } else {
        let sep: int = if acc.cur.len() == 0 { 0 } else { 1 };
        if acc.cur.len() + sep + w.len() > width {
            WrapAcc { lines: acc.lines.push(acc.cur), cur: w }
        } else if acc.cur.len() == 0 {
            WrapAcc { lines: acc.lines, cur: w }
        } else {
            WrapAcc { lines: acc.lines, cur: acc.cur.push(' ') + w }
        }
    }
}

/// Greedy filling of lines with the given words, in order.
pub open spec fn fill(words: Seq<Seq<char>>, width: nat) -> WrapAcc
    decreases words.len(),
{
    if words.len() == 0 {
        WrapAcc { lines: seq![], cur: seq![] }
    } else {
        add_word(fill(words.drop_last(), width), words.last(), width)
    }
}

/// The lines of `text` wrapped at `width` columns.
pub open spec fn wrap_spec(text: Seq<char>, width: nat) -> Seq<Seq<char>> {
    let acc = fill(words_of(text), width);
    if acc.cur.len() > 0 {
        acc.lines.push(acc.cur)
    } else {
        acc.lines
    }
}

fn place_word(lines: &mut Vec<String>, cur: &mut Vec<char>, word: &Vec<char>, width: usize)
    ensures
        ({
            let acc = add_word(WrapAcc { lines: strings_view(old(lines)@), cur: old(cur)@ }, word@, width as nat);
            strings_view(final(lines)@) == acc.lines && final(cur)@ == acc.cur
        }),
{
    let ghost acc0 = WrapAcc { lines: strings_view(lines@), cur: cur@ };
    if word.len() > width {
        if cur.len() > 0 {
            let s = string_of(cur.as_slice());
            proof { lemma_strings_view_push(lines@, s); }
            lines.push(s);
        }
        let ghost lines1 = strings_view(lines@);
        let mut chunk: Vec<char> = Vec::new();
        let mut j: usize = 0;
        while j < word.len()
            invariant
                j <= word@.len(),
                (strings_view(lines@), chunk@) == chunk_fold(lines1, word@.take(j as int), width as nat),
            decreases word@.len() - j,
        {
            assert(word@.take(j + 1).drop_last() =~= word@.take(j as int));
            if chunk.len() == width {
                let s = string_of(chunk.as_slice());
                proof { lemma_strings_view_push(lines@, s); }
                lines.push(s);
                chunk = Vec::new();
            }
            chunk.push(word[j]);
            proof {
                let (l, c) = chunk_fold(lines1, word@.take(j as int), width as nat);
                if c.len() == width {
                    assert(chunk@ =~= seq![word@[j as int]]);
                }
            }
            j = j + 1;
        }
        assert(word@.take(word@.len() as int) =~= word@);
        *cur = chunk;
    } else {
        let sep: usize = if cur.len() == 0 { 0 } else { 1 };
        if (cur.len() as u128) + (sep as u128) + (word.len() as u128) > (width as u128) {
            let s = string_of(cur.as_slice());
            proof { lemma_strings_view_push(lines@, s); }
            lines.push(s);
            *cur = word.clone();
        } else if cur.len() == 0 {
            *cur = word.clone();
        } else {
            cur.push(' ');
            let mut j: usize = 0;
            let ghost c1 = cur@;
            while j < word.len()
                invariant
                    j <= word@.len(),
                    cur@ == c1 + word@.take(j as int),
                decreases word@.len() - j,
            {
                cur.push(word[j]);
                assert(word@.take(j + 1) =~= word@.take(j as int).push(word@[j as int]));
                j = j + 1;
            }
            assert(word@.take(word@.len() as int) =~= word@);
        }
    }
}

/// Splits a text into lines of at most `width` columns without cutting words
/// (except a word longer than `width`). Counts `char`s: an accented letter
/// takes one column on screen.
pub fn wrap(text: &str, width: usize) -> (lines: Vec<String>)
    ensures
        strings_view(lines@) == wrap_spec(text@, width as nat),
{
    let chars = chars_of(text);
    let mut lines: Vec<String> = Vec::new();
    let mut cur: Vec<char> = Vec::new();
    let mut word: Vec<char> = Vec::new();
    let ghost mut done: Seq<Seq<char>> = seq![];
    let mut i: usize = 0;
    assert(strings_view(lines@) =~= Seq::<Seq<char>>::empty());
    while i < chars.len()
        invariant
            i <= chars@.len(),
            chars@ == text@,
            words_of(chars@.take(i as int)) == if word@.len() > 0 { done.push(word@) } else { done },
            word@.len() > 0 <==> (i > 0 && !char_is_whitespace(chars@[i - 1])),
            word@.len() > 0 ==> word@.len() <= i,
            fill(done, width as nat) == (WrapAcc { lines: strings_view(lines@), cur: cur@ }),
        decreases chars@.len() - i,
    {
        let c = chars[i];
        let ghost t = chars@.take(i as int);
        assert(chars@.take(i + 1).drop_last() =~= t);
        assert(chars@.take(i + 1).last() == c);
        if is_whitespace(c) {
            assert(words_of(chars@.take(i + 1)) == words_of(t));
            if word.len() > 0 {
                place_word(&mut lines, &mut cur, &word, width);
                proof {
                    assert(done.push(word@).drop_last() =~= done);
                    done = done.push(word@);
                }
                word = Vec::new();
            }
        } else {
            proof {
                if word@.len() > 0 {
                    assert(chars@.take(i + 1)[i - 1] == chars@[i - 1]);
                    assert(words_of(chars@.take(i + 1)) == words_of(t).drop_last().push(words_of(t).last().push(c)));
                    assert(done.push(word@).drop_last() =~= done);
                    assert(done.push(word@).drop_last().push(word@.push(c)) =~= done.push(word@.push(c)));
                } else if i > 0 {
                    assert(chars@.take(i + 1)[i - 1] == chars@[i - 1]);
                    assert(words_of(chars@.take(i + 1)) == words_of(t).push(seq![c]));
                } else {
                    assert(words_of(chars@.take(i + 1)) == words_of(t).push(seq![c]));
                }
            }
            let ghost w0 = word@;
            word.push(c);
            assert(w0.len() == 0 ==> word@ =~= seq![c]);
        }
        i = i + 1;
    }
    assert(chars@.take(chars@.len() as int) =~= chars@);
    if word.len() > 0 {
        place_word(&mut lines, &mut cur, &word, width);
        proof {
            assert(done.push(word@).drop_last() =~= done);
            done = done.push(word@);
        }
    }
    if cur.len() > 0 {
        let s = string_of(cur.as_slice());
        proof { lemma_strings_view_push(lines@, s); }
        lines.push(s);
    }
    lines
}

/// Lines joined with one space between consecutive lines.
pub open spec fn join_spaced(ss: Seq<Seq<char>>) -> Seq<char>
    decreases ss.len(),
{
    if ss.len() == 0 {
        seq![]
    } else if ss.len() == 1 {
        ss[0]
    } else {
        join_spaced(ss.drop_last()) + seq![' '] + ss.last()
    }
}

/// Every line holds between 1 and `width` characters.
pub open spec fn lines_fit(lines: Seq<Seq<char>>, width: nat) -> bool {
    forall|i: int| 0 <= i < lines.len() ==> 1 <= #[trigger] lines[i].len() <= width
}

proof fn lemma_chunk_fold_fits(lines: Seq<Seq<char>>, w: Seq<char>, width: nat)
    requires
        width >= 1,
        lines_fit(lines, width),
    ensures
        lines_fit(chunk_fold(lines, w, width).0, width),
        chunk_fold(lines, w, width).1.len() <= width,
        w.len() > 0 ==> chunk_fold(lines, w, width).1.len() >= 1,
    decreases w.len(),
{
    if w.len() > 0 {
        lemma_chunk_fold_fits(lines, w.drop_last(), width);
    }
}

proof fn lemma_fill_fits(words: Seq<Seq<char>>, width: nat)
    requires
        width >= 1,
        forall|i: int| 0 <= i < words.len() ==> #[trigger] words[i].len() >= 1,
    ensures
        lines_fit(fill(words, width).lines, width),
        fill(words, width).cur.len() <= width,
    decreases words.len(),
{
    if words.len() > 0 {
        let init = words.drop_last();
        assert forall|i: int| 0 <= i < init.len() implies #[trigger] init[i].len() >= 1 by {
            assert(init[i] == words[i]);
        }
        lemma_fill_fits(init, width);
        let acc = fill(init, width);
        let w = words.last();
        assert(w.len() >= 1) by {
            assert(words[words.len() - 1].len() >= 1);
        }
        if w.len() > width {
            let lines1 = if acc.cur.len() > 0 { acc.lines.push(acc.cur) } else { acc.lines };
            assert(lines_fit(lines1, width));
            lemma_chunk_fold_fits(lines1, w, width);
        }
    }
}

proof fn lemma_words_nonempty(s: Seq<char>)
    ensures
        forall|i: int| 0 <= i < words_of(s).len() ==> #[trigger] words_of(s)[i].len() >= 1,
        s.len() > 0 && !char_is_whitespace(s.last()) ==> words_of(s).len() > 0,
    decreases s.len(),
{
    if s.len() > 0 {
        let p = s.drop_last();
        lemma_words_nonempty(p);
        let w = words_of(p);
        let c = s.last();
        if !char_is_whitespace(c) {
            if s.len() >= 2 && !char_is_whitespace(s[s.len() - 2]) {
                assert(p.last() == s[s.len() - 2]);
                assert(w.len() > 0);
                let r = w.drop_last().push(w.last().push(c));
                assert forall|i: int| 0 <= i < r.len() implies #[trigger] r[i].len() >= 1 by {
                    if i < r.len() - 1 {
                        assert(r[i] == w[i]);
                    }
                }
            } else {
                let r = w.push(seq![c]);
                assert forall|i: int| 0 <= i < r.len() implies #[trigger] r[i].len() >= 1 by {
                    if i < r.len() - 1 {
                        assert(r[i] == w[i]);
                    }
                }
            }
        }
    }
}

/// At `width >= 1`, every wrapped line holds between 1 and `width`
/// characters: an over-long word is cut, and no empty line is produced.
pub proof fn law_wrap_lines_fit(text: Seq<char>, width: nat)
    requires
        width >= 1,
    ensures
        lines_fit(wrap_spec(text, width), width),
{
    lemma_words_nonempty(text);
    lemma_fill_fits(words_of(text), width);
}

proof fn lemma_join_push(ss: Seq<Seq<char>>, x: Seq<char>)
    ensures
        ss.len() == 0 ==> join_spaced(ss.push(x)) == x,
        ss.len() > 0 ==> join_spaced(ss.push(x)) == join_spaced(ss) + seq![' '] + x,
{
    assert(ss.push(x).drop_last() =~= ss);
    if ss.len() == 0 {
        assert(ss.push(x)[0] == x);
    }
}

proof fn lemma_fill_joins(words: Seq<Seq<char>>, width: nat)
    requires
        forall|i: int| 0 <= i < words.len() ==> 1 <= #[trigger] words[i].len() <= width,
    ensures
        words.len() == 0 ==> fill(words, width).lines.len() == 0 && fill(words, width).cur.len() == 0,
        words.len() > 0 ==> fill(words, width).cur.len() > 0,
        words.len() > 0 ==> join_spaced(fill(words, width).lines.push(fill(words, width).cur)) == join_spaced(words),
    decreases words.len(),
{
    if words.len() > 0 {
        let init = words.drop_last();
        assert forall|i: int| 0 <= i < init.len() implies 1 <= #[trigger] init[i].len() <= width by {
            assert(init[i] == words[i]);
        }
        lemma_fill_joins(init, width);
        let acc = fill(init, width);
        let w = words.last();
        assert(1 <= w.len() <= width) by {
            assert(1 <= words[words.len() - 1].len() <= width);
        }
        lemma_join_push(init, w);
        assert(words =~= init.push(w));
        let sep: int = if acc.cur.len() == 0 { 0 } else { 1 };
        if acc.cur.len() + sep + w.len() > width {
            lemma_join_push(acc.lines.push(acc.cur), w);
        } else if acc.cur.len() == 0 {
            lemma_join_push(acc.lines, w);
        } else {
            lemma_join_push(acc.lines, acc.cur);
            lemma_join_push(acc.lines, acc.cur.push(' ') + w);
            assert(acc.cur.push(' ') + w =~= acc.cur + seq![' '] + w);
            if acc.lines.len() > 0 {
                assert(join_spaced(acc.lines) + seq![' '] + (acc.cur + seq![' '] + w)
                    =~= join_spaced(acc.lines) + seq![' '] + acc.cur + seq![' '] + w);
            }
        }
    }
}

/// When no word is longer than `width`, wrapping only chooses where lines
/// break: the lines joined with single spaces give back the words of the
/// text joined with single spaces.
pub proof fn law_wrap_keeps_words(text: Seq<char>, width: nat)
    requires
        forall|i: int| 0 <= i < words_of(text).len() ==> #[trigger] words_of(text)[i].len() <= width,
    ensures
        join_spaced(wrap_spec(text, width)) == join_spaced(words_of(text)),
{
    let words = words_of(text);
    lemma_words_nonempty(text);
    assert forall|i: int| 0 <= i < words.len() implies 1 <= #[trigger] words[i].len() <= width by {
    }
    lemma_fill_joins(words, width);
}

} // verus!
