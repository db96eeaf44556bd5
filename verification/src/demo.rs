//! Videotex demo screens, to check by eye what the 1B really renders
//! (colours, accents, attributes, sizes, mosaic, backgrounds, REP).
//!
//! A menu; typing a digit **0-9** shows the matching demo screen;
//! **Sommaire** goes back to the menu.
use vstd::prelude::*;
use crate::chars::push_str;
use crate::chat::{decimal, push_decimal};
use crate::constants::{Color, CANCEL, CURSOR_OFF, EMIT_MODEM, ESCAPE, FORM_FEED, RECV_SCREEN, ROUTING_OFF, SHIFT_IN, SHIFT_OUT, UNIT_SEPARATOR};
use crate::input::{Event, EventView, FnKey};
use crate::protocol::{clear_screen, cursor, goto_row0, move_to, move_to_seq, set_echo};
use crate::videotex::{
    bg, blink, colored, colored_spec, encode_spec, encode_text, fg, g0, g1, invert, mosaic, mosaic_spec, rep,
    size, size_spec, underline, Size,
};

verus! {

/// Screen builder: accumulates Videotex bytes, starting with a clear
/// screen.
pub struct Buf {
    bytes: Vec<u8>,
}

impl View for Buf {
    type V = Seq<u8>;

    closed spec fn view(&self) -> Seq<u8> {
        self.bytes@
    }
}

impl Buf {
    /// A clear screen.
    pub fn new() -> (b: Self)
        ensures
            b@ == seq![FORM_FEED],
    {
        Buf { bytes: clear_screen() }
    }

    fn add(self, mut more: Vec<u8>) -> (b: Self)
        ensures
            b@ == self@ + more@,
    {
        let mut bytes = self.bytes;
        bytes.append(&mut more);
        Buf { bytes }
    }

    /// Cursor to (column, row).
    pub fn at(self, col: u8, row: u8) -> (b: Self)
        requires
            col < 0xC0,
            row < 0xC0,
        ensures
            b@ == self@ + move_to_seq(col, row),
    {
        self.add(move_to(col, row))
    }

    /// Text, encoded.
    pub fn t(self, s: &str) -> (b: Self)
        ensures
            b@ == self@ + encode_spec(s@),
    {
        self.add(encode_text(s))
    }

    /// Coloured text.
    pub fn fg(self, c: Color, s: &str) -> (b: Self)
        ensures
            b@ == self@ + colored_spec(c, s@),
    {
        self.add(colored(c, s))
    }

    /// Raw bytes.
    pub fn raw(self, more: Vec<u8>) -> (b: Self)
        ensures
            b@ == self@ + more@,
    {
        self.add(more)
    }

    /// One raw byte.
    pub fn byte(self, x: u8) -> (b: Self)
        ensures
            b@ == self@.push(x),
    {
        let mut bytes = self.bytes;
        bytes.push(x);
        Buf { bytes }
    }

    /// The bytes of the screen.
    pub fn done(self) -> (v: Vec<u8>)
        ensures
            v@ == self@,
    {
        self.bytes
    }
}

/// Title of demo `n`.
pub open spec fn title_text(n: int) -> Seq<char> {
    if n == 0 {
        "Damier & degrades (mosaique+REP)"@
    } else if n == 1 {
        "Couleurs (8 gris)"@
    } else if n == 2 {
        "Accents & caracteres G2"@
    } else if n == 3 {
        "Attributs: clign/inv/souligne"@
    } else if n == 4 {
        "Tailles: double H / L / taille"@
    } else if n == 5 {
        "Mosaique G1 (blocs 2x3)"@
    } else if n == 6 {
        "Fonds colores (delimiteur)"@
    } else if n == 7 {
        "Titre (double taille)"@
    } else if n == 8 {
        "Rangee 0 (barre de statut)"@
    } else {
        "Repetition REP (aplats)"@
    }
}

/// Title of demo `n` (0-9).
pub fn title(n: u8) -> (t: &'static str)
    requires
        n <= 9,
    ensures
        t@ == title_text(n as int),
{
    match n {
        0 => "Damier & degrades (mosaique+REP)",
        1 => "Couleurs (8 gris)",
        2 => "Accents & caracteres G2",
        3 => "Attributs: clign/inv/souligne",
        4 => "Tailles: double H / L / taille",
        5 => "Mosaique G1 (blocs 2x3)",
        6 => "Fonds colores (delimiteur)",
        7 => "Titre (double taille)",
        8 => "Rangee 0 (barre de statut)",
        _ => "Repetition REP (aplats)",
    }
}

/// Title at the top, navigation reminder at the bottom.
pub open spec fn frame_spec(title: Seq<char>) -> Seq<u8> {
    seq![FORM_FEED] + move_to_seq(1, 1) + colored_spec(Color::Yellow, title) + move_to_seq(1, 24)
        + colored_spec(Color::Green, "0-9=demo  SOMMAIRE=menu"@)
}

/// A demo screen's frame: its title at the top, navigation at the bottom.
pub fn frame(title: &str) -> (b: Buf)
    ensures
        b@ == frame_spec(title@),
{
    Buf::new().at(1, 1).fg(Color::Yellow, title).at(1, 24).fg(Color::Green, "0-9=demo  SOMMAIRE=menu")
}

/// The first `k` entries of the menu, one per row from row 4.
pub open spec fn menu_entries(k: int) -> Seq<u8>
    decreases k,
{
    if k <= 0 {
        seq![]
    } else {
        menu_entries(k - 1) + move_to_seq(1, (4 + k - 1) as u8)
            + colored_spec(Color::Cyan, decimal((k - 1) as nat) + "  "@ + title_text(k - 1))
    }
}

/// The menu of the demos.
pub open spec fn menu_spec() -> Seq<u8> {
    seq![FORM_FEED] + move_to_seq(1, 1) + size_spec(Size::DoubleHeight) + colored_spec(Color::White, "DEMOS VIDEOTEX"@)
        + size_spec(Size::Normal) + menu_entries(10) + move_to_seq(1, 24)
        + colored_spec(Color::Green, "Tape un chiffre 0-9"@)
}

/// The menu: the ten demos, numbered.
pub fn menu() -> (v: Vec<u8>)
    ensures
        v@ == menu_spec(),
{
    let mut b = Buf::new().at(1, 1).raw(size(Size::DoubleHeight)).fg(Color::White, "DEMOS VIDEOTEX").raw(
        size(Size::Normal),
    );
    let ghost b0 = b@;
    let mut i: u8 = 0;
    while i < 10
        invariant
            i <= 10,
            b@ == b0 + menu_entries(i as int),
        decreases 10 - i,
    {
        let mut line = String::new();
        push_decimal(&mut line, i as u64);
        push_str(&mut line, "  ");
        push_str(&mut line, title(i));
        b = b.at(1, 4 + i).fg(Color::Cyan, line.as_str());
        i = i + 1;
        assert(b@ =~= b0 + menu_entries(i as int));
    }
    let b = b.at(1, 24).fg(Color::Green, "Tape un chiffre 0-9");
    let v = b.done();
    assert(v@ =~= menu_spec());
    v
}

/// The eight colours of demo 1 and their names.
pub open spec fn color_entry(i: int) -> (Color, Seq<char>) {
    if i == 0 {
        (Color::Black, "noir"@)
    } else if i == 1 {
        (Color::Blue, "bleu"@)
    } else if i == 2 {
        (Color::Red, "rouge"@)
    } else if i == 3 {
        (Color::Magenta, "magenta"@)
    } else if i == 4 {
        (Color::Green, "vert"@)
    } else if i == 5 {
        (Color::Cyan, "cyan"@)
    } else if i == 6 {
        (Color::Yellow, "jaune"@)
    } else {
        (Color::White, "blanc"@)
    }
}

fn color_entry_of(i: u8) -> (e: (Color, &'static str))
    ensures
        (e.0, e.1@) == color_entry(i as int),
{
    match i {
        0 => (Color::Black, "noir"),
        1 => (Color::Blue, "bleu"),
        2 => (Color::Red, "rouge"),
        3 => (Color::Magenta, "magenta"),
        4 => (Color::Green, "vert"),
        5 => (Color::Cyan, "cyan"),
        6 => (Color::Yellow, "jaune"),
        _ => (Color::White, "blanc"),
    }
}

/// The first `k` colour swatches of demo 1.
pub open spec fn color_rows(k: int) -> Seq<u8>
    decreases k,
{
    if k <= 0 {
        seq![]
    } else {
        color_rows(k - 1) + move_to_seq(3, (4 + k - 1) as u8)
            + colored_spec(color_entry(k - 1).0, "####### "@ + color_entry(k - 1).1)
    }
}

/// The first `k` isolated mosaic blocks of demo 5, each followed by a G1
/// space.
pub open spec fn block_bytes(k: int) -> Seq<u8>
    decreases k,
{
    if k <= 0 {
        seq![]
    } else {
        block_bytes(k - 1) + seq![mosaic_spec((1u8 << ((k - 1) as u8)) as u8) as u8, 0x20u8]
    }
}

/// Background rows of demo 6: colour and label.
pub open spec fn background_entry(i: int) -> (Color, Seq<char>) {
    if i == 0 {
        (Color::Red, "fond rouge"@)
    } else if i == 1 {
        (Color::Blue, "fond bleu"@)
    } else if i == 2 {
        (Color::Green, "fond vert"@)
    } else {
        (Color::White, "fond blanc"@)
    }
}

fn background_entry_of(i: u8) -> (e: (Color, &'static str))
    ensures
        (e.0, e.1@) == background_entry(i as int),
{
    match i {
        0 => (Color::Red, "fond rouge"),
        1 => (Color::Blue, "fond bleu"),
        2 => (Color::Green, "fond vert"),
        _ => (Color::White, "fond blanc"),
    }
}

/// The first `k` background rows of demo 6: background attribute, the
/// delimiting space that validates it, the label in black, back to black.
pub open spec fn background_rows(k: int) -> Seq<u8>
    decreases k,
{
    if k <= 0 {
        seq![]
    } else {
        let (c, label) = background_entry(k - 1);
        background_rows(k - 1) + move_to_seq(3, (6 + 2 * (k - 1)) as u8)
            + seq![ESCAPE, (0x50 + crate::constants::color_code(c)) as u8] + encode_spec(" "@)
            + colored_spec(Color::Black, label + "       "@)
            + seq![ESCAPE, (0x50 + crate::constants::color_code(Color::Black)) as u8] + encode_spec(" "@)
    }
}

/// Bars of demo 9: colour and character.
pub open spec fn bar_entry(i: int) -> (Color, u8) {
    if i == 0 {
        (Color::Red, 0x23u8)
    } else if i == 1 {
        (Color::Green, 0x3Du8)
    } else if i == 2 {
        (Color::Yellow, 0x2Au8)
    } else {
        (Color::Cyan, 0x2Du8)
    }
}

fn bar_entry_of(i: u8) -> (e: (Color, u8))
    ensures
        e == bar_entry(i as int),
{
    match i {
        0 => (Color::Red, 0x23),
        1 => (Color::Green, 0x3D),
        2 => (Color::Yellow, 0x2A),
        _ => (Color::Cyan, 0x2D),
    }
}

/// The first `k` bars of demo 9: colour, the character, repeated 34 more
/// times (35 columns).
pub open spec fn bar_rows(k: int) -> Seq<u8>
    decreases k,
{
    if k <= 0 {
        seq![]
    } else {
        let (c, ch) = bar_entry(k - 1);
        bar_rows(k - 1) + move_to_seq(3, (6 + 2 * (k - 1)) as u8)
            + seq![ESCAPE, (0x40 + crate::constants::color_code(c)) as u8, ch, 0x12u8, 0x62u8]
    }
}

/// `k` pairs of mosaic bytes `a`, `b`.
pub open spec fn pairs(k: int, a: u8, b: u8) -> Seq<u8>
    decreases k,
{
    if k <= 0 { seq![] } else { pairs(k - 1, a, b) + seq![a, b] }
}

/// The first `k` rows of the checkerboard of demo 0: full and empty blocks
/// alternate, shifted by one on odd rows.
pub open spec fn checker_rows(k: int) -> Seq<u8>
    decreases k,
{
    if k <= 0 {
        seq![]
    } else {
        let r = k - 1;
        let (a, b) = if r % 2 == 0 { (0x7Fu8, 0x20u8) } else { (0x20u8, 0x7Fu8) };
        checker_rows(k - 1) + move_to_seq(3, (6 + r) as u8) + seq![SHIFT_OUT] + pairs(18, a, b) + seq![SHIFT_IN]
    }
}

/// The screen of demo `n` (the menu beyond 9).
pub open spec fn demo_spec(n: u8) -> Seq<u8> {
    if n == 1 {
        frame_spec(title_text(1)) + color_rows(8)
    } else if n == 2 {
        frame_spec(title_text(2)) + move_to_seq(3, 5) + encode_spec("Accents: ete a l'ecole, ca va ?"@)
            + move_to_seq(3, 6) + encode_spec("e a i o u -> é à î ô û  ç ê ë"@) + move_to_seq(3, 9)
            + encode_spec("G2: £ ° ± ½ ¼ ¾ § oe OE"@) + move_to_seq(3, 10)
            + encode_spec("Fleches: <- ^ -> v  (← ↑ → ↓)"@)
    } else if n == 3 {
        frame_spec(title_text(3)) + move_to_seq(3, 6) + encode_spec("Normal "@) + seq![ESCAPE, 0x48u8]
            + encode_spec("CLIGNOTE"@) + seq![ESCAPE, 0x49u8] + move_to_seq(3, 9) + encode_spec(" "@)
            + seq![ESCAPE, 0x5Du8] + encode_spec(" INVERSE VIDEO "@) + seq![ESCAPE, 0x5Cu8] + move_to_seq(3, 12)
            + encode_spec(" "@) + seq![ESCAPE, 0x5Au8] + encode_spec(" souligne "@) + seq![ESCAPE, 0x59u8]
    } else if n == 4 {
        frame_spec(title_text(4)) + move_to_seq(3, 6) + size_spec(Size::DoubleHeight)
            + colored_spec(Color::White, "Double hauteur"@) + size_spec(Size::Normal) + move_to_seq(3, 10)
            + size_spec(Size::DoubleWidth) + colored_spec(Color::Cyan, "Double largeur"@) + size_spec(Size::Normal)
            + move_to_seq(3, 15) + size_spec(Size::DoubleSize) + colored_spec(Color::Yellow, "DOUBLE"@)
            + size_spec(Size::Normal)
    } else if n == 5 {
        frame_spec(title_text(5)) + move_to_seq(3, 4) + encode_spec("Blocs 2x3 isoles:"@) + move_to_seq(3, 6)
            + seq![SHIFT_OUT] + block_bytes(6) + seq![SHIFT_IN] + move_to_seq(3, 9)
            + encode_spec("Plein / demi / cadre:"@) + move_to_seq(3, 11)
            + seq![SHIFT_OUT, 0x7Fu8, 0x35u8, 0x6Au8, SHIFT_IN]
    } else if n == 6 {
        frame_spec(title_text(6)) + move_to_seq(3, 4) + encode_spec("Fond = attribut zone (delim.)"@)
            + background_rows(4)
    } else if n == 7 {
        frame_spec(title_text(7)) + move_to_seq(6, 8) + size_spec(Size::DoubleSize)
            + colored_spec(Color::White, "K L E K"@) + size_spec(Size::Normal) + move_to_seq(3, 20)
            + colored_spec(Color::Cyan, "(version mosaique 2x3 a venir)"@)
    } else if n == 8 {
        seq![FORM_FEED, UNIT_SEPARATOR, 0x40u8, 0x41u8] + colored_spec(Color::White, " MINITEL             RANGEE 0 (statut) "@)
            + move_to_seq(1, 1) + colored_spec(Color::Yellow, title_text(8)) + move_to_seq(3, 6)
            + encode_spec("La ligne du haut est la rangee 0"@) + move_to_seq(3, 8)
            + encode_spec("hors zone scrollable (HUD)."@) + move_to_seq(1, 24)
            + colored_spec(Color::Green, "0-9=demo  SOMMAIRE=menu"@)
    } else if n == 9 {
        frame_spec(title_text(9)) + move_to_seq(3, 4) + encode_spec("Barres via REP (0x12):"@) + bar_rows(4)
    } else if n == 0 {
        frame_spec(title_text(0)) + move_to_seq(3, 4) + encode_spec("Damier mosaique:"@) + checker_rows(6)
    } else {
        menu_spec()
    }
}

fn demo_colors() -> (v: Vec<u8>)
    ensures
        v@ == demo_spec(1),
{
    let mut b = frame(title(1));
    let ghost b0 = b@;
    let mut i: u8 = 0;
    while i < 8
        invariant
            i <= 8,
            b@ == b0 + color_rows(i as int),
        decreases 8 - i,
    {
        let (c, name) = color_entry_of(i);
        let mut line = String::new();
        push_str(&mut line, "####### ");
        push_str(&mut line, name);
        b = b.at(3, 4 + i).fg(c, line.as_str());
        i = i + 1;
        assert(b@ =~= b0 + color_rows(i as int));
    }
    b.done()
}

fn demo_mosaic() -> (v: Vec<u8>)
    ensures
        v@ == demo_spec(5),
{
    let mut b = frame(title(5)).at(3, 4).t("Blocs 2x3 isoles:");
    b = b.at(3, 6).byte(g1());
    let ghost b0 = b@;
    let mut bit: u8 = 0;
    while bit < 6
        invariant
            bit <= 6,
            b@ == b0 + block_bytes(bit as int),
        decreases 6 - bit,
    {
        b = b.byte(mosaic(1u8 << bit)).byte(0x20);
        bit = bit + 1;
        assert(b@ =~= b0 + block_bytes(bit as int));
    }
    b = b.byte(g0());
    assert(mosaic_spec(0x3F) == 0x7F) by (bit_vector);
    assert(mosaic_spec(0x15) == 0x35) by (bit_vector);
    assert(mosaic_spec(0x2A) == 0x6A) by (bit_vector);
    b = b.at(3, 9).t("Plein / demi / cadre:").at(3, 11).byte(g1()).byte(mosaic(0x3F)).byte(mosaic(0x15)).byte(
        mosaic(0x2A),
    ).byte(g0());
    let v = b.done();
    assert(v@ =~= demo_spec(5));
    v
}

fn demo_backgrounds() -> (v: Vec<u8>)
    ensures
        v@ == demo_spec(6),
{
    let mut b = frame(title(6)).at(3, 4).t("Fond = attribut zone (delim.)");
    let ghost b0 = b@;
    let mut i: u8 = 0;
    while i < 4
        invariant
            i <= 4,
            b@ == b0 + background_rows(i as int),
        decreases 4 - i,
    {
        let (c, label) = background_entry_of(i);
        let mut line = String::new();
        push_str(&mut line, label);
        push_str(&mut line, "       ");
        b = b.at(3, 6 + 2 * i).raw(bg(c)).t(" ").fg(Color::Black, line.as_str()).raw(bg(Color::Black)).t(" ");
        i = i + 1;
        assert(b@ =~= b0 + background_rows(i as int));
    }
    let v = b.done();
    assert(v@ =~= demo_spec(6));
    v
}

fn demo_bars() -> (v: Vec<u8>)
    ensures
        v@ == demo_spec(9),
{
    let mut b = frame(title(9)).at(3, 4).t("Barres via REP (0x12):");
    let ghost b0 = b@;
    let mut i: u8 = 0;
    while i < 4
        invariant
            i <= 4,
            b@ == b0 + bar_rows(i as int),
        decreases 4 - i,
    {
        let (c, ch) = bar_entry_of(i);
        b = b.at(3, 6 + 2 * i).raw(fg(c)).byte(ch).raw(rep(34));
        i = i + 1;
        assert(b@ =~= b0 + bar_rows(i as int));
    }
    let v = b.done();
    assert(v@ =~= demo_spec(9));
    v
}

fn demo_checker() -> (v: Vec<u8>)
    ensures
        v@ == demo_spec(0),
{
    let mut b = frame(title(0)).at(3, 4).t("Damier mosaique:");
    let ghost b0 = b@;
    assert(mosaic_spec(0x3F) == 0x7F) by (bit_vector);
    assert(mosaic_spec(0x00) == 0x20) by (bit_vector);
    let mut row: u8 = 0;
    while row < 6
        invariant
            row <= 6,
            b@ == b0 + checker_rows(row as int),
            mosaic_spec(0x3F) == 0x7F,
            mosaic_spec(0x00) == 0x20,
        decreases 6 - row,
    {
        b = b.at(3, 6 + row).byte(g1());
        let ghost b1 = b@;
        let p: u8 = if row % 2 == 0 { 0x3F } else { 0x00 };
        let q: u8 = if row % 2 == 0 { 0x00 } else { 0x3F };
        assert(p ^ 0x3F == q) by (bit_vector)
            requires p == 0x3F || p == 0x00, q == (if p == 0x3F { 0x00u8 } else { 0x3Fu8 });
        let ghost a: u8 = if row % 2 == 0 { 0x7F } else { 0x20 };
        let ghost c: u8 = if row % 2 == 0 { 0x20 } else { 0x7F };
        let mut k: u8 = 0;
        while k < 18
            invariant
                k <= 18,
                b@ == b1 + pairs(k as int, a, c),
                mosaic_spec(p) == a,
                mosaic_spec(q) == c,
                p ^ 0x3F == q,
            decreases 18 - k,
        {
            b = b.byte(mosaic(p)).byte(mosaic(p ^ 0x3F));
            k = k + 1;
            assert(b@ =~= b1 + pairs(k as int, a, c));
        }
        b = b.byte(g0());
        row = row + 1;
        assert(b@ =~= b0 + checker_rows(row as int));
    }
    let v = b.done();
    assert(v@ =~= demo_spec(0));
    v
}

/// The screen of demo `n` (0-9); the menu for any other number.
pub fn demo(n: u8) -> (v: Vec<u8>)
    ensures
        v@ == demo_spec(n),
{
    match n {
        1 => demo_colors(),
        2 => frame(title(2)).at(3, 5).t("Accents: ete a l'ecole, ca va ?").at(3, 6).t("e a i o u -> é à î ô û  ç ê ë").at(
            3,
            9,
        ).t("G2: £ ° ± ½ ¼ ¾ § oe OE").at(3, 10).t("Fleches: <- ^ -> v  (← ↑ → ↓)").done(),
        3 => frame(title(3)).at(3, 6).t("Normal ").raw(blink(true)).t("CLIGNOTE").raw(blink(false)).at(3, 9).t(
            " ",
        ).raw(invert(true)).t(" INVERSE VIDEO ").raw(invert(false)).at(3, 12).t(" ").raw(underline(true)).t(
            " souligne ",
        ).raw(underline(false)).done(),
        4 => frame(title(4)).at(3, 6).raw(size(Size::DoubleHeight)).fg(Color::White, "Double hauteur").raw(
            size(Size::Normal),
        ).at(3, 10).raw(size(Size::DoubleWidth)).fg(Color::Cyan, "Double largeur").raw(size(Size::Normal)).at(
            3,
            15,
        ).raw(size(Size::DoubleSize)).fg(Color::Yellow, "DOUBLE").raw(size(Size::Normal)).done(),
        5 => demo_mosaic(),
        6 => demo_backgrounds(),
        7 => frame(title(7)).at(6, 8).raw(size(Size::DoubleSize)).fg(Color::White, "K L E K").raw(
            size(Size::Normal),
        ).at(3, 20).fg(Color::Cyan, "(version mosaique 2x3 a venir)").done(),
        8 => Buf::new().raw(goto_row0()).fg(Color::White, " MINITEL             RANGEE 0 (statut) ").at(1, 1).fg(
            Color::Yellow,
            title(8),
        ).at(3, 6).t("La ligne du haut est la rangee 0").at(3, 8).t("hors zone scrollable (HUD).").at(1, 24).fg(
            Color::Green,
            "0-9=demo  SOMMAIRE=menu",
        ).done(),
        9 => demo_bars(),
        0 => demo_checker(),
        _ => menu(),
    }
}

/// What a key does in the demo: a digit shows its demo, Sommaire the menu;
/// other keys do nothing.
pub open spec fn demo_key_spec(ev: EventView) -> Option<Seq<u8>> {
    match ev {
        EventView::Char(c) => if '0' <= c <= '9' { Some(demo_spec(((c as u32) - 48) as u8)) } else { None },
        EventView::Function(FnKey::Summary) => Some(menu_spec()),
        _ => None,
    }
}

/// The screen a key asks for, if any.
pub fn demo_key(ev: &Event) -> (r: Option<Vec<u8>>)
    ensures
        match r {
            Some(v) => demo_key_spec(ev@) == Some(v@),
            None => demo_key_spec(ev@) is None,
        },
{
    match ev {
        Event::Char(c) => {
            if '0' <= *c && *c <= '9' {
                let n: u8 = ((*c as u32) - 48) as u8;
                Some(demo(n))
            } else {
                None
            }
        },
        Event::Function(FnKey::Summary) => Some(menu()),
        _ => None,
    }
}

/// What the demo sends when the Minitel connects: local echo off, cursor
/// hidden, the menu.
pub fn demo_greeting() -> (v: Vec<u8>)
    ensures
        v@ == seq![ESCAPE, 0x3Bu8, ROUTING_OFF, RECV_SCREEN, EMIT_MODEM, CURSOR_OFF] + menu_spec(),
{
    let mut v = set_echo(false);
    let mut c = cursor(false);
    v.append(&mut c);
    let mut m = menu();
    v.append(&mut m);
    v
}

/// What the viewer sends when the Minitel connects: local echo off, cursor
/// hidden, screen and row 0 cleared (a form feed leaves row 0), then the
/// stream as is.
pub fn show_frame(frame: &[u8]) -> (v: Vec<u8>)
    ensures
        v@ == seq![ESCAPE, 0x3Bu8, ROUTING_OFF, RECV_SCREEN, EMIT_MODEM, CURSOR_OFF, FORM_FEED, UNIT_SEPARATOR, 0x40u8, 0x41u8, CANCEL]
            + frame@,
{
    let mut v = set_echo(false);
    let mut c = cursor(false);
    v.append(&mut c);
    let mut f = clear_screen();
    v.append(&mut f);
    let mut r = goto_row0();
    r.push(CANCEL);
    v.append(&mut r);
    let mut i: usize = 0;
    let ghost v0 = v@;
    while i < frame.len()
        invariant
            i <= frame@.len(),
            v@ == v0 + frame@.take(i as int),
        decreases frame@.len() - i,
    {
        v.push(frame[i]);
        assert(frame@.take(i + 1) =~= frame@.take(i as int).push(frame@[i as int]));
        i = i + 1;
    }
    assert(frame@.take(frame@.len() as int) =~= frame@);
    v
}

} // verus!
