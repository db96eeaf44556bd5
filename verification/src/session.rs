//! The conversation daemon's session: what the Minitel shows and what the
//! daemon does, key by key.
//!
//! The user types a query; **Envoi** sends it to the backend and the answer
//! is shown as a conversation thread, paginated (**Suite** / **Retour**);
//! **Sommaire** starts a new thread; **Guide** opens the services menu.
//!
//! The session is a state machine without I/O: each input (a decoded key, a
//! backend answer, a connection) changes the state and yields [`Action`]s
//! for the caller to perform in order: bytes to send to the Minitel,
//! requests to the backend, a link reset.
use vstd::prelude::*;
use crate::backend::{net_hint, Net};
pub use crate::backend::Failure;
use crate::chars::{chars_of, push_char, push_str, take_chars, strings_view};
use vstd::string::StrSliceExecFns;
use crate::chat::{
    capped, pages_of, trim_spec, trim_text, two_digits, with_turn,
    decimal, push_decimal, spaces, status_line, status_text, is_clock_text, transcript_wf,
    Transcript, TranscriptView, AREA_COLS, AREA_ROW, AREA_ROWS, ANIM_COL, ANIM_ROW,
    CHAT_FOOTER, CHAT_INPUT_ROW, CHAT_INPUT_ROWS, CHAT_LABEL_ROW, COLS, CONTENT_ROW,
    FOOTER_ROW, HINT_ROW, LABEL_ROW, MSG_ROW, PAGE_ROWS, TITLE_MAX,
};
use crate::constants::{
    Color, CURSOR_OFF, CURSOR_ON, EMIT_MODEM, ENQUIRY_ROM, ESCAPE, FORM_FEED, LOWERCASE, RECV_SCREEN,
    ROUTING_OFF, START, UNIT_SEPARATOR,
};
use crate::edit::{backspace_spec, chunk, chunk_count, editor_wf, insert_spec, with_cursor, Editor, EditorView};
use crate::input::{Arrow, Event, EventView, FnKey};
use crate::protocol::{clear_screen, cursor, goto_row0, identify_request, keyboard_lowercase, move_to, move_to_seq, set_echo};
use crate::videotex::{colored, colored_spec, encode_spec, encode_text, size, size_spec, Size};

verus! {

/// Screen the session is on.
#[derive(Debug, Clone, Copy, PartialEq, Eq, Structural)]
pub enum Mode {
    /// Home: banner and search field.
    Home,
    /// Waiting for the backend.
    Searching,
    /// Answer shown, with the follow-up field (conversation).
    Chat,
    /// Services page (numbered menu).
    Guide,
    /// Content pushed by the control API (image).
    Pushed,
}

/// An entry of the **Services** menu (Guide key).
#[derive(Debug, Clone)]
pub struct Service {
    /// Key to type.
    pub key: char,
    /// Name sent to the backend (`GET /service?name=...`).
    pub name: String,
    /// Label shown (cut to 34 columns).
    pub label: String,
}

/// An entry of the Services menu as written in its file: the key is text,
/// which may hold any number of characters.
#[derive(Debug, Clone)]
pub struct ServiceText {
    pub key: String,
    pub name: String,
    pub label: String,
}

/// The entries whose key is a single character, in order, as menu entries;
/// the others are left out.
pub open spec fn menu_spec(entries: Seq<(Seq<char>, Seq<char>, Seq<char>)>) -> Seq<(char, Seq<char>, Seq<char>)>
    decreases entries.len(),
{
    if entries.len() == 0 {
        seq![]
    } else {
        let e = entries.last();
        menu_spec(entries.drop_last()) + if e.0.len() == 1 { seq![(e.0[0], e.1, e.2)] } else { seq![] }
    }
}

/// Models of menu entries.
pub open spec fn services_view(v: Seq<Service>) -> Seq<(char, Seq<char>, Seq<char>)> {
    v.map_values(|e: Service| service_view(e))
}

proof fn lemma_services_push(v: Seq<Service>, e: Service)
    ensures
        services_view(v.push(e)) == services_view(v).push(service_view(e)),
{
    assert(services_view(v.push(e)) =~= services_view(v).push(service_view(e)));
}

/// Models of menu entries as written in the file.
pub open spec fn service_texts_view(v: Seq<ServiceText>) -> Seq<(Seq<char>, Seq<char>, Seq<char>)> {
    v.map_values(|e: ServiceText| (e.key@, e.name@, e.label@))
}

/// The Services menu of the entries read from its file: an entry whose key
/// is not exactly one character is invalid and silently left out.
pub fn menu_of(entries: Vec<ServiceText>) -> (menu: Vec<Service>)
    ensures
        services_view(menu@) == menu_spec(service_texts_view(entries@)),
{
    let ghost ev = service_texts_view(entries@);
    let mut menu: Vec<Service> = Vec::new();
    let mut i: usize = 0;
    while i < entries.len()
        invariant
            i <= entries@.len(),
            ev == service_texts_view(entries@),
            services_view(menu@) == menu_spec(ev.take(i as int)),
        decreases entries@.len() - i,
    {
        let e = &entries[i];
        assert(ev[i as int] == (e.key@, e.name@, e.label@));
        assert(ev.take(i + 1).drop_last() =~= ev.take(i as int));
        assert(ev.take(i + 1).last() == ev[i as int]);
        let k = chars_of(e.key.as_str());
        let ghost before = menu@;
        if k.len() == 1 {
            let svc = Service { key: k[0], name: e.name.clone(), label: e.label.clone() };
            assert(service_view(svc) == (ev[i as int].0[0], ev[i as int].1, ev[i as int].2));
            proof { lemma_services_push(menu@, svc); }
            menu.push(svc);
        } else {
            assert(menu_spec(ev.take(i + 1)) =~= menu_spec(ev.take(i as int)));
        }
        i = i + 1;
    }
    assert(ev.take(entries@.len() as int) =~= ev);
    menu
}

/// Something for the caller to do.
#[derive(Debug, Clone, PartialEq, Eq)]
pub enum Action {
    /// Send these bytes to the Minitel.
    Send(Vec<u8>),
    /// Ask the backend (`/ask`), in the current thread when `cont`; the
    /// answer comes back through [`Session::on_result`].
    Ask { query: String, cont: bool },
    /// Fetch a Guide service (`/service`); the answer comes back through
    /// [`Session::on_result`].
    FetchService(String),
    /// Reset the conversation thread on the backend (`/reset`), before what
    /// follows.
    ResetBackend,
    /// Reset the serial link (renegotiate); the Minitel counts as seen.
    ResetLink,
    /// Restart the waiting chronometer.
    StartWaiting,
    /// The Minitel proved to be alive.
    Alive,
}

/// Model of an [`Action`].
pub enum ActionView {
    Send(Seq<u8>),
    Ask { query: Seq<char>, cont: bool },
    FetchService(Seq<char>),
    ResetBackend,
    ResetLink,
    StartWaiting,
    Alive,
}

impl View for Action {
    type V = ActionView;

    open spec fn view(&self) -> ActionView {
        match self {
            Action::Send(b) => ActionView::Send(b@),
            Action::Ask { query, cont } => ActionView::Ask { query: query@, cont: *cont },
            Action::FetchService(n) => ActionView::FetchService(n@),
            Action::ResetBackend => ActionView::ResetBackend,
            Action::ResetLink => ActionView::ResetLink,
            Action::StartWaiting => ActionView::StartWaiting,
            Action::Alive => ActionView::Alive,
        }
    }
}

/// Models of a sequence of actions.
pub open spec fn actions_view(v: Seq<Action>) -> Seq<ActionView> {
    v.map_values(|a: Action| a@)
}

proof fn lemma_actions_push(v: Seq<Action>, a: Action)
    ensures
        actions_view(v.push(a)) == actions_view(v).push(a@),
{
    assert(actions_view(v.push(a)) =~= actions_view(v).push(a@));
}

/// Model of a [`Service`]: key, name, label.
pub open spec fn service_view(s: Service) -> (char, Seq<char>, Seq<char>) {
    (s.key, s.name@, s.label@)
}

/// Model of a [`Session`].
pub struct SessionView {
    pub mode: Mode,
    pub ed: EditorView,
    pub thread: TranscriptView,
    pub pending: Option<Seq<char>>,
    pub title: Seq<char>,
    pub logo: Option<Seq<u8>>,
    pub services: Seq<(char, Seq<char>, Seq<char>)>,
    pub baud: u32,
    pub net: Net,
    pub spin: nat,
    pub anim_col: u8,
    pub anim_row: u8,
    pub shown_secs: u64,
    pub input_row: u8,
}

/// The lines of the editor's area (one empty line when empty).
pub open spec fn editor_lines(e: EditorView) -> Seq<Seq<char>> {
    if e.text.len() == 0 {
        seq![seq![]]
    } else {
        Seq::new(chunk_count(e.text.len(), e.cols), |i: int| chunk(e.text, e.cols, i))
    }
}

/// `n` dots.
pub open spec fn dots(n: nat) -> Seq<char>
    decreases n,
{
    if n == 0 { seq![] } else { dots((n - 1) as nat).push('.') }
}

/// Row `i` of the dotted input field: the line's text, then dots up to 40
/// columns.
pub open spec fn field_row(lines: Seq<Seq<char>>, i: int) -> Seq<char> {
    let l = if 0 <= i < lines.len() { lines[i] } else { seq![] };
    l + dots(if l.len() < AREA_COLS { (AREA_COLS - l.len()) as nat } else { 0 })
}

/// Rows `from..=to` of the input field, each addressed then written.
pub open spec fn field_rows(lines: Seq<Seq<char>>, input_row: u8, from: int, to: int) -> Seq<u8>
    decreases to - from + 1,
{
    if to < from {
        seq![]
    } else {
        field_rows(lines, input_row, from, to - 1) + move_to_seq(1, (input_row + to) as u8)
            + encode_spec(field_row(lines, to))
    }
}

/// Hardware cursor at the editor's position, shown.
pub open spec fn cursor_spec(s: SessionView) -> Seq<u8> {
    move_to_seq((1 + s.ed.cursor % s.ed.cols) as u8, (s.input_row + s.ed.cursor / s.ed.cols) as u8)
        + seq![CURSOR_ON]
}

/// Redraw of the input rows `from..=upto` (at most the area's last row),
/// then the cursor.
pub open spec fn redraw_input_spec(s: SessionView, from: int, upto: int) -> Seq<u8> {
    field_rows(editor_lines(s.ed), s.input_row, from, if upto < AREA_ROWS - 1 { upto } else { AREA_ROWS - 1 })
        + cursor_spec(s)
}

/// Row 0 status bar: version, speed, network indicator, time; then the
/// cursor back in the field on the home screen (row 0 takes the cursor).
pub open spec fn status_spec(s: SessionView, clock: Seq<char>) -> Seq<u8> {
    seq![UNIT_SEPARATOR, 0x40u8, 0x41u8] + encode_spec(status_text(s.baud, s.net, clock))
        + if s.mode == Mode::Home { cursor_spec(s) } else { seq![] }
}

/// Home banner (rows 2-9): the logo when there is one, else the title (at
/// most 20 characters) in double size, centred.
pub open spec fn banner_spec(s: SessionView) -> Seq<u8> {
    match s.logo {
        Some(l) => l,
        None => {
            let t = if s.title.len() <= 20 { s.title } else { s.title.take(20) };
            move_to_seq((1 + (20 - t.len()) / 2) as u8, 6) + size_spec(Size::DoubleSize)
                + colored_spec(Color::Yellow, t) + size_spec(Size::Normal)
        },
    }
}

/// The session on the home screen, with an empty 4-row field.
pub open spec fn home_state(s: SessionView) -> SessionView {
    SessionView {
        mode: Mode::Home,
        ed: EditorView { text: seq![], cursor: 0, cols: s.ed.cols, rows: AREA_ROWS as nat },
        input_row: AREA_ROW,
        ..s
    }
}

/// Home screen: clear, banner, "RECHERCHE :" label, empty dotted field,
/// the Guide hint when services exist, status bar.
pub open spec fn home_bytes(s: SessionView, clock: Seq<char>) -> Seq<u8> {
    let h = home_state(s);
    seq![FORM_FEED] + banner_spec(h) + move_to_seq(2, LABEL_ROW) + colored_spec(Color::Cyan, "RECHERCHE :"@)
        + redraw_input_spec(h, 0, AREA_ROWS - 1)
        + (if s.services.len() > 0 {
            move_to_seq(1, HINT_ROW) + colored_spec(Color::Green, "GUIDE = services"@)
        } else {
            seq![]
        })
        + status_spec(h, clock)
}

/// Entry `i` of the Services page: key at column 3 and label (at most 34
/// characters) at column 6, on row `5 + 2i`.
pub open spec fn guide_entry(svc: (char, Seq<char>, Seq<char>), i: int) -> Seq<u8> {
    let row = (5 + 2 * i) as u8;
    let label = if svc.2.len() <= 34 { svc.2 } else { svc.2.take(34) };
    move_to_seq(3, row) + colored_spec(Color::White, seq![svc.0]) + move_to_seq(6, row)
        + colored_spec(Color::Cyan, label)
}

/// The first `n` entries of the Services page.
pub open spec fn guide_entries(svcs: Seq<(char, Seq<char>, Seq<char>)>, n: int) -> Seq<u8>
    decreases n,
{
    if n <= 0 {
        seq![]
    } else {
        guide_entries(svcs, n - 1) + guide_entry(svcs[n - 1], n - 1)
    }
}

/// Services page: title, the entries that fit above the footer (at most
/// nine) or a note that none is configured, and the footer.
pub open spec fn guide_bytes(s: SessionView) -> Seq<u8> {
    seq![FORM_FEED, CURSOR_OFF] + move_to_seq(1, 1) + size_spec(Size::DoubleHeight)
        + colored_spec(Color::Yellow, "SERVICES"@) + size_spec(Size::Normal)
        + (if s.services.len() == 0 {
            move_to_seq(3, 6) + colored_spec(Color::White, "Aucun service configure."@)
                + move_to_seq(3, 8) + colored_spec(Color::Cyan, "Voir services.example.json"@)
        } else {
            guide_entries(s.services, if s.services.len() < 9 { s.services.len() as int } else { 9 })
        })
        + move_to_seq(1, FOOTER_ROW) + colored_spec(Color::Green, "Tapez un chiffre  SOMMAIRE=accueil"@)
}

/// Frames of the spinner.
pub open spec fn spin_frame(i: nat) -> u8 {
    if i == 0 { 0x7C } else if i == 2 { 0x2F } else if i == 4 { 0x2D } else if i == 6 { 0x5C } else { 0x2A }
}

/// `t` padded with spaces on the right to `w` characters.
pub open spec fn pad_right(t: Seq<char>, w: nat) -> Seq<char> {
    t + spaces(if t.len() < w { (w - t.len()) as nat } else { 0 })
}

/// Where the waiting line goes: above the chat field in chat mode, its own
/// row on the other screens.
pub open spec fn waiting_place(m: Mode) -> (u8, u8) {
    if m == Mode::Chat { (1, CHAT_LABEL_ROW) } else { (ANIM_COL, ANIM_ROW) }
}

/// State once waiting for the backend.
pub open spec fn waiting_state(s: SessionView) -> SessionView {
    SessionView {
        mode: Mode::Searching,
        spin: 0,
        shown_secs: 0,
        anim_col: waiting_place(s.mode).0,
        anim_row: waiting_place(s.mode).1,
        ..s
    }
}

/// Waiting screen: cursor hidden, label on 20 columns, first spinner frame,
/// chronometer at zero.
pub open spec fn waiting_bytes(s: SessionView, label: Seq<char>) -> Seq<u8> {
    let (col, row) = waiting_place(s.mode);
    seq![CURSOR_OFF] + move_to_seq(col, row) + colored_spec(Color::Cyan, pad_right(label, 20))
        + seq![spin_frame(0)] + move_to_seq((col + 22) as u8, row) + encode_spec("  0s"@)
}

/// Elapsed seconds right-aligned on 3 columns, then `s`.
pub open spec fn secs_text(secs: u64) -> Seq<char> {
    let d = decimal(secs as nat);
    spaces(if d.len() < 3 { (3 - d.len()) as nat } else { 0 }) + d + seq!['s']
}

/// The page header: title, then `p<page>/<pages>`.
pub open spec fn header_text(s: SessionView) -> Seq<char> {
    s.title + "   p"@ + decimal(s.thread.page + 1) + "/"@ + decimal(crate::chat::pages_of(s.thread.lines.len()))
}

/// Thread lines `start..start+k`, each on its row from row 3.
pub open spec fn page_lines(lines: Seq<(Color, Seq<char>)>, start: int, k: int) -> Seq<u8>
    decreases k,
{
    if k <= 0 {
        seq![]
    } else {
        page_lines(lines, start, k - 1) + move_to_seq((1) as u8, (CONTENT_ROW + k - 1) as u8)
            + colored_spec(lines[start + k - 1].0, lines[start + k - 1].1)
    }
}

/// Number of thread lines shown on the current page.
pub open spec fn page_len(t: TranscriptView) -> int {
    let start = t.page * PAGE_ROWS;
    if t.lines.len() <= start { 0 } else if t.lines.len() - start < PAGE_ROWS { t.lines.len() - start } else { PAGE_ROWS as int }
}

/// State once the thread is shown: chat mode, field cut to one row.
pub open spec fn answer_state(s: SessionView) -> SessionView {
    let cap = AREA_COLS * CHAT_INPUT_ROWS;
    let text = if s.ed.text.len() <= cap { s.ed.text } else { s.ed.text.subrange(0, cap as int) };
    SessionView {
        mode: Mode::Chat,
        ed: EditorView {
            text: text,
            cursor: if s.ed.cursor <= text.len() { s.ed.cursor } else { text.len() },
            cols: s.ed.cols,
            rows: CHAT_INPUT_ROWS as nat,
        },
        input_row: CHAT_INPUT_ROW,
        ..s
    }
}

/// Thread screen: header, the current page, the "VOUS :" field, the footer.
pub open spec fn answer_bytes(s: SessionView) -> Seq<u8> {
    let a = answer_state(s);
    seq![FORM_FEED] + move_to_seq(1, 1) + colored_spec(Color::Yellow, header_text(s))
        + page_lines(s.thread.lines, (s.thread.page * PAGE_ROWS) as int, page_len(s.thread))
        + move_to_seq(1, (CHAT_INPUT_ROW - 1) as u8) + colored_spec(Color::Cyan, "VOUS :"@)
        + redraw_input_spec(a, 0, CHAT_INPUT_ROWS - 1)
        + move_to_seq(1, FOOTER_ROW) + colored_spec(Color::Green, CHAT_FOOTER@)
        + cursor_spec(a)
}

/// Message under the home field: at most 39 characters, padded to 39.
pub open spec fn message_bytes(s: SessionView, msg: Seq<char>, clock: Seq<char>) -> Seq<u8> {
    let h = home_state(s);
    let clipped = if msg.len() <= 39 { msg } else { msg.take(39) };
    home_bytes(s, clock) + move_to_seq(1, MSG_ROW) + colored_spec(Color::White, pad_right(clipped, 39))
        + cursor_spec(h)
}

/// Pushed stream: cursor hidden, screen and row 0 cleared, then the bytes.
pub open spec fn pushed_bytes(bytes: Seq<u8>) -> Seq<u8> {
    seq![CURSOR_OFF, FORM_FEED, UNIT_SEPARATOR, 0x40u8, 0x41u8, 0x18u8] + bytes
}

/// The session once a turn (question, answer) joins the thread, the last
/// page is selected and the field is emptied.
pub open spec fn turn_state(s: SessionView, question: Option<Seq<char>>, answer: Seq<char>) -> SessionView {
    let lines = capped(with_turn(s.thread.lines, question, answer));
    SessionView {
        thread: TranscriptView { lines: lines, page: (pages_of(lines.len()) - 1) as nat },
        ed: EditorView { text: seq![], cursor: 0, cols: s.ed.cols, rows: s.ed.rows },
        ..s
    }
}

/// Model of a backend outcome: the answer's text, or the failure (with the
/// backend's own message when it gave one).
pub open spec fn outcome_view(r: Result<String, Failure>) -> Result<Seq<char>, Option<Seq<char>>> {
    match r {
        Ok(t) => Ok(t@),
        Err(Failure::Reported(e)) => Err(Some(e@)),
        Err(_) => Err(None),
    }
}

/// A clock text, for the outcomes that draw no status bar.
spec fn midnight() -> Seq<char> {
    two_digits(0) + seq![':'] + two_digits(0)
}

proof fn lemma_midnight()
    ensures
        is_clock_text(midnight()),
{
    assert(midnight() == two_digits(0) + seq![':'] + two_digits(0));
}

/// What a backend outcome does, only while waiting for it: a non-blank
/// answer joins the thread under its pending question and is shown; a blank
/// one gives "Aucune reponse."; an error reported by the backend shows its
/// message; any other failure gives the hint of the network state.
pub open spec fn result_spec(s: SessionView, r: Result<Seq<char>, Option<Seq<char>>>, clock: Seq<char>) -> (SessionView, Seq<u8>) {
    if s.mode != Mode::Searching {
        (s, seq![])
    } else {
        match r {
            Ok(t) => if trim_spec(t).len() > 0 {
                let s2 = turn_state(SessionView { pending: None, ..s }, s.pending, t);
                (answer_state(s2), answer_bytes(s2))
            } else {
                (home_state(s), message_bytes(s, "Aucune reponse."@, clock))
            },
            Err(Some(m)) => (home_state(s), message_bytes(s, m, clock)),
            Err(None) => (home_state(s), message_bytes(s, net_hint(s.net), clock)),
        }
    }
}

/// The last row (0-based) of the field that holds text.
pub open spec fn last_row_of(e: EditorView) -> int {
    if e.text.len() == 0 { 0 } else { (e.text.len() - 1) / (e.cols as int) }
}

/// The session with another editor.
pub open spec fn with_editor(s: SessionView, e: EditorView) -> SessionView {
    SessionView { ed: e, ..s }
}

/// A character typed in the field: echoed as is when appended (the cursor
/// re-placed when it wraps to a new row), else the rows from the one before
/// the cursor redrawn; nothing when the field is full.
pub open spec fn type_char_spec(s: SessionView, c: char) -> (SessionView, Seq<ActionView>) {
    let e = insert_spec(s.ed, c).0;
    let s2 = with_editor(s, e);
    if !insert_spec(s.ed, c).1 {
        (s, seq![])
    } else if s.ed.cursor == s.ed.text.len() {
        (s2, seq![ActionView::Send(encode_spec(seq![c]) + if e.cursor % e.cols == 0 { cursor_spec(s2) } else { seq![] })])
    } else {
        let row: int = (e.cursor / e.cols) as int;
        let from: int = if e.cursor % e.cols == 0 { if row > 0 { row - 1 } else { 0 } } else { row };
        (s2, seq![ActionView::Send(redraw_input_spec(s2, from, last_row_of(e)))])
    }
}

/// Correction: the character before the cursor erased; at the end of a row
/// a backspace, a dot and a backspace, else the rows from the cursor's
/// redrawn; nothing at the start of the field.
pub open spec fn correction_spec(s: SessionView) -> (SessionView, Seq<ActionView>) {
    let e = backspace_spec(s.ed).0;
    let s2 = with_editor(s, e);
    if !backspace_spec(s.ed).1 {
        (s, seq![])
    } else if s.ed.cursor == s.ed.text.len() && s.ed.cursor % s.ed.cols > 0 {
        (s2, seq![ActionView::Send(seq![0x08u8, 0x2Eu8, 0x08u8])])
    } else {
        (s2, seq![ActionView::Send(redraw_input_spec(s2, (e.cursor / e.cols) as int, last_row_of(s.ed)))])
    }
}

/// Annulation: the field emptied and its rows redrawn.
pub open spec fn cancel_spec(s: SessionView) -> (SessionView, Seq<ActionView>) {
    let s2 = with_editor(s, EditorView { text: seq![], cursor: 0, cols: s.ed.cols, rows: s.ed.rows });
    (s2, seq![ActionView::Send(redraw_input_spec(s2, 0, last_row_of(s.ed)))])
}

/// Cursor position after an arrow key.
pub open spec fn arrow_cursor(e: EditorView, a: Arrow) -> nat {
    match a {
        Arrow::Left => if e.cursor == 0 { 0 } else { (e.cursor - 1) as nat },
        Arrow::Right => if e.cursor < e.text.len() { e.cursor + 1 } else { e.cursor },
        Arrow::Up => if e.cursor >= e.cols { (e.cursor - e.cols) as nat } else { 0 },
        Arrow::Down => if e.cursor + e.cols <= e.text.len() { e.cursor + e.cols } else { e.text.len() },
    }
}

/// An arrow key: the cursor moves, and only the cursor is redrawn.
pub open spec fn arrow_spec(s: SessionView, a: Arrow) -> (SessionView, Seq<ActionView>) {
    let s2 = with_editor(s, with_cursor(s.ed, arrow_cursor(s.ed, a)));
    (s2, seq![ActionView::Send(cursor_spec(s2))])
}

/// The name of the first service of the menu whose key is `c`.
pub open spec fn service_named(svcs: Seq<(char, Seq<char>, Seq<char>)>, c: char) -> Option<Seq<char>>
    decreases svcs.len(),
{
    if svcs.len() == 0 {
        None
    } else if svcs[0].0 == c {
        Some(svcs[0].1)
    } else {
        service_named(svcs.drop_first(), c)
    }
}

/// A Guide service requested: waiting screen ("Chargement"), then the fetch.
pub open spec fn run_service_spec(s: SessionView, name: Seq<char>) -> (SessionView, Seq<ActionView>) {
    (waiting_state(s), seq![
        ActionView::StartWaiting,
        ActionView::Send(waiting_bytes(s, "Chargement"@)),
        ActionView::FetchService(name),
    ])
}

/// Envoi: the trimmed field becomes the pending question, the waiting
/// screen shows, and the question goes to the backend (in the thread when
/// `cont`); nothing when the field is blank.
pub open spec fn submit_spec(s: SessionView, cont: bool) -> (SessionView, Seq<ActionView>) {
    let q = trim_spec(s.ed.text);
    if q.len() == 0 {
        (s, seq![])
    } else {
        let s1 = SessionView { pending: Some(q), ..s };
        (waiting_state(s1), seq![
            ActionView::StartWaiting,
            ActionView::Send(waiting_bytes(s1, "Recherche en cours"@)),
            ActionView::Ask { query: q, cont: cont },
        ])
    }
}

/// The thread shown on another page.
pub open spec fn show_page(s: SessionView, page: nat) -> (SessionView, Seq<ActionView>) {
    let s1 = SessionView { thread: TranscriptView { page: page, ..s.thread }, ..s };
    (answer_state(s1), seq![ActionView::Send(answer_bytes(s1))])
}

/// Suite: the next page of the thread, when there is one.
pub open spec fn next_spec(s: SessionView) -> (SessionView, Seq<ActionView>) {
    if s.thread.page + 1 < pages_of(s.thread.lines.len()) { show_page(s, s.thread.page + 1) } else { (s, seq![]) }
}

/// Retour: the previous page of the thread, when there is one.
pub open spec fn prev_spec(s: SessionView) -> (SessionView, Seq<ActionView>) {
    if s.thread.page > 0 { show_page(s, (s.thread.page - 1) as nat) } else { (s, seq![]) }
}

/// Sommaire: the thread is forgotten here and on the backend, and the home
/// screen is drawn.
pub open spec fn new_conversation_spec(s: SessionView, clock: Seq<char>) -> (SessionView, Seq<ActionView>) {
    let s1 = SessionView { thread: TranscriptView { lines: seq![], page: 0 }, pending: None, ..s };
    (home_state(s1), seq![ActionView::ResetBackend, ActionView::Send(home_bytes(s1, clock))])
}

/// Whether the field takes keys (home screen or conversation).
pub open spec fn editing(m: Mode) -> bool {
    m == Mode::Home || m == Mode::Chat
}

/// A function key, in the order the daemon tries the cases.
pub open spec fn function_spec(s: SessionView, k: FnKey, clock: Seq<char>) -> (SessionView, Seq<ActionView>) {
    if editing(s.mode) && k == FnKey::Correction {
        correction_spec(s)
    } else if editing(s.mode) && k == FnKey::Cancel {
        cancel_spec(s)
    } else if editing(s.mode) && k == FnKey::Guide {
        (SessionView { mode: Mode::Guide, ..s }, seq![ActionView::Send(guide_bytes(s))])
    } else if s.mode == Mode::Home && k == FnKey::Send {
        submit_spec(s, false)
    } else if s.mode == Mode::Chat && k == FnKey::Send {
        submit_spec(s, true)
    } else if s.mode == Mode::Chat && k == FnKey::Next {
        next_spec(s)
    } else if s.mode == Mode::Chat && k == FnKey::Return {
        prev_spec(s)
    } else if k == FnKey::Connect {
        (s, seq![ActionView::ResetLink])
    } else if s.mode == Mode::Searching {
        (s, seq![])
    } else if k == FnKey::Summary {
        new_conversation_spec(s, clock)
    } else {
        (s, seq![])
    }
}

/// What a decoded event does to the session, and what the caller is asked
/// to do: typing and editing in the field, the Guide menu, Envoi, paging,
/// Connexion/Fin, Sommaire, the identification answer (proof of life).
/// While waiting for the backend, everything but Connexion/Fin is ignored.
pub open spec fn handle_spec(s: SessionView, ev: EventView, clock: Seq<char>) -> (SessionView, Seq<ActionView>) {
    match ev {
        EventView::Char(c) => if editing(s.mode) {
            type_char_spec(s, c)
        } else if s.mode == Mode::Guide {
            match service_named(s.services, c) {
                Some(name) => run_service_spec(s, name),
                None => (s, seq![]),
            }
        } else {
            (s, seq![])
        },
        EventView::Function(k) => function_spec(s, k, clock),
        EventView::Arrow(a) => if editing(s.mode) { arrow_spec(s, a) } else { (s, seq![]) },
        EventView::Enter => if s.mode == Mode::Home {
            submit_spec(s, false)
        } else if s.mode == Mode::Chat {
            submit_spec(s, true)
        } else {
            (s, seq![])
        },
        EventView::Identify { .. } => if s.mode == Mode::Searching { (s, seq![]) } else { (s, seq![ActionView::Alive]) },
        _ => (s, seq![]),
    }
}

/// Well-formedness of a session.
pub open spec fn session_wf(s: SessionView) -> bool {
    &&& editor_wf(s.ed)
    &&& s.ed.cols == AREA_COLS
    &&& 1 <= s.ed.rows <= AREA_ROWS
    &&& s.input_row <= CHAT_INPUT_ROW
    &&& transcript_wf(s.thread)
    &&& s.spin < 8
    &&& s.anim_col <= ANIM_COL
    &&& s.anim_row <= CHAT_LABEL_ROW
    &&& s.title.len() <= TITLE_MAX
    &&& s.mode == Mode::Home ==> s.ed.rows == AREA_ROWS && s.input_row == AREA_ROW
    &&& s.mode == Mode::Chat ==> s.ed.rows == CHAT_INPUT_ROWS && s.input_row == CHAT_INPUT_ROW
}

/// The daemon's session.
pub struct Session {
    mode: Mode,
    ed: Editor,
    thread: Transcript,
    pending: Option<String>,
    title: String,
    logo: Option<Vec<u8>>,
    services: Vec<Service>,
    baud: u32,
    net: Net,
    spin: usize,
    anim_col: u8,
    anim_row: u8,
    shown_secs: u64,
    input_row: u8,
}

impl View for Session {
    type V = SessionView;

    closed spec fn view(&self) -> SessionView {
        SessionView {
            mode: self.mode,
            ed: self.ed@,
            thread: self.thread@,
            pending: match self.pending {
                Some(q) => Some(q@),
                None => None,
            },
            title: self.title@,
            logo: match self.logo {
                Some(l) => Some(l@),
                None => None,
            },
            services: services_view(self.services@),
            baud: self.baud,
            net: self.net,
            spin: self.spin as nat,
            anim_col: self.anim_col,
            anim_row: self.anim_row,
            shown_secs: self.shown_secs,
            input_row: self.input_row,
        }
    }
}

fn push_dots(s: &mut String, n: usize)
    ensures
        final(s)@ == old(s)@ + dots(n as nat),
{
    let mut k: usize = 0;
    while k < n
        invariant
            k <= n,
            s@ == old(s)@ + dots(k as nat),
        decreases n - k,
    {
        push_char(s, '.');
        k = k + 1;
        assert(s@ =~= old(s)@ + dots(k as nat));
    }
}

fn send(out: &mut Vec<Action>, b: Vec<u8>)
    ensures
        actions_view(final(out)@) == actions_view(old(out)@).push(ActionView::Send(b@)),
{
    proof { lemma_actions_push(out@, Action::Send(b)); }
    out.push(Action::Send(b));
}

fn act(out: &mut Vec<Action>, a: Action)
    ensures
        actions_view(final(out)@) == actions_view(old(out)@).push(a@),
{
    proof { lemma_actions_push(out@, a); }
    out.push(a);
}

fn push_spaces_to(s: &mut String, n: usize)
    ensures
        final(s)@ == old(s)@ + spaces(n as nat),
{
    let mut k: usize = 0;
    while k < n
        invariant
            k <= n,
            s@ == old(s)@ + spaces(k as nat),
        decreases n - k,
    {
        push_char(s, ' ');
        k = k + 1;
        assert(s@ =~= old(s)@ + spaces(k as nat));
    }
}

fn padded(t: &str, w: usize) -> (r: String)
    ensures
        r@ == pad_right(t@, w as nat),
{
    let mut r = String::new();
    push_str(&mut r, t);
    let n = t.unicode_len();
    push_spaces_to(&mut r, if n < w { w - n } else { 0 });
    assert(r@ =~= pad_right(t@, w as nat));
    r
}

fn append(out: &mut Vec<u8>, mut more: Vec<u8>)
    ensures
        final(out)@ == old(out)@ + more@,
{
    out.append(&mut more);
}

impl Session {
    /// Well-formedness, kept by every operation.
    pub open spec fn wf(&self) -> bool {
        session_wf(self@)
    }

    /// Hardware cursor at the editor's position.
    pub fn place_cursor(&self) -> (b: Vec<u8>)
        requires
            self.wf(),
        ensures
            b@ == cursor_spec(self@),
    {
        proof {
            vstd::arithmetic::div_mod::lemma_div_is_ordered(self@.ed.cursor as int, (AREA_COLS * AREA_ROWS) as int, AREA_COLS as int);
        }
        let (r, c) = self.ed.cursor_rc();
        assert(r <= AREA_ROWS) by {
            assert(self@.ed.cursor <= AREA_COLS * AREA_ROWS) by (nonlinear_arith)
                requires self@.ed.cursor <= self@.ed.text.len(), self@.ed.text.len() <= self@.ed.cols * self@.ed.rows,
                    self@.ed.cols == AREA_COLS, self@.ed.rows <= AREA_ROWS;
            assert((AREA_COLS * AREA_ROWS) as int / AREA_COLS as int == AREA_ROWS);
        }
        let mut b = move_to(1 + c as u8, self.input_row + r as u8);
        append(&mut b, cursor(true));
        b
    }

    /// Redraws the input rows `from..=upto` (at most the area's last row):
    /// each row is its text followed by dots up to 40 columns (the classic
    /// dotted field); then the cursor.
    pub fn redraw_input(&self, from: usize, upto: usize) -> (b: Vec<u8>)
        requires
            self.wf(),
        ensures
            b@ == redraw_input_spec(self@, from as int, upto as int),
    {
        let lines = self.ed.lines();
        let ghost ls = editor_lines(self@.ed);
        proof {
            if self@.ed.text.len() == 0 {
                assert(strings_view(lines@) =~= ls);
            } else {
                assert(strings_view(lines@) =~= ls);
            }
        }
        let last: usize = if upto < AREA_ROWS - 1 { upto } else { AREA_ROWS - 1 };
        let mut b: Vec<u8> = Vec::new();
        let mut i: usize = from;
        while i <= last
            invariant
                from <= i <= last + 1 || (i == from && from > last),
                last <= AREA_ROWS - 1,
                self.wf(),
                strings_view(lines@) == ls,
                ls == editor_lines(self@.ed),
                b@ == field_rows(ls, self@.input_row, from as int, i - 1),
            decreases last + 1 - i,
        {
            let mut row = String::new();
            if i < lines.len() {
                push_str(&mut row, lines[i].as_str());
                assert(strings_view(lines@)[i as int] == lines@[i as int]@);
            }
            let n = row.as_str().unicode_len();
            let fill: usize = if n < AREA_COLS { AREA_COLS - n } else { 0 };
            push_dots(&mut row, fill);
            assert(row@ =~= field_row(ls, i as int));
            append(&mut b, move_to(1, self.input_row + i as u8));
            append(&mut b, encode_text(row.as_str()));
            i = i + 1;
        }
        append(&mut b, self.place_cursor());
        b
    }
    /// Status bar in row 0 (outside the scrolling area); on the home screen
    /// the cursor goes back into the field.
    pub fn draw_status(&self) -> (b: Vec<u8>)
        requires
            self.wf(),
        ensures
            exists|clock: Seq<char>| is_clock_text(clock) && b@ == status_spec(self@, clock),
    {
        let mut b = goto_row0();
        let line = status_line(self.baud, self.net);
        let ghost clock = choose|clock: Seq<char>| is_clock_text(clock) && line@ == status_text(self.baud, self.net, clock);
        append(&mut b, encode_text(line.as_str()));
        if self.mode == Mode::Home {
            append(&mut b, self.place_cursor());
        }
        assert(b@ =~= status_spec(self@, clock));
        b
    }

    /// Home banner: the logo stream as is, else the title in double size.
    pub fn draw_banner(&self) -> (b: Vec<u8>)
        requires
            self.wf(),
        ensures
            b@ == banner_spec(self@),
    {
        match &self.logo {
            Some(l) => l.clone(),
            None => {
                let t = take_chars(self.title.as_str(), 20);
                let n = t.as_str().unicode_len();
                let col: u8 = 1 + (20 - n as u8) / 2;
                let mut b = move_to(col, 6);
                append(&mut b, size(Size::DoubleSize));
                append(&mut b, colored(Color::Yellow, t.as_str()));
                append(&mut b, size(Size::Normal));
                b
            },
        }
    }

    /// Home screen: banner, "RECHERCHE :" and the empty 4-row dotted field,
    /// with the cursor in it.
    pub fn draw_home(&mut self) -> (b: Vec<u8>)
        requires
            old(self).wf(),
        ensures
            final(self).wf(),
            final(self)@ == home_state(old(self)@),
            exists|clock: Seq<char>| is_clock_text(clock) && b@ == home_bytes(old(self)@, clock),
    {
        self.mode = Mode::Home;
        self.ed.clear();
        self.ed.set_rows(AREA_ROWS);
        self.input_row = AREA_ROW;
        assert(self@ == home_state(old(self)@));
        let mut b = clear_screen();
        append(&mut b, self.draw_banner());
        append(&mut b, move_to(2, LABEL_ROW));
        append(&mut b, colored(Color::Cyan, "RECHERCHE :"));
        append(&mut b, self.redraw_input(0, AREA_ROWS - 1));
        if self.services.len() > 0 {
            append(&mut b, move_to(1, HINT_ROW));
            append(&mut b, colored(Color::Green, "GUIDE = services"));
        }
        let st = self.draw_status();
        let ghost clock = choose|clock: Seq<char>| is_clock_text(clock) && st@ == status_spec(self@, clock);
        append(&mut b, st);
        assert(b@ =~= home_bytes(old(self)@, clock));
        b
    }
    /// Services page (numbered menu, the way telematic servers did it).
    pub fn draw_guide(&mut self) -> (b: Vec<u8>)
        requires
            old(self).wf(),
        ensures
            final(self).wf(),
            final(self)@ == (SessionView { mode: Mode::Guide, ..old(self)@ }),
            b@ == guide_bytes(old(self)@),
    {
        self.mode = Mode::Guide;
        let mut b = clear_screen();
        append(&mut b, cursor(false));
        append(&mut b, move_to(1, 1));
        append(&mut b, size(Size::DoubleHeight));
        append(&mut b, colored(Color::Yellow, "SERVICES"));
        append(&mut b, size(Size::Normal));
        let ghost svcs = self@.services;
        if self.services.len() == 0 {
            append(&mut b, move_to(3, 6));
            append(&mut b, colored(Color::White, "Aucun service configure."));
            append(&mut b, move_to(3, 8));
            append(&mut b, colored(Color::Cyan, "Voir services.example.json"));
        } else {
            let ghost b0 = b@;
            let mut i: usize = 0;
            let mut row: u8 = 5;
            while i < self.services.len() && row < FOOTER_ROW - 1
                invariant
                    i <= self.services@.len(),
                    svcs == self@.services,
                    svcs.len() == self.services@.len(),
                    row == 5 + 2 * i,
                    i <= 9,
                    b@ == b0 + guide_entries(svcs, i as int),
                decreases self.services@.len() - i,
            {
                let svc = &self.services[i];
                assert(svcs[i as int] == service_view(self.services@[i as int]));
                let mut k = String::new();
                push_char(&mut k, svc.key);
                append(&mut b, move_to(3, row));
                append(&mut b, colored(Color::White, k.as_str()));
                append(&mut b, move_to(6, row));
                let label = take_chars(svc.label.as_str(), COLS - 6);
                append(&mut b, colored(Color::Cyan, label.as_str()));
                assert(k@ =~= seq![svc.key]);
                i = i + 1;
                row = row + 2;
                assert(b@ =~= b0 + guide_entries(svcs, i as int));
            }
            assert(i == (if svcs.len() < 9 { svcs.len() as int } else { 9 }));
        }
        append(&mut b, move_to(1, FOOTER_ROW));
        append(&mut b, colored(Color::Green, "Tapez un chiffre  SOMMAIRE=accueil"));
        assert(b@ =~= guide_bytes(old(self)@));
        b
    }

    /// Prepares the waiting screen (label, spinner, chronometer at zero):
    /// restart the chronometer, then draw.
    fn start_waiting(&mut self, label: &str, out: &mut Vec<Action>)
        requires
            old(self).wf(),
        ensures
            final(self).wf(),
            final(self)@ == waiting_state(old(self)@),
            actions_view(final(out)@) == actions_view(old(out)@) + seq![
                ActionView::StartWaiting,
                ActionView::Send(waiting_bytes(old(self)@, label@)),
            ],
    {
        let ghost s0 = self@;
        let ghost out0 = actions_view(out@);
        if self.mode == Mode::Chat {
            self.anim_col = 1;
            self.anim_row = CHAT_LABEL_ROW;
        } else {
            self.anim_col = ANIM_COL;
            self.anim_row = ANIM_ROW;
        }
        self.mode = Mode::Searching;
        self.spin = 0;
        self.shown_secs = 0;
        act(out, Action::StartWaiting);
        let mut b = cursor(false);
        append(&mut b, move_to(self.anim_col, self.anim_row));
        let l = padded(label, 20);
        append(&mut b, colored(Color::Cyan, l.as_str()));
        b.push(0x7C);
        append(&mut b, move_to(self.anim_col + 22, self.anim_row));
        append(&mut b, encode_text("  0s"));
        assert(b@ =~= waiting_bytes(s0, label@));
        send(out, b);
        assert(actions_view(out@) =~= out0 + seq![ActionView::StartWaiting, ActionView::Send(waiting_bytes(s0, label@))]);
    }

    /// Next spinner frame while waiting, and the elapsed seconds when they
    /// changed (rewriting them every 120 ms would saturate a 4800 bauds
    /// line). Nothing outside the waiting screen.
    pub fn tick(&mut self, secs: u64) -> (b: Vec<u8>)
        requires
            old(self).wf(),
        ensures
            final(self).wf(),
            old(self)@.mode != Mode::Searching ==> final(self)@ == old(self)@ && b@.len() == 0,
            old(self)@.mode == Mode::Searching ==> {
                let s0 = old(self)@;
                let spin = ((s0.spin + 1) % 8) as nat;
                &&& final(self)@ == (SessionView { spin: spin, shown_secs: secs, ..s0 })
                &&& b@ == move_to_seq((s0.anim_col + 20) as u8, s0.anim_row) + seq![spin_frame(spin)]
                    + if secs != s0.shown_secs {
                        move_to_seq((s0.anim_col + 22) as u8, s0.anim_row) + encode_spec(secs_text(secs))
                    } else {
                        seq![]
                    }
            },
    {
        if self.mode != Mode::Searching {
            return Vec::new();
        }
        self.spin = (self.spin + 1) % 8;
        let frame: u8 = if self.spin == 0 { 0x7C } else if self.spin == 2 { 0x2F } else if self.spin == 4 { 0x2D } else if self.spin == 6 { 0x5C } else { 0x2A };
        let mut b = move_to(self.anim_col + 20, self.anim_row);
        b.push(frame);
        if secs != self.shown_secs {
            self.shown_secs = secs;
            append(&mut b, move_to(self.anim_col + 22, self.anim_row));
            let mut d = String::new();
            push_decimal(&mut d, secs);
            let n = d.as_str().unicode_len();
            let mut t = String::new();
            push_spaces_to(&mut t, if n < 3 { 3 - n } else { 0 });
            push_str(&mut t, d.as_str());
            push_char(&mut t, 's');
            assert(t@ =~= secs_text(secs));
            append(&mut b, encode_text(t.as_str()));
        } else {
            self.shown_secs = secs;
        }
        b
    }

    /// Content pushed by the control API (a raw Videotex stream, e.g. an
    /// image): cursor hidden, screen and row 0 cleared, then the stream.
    pub fn show_pushed(&mut self, bytes: Vec<u8>) -> (b: Vec<u8>)
        requires
            old(self).wf(),
        ensures
            final(self).wf(),
            final(self)@ == (SessionView { mode: Mode::Pushed, ..old(self)@ }),
            b@ == pushed_bytes(bytes@),
    {
        self.mode = Mode::Pushed;
        let mut b = cursor(false);
        append(&mut b, clear_screen());
        let mut clr0 = goto_row0();
        clr0.push(0x18);
        append(&mut b, clr0);
        append(&mut b, bytes);
        assert(b@ =~= pushed_bytes(bytes@));
        b
    }

    /// Shows the conversation thread (current page) and the one-row
    /// "VOUS :" field at the bottom of the screen, with the cursor in it.
    pub fn draw_answer(&mut self) -> (b: Vec<u8>)
        requires
            old(self).wf(),
        ensures
            final(self).wf(),
            final(self)@ == answer_state(old(self)@),
            b@ == answer_bytes(old(self)@),
    {
        let ghost s0 = self@;
        self.mode = Mode::Chat;
        self.ed.set_rows(CHAT_INPUT_ROWS);
        self.input_row = CHAT_INPUT_ROW;
        assert(self@ == answer_state(s0));
        let mut b = clear_screen();
        append(&mut b, move_to(1, 1));
        let mut header = String::new();
        push_str(&mut header, self.title.as_str());
        push_str(&mut header, "   p");
        let page = self.thread.page();
        let pages = self.thread.pages();
        proof {
            crate::chat::law_transcript_paginable(1);
            if s0.thread.lines.len() > 0 {
                crate::chat::law_transcript_paginable(s0.thread.lines.len());
            }
        }
        push_decimal(&mut header, (page + 1) as u64);
        push_str(&mut header, "/");
        push_decimal(&mut header, pages as u64);
        assert(header@ =~= header_text(s0));
        append(&mut b, colored(Color::Yellow, header.as_str()));
        let start = page * PAGE_ROWS;
        let n = self.thread.len();
        let count: usize = if n <= start { 0 } else if n - start < PAGE_ROWS { n - start } else { PAGE_ROWS };
        assert(count == page_len(s0.thread));
        let ghost b0 = b@;
        let mut k: usize = 0;
        while k < count
            invariant
                k <= count <= PAGE_ROWS,
                start + count <= self@.thread.lines.len(),
                self@.thread.lines.len() <= crate::chat::MAX_TRANSCRIPT,
                self@.thread == s0.thread,
                b@ == b0 + page_lines(s0.thread.lines, start as int, k as int),
            decreases count - k,
        {
            let l = self.thread.line(start + k);
            append(&mut b, move_to(1, CONTENT_ROW + k as u8));
            append(&mut b, colored(l.0, l.1.as_str()));
            k = k + 1;
            assert(b@ =~= b0 + page_lines(s0.thread.lines, start as int, k as int));
        }
        append(&mut b, move_to(1, CHAT_INPUT_ROW - 1));
        append(&mut b, colored(Color::Cyan, "VOUS :"));
        append(&mut b, self.redraw_input(0, CHAT_INPUT_ROWS - 1));
        append(&mut b, move_to(1, FOOTER_ROW));
        append(&mut b, colored(Color::Green, CHAT_FOOTER));
        append(&mut b, self.place_cursor());
        assert(b@ =~= answer_bytes(s0));
        b
    }

    /// The home screen again, with a message (error or notice) on its own
    /// row under the field, padded to the full width so that no tail of a
    /// longer text stays visible; then the cursor back in the field.
    pub fn message(&mut self, msg: &str) -> (b: Vec<u8>)
        requires
            old(self).wf(),
        ensures
            final(self).wf(),
            final(self)@ == home_state(old(self)@),
            exists|clock: Seq<char>| is_clock_text(clock) && b@ == message_bytes(old(self)@, msg@, clock),
    {
        let ghost s0 = self@;
        let mut b = self.draw_home();
        let ghost clock = choose|clock: Seq<char>| is_clock_text(clock) && b@ == home_bytes(s0, clock);
        append(&mut b, move_to(1, MSG_ROW));
        let clipped = take_chars(msg, COLS - 1);
        let p = padded(clipped.as_str(), COLS - 1);
        append(&mut b, colored(Color::White, p.as_str()));
        append(&mut b, self.place_cursor());
        assert(b@ =~= message_bytes(s0, msg@, clock));
        b
    }

    /// Adds a turn to the thread, shows its last page and empties the field.
    fn push_turn(&mut self, question: Option<&str>, answer: &str) -> (b: Vec<u8>)
        requires
            old(self).wf(),
        ensures
            final(self).wf(),
            final(self)@ == answer_state(turn_state(old(self)@, match question {
                Some(q) => Some(q@),
                None => None,
            }, answer@)),
            b@ == answer_bytes(turn_state(old(self)@, match question {
                Some(q) => Some(q@),
                None => None,
            }, answer@)),
    {
        self.thread.push_turn(question, answer);
        self.ed.clear();
        self.draw_answer()
    }

    /// Shows a text pushed by the control API as a turn without question
    /// (wrapped and paginated); the conversation can go on from there.
    pub fn push_text(&mut self, text: &str) -> (b: Vec<u8>)
        requires
            old(self).wf(),
        ensures
            final(self).wf(),
            final(self)@ == answer_state(turn_state(old(self)@, None, text@)),
            b@ == answer_bytes(turn_state(old(self)@, None, text@)),
    {
        self.push_turn(None, text)
    }

    /// What the backend answered (or how it failed), taken into account only
    /// while waiting for it.
    #[verifier::spinoff_prover]
    #[verifier::rlimit(40)]
    pub fn on_result(&mut self, r: Result<String, Failure>) -> (b: Vec<u8>)
        requires
            old(self).wf(),
        ensures
            final(self).wf(),
            exists|clock: Seq<char>| is_clock_text(clock) && (final(self)@, b@) == result_spec(old(self)@, outcome_view(r), clock),
    {
        let ghost s0 = self@;
        proof { lemma_midnight(); }
        if self.mode != Mode::Searching {
            assert((self@, Seq::<u8>::empty()) == result_spec(s0, outcome_view(r), midnight()));
            return Vec::new();
        }
        match r {
            Ok(text) => {
                let t = trim_text(text.as_str());
                if t.as_str().unicode_len() > 0 {
                    let q = self.pending.take();
                    let b = match &q {
                        Some(q) => self.push_turn(Some(q.as_str()), text.as_str()),
                        None => self.push_turn(None, text.as_str()),
                    };
                    assert((self@, b@) == result_spec(s0, outcome_view(Ok(text)), midnight()));
                    b
                } else {
                    self.message("Aucune reponse.")
                }
            },
            Err(Failure::Reported(e)) => self.message(e.as_str()),
            Err(_) => {
                let hint = self.net.failure_hint();
                self.message(hint)
            },
        }
    }

    /// A character typed in the field.
    fn type_char(&mut self, c: char) -> (acts: Vec<Action>)
        requires
            old(self).wf(),
        ensures
            final(self).wf(),
            (final(self)@, actions_view(acts@)) == type_char_spec(old(self)@, c),
    {
        let ghost s0 = self@;
        let mut acts: Vec<Action> = Vec::new();
        let at_end = self.ed.at_end();
        if self.ed.insert(c) {
            if at_end {
                let mut t = String::new();
                push_char(&mut t, c);
                let mut b = encode_text(t.as_str());
                if self.ed.cursor_col() == 0 {
                    append(&mut b, self.place_cursor());
                }
                assert(t@ =~= seq![c]);
                send(&mut acts, b);
            } else {
                let (row, col) = self.ed.cursor_rc();
                let from: usize = if col == 0 { if row > 0 { row - 1 } else { 0 } } else { row };
                let last = self.ed.last_row();
                send(&mut acts, self.redraw_input(from, last));
            }
        }
        assert(actions_view(acts@) =~= type_char_spec(s0, c).1);
        acts
    }

    /// Correction in the field.
    fn correction(&mut self) -> (acts: Vec<Action>)
        requires
            old(self).wf(),
        ensures
            final(self).wf(),
            (final(self)@, actions_view(acts@)) == correction_spec(old(self)@),
    {
        let ghost s0 = self@;
        let mut acts: Vec<Action> = Vec::new();
        let at_end = self.ed.at_end();
        let col_before = self.ed.cursor_col();
        let old_last = self.ed.last_row();
        if self.ed.backspace() {
            if at_end && col_before > 0 {
                send(&mut acts, vec![0x08, 0x2E, 0x08]);
            } else {
                let (row, _) = self.ed.cursor_rc();
                send(&mut acts, self.redraw_input(row, old_last));
            }
        }
        assert(actions_view(acts@) =~= correction_spec(s0).1);
        acts
    }

    /// Annulation: empties the field.
    fn cancel_field(&mut self) -> (acts: Vec<Action>)
        requires
            old(self).wf(),
        ensures
            final(self).wf(),
            (final(self)@, actions_view(acts@)) == cancel_spec(old(self)@),
    {
        let ghost s0 = self@;
        let mut acts: Vec<Action> = Vec::new();
        let old_last = self.ed.last_row();
        self.ed.clear();
        send(&mut acts, self.redraw_input(0, old_last));
        assert(actions_view(acts@) =~= cancel_spec(s0).1);
        acts
    }

    /// An arrow key in the field.
    fn arrow(&mut self, a: Arrow) -> (acts: Vec<Action>)
        requires
            old(self).wf(),
        ensures
            final(self).wf(),
            (final(self)@, actions_view(acts@)) == arrow_spec(old(self)@, a),
    {
        let ghost s0 = self@;
        let mut acts: Vec<Action> = Vec::new();
        match a {
            Arrow::Left => self.ed.left(),
            Arrow::Right => self.ed.right(),
            Arrow::Up => self.ed.up(),
            Arrow::Down => self.ed.down(),
        }
        send(&mut acts, self.place_cursor());
        assert(actions_view(acts@) =~= arrow_spec(s0, a).1);
        acts
    }

    /// Loads a Guide service: waiting screen, then the fetch.
    fn run_service(&mut self, name: String) -> (acts: Vec<Action>)
        requires
            old(self).wf(),
        ensures
            final(self).wf(),
            (final(self)@, actions_view(acts@)) == run_service_spec(old(self)@, name@),
    {
        let ghost s0 = self@;
        let mut acts: Vec<Action> = Vec::new();
        self.start_waiting("Chargement", &mut acts);
        act(&mut acts, Action::FetchService(name));
        assert(actions_view(acts@) =~= run_service_spec(s0, name@).1);
        acts
    }

    /// A key typed on the Services page: the service of that key, if any.
    fn select_service(&mut self, c: char) -> (acts: Vec<Action>)
        requires
            old(self).wf(),
        ensures
            final(self).wf(),
            (final(self)@, actions_view(acts@)) == (match service_named(old(self)@.services, c) {
                Some(name) => run_service_spec(old(self)@, name),
                None => (old(self)@, Seq::<ActionView>::empty()),
            }),
    {
        let ghost svcs = self@.services;
        let mut i: usize = 0;
        assert(svcs.skip(0) =~= svcs);
        while i < self.services.len() && self.services[i].key != c
            invariant
                i <= self.services@.len(),
                svcs == self@.services,
                svcs.len() == self.services@.len(),
                service_named(svcs.skip(i as int), c) == service_named(svcs, c),
            decreases self.services@.len() - i,
        {
            assert(svcs[i as int] == service_view(self.services@[i as int]));
            assert(svcs.skip(i as int)[0] == svcs[i as int]);
            assert(svcs.skip(i as int).drop_first() =~= svcs.skip(i + 1));
            i = i + 1;
        }
        if i < self.services.len() {
            assert(svcs[i as int] == service_view(self.services@[i as int]));
            assert(svcs.skip(i as int)[0] == svcs[i as int]);
            let name = self.services[i].name.clone();
            self.run_service(name)
        } else {
            assert(svcs.skip(i as int).len() == 0);
            Vec::new()
        }
    }

    /// Envoi: sends the trimmed field as a question (in the thread when
    /// `cont`), remembered to be shown above its answer.
    fn submit(&mut self, cont: bool) -> (acts: Vec<Action>)
        requires
            old(self).wf(),
        ensures
            final(self).wf(),
            (final(self)@, actions_view(acts@)) == submit_spec(old(self)@, cont),
    {
        let ghost s0 = self@;
        let mut acts: Vec<Action> = Vec::new();
        let text = self.ed.text();
        let q = trim_text(text.as_str());
        if q.as_str().unicode_len() == 0 {
            return acts;
        }
        self.pending = Some(q.clone());
        self.start_waiting("Recherche en cours", &mut acts);
        act(&mut acts, Action::Ask { query: q, cont });
        assert(actions_view(acts@) =~= submit_spec(s0, cont).1);
        acts
    }

    /// Suite: next page of the thread, when there is one.
    fn next_page(&mut self) -> (acts: Vec<Action>)
        requires
            old(self).wf(),
        ensures
            final(self).wf(),
            (final(self)@, actions_view(acts@)) == next_spec(old(self)@),
    {
        let ghost s0 = self@;
        let mut acts: Vec<Action> = Vec::new();
        if self.thread.next_page() {
            send(&mut acts, self.draw_answer());
        }
        assert(actions_view(acts@) =~= next_spec(s0).1);
        acts
    }

    /// Retour: previous page of the thread, when there is one.
    fn prev_page(&mut self) -> (acts: Vec<Action>)
        requires
            old(self).wf(),
        ensures
            final(self).wf(),
            (final(self)@, actions_view(acts@)) == prev_spec(old(self)@),
    {
        let ghost s0 = self@;
        let mut acts: Vec<Action> = Vec::new();
        if self.thread.prev_page() {
            send(&mut acts, self.draw_answer());
        }
        assert(actions_view(acts@) =~= prev_spec(s0).1);
        acts
    }

    /// Sommaire: new conversation (the thread is forgotten, here and on the
    /// backend) and back to the home screen.
    fn new_conversation(&mut self) -> (acts: Vec<Action>)
        requires
            old(self).wf(),
        ensures
            final(self).wf(),
            exists|clock: Seq<char>| is_clock_text(clock)
                && (final(self)@, actions_view(acts@)) == new_conversation_spec(old(self)@, clock),
    {
        let ghost s0 = self@;
        let mut acts: Vec<Action> = Vec::new();
        act(&mut acts, Action::ResetBackend);
        self.thread.clear();
        self.pending = None;
        let ghost s1 = self@;
        assert(s1.thread.lines =~= Seq::<(Color, Seq<char>)>::empty());
        assert(s1 == SessionView { thread: TranscriptView { lines: seq![], page: 0 }, pending: None, ..s0 });
        let b = self.draw_home();
        let ghost clock = choose|clock: Seq<char>| is_clock_text(clock) && b@ == home_bytes(s1, clock);
        send(&mut acts, b);
        assert(actions_view(acts@) =~= new_conversation_spec(s0, clock).1);
        acts
    }

    /// A function key.
    #[verifier::spinoff_prover]
    #[verifier::rlimit(40)]
    fn function_key(&mut self, k: FnKey) -> (acts: Vec<Action>)
        requires
            old(self).wf(),
        ensures
            final(self).wf(),
            exists|clock: Seq<char>| is_clock_text(clock)
                && (final(self)@, actions_view(acts@)) == function_spec(old(self)@, k, clock),
    {
        proof { lemma_midnight(); }
        let ghost s0 = self@;
        let editing = self.mode == Mode::Home || self.mode == Mode::Chat;
        if editing && k == FnKey::Correction {
            self.correction()
        } else if editing && k == FnKey::Cancel {
            self.cancel_field()
        } else if editing && k == FnKey::Guide {
            let mut acts: Vec<Action> = Vec::new();
            send(&mut acts, self.draw_guide());
            assert(actions_view(acts@) =~= function_spec(s0, k, midnight()).1);
            acts
        } else if self.mode == Mode::Home && k == FnKey::Send {
            self.submit(false)
        } else if self.mode == Mode::Chat && k == FnKey::Send {
            self.submit(true)
        } else if self.mode == Mode::Chat && k == FnKey::Next {
            self.next_page()
        } else if self.mode == Mode::Chat && k == FnKey::Return {
            self.prev_page()
        } else if k == FnKey::Connect {
            let mut acts: Vec<Action> = Vec::new();
            act(&mut acts, Action::ResetLink);
            assert(actions_view(acts@) =~= function_spec(s0, k, midnight()).1);
            acts
        } else if self.mode == Mode::Searching {
            assert(actions_view(Seq::<Action>::empty()) =~= Seq::<ActionView>::empty());
            Vec::new()
        } else if k == FnKey::Summary {
            self.new_conversation()
        } else {
            assert(actions_view(Seq::<Action>::empty()) =~= Seq::<ActionView>::empty());
            Vec::new()
        }
    }

    /// Takes a decoded event into account: typing and editing in the field,
    /// the Guide menu, Envoi, paging through the thread, Connexion/Fin,
    /// Sommaire, the identification answer. Returns what the caller must do,
    /// in order.
    #[verifier::spinoff_prover]
    #[verifier::rlimit(40)]
    pub fn handle(&mut self, ev: Event) -> (acts: Vec<Action>)
        requires
            old(self).wf(),
        ensures
            final(self).wf(),
            exists|clock: Seq<char>| is_clock_text(clock)
                && (final(self)@, actions_view(acts@)) == handle_spec(old(self)@, ev@, clock),
    {
        proof { lemma_midnight(); }
        let ghost s0 = self@;
        let ghost e0 = ev@;
        assert(actions_view(Seq::<Action>::empty()) =~= Seq::<ActionView>::empty());
        let editing = self.mode == Mode::Home || self.mode == Mode::Chat;
        match ev {
            Event::Char(c) => {
                if editing {
                    self.type_char(c)
                } else if self.mode == Mode::Guide {
                    self.select_service(c)
                } else {
                    Vec::new()
                }
            },
            Event::Function(k) => self.function_key(k),
            Event::Arrow(a) => {
                if editing {
                    self.arrow(a)
                } else {
                    Vec::new()
                }
            },
            Event::Enter => {
                if self.mode == Mode::Home {
                    self.submit(false)
                } else if self.mode == Mode::Chat {
                    self.submit(true)
                } else {
                    Vec::new()
                }
            },
            Event::Identify { .. } => {
                let mut acts: Vec<Action> = Vec::new();
                if self.mode != Mode::Searching {
                    act(&mut acts, Action::Alive);
                }
                assert(actions_view(acts@) =~= handle_spec(s0, e0, midnight()).1);
                acts
            },
            _ => Vec::new(),
        }
    }

    /// A session on the home screen, before any connection: the title (cut
    /// to 24 characters, so that the page counter fits the header), the
    /// optional logo stream and the Services menu.
    pub fn new(title: &str, logo: Option<Vec<u8>>, services: Vec<Service>) -> (s: Self)
        ensures
            s.wf(),
            s@.mode == Mode::Home,
            s@.ed == (EditorView { text: seq![], cursor: 0, cols: AREA_COLS as nat, rows: AREA_ROWS as nat }),
            s@.thread.lines.len() == 0,
            s@.thread.page == 0,
            s@.pending is None,
            s@.title == (if title@.len() <= TITLE_MAX { title@ } else { title@.take(TITLE_MAX as int) }),
            s@.logo == (match logo {
                Some(l) => Some(l@),
                None => None::<Seq<u8>>,
            }),
            s@.services == services_view(services@),
            s@.baud == 1200,
            s@.net == Net::Unknown,
            s@.spin == 0,
            s@.anim_col == ANIM_COL,
            s@.anim_row == ANIM_ROW,
            s@.shown_secs == 0,
            s@.input_row == AREA_ROW,
    {
        Session {
            mode: Mode::Home,
            ed: Editor::new(AREA_COLS, AREA_ROWS),
            thread: Transcript::new(),
            pending: None,
            title: take_chars(title, TITLE_MAX),
            logo,
            services,
            baud: 1200,
            net: Net::Unknown,
            spin: 0,
            anim_col: ANIM_COL,
            anim_row: ANIM_ROW,
            shown_secs: 0,
            input_row: AREA_ROW,
        }
    }

    /// The Minitel connected at `baud`: local echo off, lowercase keyboard
    /// (the 1B always starts in uppercase and does not remember the option),
    /// the home screen, then an identification request.
    pub fn connected(&mut self, baud: u32) -> (b: Vec<u8>)
        requires
            old(self).wf(),
        ensures
            final(self).wf(),
            final(self)@ == home_state(SessionView { baud: baud, ..old(self)@ }),
            exists|clock: Seq<char>| is_clock_text(clock) && b@ == seq![ESCAPE, 0x3Bu8, ROUTING_OFF, RECV_SCREEN, EMIT_MODEM]
                + seq![ESCAPE, 0x3Au8, START, LOWERCASE]
                + home_bytes(SessionView { baud: baud, ..old(self)@ }, clock) + seq![ESCAPE, 0x39u8, ENQUIRY_ROM],
    {
        self.baud = baud;
        let ghost s1 = self@;
        let mut b = set_echo(false);
        append(&mut b, keyboard_lowercase());
        let h = self.draw_home();
        let ghost clock = choose|clock: Seq<char>| is_clock_text(clock) && h@ == home_bytes(s1, clock);
        append(&mut b, h);
        append(&mut b, identify_request());
        assert(b@ =~= seq![ESCAPE, 0x3Bu8, ROUTING_OFF, RECV_SCREEN, EMIT_MODEM]
            + seq![ESCAPE, 0x3Au8, START, LOWERCASE] + home_bytes(s1, clock) + seq![ESCAPE, 0x39u8, ENQUIRY_ROM]);
        b
    }

    /// The network state changed (shown in the status bar).
    pub fn set_net(&mut self, net: Net)
        requires
            old(self).wf(),
        ensures
            final(self).wf(),
            final(self)@ == (SessionView { net: net, ..old(self)@ }),
    {
        self.net = net;
    }

    /// The screen shown.
    pub fn mode(&self) -> (m: Mode)
        ensures
            m == self@.mode,
    {
        self.mode
    }

    /// The speed negotiated (for the status bar).
    pub fn baud(&self) -> (b: u32)
        ensures
            b == self@.baud,
    {
        self.baud
    }

    /// The network state shown.
    pub fn net(&self) -> (n: Net)
        ensures
            n == self@.net,
    {
        self.net
    }

    /// The question waiting for its answer, if any.
    pub fn pending(&self) -> (q: Option<String>)
        ensures
            match q {
                Some(t) => self@.pending == Some(t@),
                None => self@.pending is None,
            },
    {
        match &self.pending {
            Some(t) => Some(t.clone()),
            None => None,
        }
    }

    /// The text typed in the field.
    pub fn input(&self) -> (t: String)
        ensures
            t@ == self@.ed.text,
    {
        self.ed.text()
    }

    /// The thread's lines, in order.
    pub fn thread_lines(&self) -> (v: Vec<(Color, String)>)
        ensures
            crate::chat::colored_view(v@) == self@.thread.lines,
    {
        let mut v: Vec<(Color, String)> = Vec::new();
        let mut i: usize = 0;
        while i < self.thread.len()
            invariant
                i <= self@.thread.lines.len(),
                crate::chat::colored_view(v@) == self@.thread.lines.take(i as int),
            decreases self@.thread.lines.len() - i,
        {
            let l = self.thread.line(i);
            let p = (l.0, l.1.clone());
            let ghost before = v@;
            v.push(p);
            assert(crate::chat::colored_view(v@) =~= crate::chat::colored_view(before).push((p.0, p.1@)));
            assert(self@.thread.lines.take(i + 1) =~= self@.thread.lines.take(i as int).push(self@.thread.lines[i as int]));
            i = i + 1;
        }
        assert(self@.thread.lines.take(self@.thread.lines.len() as int) =~= self@.thread.lines);
        v
    }

    /// The page of the thread shown (0-based).
    pub fn page(&self) -> (p: usize)
        ensures
            p == self@.thread.page,
    {
        self.thread.page()
    }
}


/// Whether an event is a key really typed (a character, Enter, a function
/// key, an arrow), which counts as activity against the sleep delay;
/// acknowledgements, identification answers and unknown bytes do not.
pub fn is_activity(ev: &Event) -> (r: bool)
    ensures
        r == (ev@ is Char || ev@ is Enter || ev@ is Function || ev@ is Arrow),
{
    match ev {
        Event::Char(_) | Event::Enter | Event::Function(_) | Event::Arrow(_) => true,
        _ => false,
    }
}

/// In conversation the field is one row, right above the footer: however
/// long the typing, it never reaches the last row of the screen (writing
/// there would scroll the whole Minitel display).
pub proof fn law_chat_field_above_footer(s: SessionView)
    requires
        session_wf(s),
        s.mode == Mode::Chat,
    ensures
        s.ed.text.len() <= AREA_COLS,
        last_row_of(s.ed) == 0,
        s.input_row + last_row_of(s.ed) < FOOTER_ROW,
{
}

/// Retour undoes Suite: from a page that has a next one, Suite then Retour
/// gives back the same session, and the second screen is the first one's.
pub proof fn law_return_undoes_next(s: SessionView)
    requires
        session_wf(s),
        s.mode == Mode::Chat,
        s.thread.page + 1 < pages_of(s.thread.lines.len()),
    ensures
        next_spec(s).0.thread.page == s.thread.page + 1,
        next_spec(s).0.ed == s.ed,
        prev_spec(next_spec(s).0).0 == s,
        prev_spec(next_spec(s).0).1 == seq![ActionView::Send(answer_bytes(s))],
{
    let s1 = next_spec(s).0;
    assert(s1.ed == s.ed);
    assert(SessionView { thread: TranscriptView { page: s.thread.page, ..s1.thread }, ..s1 } == s);
}

/// While the backend is being waited for, the keyboard is ignored: every
/// event but Connexion/Fin leaves the session as it is and asks for nothing.
#[verifier::spinoff_prover]
#[verifier::rlimit(40)]
pub proof fn law_waiting_ignores_keys(s: SessionView, ev: EventView, clock: Seq<char>)
    requires
        s.mode == Mode::Searching,
        ev != EventView::Function(FnKey::Connect),
    ensures
        handle_spec(s, ev, clock) == (s, Seq::<ActionView>::empty()),
{
}

/// Sommaire starts a new thread from any screen but the waiting one: the
/// thread and the pending question are forgotten, the backend is told
/// first, and the home screen comes back.
#[verifier::spinoff_prover]
#[verifier::rlimit(40)]
pub proof fn law_summary_starts_new_thread(s: SessionView, clock: Seq<char>)
    requires
        s.mode != Mode::Searching,
    ensures
        handle_spec(s, EventView::Function(FnKey::Summary), clock).0.thread.lines.len() == 0,
        handle_spec(s, EventView::Function(FnKey::Summary), clock).0.thread.page == 0,
        handle_spec(s, EventView::Function(FnKey::Summary), clock).0.pending is None,
        handle_spec(s, EventView::Function(FnKey::Summary), clock).0.mode == Mode::Home,
        handle_spec(s, EventView::Function(FnKey::Summary), clock).1[0] == ActionView::ResetBackend,
{
}


/// The configuration of two sessions is the same: title, logo, Services
/// menu, speed of the link, network state.
pub open spec fn same_configuration(a: SessionView, b: SessionView) -> bool {
    &&& a.title == b.title
    &&& a.logo == b.logo
    &&& a.services == b.services
    &&& a.baud == b.baud
    &&& a.net == b.net
}

#[verifier::spinoff_prover]
#[verifier::rlimit(40)]
proof fn lemma_function_keeps_configuration(s: SessionView, k: FnKey, clock: Seq<char>)
    ensures
        same_configuration(function_spec(s, k, clock).0, s),
{
    if editing(s.mode) && k == FnKey::Correction {
        assert(same_configuration(correction_spec(s).0, s));
    } else if editing(s.mode) && k == FnKey::Cancel {
        assert(same_configuration(cancel_spec(s).0, s));
    } else if s.mode == Mode::Chat && k == FnKey::Next {
        assert(same_configuration(next_spec(s).0, s));
    } else if s.mode == Mode::Chat && k == FnKey::Return {
        assert(same_configuration(prev_spec(s).0, s));
    } else if (s.mode == Mode::Home || s.mode == Mode::Chat) && k == FnKey::Send {
        assert(same_configuration(submit_spec(s, s.mode == Mode::Chat).0, s));
    }
}

/// Keys never change the configuration: the title, the logo, the Services
/// menu, the speed of the link and the network state stay as they were,
/// whatever the event and the screen.
#[verifier::spinoff_prover]
#[verifier::rlimit(40)]
pub proof fn law_keys_keep_configuration(s: SessionView, ev: EventView, clock: Seq<char>)
    ensures
        same_configuration(handle_spec(s, ev, clock).0, s),
{
    match ev {
        EventView::Char(c) => {
            if editing(s.mode) {
                assert(same_configuration(type_char_spec(s, c).0, s));
            } else if s.mode == Mode::Guide {
                match service_named(s.services, c) {
                    Some(name) => assert(same_configuration(run_service_spec(s, name).0, s)),
                    None => {},
                }
            }
        },
        EventView::Function(k) => lemma_function_keeps_configuration(s, k, clock),
        EventView::Arrow(a) => {
            if editing(s.mode) {
                assert(same_configuration(arrow_spec(s, a).0, s));
            }
        },
        EventView::Enter => {
            if s.mode == Mode::Home || s.mode == Mode::Chat {
                assert(same_configuration(submit_spec(s, s.mode == Mode::Chat).0, s));
            }
        },
        _ => {},
    }
}


/// Enter and Envoi do the same on the home screen and in conversation: the
/// trimmed field, when not blank, becomes the pending question and goes to
/// the backend, as a new conversation from the home screen and as a
/// follow-up in the current thread (`cont`) in conversation; a blank field
/// does nothing.
#[verifier::spinoff_prover]
pub proof fn law_enter_is_envoi(s: SessionView, clock: Seq<char>)
    requires
        s.mode == Mode::Home || s.mode == Mode::Chat,
    ensures
        handle_spec(s, EventView::Enter, clock) == handle_spec(s, EventView::Function(FnKey::Send), clock),
        trim_spec(s.ed.text).len() == 0 ==> handle_spec(s, EventView::Enter, clock) == (s, Seq::<ActionView>::empty()),
        trim_spec(s.ed.text).len() > 0 ==> {
            let r = handle_spec(s, EventView::Enter, clock);
            &&& r.1.len() == 3
            &&& r.1[0] == ActionView::StartWaiting
            &&& r.1[2] == (ActionView::Ask { query: trim_spec(s.ed.text), cont: s.mode == Mode::Chat })
            &&& r.0.pending == Some(trim_spec(s.ed.text))
            &&& r.0.mode == Mode::Searching
        },
{
}

} // verus!
