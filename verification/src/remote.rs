//! Remote control of the daemon from the workstation (`minitel-tui`): a
//! terminal UI that talks to the control API (port 3010) to write on the
//! Minitel's screen without touching its keyboard: a text (paginated like
//! an answer) or an image (converted to G1 mosaic unless it is a `.vtx`).
//!
//! In the input field:
//!
//! | Input | Effect |
//! |---|---|
//! | text + Enter | shown on the Minitel (`POST /text`) |
//! | `/img photo.png [--gray] [--row N]` | conversion, then `POST /show` |
//! | `/vtx file.vtx` | raw Videotex (`POST /show`) |
//! | `/help` | the commands |
//! | `/quit` or Escape | quit |
//!
//! The terminal, the network and the files are the caller's; here are the
//! commands, the field, the journal and the status line, and the small
//! HTTP/1.0 exchange with the daemon.
use vstd::prelude::*;
use crate::backend::{blank_line, find_subslice, first_occurrence, occurs_at};
use crate::chars::{chars_of, lossy_text, push_str, same_text, string_of, strings_view, take_chars, utf8_lossy};
use crate::chat::{decimal, push_decimal, trim_spec, trim_text};
use crate::videotex::{split_words, words_of};
use vstd::string::StrSliceExecFns;

verus! {

/// Default address of the daemon's control API.
pub const DEFAULT_ADDR: &'static str = "127.0.0.1:3010";

/// Colours of the terminal UI.
#[derive(Debug, Clone, Copy, PartialEq, Eq, Structural)]
pub enum Tint {
    /// The terminal's own colour.
    Plain,
    Cyan,
    DarkGray,
    Red,
    Green,
    Yellow,
    White,
}

/// State of the daemon, as read from `GET /status`.
#[derive(Debug, Clone, PartialEq, Eq)]
pub struct DaemonStatus {
    pub connected: bool,
    pub baud: u64,
    pub sleeping: bool,
    pub net: String,
}

/// Model of a [`DaemonStatus`].
pub struct DaemonStatusView {
    pub connected: bool,
    pub baud: u64,
    pub sleeping: bool,
    pub net: Seq<char>,
}

impl View for DaemonStatus {
    type V = DaemonStatusView;

    open spec fn view(&self) -> DaemonStatusView {
        DaemonStatusView { connected: self.connected, baud: self.baud, sleeping: self.sleeping, net: self.net@ }
    }
}

/// Work for the network thread.
#[derive(Debug, Clone, PartialEq, Eq)]
pub enum Job {
    /// Show a text (`POST /text`).
    Text(String),
    /// Convert an image (with these options for the converter), then show
    /// it (`POST /show`).
    Img(String, Vec<String>),
    /// Send a `.vtx` file as is (`POST /show`).
    Vtx(String),
}

/// Model of a [`Job`].
pub enum JobView {
    Text(Seq<char>),
    Img(Seq<char>, Seq<Seq<char>>),
    Vtx(Seq<char>),
}

impl View for Job {
    type V = JobView;

    open spec fn view(&self) -> JobView {
        match self {
            Job::Text(t) => JobView::Text(t@),
            Job::Img(p, extra) => JobView::Img(p@, strings_view(extra@)),
            Job::Vtx(p) => JobView::Vtx(p@),
        }
    }
}

/// What the network thread reports.
#[derive(Debug)]
pub enum Reply {
    /// The daemon's state, or why it could not be read.
    Status(Result<DaemonStatus, String>),
    /// A job done.
    Info(String),
    /// A job failed.
    Error(String),
}

/// A key of the input field.
#[derive(Debug, Clone, Copy, PartialEq, Eq, Structural)]
pub enum EditKey {
    Backspace,
    Delete,
    Left,
    Right,
    Home,
    End,
    Char(char),
}

/// The reminder of the commands (`/help`).
pub open spec fn help_lines() -> Seq<Seq<char>> {
    seq![
        "texte + Entrée        afficher sur le Minitel (paginé)"@,
        "/img photo.png        convertir puis afficher (options: --gray --row N)"@,
        "/vtx fichier.vtx      envoyer un flux Vidéotex brut"@,
        "/quit ou Échap        quitter"@,
    ]
}

/// Model of a [`Remote`].
pub struct RemoteView {
    pub addr: Seq<char>,
    pub status: Option<Result<DaemonStatusView, Seq<char>>>,
    pub history: Seq<(Tint, Seq<char>)>,
    pub input: Seq<char>,
    pub cursor: nat,
}

/// The remote control's state: the daemon's address and last status, the
/// local journal (most recent last), the input field and its cursor (in
/// characters).
pub struct Remote {
    addr: String,
    status: Option<Result<DaemonStatus, String>>,
    history: Vec<(Tint, String)>,
    input: Vec<char>,
    cursor: usize,
}

/// Model of a journal.
pub open spec fn history_view(h: Seq<(Tint, String)>) -> Seq<(Tint, Seq<char>)> {
    h.map_values(|p: (Tint, String)| (p.0, p.1@))
}

/// Model of a status read.
pub open spec fn status_view(s: Option<Result<DaemonStatus, String>>) -> Option<Result<DaemonStatusView, Seq<char>>> {
    match s {
        Some(Ok(d)) => Some(Ok(d@)),
        Some(Err(e)) => Some(Err(e@)),
        None => None,
    }
}

impl View for Remote {
    type V = RemoteView;

    closed spec fn view(&self) -> RemoteView {
        RemoteView {
            addr: self.addr@,
            status: status_view(self.status),
            history: history_view(self.history@),
            input: self.input@,
            cursor: self.cursor as nat,
        }
    }
}

/// The journal lines of `/help`, in grey.
pub open spec fn help_entries() -> Seq<(Tint, Seq<char>)> {
    help_lines().map_values(|l: Seq<char>| (Tint::DarkGray, l))
}

/// What Enter does with the trimmed line: whether to keep running, what is
/// added to the journal, and the job for the network thread.
pub open spec fn command_spec(line: Seq<char>) -> (bool, Seq<(Tint, Seq<char>)>, Option<JobView>) {
    let w = words_of(line);
    if line.len() == 0 {
        (true, seq![], None)
    } else if w.len() == 1 && (w[0] == "/quit"@ || w[0] == "/q"@) {
        (false, seq![], None)
    } else if w.len() == 1 && (w[0] == "/help"@ || w[0] == "/h"@) {
        (true, help_entries(), None)
    } else if w.len() >= 2 && w[0] == "/img"@ {
        (true, seq![(Tint::Yellow, "conversion de "@ + w[1] + "…"@)], Some(JobView::Img(w[1], w.skip(2))))
    } else if w.len() == 2 && w[0] == "/vtx"@ {
        (true, seq![], Some(JobView::Vtx(w[1])))
    } else if w.len() >= 1 && w[0].len() > 0 && w[0][0] == '/' {
        (true, seq![(Tint::Red, "commande inconnue : "@ + w[0] + " — /help"@)], None)
    } else {
        (true, seq![(Tint::Green, "> "@ + line)], Some(JobView::Text(line)))
    }
}

/// The field after an editing key (the cursor counts characters).
pub open spec fn edit_spec(input: Seq<char>, cursor: nat, k: EditKey) -> (Seq<char>, nat) {
    match k {
        EditKey::Backspace => if cursor > 0 { (input.remove(cursor - 1), (cursor - 1) as nat) } else { (input, cursor) },
        EditKey::Delete => if cursor < input.len() { (input.remove(cursor as int), cursor) } else { (input, cursor) },
        EditKey::Left => (input, if cursor > 0 { (cursor - 1) as nat } else { 0 }),
        EditKey::Right => (input, if cursor + 1 <= input.len() { cursor + 1 } else { input.len() }),
        EditKey::Home => (input, 0),
        EditKey::End => (input, input.len()),
        EditKey::Char(c) => (input.insert(cursor as int, c), cursor + 1),
    }
}

/// The status line's spans (colour, text): the address, then the daemon's
/// state (not read yet, unreachable, or the Minitel, sleep and backend).
pub open spec fn status_spans_spec(addr: Seq<char>, status: Option<Result<DaemonStatusView, Seq<char>>>) -> Seq<(Tint, Seq<char>)> {
    let head = seq![(Tint::Cyan, " "@ + addr + " "@)];
    match status {
        None => head.push((Tint::DarkGray, "interrogation…"@)),
        Some(Err(e)) => head.push((Tint::Red, "daemon injoignable ("@ + e + ")"@)),
        Some(Ok(s)) => {
            let link = if s.connected {
                (Tint::Green, "Minitel OK "@ + decimal(s.baud as nat) + " bd"@)
            } else {
                (Tint::Red, "Minitel déconnecté"@)
            };
            let sleep = if s.sleeping { seq![(Tint::Yellow, "  veille"@)] } else { seq![] };
            let net = if s.net == "online"@ {
                (Tint::Green, "backend OK"@)
            } else if s.net == "noweb"@ {
                (Tint::Yellow, "backend sans Internet"@)
            } else if s.net == "offline"@ {
                (Tint::Red, "backend KO"@)
            } else {
                (Tint::DarkGray, "backend ?"@)
            };
            head.push(link) + sleep + seq![(Tint::Plain, "  ·  "@), net]
        },
    }
}

proof fn lemma_history_push(h: Seq<(Tint, String)>, p: (Tint, String))
    ensures
        history_view(h.push(p)) == history_view(h).push((p.0, p.1@)),
{
    assert(history_view(h.push(p)) =~= history_view(h).push((p.0, p.1@)));
}

impl Remote {
    /// The cursor lies in the field.
    pub open spec fn wf(&self) -> bool {
        self@.cursor <= self@.input.len()
    }

    /// A remote control of the daemon at `addr`, its journal greeting the
    /// user.
    pub fn new(addr: &str) -> (r: Self)
        ensures
            r.wf(),
            r@.addr == addr@,
            r@.status is None,
            r@.history == seq![(Tint::DarkGray, "minitel-tui — /help pour les commandes"@)],
            r@.input.len() == 0,
            r@.cursor == 0,
    {
        let mut a = String::new();
        push_str(&mut a, addr);
        let mut g = String::new();
        push_str(&mut g, "minitel-tui — /help pour les commandes");
        let mut history: Vec<(Tint, String)> = Vec::new();
        proof { lemma_history_push(history@, (Tint::DarkGray, g)); }
        history.push((Tint::DarkGray, g));
        assert(history_view(history@) =~= seq![(Tint::DarkGray, "minitel-tui — /help pour les commandes"@)]);
        Remote { addr: a, status: None, history, input: Vec::new(), cursor: 0 }
    }

    fn push(&mut self, tint: Tint, msg: String)
        ensures
            final(self)@ == (RemoteView { history: old(self)@.history.push((tint, msg@)), ..old(self)@ }),
    {
        proof { lemma_history_push(self.history@, (tint, msg)); }
        self.history.push((tint, msg));
    }

    /// Enter: interprets the line typed (trimmed), empties the field, and
    /// says whether to keep running and what to hand to the network thread.
    pub fn submit(&mut self) -> (r: (bool, Option<Job>))
        ensures
            final(self).wf(),
            final(self)@.input.len() == 0,
            final(self)@.cursor == 0,
            final(self)@.addr == old(self)@.addr,
            final(self)@.status == old(self)@.status,
            r.0 == command_spec(trim_spec(old(self)@.input)).0,
            final(self)@.history == old(self)@.history + command_spec(trim_spec(old(self)@.input)).1,
            match r.1 {
                Some(j) => command_spec(trim_spec(old(self)@.input)).2 == Some(j@),
                None => command_spec(trim_spec(old(self)@.input)).2 is None,
            },
    {
        let ghost s0 = self@;
        let raw = string_of(self.input.as_slice());
        self.input = Vec::new();
        self.cursor = 0;
        let line = trim_text(raw.as_str());
        let ghost l = trim_spec(s0.input);
        assert(line@ == l);
        let ghost h0 = self@.history;
        assert(h0 == s0.history);
        if line.as_str().unicode_len() == 0 {
            assert(self@.history =~= h0 + command_spec(l).1);
            return (true, None);
        }
        let words = split_words(line.as_str());
        let ghost w = words_of(l);
        assert(strings_view(words@) == w);
        assert(words@.len() > 0 ==> words@[0]@ == w[0]);
        assert(words@.len() > 1 ==> words@[1]@ == w[1]);
        let n = words.len();
        if n == 1 && (same_text(words[0].as_str(), "/quit") || same_text(words[0].as_str(), "/q")) {
            assert(self@.history =~= h0 + command_spec(l).1);
            return (false, None);
        }
        if n == 1 && (same_text(words[0].as_str(), "/help") || same_text(words[0].as_str(), "/h")) {
            let mut a = String::new();
            push_str(&mut a, "texte + Entrée        afficher sur le Minitel (paginé)");
            self.push(Tint::DarkGray, a);
            let mut b = String::new();
            push_str(&mut b, "/img photo.png        convertir puis afficher (options: --gray --row N)");
            self.push(Tint::DarkGray, b);
            let mut c = String::new();
            push_str(&mut c, "/vtx fichier.vtx      envoyer un flux Vidéotex brut");
            self.push(Tint::DarkGray, c);
            let mut d = String::new();
            push_str(&mut d, "/quit ou Échap        quitter");
            self.push(Tint::DarkGray, d);
            assert(self@.history =~= h0 + command_spec(l).1);
            return (true, None);
        }
        if n >= 2 && same_text(words[0].as_str(), "/img") {
            let mut m = String::new();
            push_str(&mut m, "conversion de ");
            push_str(&mut m, words[1].as_str());
            push_str(&mut m, "…");
            self.push(Tint::Yellow, m);
            let mut extra: Vec<String> = Vec::new();
            let mut i: usize = 2;
            while i < n
                invariant
                    2 <= i <= n,
                    n == words@.len(),
                    strings_view(extra@) == strings_view(words@).subrange(2, i as int),
                decreases n - i,
            {
                let x = words[i].clone();
                proof { crate::chars::lemma_strings_view_push(extra@, x); }
                extra.push(x);
                assert(strings_view(words@).subrange(2, i + 1) =~= strings_view(words@).subrange(2, i as int).push(words@[i as int]@));
                i = i + 1;
            }
            assert(strings_view(words@).subrange(2, n as int) =~= w.skip(2));
            assert(self@.history =~= h0 + command_spec(l).1);
            return (true, Some(Job::Img(words[1].clone(), extra)));
        }
        if n == 2 && same_text(words[0].as_str(), "/vtx") {
            assert(self@.history =~= h0 + command_spec(l).1);
            return (true, Some(Job::Vtx(words[1].clone())));
        }
        let is_command = if n >= 1 {
            let first = chars_of(words[0].as_str());
            first.len() > 0 && first[0] == '/'
        } else {
            false
        };
        if is_command {
            let mut m = String::new();
            push_str(&mut m, "commande inconnue : ");
            push_str(&mut m, words[0].as_str());
            push_str(&mut m, " — /help");
            self.push(Tint::Red, m);
            assert(self@.history =~= h0 + command_spec(l).1);
            return (true, None);
        }
        let mut m = String::new();
        push_str(&mut m, "> ");
        push_str(&mut m, line.as_str());
        self.push(Tint::Green, m);
        assert(self@.history =~= h0 + command_spec(l).1);
        (true, Some(Job::Text(line)))
    }

    /// An editing key in the field.
    pub fn edit(&mut self, k: EditKey)
        requires
            old(self).wf(),
            old(self)@.input.len() < usize::MAX,
        ensures
            final(self).wf(),
            (final(self)@.input, final(self)@.cursor) == edit_spec(old(self)@.input, old(self)@.cursor, k),
            final(self)@.history == old(self)@.history,
            final(self)@.status == old(self)@.status,
            final(self)@.addr == old(self)@.addr,
    {
        match k {
            EditKey::Backspace => {
                if self.cursor > 0 {
                    self.cursor = self.cursor - 1;
                    self.input.remove(self.cursor);
                }
            },
            EditKey::Delete => {
                if self.cursor < self.input.len() {
                    self.input.remove(self.cursor);
                }
            },
            EditKey::Left => {
                self.cursor = if self.cursor > 0 { self.cursor - 1 } else { 0 };
            },
            EditKey::Right => {
                self.cursor = if self.cursor < self.input.len() { self.cursor + 1 } else { self.input.len() };
            },
            EditKey::Home => {
                self.cursor = 0;
            },
            EditKey::End => {
                self.cursor = self.input.len();
            },
            EditKey::Char(c) => {
                self.input.insert(self.cursor, c);
                self.cursor = self.cursor + 1;
            },
        }
    }

    /// Takes a report of the network thread into account: the status is
    /// kept, a job done goes to the journal in white, a failure in red.
    pub fn apply(&mut self, reply: Reply)
        requires
            old(self).wf(),
        ensures
            final(self).wf(),
            final(self)@.input == old(self)@.input,
            final(self)@.cursor == old(self)@.cursor,
            final(self)@.addr == old(self)@.addr,
            match reply {
                Reply::Status(s) => final(self)@.status == status_view(Some(s))
                    && final(self)@.history == old(self)@.history,
                Reply::Info(m) => final(self)@.status == old(self)@.status
                    && final(self)@.history == old(self)@.history.push((Tint::White, m@)),
                Reply::Error(e) => final(self)@.status == old(self)@.status
                    && final(self)@.history == old(self)@.history.push((Tint::Red, "échec : "@ + e@)),
            },
    {
        match reply {
            Reply::Status(s) => {
                self.status = Some(s);
            },
            Reply::Info(m) => self.push(Tint::White, m),
            Reply::Error(e) => {
                let mut m = String::new();
                push_str(&mut m, "échec : ");
                push_str(&mut m, e.as_str());
                self.push(Tint::Red, m);
            },
        }
    }

    /// The status line, as spans (colour, text).
    pub fn status_spans(&self) -> (v: Vec<(Tint, String)>)
        ensures
            history_view(v@) == status_spans_spec(self@.addr, self@.status),
    {
        let mut v: Vec<(Tint, String)> = Vec::new();
        let mut a = String::new();
        push_str(&mut a, " ");
        push_str(&mut a, self.addr.as_str());
        push_str(&mut a, " ");
        proof { lemma_history_push(v@, (Tint::Cyan, a)); }
        v.push((Tint::Cyan, a));
        match &self.status {
            None => {
                let mut t = String::new();
                push_str(&mut t, "interrogation…");
                proof { lemma_history_push(v@, (Tint::DarkGray, t)); }
                v.push((Tint::DarkGray, t));
            },
            Some(Err(e)) => {
                let mut t = String::new();
                push_str(&mut t, "daemon injoignable (");
                push_str(&mut t, e.as_str());
                push_str(&mut t, ")");
                proof { lemma_history_push(v@, (Tint::Red, t)); }
                v.push((Tint::Red, t));
            },
            Some(Ok(s)) => {
                let mut t = String::new();
                let tint = if s.connected {
                    push_str(&mut t, "Minitel OK ");
                    push_decimal(&mut t, s.baud);
                    push_str(&mut t, " bd");
                    Tint::Green
                } else {
                    push_str(&mut t, "Minitel déconnecté");
                    Tint::Red
                };
                proof { lemma_history_push(v@, (tint, t)); }
                v.push((tint, t));
                if s.sleeping {
                    let mut z = String::new();
                    push_str(&mut z, "  veille");
                    proof { lemma_history_push(v@, (Tint::Yellow, z)); }
                    v.push((Tint::Yellow, z));
                }
                let mut dot = String::new();
                push_str(&mut dot, "  ·  ");
                proof { lemma_history_push(v@, (Tint::Plain, dot)); }
                v.push((Tint::Plain, dot));
                let mut n = String::new();
                let nt = if same_text(s.net.as_str(), "online") {
                    push_str(&mut n, "backend OK");
                    Tint::Green
                } else if same_text(s.net.as_str(), "noweb") {
                    push_str(&mut n, "backend sans Internet");
                    Tint::Yellow
                } else if same_text(s.net.as_str(), "offline") {
                    push_str(&mut n, "backend KO");
                    Tint::Red
                } else {
                    push_str(&mut n, "backend ?");
                    Tint::DarkGray
                };
                proof { lemma_history_push(v@, (nt, n)); }
                v.push((nt, n));
            },
        }
        assert(history_view(v@) =~= status_spans_spec(self@.addr, self@.status));
        v
    }

    /// The journal, most recent last.
    pub fn history(&self) -> (v: Vec<(Tint, String)>)
        ensures
            history_view(v@) == self@.history,
    {
        let mut v: Vec<(Tint, String)> = Vec::new();
        let mut i: usize = 0;
        while i < self.history.len()
            invariant
                i <= self.history@.len(),
                history_view(v@) == history_view(self.history@).take(i as int),
            decreases self.history@.len() - i,
        {
            let p = (self.history[i].0, self.history[i].1.clone());
            proof { lemma_history_push(v@, p); }
            v.push(p);
            assert(history_view(self.history@).take(i + 1) =~= history_view(self.history@).take(i as int).push(history_view(self.history@)[i as int]));
            i = i + 1;
        }
        assert(history_view(self.history@).take(self.history@.len() as int) =~= history_view(self.history@));
        v
    }

    /// The text typed.
    pub fn input(&self) -> (t: String)
        ensures
            t@ == self@.input,
    {
        string_of(self.input.as_slice())
    }

    /// The cursor, in characters.
    pub fn cursor(&self) -> (c: usize)
        ensures
            c == self@.cursor,
    {
        self.cursor
    }
}

/// First line of the journal that fits a list of `height` rows (borders
/// included), so that the most recent lines show.
pub fn journal_start(len: usize, height: u16) -> (i: usize)
    ensures
        i == (if len > (if height >= 2 { height - 2 } else { 0 }) { len - (if height >= 2 { height - 2 } else { 0 }) } else { 0 }),
{
    let visible: usize = if height >= 2 { (height - 2) as usize } else { 0 };
    if len > visible { len - visible } else { 0 }
}

/// Title of the input box: the number of characters typed, and the reminder
/// that the Minitel has 40 columns.
pub fn input_title(count: usize) -> (t: String)
    ensures
        t@ == " saisie — "@ + decimal(count as nat) + " car. (lignes de 40 sur le Minitel) "@,
{
    let mut t = String::new();
    push_str(&mut t, " saisie — ");
    push_decimal(&mut t, count as u64);
    push_str(&mut t, " car. (lignes de 40 sur le Minitel) ");
    t
}

/// Column of the terminal cursor in an input box at column `x`, `width`
/// columns wide (borders included).
pub fn cursor_x(x: u16, width: u16, cursor: usize) -> (c: u16)
    requires
        x as int + 1 + (if width >= 2 { width - 2 } else { 0 }) <= u16::MAX,
    ensures
        c == x + 1 + (if (cursor as int) < (if width >= 2 { width - 2 } else { 0 }) { cursor as int } else { if width >= 2 { width - 2 } else { 0 } }),
{
    let room: u16 = if width >= 2 { width - 2 } else { 0 };
    let shift: u16 = if cursor < room as usize { cursor as u16 } else { room };
    x + 1 + shift
}

/// Journal line of a text shown.
pub fn text_sent_message(t: &str) -> (m: String)
    ensures
        m@ == "texte envoyé ("@ + decimal(t@.len()) + " car.)"@,
{
    let mut m = String::new();
    push_str(&mut m, "texte envoyé (");
    push_decimal(&mut m, t.unicode_len() as u64);
    push_str(&mut m, " car.)");
    m
}

/// Journal line of an image converted and shown.
pub fn image_shown_message(path: &str, bytes: usize) -> (m: String)
    ensures
        m@ == path@ + " convertie et affichée ("@ + decimal(bytes as nat) + " octets)"@,
{
    let mut m = String::new();
    push_str(&mut m, path);
    push_str(&mut m, " convertie et affichée (");
    push_decimal(&mut m, bytes as u64);
    push_str(&mut m, " octets)");
    m
}

/// Journal line of a `.vtx` file shown.
pub fn vtx_shown_message(path: &str, bytes: usize) -> (m: String)
    ensures
        m@ == path@ + " affiché ("@ + decimal(bytes as nat) + " octets)"@,
{
    let mut m = String::new();
    push_str(&mut m, path);
    push_str(&mut m, " affiché (");
    push_decimal(&mut m, bytes as u64);
    push_str(&mut m, " octets)");
    m
}

/// Head of a request to the daemon (HTTP/1.0, connection closed).
pub fn request_head(method: &str, path: &str, addr: &str, body_len: usize) -> (h: String)
    ensures
        h@ == method@ + " "@ + path@ + " HTTP/1.0\r\nHost: "@ + addr@ + "\r\nContent-Length: "@
            + decimal(body_len as nat) + "\r\nConnection: close\r\n\r\n"@,
{
    let mut h = String::new();
    push_str(&mut h, method);
    push_str(&mut h, " ");
    push_str(&mut h, path);
    push_str(&mut h, " HTTP/1.0\r\nHost: ");
    push_str(&mut h, addr);
    push_str(&mut h, "\r\nContent-Length: ");
    push_decimal(&mut h, body_len as u64);
    push_str(&mut h, "\r\nConnection: close\r\n\r\n");
    h
}

/// The bytes before the first carriage return (all of them without one).
pub open spec fn before_cr(b: Seq<u8>) -> Seq<u8>
    decreases b.len(),
{
    if b.len() == 0 {
        seq![]
    } else if b[0] == 0x0D {
        seq![]
    } else {
        seq![b[0]] + before_cr(b.drop_first())
    }
}

/// Whether `t` holds `p` at some position.
pub open spec fn contains_text(t: Seq<char>, p: Seq<char>) -> bool {
    exists|i: int| 0 <= i && i + p.len() <= t.len() && #[trigger] t.subrange(i, i + p.len()) == p
}

/// Where the head of `b` ends: the first blank line `\r\n\r\n`, if any.
pub open spec fn first_blank_line(b: Seq<u8>) -> Option<int> {
    if exists|i: int| #[trigger] first_occurrence(b, blank_line(), i) {
        Some(choose|i: int| #[trigger] first_occurrence(b, blank_line(), i))
    } else {
        None
    }
}

proof fn lemma_first_blank_line(b: Seq<u8>, i: int)
    requires
        first_occurrence(b, blank_line(), i),
    ensures
        first_blank_line(b) == Some(i),
{
    let j = choose|j: int| #[trigger] first_occurrence(b, blank_line(), j);
    assert(first_occurrence(b, blank_line(), j));
    if j < i {
        assert(!occurs_at(b, blank_line(), j));
    } else if i < j {
        assert(!occurs_at(b, blank_line(), i));
    }
}

proof fn lemma_no_blank_line(b: Seq<u8>)
    requires
        forall|i: int| 0 <= i ==> !occurs_at(b, blank_line(), i),
    ensures
        first_blank_line(b) is None,
{
    if exists|i: int| #[trigger] first_occurrence(b, blank_line(), i) {
        let j = choose|j: int| #[trigger] first_occurrence(b, blank_line(), j);
        assert(occurs_at(b, blank_line(), j));
    }
}

/// The outcome of a response of the daemon: its body when the status line
/// says ` 200 `, else the status line as the error; "réponse tronquée"
/// without the blank line that ends the head.
pub open spec fn response_outcome(resp: Seq<u8>) -> Result<Seq<u8>, Seq<char>> {
    match first_blank_line(resp) {
        None => Err("réponse tronquée"@),
        Some(s) => {
            let status = lossy_text(before_cr(resp.take(s)));
            if contains_text(status, " 200 "@) { Ok(resp.skip(s + 4)) } else { Err(status) }
        },
    }
}

fn contains_chars(t: &Vec<char>, p: &Vec<char>) -> (r: bool)
    ensures
        r == contains_text(t@, p@),
{
    if p.len() > t.len() {
        return false;
    }
    if p.len() == 0 {
        assert(t@.subrange(0, 0 + p@.len() as int) =~= p@);
        assert(contains_text(t@, p@));
        return true;
    }
    let tl: usize = t.len();
    let m: usize = tl - p.len();
    let mut i: usize = 0;
    while i <= m
        invariant
            0 < p@.len() <= t@.len(),
            tl == t@.len(),
            m == t@.len() - p@.len(),
            i <= m + 1,
            forall|j: int| 0 <= j < i ==> #[trigger] t@.subrange(j, j + p@.len()) != p@,
        decreases m + 1 - i,
    {
        let mut k: usize = 0;
        let mut same = true;
        while k < p.len() && same
            invariant
                k <= p@.len(),
                0 < p@.len() <= t@.len(),
                tl == t@.len(),
                i <= m,
                m == t@.len() - p@.len(),
                same ==> t@.subrange(i as int, i + k) == p@.take(k as int),
                !same ==> k < p@.len() && t@[i + k] != p@[k as int],
            decreases p@.len() - k + (if same { 1int } else { 0int }),
        {
            if t[i + k] != p[k] {
                same = false;
            } else {
                assert(t@.subrange(i as int, i + k + 1) =~= t@.subrange(i as int, i + k).push(t@[i + k]));
                assert(p@.take(k + 1) =~= p@.take(k as int).push(p@[k as int]));
                k = k + 1;
            }
        }
        if same {
            assert(p@.take(p@.len() as int) =~= p@);
            assert(t@.subrange(i as int, i + p@.len()) == p@);
            assert(contains_text(t@, p@));
            return true;
        }
        assert(t@.subrange(i as int, i + p@.len())[k as int] != p@[k as int]);
        i = i + 1;
    }
    assert forall|j: int| 0 <= j && j + p@.len() <= t@.len() implies #[trigger] t@.subrange(j, j + p@.len()) != p@ by {
        assert(j < i);
    }
    false
}

/// Whether a status line says ` 200 ` (success).
pub fn is_ok_status(line: &str) -> (r: bool)
    ensures
        r == contains_text(line@, " 200 "@),
{
    let sc = chars_of(line);
    let pat = chars_of(" 200 ");
    contains_chars(&sc, &pat)
}

/// The fields of a `GET /status` body read as JSON: `connected`, `baud`,
/// `sleeping` and `net`, each when present with its type; `None` when the
/// body is not JSON.
pub uninterp spec fn status_fields(body: Seq<u8>) -> Option<(Option<bool>, Option<u64>, Option<bool>, Option<Seq<char>>)>;

/// Model of an optional text.
pub open spec fn text_opt(t: Option<String>) -> Option<Seq<char>> {
    match t {
        Some(s) => Some(s@),
        None => None,
    }
}

/// `serde_json::from_slice::<serde_json::Value>`, then the fields
/// `connected` (`as_bool`), `baud` (`as_u64`), `sleeping` (`as_bool`) and
/// `net` (`as_str`): a field that is absent or of another type gives `None`.
/// What JSON reads from the bytes is named by `status_fields`, a function
/// of the bytes alone; the parser's error message is not stated.
#[verifier::external_body]
fn parse_status_fields(body: &[u8]) -> (r: Result<(Option<bool>, Option<u64>, Option<bool>, Option<String>), String>)
    ensures
        match r {
            Ok(f) => status_fields(body@) == Some((f.0, f.1, f.2, text_opt(f.3))),
            Err(_) => status_fields(body@) is None,
        },
{
    let v = match serde_json::from_slice::<serde_json::Value>(body) {
        Ok(v) => v,
        Err(e) => return Err(e.to_string()),
    };
    let net = match v["net"].as_str() {
        Some(t) => Some(t.to_string()),
        None => None,
    };
    Ok((v["connected"].as_bool(), v["baud"].as_u64(), v["sleeping"].as_bool(), net))
}

/// The daemon's state from the fields of its status: disconnected, 0 baud,
/// awake and network `?` for the fields that are missing.
pub open spec fn status_of_fields(f: (Option<bool>, Option<u64>, Option<bool>, Option<Seq<char>>)) -> DaemonStatusView {
    DaemonStatusView {
        connected: match f.0 { Some(b) => b, None => false },
        baud: match f.1 { Some(b) => b, None => 0 },
        sleeping: match f.2 { Some(b) => b, None => false },
        net: match f.3 { Some(t) => t, None => "?"@ },
    }
}

/// The daemon's state from the fields of its status, with the defaults for
/// the missing ones.
pub fn daemon_status_of(f: (Option<bool>, Option<u64>, Option<bool>, Option<String>)) -> (s: DaemonStatus)
    ensures
        s@ == status_of_fields((f.0, f.1, f.2, text_opt(f.3))),
{
    let net = match f.3 {
        Some(t) => t,
        None => {
            let mut q = String::new();
            push_str(&mut q, "?");
            q
        },
    };
    DaemonStatus {
        connected: match f.0 { Some(b) => b, None => false },
        baud: match f.1 { Some(b) => b, None => 0 },
        sleeping: match f.2 { Some(b) => b, None => false },
        net,
    }
}

/// Reads the body of `GET /status` (the status line refreshed every 2 s):
/// the daemon's state, or the parser's message when the body is not JSON.
pub fn parse_status(body: &[u8]) -> (r: Result<DaemonStatus, String>)
    ensures
        match r {
            Ok(s) => (status_fields(body@) matches Some(f) && s@ == status_of_fields(f)),
            Err(_) => status_fields(body@) is None,
        },
{
    match parse_status_fields(body) {
        Ok(f) => Ok(daemon_status_of(f)),
        Err(e) => Err(e),
    }
}

/// Reads a response of the daemon: its body when the status is 200, else
/// the status line (or "réponse tronquée") as the error.
pub fn parse_response(resp: &[u8]) -> (r: Result<Vec<u8>, String>)
    ensures
        match r {
            Ok(b) => response_outcome(resp@) == Ok::<Seq<u8>, Seq<char>>(b@),
            Err(e) => response_outcome(resp@) == Err::<Seq<u8>, Seq<char>>(e@),
        },
{
    let sep_bytes: [u8; 4] = [0x0D, 0x0A, 0x0D, 0x0A];
    assert(sep_bytes@ =~= blank_line());
    match find_subslice(resp, sep_bytes.as_slice()) {
        None => {
            proof { lemma_no_blank_line(resp@); }
            let mut e = String::new();
            push_str(&mut e, "réponse tronquée");
            Err(e)
        },
        Some(sep) => {
            proof { lemma_first_blank_line(resp@, sep as int); }
            let mut line: Vec<u8> = Vec::new();
            let mut i: usize = 0;
            let ghost head = resp@.take(sep as int);
            assert(head.skip(0) =~= head);
            assert(occurs_at(resp@, blank_line(), sep as int));
            while i < sep && resp[i] != 0x0D
                invariant
                    i <= sep <= resp@.len(),
                    sep + 4 <= resp@.len(),
                    head == resp@.take(sep as int),
                    before_cr(head) == line@ + before_cr(head.skip(i as int)),
                decreases sep - i,
            {
                assert(head.skip(i as int)[0] == resp@[i as int]);
                assert(head.skip(i as int).drop_first() =~= head.skip(i + 1));
                line.push(resp[i]);
                assert(line@ + before_cr(head.skip(i + 1)) =~= line@.drop_last() + (seq![resp@[i as int]] + before_cr(head.skip(i + 1))));
                i = i + 1;
            }
            proof {
                if i < sep {
                    assert(head.skip(i as int)[0] == resp@[i as int]);
                } else {
                    assert(head.skip(i as int).len() == 0);
                }
                assert(before_cr(head) =~= line@);
            }
            assert(head.skip(0) =~= head);
            let status = utf8_lossy(line.as_slice());
            if !is_ok_status(status.as_str()) {
                return Err(status);
            }
            let mut body: Vec<u8> = Vec::new();
            let rl: usize = resp.len();
            let mut k: usize = sep + 4;
            while k < resp.len()
                invariant
                    sep + 4 <= k <= resp@.len(),
                    body@ == resp@.subrange(sep + 4, k as int),
                decreases resp@.len() - k,
            {
                body.push(resp[k]);
                assert(resp@.subrange(sep + 4, k + 1) =~= resp@.subrange(sep + 4, k as int).push(resp@[k as int]));
                k = k + 1;
            }
            assert(body@ =~= resp@.skip(sep + 4));
            Ok(body)
        },
    }
}

/// Byte offset of the `n`-th character of `s` (its length when `s` is
/// shorter): where `String::insert` and `String::remove` need it.
pub fn byte_index(s: &str, n: usize) -> (i: usize)
    ensures
        i == vstd::utf8::encode_utf8(if s@.len() <= n { s@ } else { s@.take(n as int) }).len() as usize,
{
    let t = take_chars(s, n);
    t.as_str().len()
}


/// Backspace undoes a character just typed: the field and the cursor are
/// back as they were.
pub proof fn law_backspace_undoes_typing(input: Seq<char>, cursor: nat, c: char)
    requires
        cursor <= input.len(),
    ensures
        ({
            let (i1, c1) = edit_spec(input, cursor, EditKey::Char(c));
            edit_spec(i1, c1, EditKey::Backspace) == (input, cursor)
        }),
{
    let (i1, c1) = edit_spec(input, cursor, EditKey::Char(c));
    assert(i1.remove(cursor as int) =~= input);
}

} // verus!
