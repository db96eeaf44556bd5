//! Screen logic of the conversation daemon: layout, status bar, transcript.
//!
//! The daemon shows a conversation thread: questions (green) and answers
//! (white) pile up, paginated. This module holds the pure parts: where
//! things go on the 40x24 grid, the row-0 status line, the flattening of
//! answers into lines and the bounded, paginated transcript.
use vstd::prelude::*;
use crate::backend::{net_label, Net};
use crate::chars::{char_is_whitespace, is_whitespace, push_char, push_str, string_of, chars_of, strings_view, lemma_strings_view_push, take_chars};
use vstd::string::StrSliceExecFns;
use crate::constants::Color;
use crate::videotex::{law_wrap_lines_fit, wrap, wrap_spec};

verus! {

/// Screen width.
pub const COLS: usize = 40;
/// First row of content (the thread).
pub const CONTENT_ROW: u8 = 3;
/// Thread lines per page (rows 3..20).
pub const PAGE_ROWS: usize = 18;
/// Longest thread kept, in whole pages: the oldest turns are forgotten
/// beyond it.
pub const MAX_TRANSCRIPT: usize = 252;
/// Last row: navigation footer.
pub const FOOTER_ROW: u8 = 24;
/// "VOUS :" label row, also the waiting line in chat mode.
pub const CHAT_LABEL_ROW: u8 = 21;
/// Input row in chat mode.
pub const CHAT_INPUT_ROW: u8 = 22;
/// Height of the chat input field.
pub const CHAT_INPUT_ROWS: usize = 1;
/// Row of the "RECHERCHE :" label on the home screen.
pub const LABEL_ROW: u8 = 11;
/// First row of the home input area.
pub const AREA_ROW: u8 = 12;
/// Width of the input area.
pub const AREA_COLS: usize = 40;
/// Height of the home input area (rows 12..15).
pub const AREA_ROWS: usize = 4;
/// Message row (errors), right under the input area.
pub const MSG_ROW: u8 = 16;
/// Row of the "GUIDE = services" hint.
pub const HINT_ROW: u8 = 18;
/// Row of the waiting animation on the home screen.
pub const ANIM_ROW: u8 = 20;
/// Column of the waiting text.
pub const ANIM_COL: u8 = 9;
/// Longest title: beyond it the "p n/m" pager would overflow the header.
pub const TITLE_MAX: usize = 24;
/// Useful width of row 0: its last columns belong to the Minitel's own
/// indicator.
pub const STATUS_WIDTH: usize = 37;
/// Chat footer (38 characters: the colour attribute takes one cell).
pub const CHAT_FOOTER: &'static str = "ENVOI  SUITE/RETOUR=page  SOMMAIRE=raz";

/// Decimal digits of `n`.
pub open spec fn decimal(n: nat) -> Seq<char>
    decreases n,
{
    if n < 10 {
        seq![(0x30 + n) as char]
    } else {
        decimal(n / 10).push((0x30 + n % 10) as char)
    }
}

/// Appends the decimal digits of `n`.
pub fn push_decimal(s: &mut String, n: u64)
    ensures
        final(s)@ == old(s)@ + decimal(n as nat),
    decreases n,
{
    if n >= 10 {
        push_decimal(s, n / 10);
    }
    let d = (n % 10) as u8;
    let ghost before = s@;
    push_char(s, (0x30 + d) as char);
    assert(s@ =~= old(s)@ + decimal(n as nat));
}

/// `count` spaces.
pub open spec fn spaces(count: nat) -> Seq<char>
    decreases count,
{
    if count == 0 {
        seq![]
    } else {
        spaces((count - 1) as nat).push(' ')
    }
}

/// Left part of the status line: version, speed, network indicator.
pub open spec fn status_base(baud: u32, net: Net) -> Seq<char> {
    "miniteld 1.0  "@ + decimal(baud as nat) + " bd  "@ + net_label(net)
}

/// Status line of row 0: the base, at least one space, the clock aligned on
/// the right of the useful width, cut to that width.
pub open spec fn status_text(baud: u32, net: Net, clock: Seq<char>) -> Seq<char> {
    let base = status_base(baud, net);
    let pad: int = STATUS_WIDTH - (base.len() + clock.len());
    let line = base + spaces(if pad > 1 { pad as nat } else { 1 }) + clock;
    if line.len() <= STATUS_WIDTH { line } else { line.take(STATUS_WIDTH as int) }
}

fn push_spaces(s: &mut String, count: usize)
    ensures
        final(s)@ == old(s)@ + spaces(count as nat),
{
    let mut k: usize = 0;
    while k < count
        invariant
            k <= count,
            s@ == old(s)@ + spaces(k as nat),
        decreases count - k,
    {
        push_char(s, ' ');
        k = k + 1;
        assert(s@ =~= old(s)@ + spaces(k as nat));
    }
}

/// Status line of row 0 for a given clock text.
pub fn status_line_at(baud: u32, net: Net, clock: &str) -> (s: String)
    ensures
        s@ == status_text(baud, net, clock@),
{
    let mut s = String::new();
    push_str(&mut s, "miniteld 1.0  ");
    push_decimal(&mut s, baud as u64);
    push_str(&mut s, " bd  ");
    push_str(&mut s, net.label());
    assert(s@ =~= status_base(baud, net));
    let base_len = s.as_str().unicode_len();
    let clock_len = clock.unicode_len();
    let total: u128 = (base_len as u128) + (clock_len as u128);
    let pad: usize = if total < 36 { (37 - total) as usize } else { 1 };
    push_spaces(&mut s, pad);
    push_str(&mut s, clock);
    take_chars(s.as_str(), STATUS_WIDTH)
}

/// `10^k`.
pub open spec fn pow10(k: nat) -> nat
    decreases k,
{
    if k == 0 { 1 } else { 10 * pow10((k - 1) as nat) }
}

proof fn lemma_decimal_len(n: nat, k: nat)
    requires
        k >= 1,
        n < pow10(k),
    ensures
        1 <= decimal(n).len() <= k,
    decreases n,
{
    if n >= 10 {
        assert(k >= 2) by {
            if k == 1 {
                assert(pow10(1) == 10) by { reveal_with_fuel(pow10, 2); }
            }
        }
        assert(n / 10 < pow10((k - 1) as nat)) by (nonlinear_arith)
            requires n < pow10(k), pow10(k) == 10 * pow10((k - 1) as nat);
        lemma_decimal_len(n / 10, (k - 1) as nat);
    }
}

proof fn lemma_spaces_len(count: nat)
    ensures
        spaces(count).len() == count,
    decreases count,
{
    if count > 0 {
        lemma_spaces_len((count - 1) as nat);
    }
}

/// Layout of row 0 for a five-character clock (`HH:MM`): the line never
/// exceeds the useful width and always shows the whole network label; with a
/// speed of at most six digits it fills the width exactly and ends with the
/// clock, which therefore never moves.
pub proof fn law_status_line_layout(baud: u32, net: Net, clock: Seq<char>)
    requires
        clock.len() == 5,
    ensures
        status_text(baud, net, clock).len() <= STATUS_WIDTH,
        ({
            let at: int = 19 + decimal(baud as nat).len() as int;
            status_text(baud, net, clock).subrange(at, at + 6) == net_label(net)
        }),
        baud < 1000000 ==> status_text(baud, net, clock).len() == STATUS_WIDTH
            && status_text(baud, net, clock).subrange(32, 37) == clock,
{
    reveal_with_fuel(pow10, 11);
    lemma_decimal_len(baud as nat, 10);
    if baud < 1000000 {
        lemma_decimal_len(baud as nat, 6);
    }
    let d = decimal(baud as nat);
    let base = status_base(baud, net);
    assert(net_label(net).len() == 6) by {
        reveal_strlit("WEB ??");
        reveal_strlit("WEB OK");
        reveal_strlit("WEB KO");
        reveal_strlit("SRV KO");
    }
    reveal_strlit("miniteld 1.0  ");
    reveal_strlit(" bd  ");
    assert(base.len() == 25 + d.len());
    let pad: int = STATUS_WIDTH - (base.len() + clock.len());
    let n: nat = if pad > 1 { pad as nat } else { 1 };
    lemma_spaces_len(n);
    let line = base + spaces(n) + clock;
    let at: int = 19 + d.len() as int;
    assert(line.subrange(at, at + 6) =~= net_label(net));
    if line.len() > STATUS_WIDTH {
        assert(line.take(STATUS_WIDTH as int).subrange(at, at + 6) =~= line.subrange(at, at + 6));
    }
    if baud < 1000000 {
        assert(line.len() == 37);
        assert(line.subrange(32, 37) =~= clock);
    }
}

/// Two-digit text of `n < 100`.
pub open spec fn two_digits(n: int) -> Seq<char> {
    seq![(0x30 + n / 10) as char, (0x30 + n % 10) as char]
}

/// A local time as `HH:MM` (hours 00-23, minutes 00-59).
pub open spec fn is_clock_text(t: Seq<char>) -> bool {
    exists|h: int, m: int| 0 <= h < 24 && 0 <= m < 60 && t == two_digits(h) + seq![':'] + two_digits(m)
}

/// `chrono::Local::now().format("%H:%M").to_string()`: the local time, hours
/// and minutes each zero-padded to two digits (chrono's `%H` is 00-23 and
/// `%M` 00-59). Which time it is depends on the clock and the time zone, and
/// is not stated.
#[verifier::external_body]
fn local_clock() -> (t: String)
    ensures
        is_clock_text(t@),
{
    chrono::Local::now().format("%H:%M").to_string()
}

/// Status line of row 0 (version, speed, network indicator, local time),
/// fitted to the 37 useful columns.
pub fn status_line(baud: u32, net: Net) -> (s: String)
    ensures
        exists|clock: Seq<char>| is_clock_text(clock) && s@ == status_text(baud, net, clock),
{
    let t = local_clock();
    status_line_at(baud, net, t.as_str())
}

/// A line ended by `\r\n` loses its `\r`.
pub open spec fn strip_cr(l: Seq<char>) -> Seq<char> {
    if l.len() > 0 && l.last() == '\r' { l.drop_last() } else { l }
}

/// The characters of `t` after its last line feed.
pub open spec fn line_tail(t: Seq<char>) -> Seq<char>
    decreases t.len(),
{
    if t.len() == 0 {
        seq![]
    } else if t.last() == '\n' {
        seq![]
    } else {
        line_tail(t.drop_last()).push(t.last())
    }
}

/// The lines of `t` ended by a line feed, without their `\r\n` or `\n`.
pub open spec fn ended_lines(t: Seq<char>) -> Seq<Seq<char>>
    decreases t.len(),
{
    if t.len() == 0 {
        seq![]
    } else if t.last() == '\n' {
        ended_lines(t.drop_last()).push(strip_cr(line_tail(t.drop_last())))
    } else {
        ended_lines(t.drop_last())
    }
}

/// The lines of `t` as `str::lines` gives them: split at `\n` or `\r\n`,
/// the final line ending being optional.
pub open spec fn text_lines(t: Seq<char>) -> Seq<Seq<char>> {
    if line_tail(t).len() > 0 { ended_lines(t).push(line_tail(t)) } else { ended_lines(t) }
}

/// The lines of `t` as `str::lines` gives them.
pub fn split_lines(t: &str) -> (out: Vec<String>)
    ensures
        strings_view(out@) == text_lines(t@),
{
    let mut out: Vec<String> = Vec::new();
    let mut seg: Vec<char> = Vec::new();
    assert(strings_view(out@) =~= Seq::<Seq<char>>::empty());
    for c in it: t.chars()
        invariant
            it.seq() == t@,
            seg@ == line_tail(t@.take(it.index() as int)),
            strings_view(out@) == ended_lines(t@.take(it.index() as int)),
    {
        let ghost p = t@.take(it.index() as int);
        assert(c == t@[it.index()]);
        assert(t@.take(it.index() + 1).drop_last() =~= p);
        assert(t@.take(it.index() + 1).last() == c);
        if c == '\n' {
            if seg.len() > 0 && seg[seg.len() - 1] == '\r' {
                seg.pop();
            }
            let l = string_of(seg.as_slice());
            proof { lemma_strings_view_push(out@, l); }
            out.push(l);
            seg = Vec::new();
            assert(seg@ =~= line_tail(t@.take(it.index() + 1)));
        } else {
            seg.push(c);
        }
    }
    assert(t@.take(t@.len() as int) =~= t@);
    if seg.len() > 0 {
        let l = string_of(seg.as_slice());
        proof { lemma_strings_view_push(out@, l); }
        out.push(l);
    }
    out
}

/// `t` without its trailing whitespace.
pub open spec fn trim_end_spec(t: Seq<char>) -> Seq<char>
    decreases t.len(),
{
    if t.len() > 0 && char_is_whitespace(t.last()) {
        trim_end_spec(t.drop_last())
    } else {
        t
    }
}

/// `t` without its leading whitespace.
pub open spec fn trim_start_spec(t: Seq<char>) -> Seq<char>
    decreases t.len(),
{
    if t.len() > 0 && char_is_whitespace(t[0]) {
        trim_start_spec(t.drop_first())
    } else {
        t
    }
}

/// `t` without its leading and trailing whitespace (`str::trim`).
pub open spec fn trim_spec(t: Seq<char>) -> Seq<char> {
    trim_end_spec(trim_start_spec(t))
}

/// `t` without its leading and trailing whitespace.
pub fn trim_text(t: &str) -> (r: String)
    ensures
        r@ == trim_spec(t@),
{
    let v = chars_of(t);
    let mut i: usize = 0;
    assert(v@.skip(0) =~= v@);
    while i < v.len() && is_whitespace(v[i])
        invariant
            i <= v@.len(),
            v@ == t@,
            trim_start_spec(v@.skip(i as int)) == trim_start_spec(v@),
        decreases v@.len() - i,
    {
        assert(v@.skip(i as int).drop_first() =~= v@.skip(i + 1));
        i = i + 1;
    }
    let mut rest: Vec<char> = Vec::new();
    let mut k: usize = i;
    while k < v.len()
        invariant
            i <= k <= v@.len(),
            rest@ == v@.subrange(i as int, k as int),
        decreases v@.len() - k,
    {
        rest.push(v[k]);
        assert(v@.subrange(i as int, k + 1) =~= v@.subrange(i as int, k as int).push(v@[k as int]));
        k = k + 1;
    }
    assert(rest@ =~= v@.skip(i as int));
    let e = trim_end_chars(&rest);
    string_of(e.as_slice())
}

/// Screen lines of one answer line: an empty line stays one empty line, any
/// other is wrapped on 40 columns.
pub open spec fn answer_line_rows(l: Seq<char>) -> Seq<Seq<char>> {
    let t = trim_end_spec(l);
    if t.len() == 0 { seq![seq![]] } else { wrap_spec(t, COLS as nat) }
}

/// Screen lines of a sequence of answer lines, in order.
pub open spec fn rows_of(ls: Seq<Seq<char>>) -> Seq<Seq<char>>
    decreases ls.len(),
{
    if ls.len() == 0 {
        seq![]
    } else {
        rows_of(ls.drop_last()) + answer_line_rows(ls.last())
    }
}

proof fn lemma_rows_of_push(ls: Seq<Seq<char>>, x: Seq<char>)
    ensures
        rows_of(ls.push(x)) == rows_of(ls) + answer_line_rows(x),
{
    assert(ls.push(x).drop_last() =~= ls);
}

/// Screen lines of an answer: its lines, trimmed on the right and wrapped,
/// in order.
pub open spec fn answer_rows(text: Seq<char>) -> Seq<Seq<char>> {
    rows_of(text_lines(text))
}

/// The texts of coloured lines.
pub open spec fn line_texts(v: Seq<(Color, String)>) -> Seq<Seq<char>> {
    v.map_values(|p: (Color, String)| p.1@)
}

fn trim_end_chars(l: &Vec<char>) -> (t: Vec<char>)
    ensures
        t@ == trim_end_spec(l@),
{
    let mut n = l.len();
    assert(l@.take(n as int) =~= l@);
    while n > 0 && is_whitespace(l[n - 1])
        invariant
            n <= l@.len(),
            trim_end_spec(l@.take(n as int)) == trim_end_spec(l@),
        decreases n,
    {
        assert(l@.take(n as int).drop_last() =~= l@.take(n - 1));
        n = n - 1;
    }
    let mut t: Vec<char> = Vec::new();
    let mut k: usize = 0;
    while k < n
        invariant
            k <= n <= l@.len(),
            t@ == l@.take(k as int),
        decreases n - k,
    {
        t.push(l[k]);
        assert(l@.take(k + 1) =~= l@.take(k as int).push(l@[k as int]));
        k = k + 1;
    }
    assert(l@.take(n as int) =~= t@);
    t
}

fn push_answer_line(out: &mut Vec<(Color, String)>, l: &Vec<char>)
    ensures
        line_texts(final(out)@) == line_texts(old(out)@) + answer_line_rows(l@),
        forall|i: int| 0 <= i < final(out)@.len() ==> (#[trigger] final(out)@[i]).0 == Color::White
            || i < old(out)@.len() && final(out)@[i] == old(out)@[i],
        final(out)@.len() >= old(out)@.len(),
        forall|i: int| 0 <= i < old(out)@.len() ==> #[trigger] final(out)@[i] == old(out)@[i],
{
    let t = trim_end_chars(l);
    let ghost out0 = out@;
    if t.len() == 0 {
        out.push((Color::White, String::new()));
        assert(line_texts(out@) =~= line_texts(out0) + answer_line_rows(l@));
    } else {
        let ts = string_of(t.as_slice());
        let rows = wrap(ts.as_str(), COLS);
        let mut j: usize = 0;
        while j < rows.len()
            invariant
                j <= rows@.len(),
                strings_view(rows@) == wrap_spec(t@, COLS as nat),
                out@.len() == out0.len() + j,
                forall|i: int| 0 <= i < out0.len() ==> #[trigger] out@[i] == out0[i],
                forall|i: int| out0.len() <= i < out@.len() ==> (#[trigger] out@[i]).0 == Color::White,
                line_texts(out@) == line_texts(out0) + strings_view(rows@).take(j as int),
            decreases rows@.len() - j,
        {
            let ghost before = out@;
            out.push((Color::White, rows[j].clone()));
            assert(strings_view(rows@)[j as int] == rows@[j as int]@);
            assert(line_texts(out@) =~= line_texts(before).push(rows@[j as int]@));
            assert(strings_view(rows@).take(j + 1) =~= strings_view(rows@).take(j as int).push(rows@[j as int]@));
            j = j + 1;
        }
        assert(strings_view(rows@).take(rows@.len() as int) =~= strings_view(rows@));
    }
}

/// Flattens an answer (already Videotex-friendly) into lines of at most 40
/// columns, all in white: in a thread the colour tells the speaker apart.
pub fn wrap_answer(text: &str) -> (out: Vec<(Color, String)>)
    ensures
        line_texts(out@) == answer_rows(text@),
        forall|i: int| 0 <= i < out@.len() ==> (#[trigger] out@[i]).0 == Color::White,
{
    let mut out: Vec<(Color, String)> = Vec::new();
    let mut seg: Vec<char> = Vec::new();
    for c in it: text.chars()
        invariant
            it.seq() == text@,
            seg@ == line_tail(text@.take(it.index() as int)),
            line_texts(out@) == rows_of(ended_lines(text@.take(it.index() as int))),
            forall|i: int| 0 <= i < out@.len() ==> (#[trigger] out@[i]).0 == Color::White,
    {
        let ghost t = text@.take(it.index() as int);
        assert(c == text@[it.index()]);
        assert(text@.take(it.index() + 1).drop_last() =~= t);
        assert(text@.take(it.index() + 1).last() == c);
        if c == '\n' {
            if seg.len() > 0 && seg[seg.len() - 1] == '\r' {
                seg.pop();
            }
            assert(seg@ == strip_cr(line_tail(t)));
            let ghost before = out@;
            push_answer_line(&mut out, &seg);
            assert(ended_lines(text@.take(it.index() + 1)) == ended_lines(t).push(strip_cr(line_tail(t))));
            proof { lemma_rows_of_push(ended_lines(t), seg@); }
            seg = Vec::new();
            assert(seg@ =~= line_tail(text@.take(it.index() + 1)));
        } else {
            seg.push(c);
        }
    }
    assert(text@.take(text@.len() as int) =~= text@);
    if seg.len() > 0 {
        push_answer_line(&mut out, &seg);
        assert(text_lines(text@) == ended_lines(text@).push(line_tail(text@)));
        proof { lemma_rows_of_push(ended_lines(text@), seg@); }
    }
    out
}

/// Coloured lines as (colour, characters).
pub open spec fn colored_view(v: Seq<(Color, String)>) -> Seq<(Color, Seq<char>)> {
    v.map_values(|p: (Color, String)| (p.0, p.1@))
}

/// Number of pages of a thread of `len` lines (at least one).
pub open spec fn pages_of(len: nat) -> nat {
    if len == 0 { 1 } else { ((len + PAGE_ROWS - 1) / (PAGE_ROWS as int)) as nat }
}

/// Lines of a question in the thread: wrapped on 38 columns (room for the
/// prefix), the first prefixed by `> `, the others indented, all green.
pub open spec fn question_rows(q: Seq<char>) -> Seq<(Color, Seq<char>)> {
    let w = wrap_spec(q, (COLS - 2) as nat);
    Seq::new(w.len(), |i: int| (Color::Green, (if i == 0 { "> "@ } else { "  "@ }) + w[i]))
}

/// Lines of an answer in the thread, all white.
pub open spec fn white_rows(rows: Seq<Seq<char>>) -> Seq<(Color, Seq<char>)> {
    Seq::new(rows.len(), |i: int| (Color::White, rows[i]))
}

/// The thread after one more turn, before trimming: a blank separator
/// between turns, the question (if any), then the answer.
pub open spec fn with_turn(lines: Seq<(Color, Seq<char>)>, question: Option<Seq<char>>, answer: Seq<char>) -> Seq<(Color, Seq<char>)> {
    (if lines.len() > 0 { lines.push((Color::White, Seq::<char>::empty())) } else { lines })
        + (match question { Some(q) => question_rows(q), None => seq![] })
        + white_rows(answer_rows(answer))
}

/// Keeps the last `MAX_TRANSCRIPT` lines.
pub open spec fn capped(lines: Seq<(Color, Seq<char>)>) -> Seq<(Color, Seq<char>)> {
    if lines.len() > MAX_TRANSCRIPT { lines.skip(lines.len() - MAX_TRANSCRIPT) } else { lines }
}

/// Model of a [`Transcript`].
pub struct TranscriptView {
    pub lines: Seq<(Color, Seq<char>)>,
    pub page: nat,
}

/// The conversation thread, flattened into coloured lines, and the page
/// shown.
pub struct Transcript {
    lines: Vec<(Color, String)>,
    page: usize,
}

impl View for Transcript {
    type V = TranscriptView;

    closed spec fn view(&self) -> TranscriptView {
        TranscriptView { lines: colored_view(self.lines@), page: self.page as nat }
    }
}

proof fn lemma_colored_push(v: Seq<(Color, String)>, p: (Color, String))
    ensures
        colored_view(v.push(p)) == colored_view(v).push((p.0, p.1@)),
{
    assert(colored_view(v.push(p)) =~= colored_view(v).push((p.0, p.1@)));
}

fn pages_for(len: usize) -> (n: usize)
    ensures
        n == pages_of(len as nat),
{
    if len == 0 {
        1
    } else {
        (len - 1) / PAGE_ROWS + 1
    }
}

/// The page shown is a page of the thread, which is bounded, and whose
/// lines fit the screen.
pub open spec fn transcript_wf(t: TranscriptView) -> bool {
    &&& t.page < pages_of(t.lines.len())
    &&& t.lines.len() <= MAX_TRANSCRIPT
    &&& thread_fits(t.lines)
}

impl Transcript {
    /// The page shown is a page of the thread, which is bounded.
    pub open spec fn wf(&self) -> bool {
        transcript_wf(self@)
    }

    /// An empty thread, on its first page.
    pub fn new() -> (t: Self)
        ensures
            t.wf(),
            t@.lines.len() == 0,
            t@.page == 0,
    {
        let t = Transcript { lines: Vec::new(), page: 0 };
        assert(colored_view(t.lines@) =~= Seq::<(Color, Seq<char>)>::empty());
        t
    }

    /// Number of pages (at least one).
    pub fn pages(&self) -> (n: usize)
        ensures
            n == pages_of(self@.lines.len()),
    {
        pages_for(self.lines.len())
    }

    /// Index of the last page.
    pub fn last_page(&self) -> (n: usize)
        ensures
            n == pages_of(self@.lines.len()) - 1,
    {
        self.pages() - 1
    }

    /// Index of the page shown.
    pub fn page(&self) -> (n: usize)
        ensures
            n == self@.page,
    {
        self.page
    }

    /// Number of lines of the thread.
    pub fn len(&self) -> (n: usize)
        ensures
            n == self@.lines.len(),
    {
        self.lines.len()
    }

    /// Line `i` of the thread.
    pub fn line(&self, i: usize) -> (l: &(Color, String))
        requires
            i < self@.lines.len(),
        ensures
            (l.0, l.1@) == self@.lines[i as int],
    {
        &self.lines[i]
    }

    /// Forgets the whole thread (new conversation).
    pub fn clear(&mut self)
        ensures
            final(self).wf(),
            final(self)@.lines.len() == 0,
            final(self)@.page == 0,
    {
        self.lines.clear();
        self.page = 0;
        assert(colored_view(self.lines@) =~= Seq::<(Color, Seq<char>)>::empty());
    }

    /// Next page, when there is one.
    pub fn next_page(&mut self) -> (moved: bool)
        requires
            old(self).wf(),
        ensures
            final(self).wf(),
            final(self)@.lines == old(self)@.lines,
            moved == (old(self)@.page + 1 < pages_of(old(self)@.lines.len())),
            final(self)@.page == if moved { old(self)@.page + 1 } else { old(self)@.page },
    {
        if self.page + 1 < self.pages() {
            self.page = self.page + 1;
            true
        } else {
            false
        }
    }

    /// Previous page, when there is one.
    pub fn prev_page(&mut self) -> (moved: bool)
        requires
            old(self).wf(),
        ensures
            final(self).wf(),
            final(self)@.lines == old(self)@.lines,
            moved == (old(self)@.page > 0),
            final(self)@.page == if moved { (old(self)@.page - 1) as nat } else { old(self)@.page },
    {
        if self.page > 0 {
            self.page = self.page - 1;
            true
        } else {
            false
        }
    }

    /// Adds a turn to the thread (separator, question, answer), forgets the
    /// oldest lines beyond `MAX_TRANSCRIPT`, and shows the last page.
    pub fn push_turn(&mut self, question: Option<&str>, answer: &str)
        requires
            old(self).wf(),
        ensures
            final(self).wf(),
            final(self)@.lines == capped(with_turn(old(self)@.lines, match question {
                Some(q) => Some(q@),
                None => None,
            }, answer@)),
            final(self)@.page == pages_of(final(self)@.lines.len()) - 1,
    {
        let ghost l0 = self@.lines;
        proof {
            law_thread_lines_fit(l0, match question {
                Some(q) => Some(q@),
                None => None,
            }, answer@);
        }
        if self.lines.len() > 0 {
            let blank = (Color::White, String::new());
            proof { lemma_colored_push(self.lines@, blank); }
            self.lines.push(blank);
        }
        let ghost l1 = self@.lines;
        assert(l1 == (if l0.len() > 0 { l0.push((Color::White, Seq::<char>::empty())) } else { l0 }));
        let ghost qrows: Seq<(Color, Seq<char>)> = match question {
            Some(q) => question_rows(q@),
            None => seq![],
        };
        match question {
            Some(q) => {
                let rows = wrap(q, COLS - 2);
                let mut i: usize = 0;
                while i < rows.len()
                    invariant
                        i <= rows@.len(),
                        strings_view(rows@) == wrap_spec(q@, (COLS - 2) as nat),
                        qrows == question_rows(q@),
                        colored_view(self.lines@) == l1 + qrows.take(i as int),
                    decreases rows@.len() - i,
                {
                    let mut l = String::new();
                    if i == 0 {
                        push_str(&mut l, "> ");
                    } else {
                        push_str(&mut l, "  ");
                    }
                    push_str(&mut l, rows[i].as_str());
                    assert(strings_view(rows@)[i as int] == rows@[i as int]@);
                    assert((Color::Green, l@) == qrows[i as int]);
                    proof { lemma_colored_push(self.lines@, (Color::Green, l)); }
                    self.lines.push((Color::Green, l));
                    assert(qrows.take(i + 1) =~= qrows.take(i as int).push(qrows[i as int]));
                    i = i + 1;
                }
                assert(qrows.take(rows@.len() as int) =~= qrows);
            },
            None => {
                assert(l1 + qrows =~= l1);
            },
        }
        let ghost l2 = self@.lines;
        let ans = wrap_answer(answer);
        let ghost arows = white_rows(answer_rows(answer@));
        let mut j: usize = 0;
        while j < ans.len()
            invariant
                j <= ans@.len(),
                line_texts(ans@) == answer_rows(answer@),
                forall|k: int| 0 <= k < ans@.len() ==> (#[trigger] ans@[k]).0 == Color::White,
                arows == white_rows(answer_rows(answer@)),
                colored_view(self.lines@) == l2 + arows.take(j as int),
            decreases ans@.len() - j,
        {
            let p = (ans[j].0, ans[j].1.clone());
            assert(line_texts(ans@)[j as int] == ans@[j as int].1@);
            proof { lemma_colored_push(self.lines@, p); }
            self.lines.push(p);
            assert(arows.take(j + 1) =~= arows.take(j as int).push(arows[j as int]));
            j = j + 1;
        }
        assert(arows.take(ans@.len() as int) =~= arows);
        let ghost full = colored_view(self.lines@);
        assert(full == with_turn(l0, match question {
            Some(q) => Some(q@),
            None => None,
        }, answer@));
        if self.lines.len() > MAX_TRANSCRIPT {
            let drop = self.lines.len() - MAX_TRANSCRIPT;
            let mut kept: Vec<(Color, String)> = Vec::new();
            let mut k: usize = drop;
            while k < self.lines.len()
                invariant
                    drop <= k <= self@.lines.len(),
                    colored_view(self.lines@) == full,
                    colored_view(kept@) == full.subrange(drop as int, k as int),
                decreases self@.lines.len() - k,
            {
                let p = (self.lines[k].0, self.lines[k].1.clone());
                proof { lemma_colored_push(kept@, p); }
                kept.push(p);
                assert(full.subrange(drop as int, k + 1) =~= full.subrange(drop as int, k as int).push(full[k as int]));
                k = k + 1;
            }
            self.lines = kept;
            assert(colored_view(self.lines@) =~= capped(full));
        }
        self.page = self.last_page();
        proof {
            let n = self@.lines.len();
            if n > 0 {
                assert((n + PAGE_ROWS - 1) / (PAGE_ROWS as int) >= 1);
            }
        }
    }
}

/// A thread kept by [`Transcript::push_turn`] stays paginable: at most
/// `MAX_TRANSCRIPT` lines, which is a whole number of pages, and the last
/// page is never empty.
pub proof fn law_transcript_paginable(len: nat)
    requires
        0 < len <= MAX_TRANSCRIPT,
    ensures
        MAX_TRANSCRIPT % PAGE_ROWS == 0,
        pages_of(len) <= MAX_TRANSCRIPT / PAGE_ROWS,
        (pages_of(len) - 1) * PAGE_ROWS < len <= pages_of(len) * PAGE_ROWS,
{
    let k = pages_of(len);
    let q = (len - 1) / 18;
    vstd::arithmetic::div_mod::lemma_fundamental_div_mod(len - 1, 18);
    assert((len + 17) / 18 == q + 1) by {
        vstd::arithmetic::div_mod::lemma_fundamental_div_mod_converse((len + 17) as int, 18, q + 1, (len - 1) % 18);
    }
}


/// Every line of a thread fits the 40 columns of the screen.
pub open spec fn thread_fits(lines: Seq<(Color, Seq<char>)>) -> bool {
    forall|i: int| 0 <= i < lines.len() ==> #[trigger] lines[i].1.len() <= COLS
}

proof fn lemma_rows_of_fit(ls: Seq<Seq<char>>)
    ensures
        forall|i: int| 0 <= i < rows_of(ls).len() ==> #[trigger] rows_of(ls)[i].len() <= COLS,
    decreases ls.len(),
{
    if ls.len() > 0 {
        lemma_rows_of_fit(ls.drop_last());
        let t = trim_end_spec(ls.last());
        if t.len() > 0 {
            law_wrap_lines_fit(t, COLS as nat);
        }
        let a = rows_of(ls.drop_last());
        let b = answer_line_rows(ls.last());
        assert forall|i: int| 0 <= i < rows_of(ls).len() implies #[trigger] rows_of(ls)[i].len() <= COLS by {
            if i < a.len() {
                assert(rows_of(ls)[i] == a[i]);
            } else {
                assert(rows_of(ls)[i] == b[i - a.len()]);
            }
        }
    }
}

/// Answers and questions never widen the thread beyond the screen: a turn
/// added to a thread whose lines fit the 40 columns keeps every line within
/// them (questions are wrapped on 38 columns behind their two-column
/// prefix, answers on 40), and so does forgetting the oldest lines.
pub proof fn law_thread_lines_fit(lines: Seq<(Color, Seq<char>)>, question: Option<Seq<char>>, answer: Seq<char>)
    requires
        thread_fits(lines),
    ensures
        thread_fits(with_turn(lines, question, answer)),
        thread_fits(capped(with_turn(lines, question, answer))),
{
    let l1 = if lines.len() > 0 { lines.push((Color::White, Seq::<char>::empty())) } else { lines };
    let q = match question { Some(q) => question_rows(q), None => seq![] };
    let a = white_rows(answer_rows(answer));
    assert(thread_fits(l1));
    match question {
        Some(t) => {
            law_wrap_lines_fit(t, (COLS - 2) as nat);
            let w = wrap_spec(t, (COLS - 2) as nat);
            assert forall|i: int| 0 <= i < q.len() implies #[trigger] q[i].1.len() <= COLS by {
                assert(1 <= w[i].len() <= COLS - 2);
                assert(q[i].1 == (if i == 0 { "> "@ } else { "  "@ }) + w[i]);
                reveal_strlit("> ");
                reveal_strlit("  ");
            }
        },
        None => {},
    }
    lemma_rows_of_fit(text_lines(answer));
    assert(thread_fits(a));
    let all = with_turn(lines, question, answer);
    assert(all == l1 + q + a);
    assert forall|i: int| 0 <= i < all.len() implies #[trigger] all[i].1.len() <= COLS by {
        if i < l1.len() {
            assert(all[i] == l1[i]);
        } else if i < l1.len() + q.len() {
            assert(all[i] == q[i - l1.len()]);
        } else {
            assert(all[i] == a[i - l1.len() - q.len()]);
        }
    }
    let c = capped(all);
    if all.len() > MAX_TRANSCRIPT {
        assert forall|i: int| 0 <= i < c.len() implies #[trigger] c[i].1.len() <= COLS by {
            assert(c[i] == all[i + (all.len() - MAX_TRANSCRIPT)]);
        }
    }
}

} // verus!
