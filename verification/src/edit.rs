//! Multi-line input editor for the Minitel.
//!
//! A buffer of `char`s and a cursor position, projected on a rectangular area
//! of `cols` x `rows` cells. Lines wrap at a **fixed width** (every `cols`
//! characters), which keeps the cursor mapping simple and predictable.
//!
//! Handles insertion, erasing (Correction), arrows and Cancel. No I/O: the
//! daemon draws the result.
use vstd::prelude::*;
use crate::chars::{push_char, string_of};
use vstd::arithmetic::div_mod::{lemma_fundamental_div_mod, lemma_fundamental_div_mod_converse, lemma_mod_bound};

verus! {

/// Mathematical model of an [`Editor`].
pub struct EditorView {
    /// The text typed so far.
    pub text: Seq<char>,
    /// Cursor index in the text (`0..=text.len()`).
    pub cursor: nat,
    /// Width of the area.
    pub cols: nat,
    /// Height of the area.
    pub rows: nat,
}

/// Number of characters the area holds.
pub open spec fn capacity_of(e: EditorView) -> nat {
    e.cols * e.rows
}

/// Effect of inserting `c` at the cursor: refused when the area is full.
pub open spec fn insert_spec(e: EditorView, c: char) -> (EditorView, bool) {
    if e.text.len() >= capacity_of(e) {
        (e, false)
    } else {
        (
            EditorView {
                text: e.text.insert(e.cursor as int, c),
                cursor: e.cursor + 1,
                cols: e.cols,
                rows: e.rows,
            },
            true,
        )
    }
}

/// Effect of erasing the character before the cursor: nothing at the start.
pub open spec fn backspace_spec(e: EditorView) -> (EditorView, bool) {
    if e.cursor == 0 {
        (e, false)
    } else {
        (
            EditorView {
                text: e.text.remove(e.cursor - 1),
                cursor: (e.cursor - 1) as nat,
                cols: e.cols,
                rows: e.rows,
            },
            true,
        )
    }
}

/// The same editor with another cursor position.
pub open spec fn with_cursor(e: EditorView, cursor: nat) -> EditorView {
    EditorView { text: e.text, cursor: cursor, cols: e.cols, rows: e.rows }
}

/// Line `i` of the fixed-width projection of `text` on `cols` columns.
pub open spec fn chunk(text: Seq<char>, cols: nat, i: int) -> Seq<char> {
    text.subrange(i * cols, if (i + 1) * cols <= text.len() { (i + 1) * cols } else { text.len() as int })
}

/// Number of lines of the projection of a non-empty text.
pub open spec fn chunk_count(len: nat, cols: nat) -> nat
    recommends
        cols > 0,
{
    ((len + cols - 1) / (cols as int)) as nat
}

/// With `cols > 0` and `(k - 1) * cols < len <= k * cols`, the projection of
/// `len` characters has `k` lines, and the last one is line `k - 1`.
pub proof fn lemma_chunk_count(len: nat, cols: nat, k: nat)
    requires
        cols > 0,
        k >= 1,
        (k - 1) * cols < len <= k * cols,
    ensures
        chunk_count(len, cols) == k,
        (len - 1) / (cols as int) == k - 1,
{
    assert(k * cols == (k - 1) * cols + cols) by (nonlinear_arith)
        requires k >= 1;
    let r = len - (k - 1) * cols - 1;
    lemma_fundamental_div_mod_converse(len + cols - 1, cols as int, k as int, r);
    lemma_fundamental_div_mod_converse(len - 1, cols as int, k - 1, r);
}

/// Well-formedness of an editor: the cursor lies in the text, the text fits
/// in the area, and the area's size is a `usize`.
pub open spec fn editor_wf(e: EditorView) -> bool {
    &&& e.cursor <= e.text.len()
    &&& e.text.len() <= capacity_of(e)
    &&& capacity_of(e) <= usize::MAX
}

/// Input editor: text buffer, cursor, and the size of its area.
pub struct Editor {
    buf: Vec<char>,
    cursor: usize,
    cols: usize,
    rows: usize,
}

impl View for Editor {
    type V = EditorView;

    closed spec fn view(&self) -> EditorView {
        EditorView {
            text: self.buf@,
            cursor: self.cursor as nat,
            cols: self.cols as nat,
            rows: self.rows as nat,
        }
    }
}

impl Editor {
    /// Well-formedness, kept by every operation.
    pub open spec fn wf(&self) -> bool {
        editor_wf(self@)
    }

    /// An empty editor on a `cols` x `rows` area.
    pub fn new(cols: usize, rows: usize) -> (e: Self)
        requires
            cols * rows <= usize::MAX,
        ensures
            e.wf(),
            e@ == (EditorView { text: Seq::<char>::empty(), cursor: 0, cols: cols as nat, rows: rows as nat }),
    {
        Editor { buf: Vec::new(), cursor: 0, cols, rows }
    }

    /// Number of characters the area holds (`cols * rows`).
    pub fn capacity(&self) -> (n: usize)
        requires
            self.wf(),
        ensures
            n == capacity_of(self@),
    {
        self.cols * self.rows
    }

    /// Changes the height of the input area (at least one line); the text is
    /// cut to the new capacity and the cursor kept inside it.
    ///
    /// The field is 4 lines on the home screen but a single line at the bottom
    /// of the chat screen: without this, a long input would overflow below the
    /// last line of the screen, which scrolls the whole Minitel display.
    pub fn set_rows(&mut self, rows: usize)
        requires
            old(self).wf(),
            old(self)@.cols * (if rows < 1 { 1 } else { rows }) <= usize::MAX,
        ensures
            final(self).wf(),
            final(self)@.rows == (if rows < 1 { 1 } else { rows }),
            final(self)@.cols == old(self)@.cols,
            final(self)@.text == (if old(self)@.text.len() <= capacity_of(final(self)@) {
                old(self)@.text
            } else {
                old(self)@.text.subrange(0, capacity_of(final(self)@) as int)
            }),
            final(self)@.cursor == (if old(self)@.cursor <= final(self)@.text.len() {
                old(self)@.cursor
            } else {
                final(self)@.text.len()
            }),
    {
        self.rows = if rows < 1 { 1 } else { rows };
        let cap = self.cols * self.rows;
        self.buf.truncate(cap);
        if self.cursor > self.buf.len() {
            self.cursor = self.buf.len();
        }
    }

    /// Is the text empty?
    pub fn is_empty(&self) -> (r: bool)
        ensures
            r == (self@.text.len() == 0),
    {
        self.buf.is_empty()
    }

    /// Is the cursor at the end of the text? (the "append" case, echoed
    /// directly)
    pub fn at_end(&self) -> (r: bool)
        ensures
            r == (self@.cursor == self@.text.len()),
    {
        self.cursor == self.buf.len()
    }

    /// Column of the cursor (0-based).
    pub fn cursor_col(&self) -> (c: usize)
        requires
            self@.cols > 0,
        ensures
            c == self@.cursor % self@.cols,
    {
        self.cursor % self.cols
    }

    /// The text typed.
    pub fn text(&self) -> (s: String)
        ensures
            s@ == self@.text,
    {
        string_of(self.buf.as_slice())
    }

    /// Empties the text.
    pub fn clear(&mut self)
        requires
            old(self).wf(),
        ensures
            final(self).wf(),
            final(self)@ == (EditorView { text: Seq::<char>::empty(), cursor: 0, cols: old(self)@.cols, rows: old(self)@.rows }),
    {
        self.buf.clear();
        self.cursor = 0;
    }

    /// Inserts a character at the cursor; `false` when the area is full.
    pub fn insert(&mut self, c: char) -> (ok: bool)
        requires
            old(self).wf(),
        ensures
            final(self).wf(),
            (final(self)@, ok) == insert_spec(old(self)@, c),
    {
        if self.buf.len() >= self.capacity() {
            return false;
        }
        self.buf.insert(self.cursor, c);
        self.cursor += 1;
        true
    }

    /// Erases the character **before** the cursor (Correction); `false` when
    /// there is none.
    pub fn backspace(&mut self) -> (ok: bool)
        requires
            old(self).wf(),
        ensures
            final(self).wf(),
            (final(self)@, ok) == backspace_spec(old(self)@),
    {
        if self.cursor == 0 {
            return false;
        }
        self.cursor -= 1;
        self.buf.remove(self.cursor);
        true
    }

    /// Cursor one character left (stays at the start).
    pub fn left(&mut self)
        requires
            old(self).wf(),
        ensures
            final(self).wf(),
            final(self)@ == with_cursor(old(self)@, if old(self)@.cursor == 0 { 0 } else { (old(self)@.cursor - 1) as nat }),
    {
        self.cursor = if self.cursor == 0 { 0 } else { self.cursor - 1 };
    }

    /// Cursor one character right (stays at the end).
    pub fn right(&mut self)
        requires
            old(self).wf(),
        ensures
            final(self).wf(),
            final(self)@ == with_cursor(old(self)@, if old(self)@.cursor < old(self)@.text.len() { old(self)@.cursor + 1 } else { old(self)@.cursor }),
    {
        if self.cursor < self.buf.len() {
            self.cursor += 1;
        }
    }

    /// Cursor one line up (to the start when on the first line).
    pub fn up(&mut self)
        requires
            old(self).wf(),
        ensures
            final(self).wf(),
            final(self)@ == with_cursor(old(self)@, if old(self)@.cursor >= old(self)@.cols { (old(self)@.cursor - old(self)@.cols) as nat } else { 0 }),
    {
        self.cursor = if self.cursor >= self.cols { self.cursor - self.cols } else { 0 };
    }

    /// Cursor one line down (to the end when on the last line).
    pub fn down(&mut self)
        requires
            old(self).wf(),
            old(self)@.cursor + old(self)@.cols <= usize::MAX,
        ensures
            final(self).wf(),
            final(self)@ == with_cursor(old(self)@, if old(self)@.cursor + old(self)@.cols <= old(self)@.text.len() { old(self)@.cursor + old(self)@.cols } else { old(self)@.text.len() }),
    {
        let n = self.cursor + self.cols;
        self.cursor = if n <= self.buf.len() { n } else { self.buf.len() };
    }

    /// Position (line, column) of the cursor in the area, 0-based.
    pub fn cursor_rc(&self) -> (rc: (usize, usize))
        requires
            self@.cols > 0,
        ensures
            rc.0 == self@.cursor / self@.cols,
            rc.1 == self@.cursor % self@.cols,
            rc.0 * self@.cols + rc.1 == self@.cursor,
            rc.1 < self@.cols,
    {
        proof {
            lemma_fundamental_div_mod(self.cursor as int, self.cols as int);
            assert((self.cursor as int / self.cols as int) * self.cols == self.cols * (self.cursor as int / self.cols as int)) by (nonlinear_arith);
        }
        (self.cursor / self.cols, self.cursor % self.cols)
    }

    /// Last line (0-based) holding text (0 when empty).
    pub fn last_row(&self) -> (r: usize)
        requires
            self@.cols > 0 || self@.text.len() == 0,
        ensures
            r == (if self@.text.len() == 0 { 0 } else { (self@.text.len() - 1) / (self@.cols as int) }),
    {
        if self.buf.is_empty() {
            0
        } else {
            (self.buf.len() - 1) / self.cols
        }
    }

    /// Projects the text on lines of width `cols` (fixed-width cut); a single
    /// empty line when the text is empty.
    pub fn lines(&self) -> (out: Vec<String>)
        requires
            self.wf(),
            self@.cols > 0 || self@.text.len() == 0,
        ensures
            self@.text.len() == 0 ==> out@.len() == 1 && out@[0]@ == Seq::<char>::empty(),
            self@.text.len() > 0 ==> {
                &&& out@.len() == chunk_count(self@.text.len(), self@.cols)
                &&& forall|i: int| 0 <= i < out@.len() ==> #[trigger] out@[i]@ == chunk(self@.text, self@.cols, i)
            },
    {
        let mut out: Vec<String> = Vec::new();
        if self.buf.is_empty() {
            out.push(String::new());
            return out;
        }
        let len = self.buf.len();
        let cols = self.cols;
        let ghost text = self.buf@;
        let mut start: usize = 0;
        assert(out@.len() == 0);
        assert(0 * cols == 0) by (nonlinear_arith);
        while start < len
            invariant
                len == text.len() > 0,
                cols == self@.cols > 0,
                text == self@.text,
                start <= len,
                start == (if out@.len() * cols <= len { out@.len() * cols } else { len as int }),
                out@.len() > 0 ==> (out@.len() - 1) * cols < len,
                forall|i: int| 0 <= i < out@.len() ==> #[trigger] out@[i]@ == chunk(text, cols as nat, i),
            decreases len - start,
        {
            let end: usize = if cols <= len - start { start + cols } else { len };
            let mut line = String::new();
            let mut j: usize = start;
            while j < end
                invariant
                    start <= j <= end <= len == text.len(),
                    text == self.buf@,
                    line@ == text.subrange(start as int, j as int),
                decreases end - j,
            {
                push_char(&mut line, self.buf[j]);
                assert(text.subrange(start as int, j + 1) =~= text.subrange(start as int, j as int).push(text[j as int]));
                j = j + 1;
            }
            let ghost k = out@.len();
            assert((k + 1) * cols == k * cols + cols) by (nonlinear_arith);
            assert(line@ == chunk(text, cols as nat, k as int));
            let ghost prev = out@;
            out.push(line);
            start = end;
            assert(out@.len() * cols == (k + 1) * cols);
            assert forall|i: int| 0 <= i < out@.len() implies #[trigger] out@[i]@ == chunk(text, cols as nat, i) by {
                if i < k {
                    assert(out@[i] == prev[i]);
                }
            }
        }
        proof {
            lemma_chunk_count(len as nat, cols as nat, out@.len());
        }
        out
    }
}

/// The lines of the projection, concatenated in order.
pub open spec fn joined_lines(text: Seq<char>, cols: nat, k: nat) -> Seq<char>
    decreases k,
{
    if k == 0 {
        seq![]
    } else {
        joined_lines(text, cols, (k - 1) as nat) + chunk(text, cols, k - 1)
    }
}

proof fn lemma_joined_prefix(text: Seq<char>, cols: nat, k: nat)
    requires
        cols > 0,
        (k as int - 1) * cols < text.len(),
    ensures
        joined_lines(text, cols, k) == text.subrange(0, if k * cols <= text.len() { (k * cols) as int } else { text.len() as int }),
    decreases k,
{
    if k > 0 {
        assert(k * cols == (k - 1) * cols + cols) by (nonlinear_arith)
            requires k > 0;
        assert(((k - 1) as nat as int - 1) * cols < (k as int - 1) * cols) by (nonlinear_arith)
            requires k > 0, cols > 0;
        lemma_joined_prefix(text, cols, (k - 1) as nat);
        assert(joined_lines(text, cols, k) =~= text.subrange(0, if k * cols <= text.len() { (k * cols) as int } else { text.len() as int }));
    } else {
        assert(joined_lines(text, cols, k) =~= text.subrange(0, 0));
    }
}

/// Fixed-width projection: on `cols > 0` columns, the lines of a non-empty
/// text, concatenated in order, are the text; each holds at most `cols`
/// characters, all but the last exactly `cols`; and their number is one more
/// than the last row that holds text.
pub proof fn law_lines_cover_text(text: Seq<char>, cols: nat)
    requires
        cols > 0,
        text.len() > 0,
    ensures
        joined_lines(text, cols, chunk_count(text.len(), cols)) == text,
        chunk_count(text.len(), cols) == (text.len() - 1) / (cols as int) + 1,
        forall|i: int| 0 <= i < chunk_count(text.len(), cols) ==> #[trigger] chunk(text, cols, i).len() <= cols,
        forall|i: int| 0 <= i < chunk_count(text.len(), cols) - 1 ==> #[trigger] chunk(text, cols, i).len() == cols,
{
    let len = text.len();
    let q = (len - 1) / (cols as int);
    lemma_fundamental_div_mod(len - 1, cols as int);
    lemma_mod_bound(len - 1, cols as int);
    assert(q >= 0) by (nonlinear_arith)
        requires len >= 1, cols > 0, q == (len - 1) / (cols as int);
    let k = (q + 1) as nat;
    assert(q * cols + cols == k * cols) by (nonlinear_arith)
        requires k == q + 1;
    assert(cols * q == q * cols) by (nonlinear_arith);
    lemma_chunk_count(len, cols, k);
    lemma_joined_prefix(text, cols, k);
    assert(text.subrange(0, len as int) =~= text);
    assert forall|i: int| 0 <= i < chunk_count(text.len(), cols) implies #[trigger] chunk(text, cols, i).len() <= cols by {
        assert((i + 1) * cols == i * cols + cols) by (nonlinear_arith);
        assert(i * cols <= (k - 1) * cols) by (nonlinear_arith)
            requires i <= k - 1, cols > 0;
    }
    assert forall|i: int| 0 <= i < chunk_count(text.len(), cols) - 1 implies #[trigger] chunk(text, cols, i).len() == cols by {
        assert((i + 1) * cols == i * cols + cols) by (nonlinear_arith);
        assert((i + 1) * cols <= (k - 1) * cols) by (nonlinear_arith)
            requires i + 1 <= k - 1, cols > 0;
    }
}

/// Inserting a character and then erasing the character before the cursor
/// gives back the editor as it was, whenever the insertion was accepted.
pub proof fn law_backspace_undoes_insert(e: EditorView, c: char)
    requires
        editor_wf(e),
        e.text.len() < capacity_of(e),
    ensures
        insert_spec(e, c).1,
        backspace_spec(insert_spec(e, c).0) == (e, true),
{
    let e1 = insert_spec(e, c).0;
    assert(e1.text.remove(e.cursor as int) =~= e.text);
}

} // verus!
