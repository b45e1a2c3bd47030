//! The navigation engine: cursor, viewport, motions, search and selection
//! state over the composed view of a document.

use vstd::prelude::*;
use vstd::utf8::encode_utf8;
use vstd::math::min;
use crate::classify::{ByteClass, class_of, spec_class_of, spec_is_unicode_whitespace};
use crate::document::{Document, DisplayLine, OverlayItem, composed, count_below, lemma_count_below_is, overlays_sorted, row_texts};
use crate::template::{CommandSpec, trim_str, lemma_trim_empty};

verus! {

/// The interaction mode; command and search modes carry the text typed so far.
pub enum Mode {
    Normal,
    Visual,
    VisualLine,
    Command(String),
    Search(String),
    Help,
}

/// The bytes of each row of a composed view.
pub open spec fn rows_bytes(rows: Seq<Seq<char>>) -> Seq<Seq<u8>> {
    rows.map_values(|r: Seq<char>| encode_utf8(r))
}

/// Length in bytes of row `y`, zero past the end.
pub open spec fn len_at(b: Seq<Seq<u8>>, y: int) -> int {
    if 0 <= y < b.len() {
        b[y].len() as int
    } else {
        0
    }
}

/// Index of the last row, zero for an empty view.
pub open spec fn last_row(b: Seq<Seq<u8>>) -> int {
    if b.len() == 0 {
        0
    } else {
        b.len() - 1
    }
}

/// A cursor position that respects the clamp rules.
pub open spec fn valid_pos(b: Seq<Seq<u8>>, y: int, x: int) -> bool {
    &&& (b.len() == 0 ==> y == 0)
    &&& (b.len() > 0 ==> 0 <= y < b.len())
    &&& 0 <= x <= len_at(b, y)
}

/// The scroll that keeps `row` inside a window of `h` rows, moving the window
/// as little as possible.
pub open spec fn visible_scroll(scroll: int, row: int, h: int) -> int {
    if row < scroll {
        row
    } else if row >= scroll + h {
        if h == 0 {
            row
        } else {
            row + 1 - h
        }
    } else {
        scroll
    }
}

/// One `move_down` on a `(row, col, scroll)` state.
pub open spec fn down_step(b: Seq<Seq<u8>>, h: int, p: (int, int, int)) -> (int, int, int) {
    let (r, c, s) = p;
    if r + 1 < b.len() {
        let r2 = r + 1;
        (
            r2,
            if c > len_at(b, r2) {
                len_at(b, r2)
            } else {
                c
            },
            if r2 >= s + h {
                r2 + 1 - h
            } else {
                s
            },
        )
    } else {
        p
    }
}

/// One `move_up` on a `(row, col, scroll)` state.
pub open spec fn up_step(b: Seq<Seq<u8>>, p: (int, int, int)) -> (int, int, int) {
    let (r, c, s) = p;
    if r > 0 {
        let r2 = r - 1;
        (
            r2,
            if c > len_at(b, r2) {
                len_at(b, r2)
            } else {
                c
            },
            if r2 < s {
                r2
            } else {
                s
            },
        )
    } else {
        p
    }
}

pub open spec fn down_steps(b: Seq<Seq<u8>>, h: int, p: (int, int, int), k: nat) -> (int, int, int)
    decreases k,
{
    if k == 0 {
        p
    } else {
        down_step(b, h, down_steps(b, h, p, (k - 1) as nat))
    }
}

pub open spec fn up_steps(b: Seq<Seq<u8>>, p: (int, int, int), k: nat) -> (int, int, int)
    decreases k,
{
    if k == 0 {
        p
    } else {
        up_step(b, up_steps(b, p, (k - 1) as nat))
    }
}

/// The byte at `(y, x)`, if there is one.
pub open spec fn byte_at(b: Seq<Seq<u8>>, y: int, x: int) -> Option<u8> {
    if 0 <= y < b.len() && 0 <= x < b[y].len() {
        Some(b[y][x])
    } else {
        None
    }
}

/// The byte just before `(y, x)`; at a row start, the last byte of the row above.
pub open spec fn byte_before(b: Seq<Seq<u8>>, y: int, x: int) -> Option<u8> {
    if x > 0 {
        byte_at(b, y, x - 1)
    } else if 0 < y <= b.len() && b[y - 1].len() > 0 {
        Some(b[y - 1].last())
    } else {
        None
    }
}

/// Where a forward skip over bytes of class `k` stops: at the first byte of
/// another class, or at the end of the last row. A row end counts as
/// whitespace: a skip over whitespace crosses it, a skip over a word or
/// punctuation run stops there.
pub open spec fn skip_fwd(b: Seq<Seq<u8>>, y: int, x: int, k: ByteClass) -> (int, int)
    decreases b.len() - y, len_at(b, y) - x,
{
    if !(0 <= y < b.len()) {
        (y, x)
    } else if 0 <= x < b[y].len() && spec_class_of(b[y][x]) == k {
        skip_fwd(b, y, x + 1, k)
    } else if x < b[y].len() {
        (y, x)
    } else if y + 1 >= b.len() || k != ByteClass::Whitespace {
        (y, x)
    } else {
        skip_fwd(b, y + 1, 0, k)
    }
}

/// The start of the run of class `k` that ends at column `x` of row `t`.
pub open spec fn run_start(t: Seq<u8>, x: int, k: ByteClass) -> int
    decreases x,
{
    if 0 < x <= t.len() && spec_class_of(t[x - 1]) == k {
        run_start(t, x - 1, k)
    } else {
        x
    }
}

/// Where a backward skip over bytes of class `k` stops. At a row start it
/// first climbs to the end of the nearest non-empty row above; it then skips
/// within that one row.
pub open spec fn skip_bwd(b: Seq<Seq<u8>>, y: int, x: int, k: ByteClass) -> (int, int)
    decreases y,
{
    if y <= 0 && x <= 0 {
        (y, x)
    } else if x <= 0 {
        if len_at(b, y - 1) == 0 {
            skip_bwd(b, y - 1, 0, k)
        } else {
            (y - 1, run_start(b[y - 1], len_at(b, y - 1), k))
        }
    } else {
        (y, run_start(b[y], x, k))
    }
}

/// Where `move_word_forward` lands before clamping: past the run of the
/// class under the cursor, which ends at the row end at the latest, then past
/// any whitespace and row breaks.
pub open spec fn word_forward_target(b: Seq<Seq<u8>>, y: int, x: int) -> (int, int) {
    let p = match byte_at(b, y, x) {
        Some(c) => skip_fwd(b, y, x, spec_class_of(c)),
        None => (y, x),
    };
    skip_fwd(b, p.0, p.1, ByteClass::Whitespace)
}

/// Where `move_word_backward` lands: back over whitespace, then back over the
/// word run or the punctuation run that precedes.
pub open spec fn word_backward_target(b: Seq<Seq<u8>>, y: int, x: int) -> (int, int) {
    if y == 0 && x == 0 {
        (y, x)
    } else {
        let p = skip_bwd(b, y, x, ByteClass::Whitespace);
        match byte_before(b, p.0, p.1) {
            Some(c) => skip_bwd(
                b,
                p.0,
                p.1,
                if spec_class_of(c) == ByteClass::Word {
                    ByteClass::Word
                } else {
                    ByteClass::Other
                },
            ),
            None => p,
        }
    }
}

/// A row whose trimmed text is empty: every character is whitespace.
pub open spec fn is_blank(r: Seq<char>) -> bool {
    forall|i: int| 0 <= i < r.len() ==> spec_is_unicode_whitespace(#[trigger] r[i])
}

/// Start columns of the non-overlapping occurrences of `q` in `t` at or after
/// column `s`, scanning left to right and resuming after each occurrence.
pub open spec fn row_hits(t: Seq<u8>, q: Seq<u8>, s: int) -> Seq<int>
    decreases t.len() - s,
{
    if q.len() == 0 || s < 0 || s + q.len() > t.len() {
        Seq::empty()
    } else if t.subrange(s, s + q.len()) == q {
        seq![s] + row_hits(t, q, s + q.len())
    } else {
        row_hits(t, q, s + 1)
    }
}

/// All occurrences of `q` in rows `0 .. y`, row by row.
pub open spec fn all_hits(b: Seq<Seq<u8>>, q: Seq<u8>, y: int) -> Seq<(int, int)>
    decreases y,
{
    if y <= 0 {
        Seq::empty()
    } else {
        all_hits(b, q, y - 1) + row_hits(b[y - 1], q, 0).map_values(|p: int| (y - 1, p))
    }
}

/// Every hit is a position of the view.
pub open spec fn hits_in_view(b: Seq<Seq<u8>>, v: Seq<(usize, usize)>) -> bool {
    forall|i: int| 0 <= i < v.len() ==> valid_pos(b, v[i].0 as int, v[i].1 as int)
}

pub open spec fn hits_view(v: Seq<(usize, usize)>) -> Seq<(int, int)> {
    v.map_values(|h: (usize, usize)| (h.0 as int, h.1 as int))
}

/// `y` is where `move_paragraph_down` from row `y0` lands.
pub open spec fn paragraph_down_row(rows: Seq<Seq<char>>, y0: int, y: int) -> bool {
    ||| (y0 < y < rows.len() && is_blank(rows[y]) && forall|j: int|
        y0 < j < y ==> !is_blank(#[trigger] rows[j]))
    ||| ((forall|j: int| y0 < j < rows.len() ==> !is_blank(#[trigger] rows[j])) && y == (if rows.len()
        == 0 {
        0
    } else {
        rows.len() - 1
    }))
}

/// `y` is where `move_paragraph_up` from row `y0 > 0` lands.
pub open spec fn paragraph_up_row(rows: Seq<Seq<char>>, y0: int, y: int) -> bool {
    ||| (0 <= y < y0 && is_blank(rows[y]) && forall|j: int|
        y < j < y0 ==> !is_blank(#[trigger] rows[j]))
    ||| ((forall|j: int| 0 <= j < y0 ==> !is_blank(#[trigger] rows[j])) && y == 0)
}

/// The search state and the cursor of `a2` are those of `a` after
/// `set_search_query` with a query whose text is `q`.
pub open spec fn searched(a: App, a2: App, q: Seq<char>) -> bool {
    &&& encode_utf8(q).len() == 0 ==> {
        &&& a2.search_query is None
        &&& a2.search_hits@.len() == 0
        &&& a2.current_hit is None
        &&& a2.cursor_y == a.cursor_y
        &&& a2.cursor_x == a.cursor_x
    }
    &&& encode_utf8(q).len() > 0 ==> {
        let hits = all_hits(a.bytes(), encode_utf8(q), a.bytes().len() as int);
        &&& a2.search_query matches Some(s) && s@ == q
        &&& hits_view(a2.search_hits@) == hits
        &&& hits.len() == 0 ==> a2.current_hit is None && a2.cursor_y == a.cursor_y
            && a2.cursor_x == a.cursor_x
        &&& hits.len() > 0 ==> a2.current_hit == Some(0usize) && (
        a2.cursor_y as int, a2.cursor_x as int) == hits[0]
    }
}

/// The hit that `next_hit` goes to.
pub open spec fn next_index(current: Option<usize>, len: int) -> usize {
    match current {
        Some(i) => ((i + 1) % len) as usize,
        None => 0usize,
    }
}

/// The hit that `prev_hit` goes to.
pub open spec fn prev_index(current: Option<usize>, len: int) -> usize {
    match current {
        Some(i) => if i == 0 {
            (len - 1) as usize
        } else {
            (i - 1) as usize
        },
        None => (len - 1) as usize,
    }
}

/// `a2` is `a` after jumping to hit `i`, with the window following.
pub open spec fn jumped(a: App, a2: App, i: usize, h: int) -> bool {
    let p = a.search_hits@[i as int];
    &&& a2.same_setup(&a)
    &&& a2.search_query == a.search_query
    &&& a2.search_hits == a.search_hits
    &&& a2.current_hit == Some(i)
    &&& a2.cursor_y == p.0
    &&& a2.cursor_x == p.1
    &&& a2.scroll == visible_scroll(a.scroll as int, p.0 as int, h)
}

/// Where `move_word_forward` puts the cursor.
pub open spec fn word_forward_pos(b: Seq<Seq<u8>>, y: int, x: int) -> (int, int) {
    let t = word_forward_target(b, y, x);
    let row = min(t.0, last_row(b));
    (row, min(t.1, len_at(b, row)))
}

/// The viewer's whole state.
pub struct App {
    pub doc: Document,
    pub overlays: Vec<OverlayItem>,
    pub cursor_x: usize,
    pub cursor_y: usize,
    pub scroll: usize,
    pub mode: Mode,
    pub search_query: Option<String>,
    pub search_hits: Vec<(usize, usize)>,
    pub current_hit: Option<usize>,
    pub selection_start: Option<(usize, usize)>,
    pub commands: Vec<CommandSpec>,
}

impl App {
    /// The composed view's rows as characters.
    pub open spec fn rows(&self) -> Seq<Seq<char>> {
        composed(self.doc.view_lines(), self.overlays@)
    }

    /// The composed view's rows as bytes: the coordinate space of columns.
    pub open spec fn bytes(&self) -> Seq<Seq<u8>> {
        rows_bytes(self.rows())
    }

    pub open spec fn pos(&self) -> (int, int, int) {
        (self.cursor_y as int, self.cursor_x as int, self.scroll as int)
    }

    /// Every recorded hit is a position inside the composed view.
    pub open spec fn hits_valid(&self) -> bool {
        hits_in_view(self.bytes(), self.search_hits@)
    }

    /// The state invariant: the cursor lies in the composed view, the current
    /// hit indexes the hit list, and the overlays are in anchor order.
    pub open spec fn wf(&self) -> bool {
        &&& overlays_sorted(self.overlays@)
        &&& valid_pos(self.bytes(), self.cursor_y as int, self.cursor_x as int)
        &&& self.hits_valid()
        &&& (self.current_hit matches Some(i) ==> i < self.search_hits@.len())
    }

    /// The cursor row is inside the window of `h` rows that starts at `scroll`.
    pub open spec fn cursor_visible(&self, h: int) -> bool {
        self.scroll <= self.cursor_y < self.scroll + h
    }

    /// Everything but the cursor, the scroll and the search state is kept.
    pub open spec fn same_setup(&self, o: &App) -> bool {
        &&& self.doc == o.doc
        &&& self.overlays == o.overlays
        &&& self.mode == o.mode
        &&& self.selection_start == o.selection_start
        &&& self.commands == o.commands
    }

    pub open spec fn same_search(&self, o: &App) -> bool {
        &&& self.search_query == o.search_query
        &&& self.search_hits == o.search_hits
        &&& self.current_hit == o.current_hit
    }

    /// A viewer over a loaded text, with the cursor and the window at the top.
    pub fn new(content: String) -> (r: App)
        ensures
            r.wf(),
            r.doc.view_lines() == crate::document::lines_of(content@),
            r.overlays@.len() == 0,
            r.pos() == (0int, 0int, 0int),
            r.mode is Normal,
            r.search_query is None,
            r.search_hits@.len() == 0,
            r.current_hit is None,
            r.selection_start is None,
            r.commands@.len() == 0,
    {
        App {
            doc: Document::new(content.as_str()),
            overlays: Vec::new(),
            cursor_x: 0,
            cursor_y: 0,
            scroll: 0,
            mode: Mode::Normal,
            search_query: None,
            search_hits: Vec::new(),
            current_hit: None,
            selection_start: None,
            commands: Vec::new(),
        }
    }

    /// The composed view.
    pub fn display_lines(&self) -> (r: Vec<DisplayLine<'_>>)
        requires
            overlays_sorted(self.overlays@),
        ensures
            row_texts(r@) == self.rows(),
    {
        self.doc.compose(self.overlays.as_slice())
    }

    /// Length in bytes of a row of the composed view, zero past its end.
    pub fn line_len(&self, line: usize) -> (r: usize)
        requires
            overlays_sorted(self.overlays@),
        ensures
            r == len_at(self.bytes(), line as int),
    {
        let lines = self.display_lines();
        if line < lines.len() {
            let t = lines[line].text();
            proof {
                assert(row_texts(lines@)[line as int] == t@);
                assert(self.bytes()[line as int] == encode_utf8(t@));
            }
            t.as_bytes().len()
        } else {
            assert(self.bytes().len() == lines@.len());
            0
        }
    }

    /// Number of rows of the composed view.
    pub fn row_count(&self) -> (r: usize)
        requires
            overlays_sorted(self.overlays@),
        ensures
            r == self.bytes().len(),
    {
        self.display_lines().len()
    }

    /// One byte to the left, stopping at column zero.
    pub fn move_left(&mut self)
        requires
            old(self).wf(),
        ensures
            final(self).wf(),
            final(self).same_setup(old(self)),
            final(self).same_search(old(self)),
            final(self).pos() == (
                old(self).cursor_y as int,
                if old(self).cursor_x > 0 {
                    old(self).cursor_x - 1
                } else {
                    0
                },
                old(self).scroll as int,
            ),
    {
        if self.cursor_x > 0 {
            self.cursor_x -= 1;
        }
    }

    /// One byte to the right, stopping one past the row's last byte.
    pub fn move_right(&mut self)
        requires
            old(self).wf(),
        ensures
            final(self).wf(),
            final(self).same_setup(old(self)),
            final(self).same_search(old(self)),
            final(self).pos() == (
                old(self).cursor_y as int,
                if old(self).cursor_x < len_at(old(self).bytes(), old(self).cursor_y as int) {
                    old(self).cursor_x + 1
                } else {
                    old(self).cursor_x as int
                },
                old(self).scroll as int,
            ),
    {
        let len = self.line_len(self.cursor_y);
        if self.cursor_x < len {
            self.cursor_x += 1;
        }
    }

    /// One row down if there is one; the column is clamped to the new row and
    /// the window follows the cursor when it would leave at the bottom.
    pub fn move_down(&mut self, height: u16)
        requires
            old(self).wf(),
        ensures
            final(self).wf(),
            final(self).same_setup(old(self)),
            final(self).same_search(old(self)),
            final(self).pos() == down_step(old(self).bytes(), height as int, old(self).pos()),
            height >= 1 && old(self).cursor_visible(height as int) ==> final(self).cursor_visible(
                height as int,
            ),
    {
        let n = self.row_count();
        if self.cursor_y + 1 < n {
            self.cursor_y += 1;
            let h = height as usize;
            if self.cursor_y >= self.scroll && self.cursor_y - self.scroll >= h {
                self.scroll = self.cursor_y + 1 - h;
            }
            let len = self.line_len(self.cursor_y);
            if self.cursor_x > len {
                self.cursor_x = len;
            }
        }
    }

    /// One row up if there is one; the column is clamped to the new row and
    /// the window follows the cursor when it would leave at the top.
    pub fn move_up(&mut self)
        requires
            old(self).wf(),
        ensures
            final(self).wf(),
            final(self).same_setup(old(self)),
            final(self).same_search(old(self)),
            final(self).pos() == up_step(old(self).bytes(), old(self).pos()),
            forall|h: int| h >= 1 && old(self).cursor_visible(h) ==> final(self).cursor_visible(h),
    {
        if self.cursor_y > 0 {
            self.cursor_y -= 1;
            if self.cursor_y < self.scroll {
                self.scroll = self.cursor_y;
            }
            let len = self.line_len(self.cursor_y);
            if self.cursor_x > len {
                self.cursor_x = len;
            }
        }
    }

    /// Moves the window as little as needed to show the cursor row.
    pub fn ensure_visible(&mut self, height: u16)
        requires
            old(self).wf(),
        ensures
            final(self).wf(),
            final(self).same_setup(old(self)),
            final(self).same_search(old(self)),
            final(self).pos() == (
                old(self).cursor_y as int,
                old(self).cursor_x as int,
                visible_scroll(old(self).scroll as int, old(self).cursor_y as int, height as int),
            ),
            height >= 1 ==> final(self).cursor_visible(height as int),
    {
        let h = height as usize;
        if h == 0 {
            self.scroll = self.cursor_y;
        } else if self.cursor_y >= self.scroll && self.cursor_y - self.scroll >= h {
            self.scroll = self.cursor_y - (h - 1);
        }
        if self.cursor_y < self.scroll {
            self.scroll = self.cursor_y;
        }
    }

    /// Repeats `move_down` `height / 2` times.
    pub fn half_page_down(&mut self, height: u16)
        requires
            old(self).wf(),
        ensures
            final(self).wf(),
            final(self).same_setup(old(self)),
            final(self).same_search(old(self)),
            final(self).pos() == down_steps(
                old(self).bytes(),
                height as int,
                old(self).pos(),
                (height / 2) as nat,
            ),
            final(self).cursor_y == if old(self).cursor_y + height / 2 <= last_row(old(self).bytes()) {
                old(self).cursor_y + height / 2
            } else {
                last_row(old(self).bytes())
            },
            height >= 1 && old(self).cursor_visible(height as int) ==> final(self).cursor_visible(
                height as int,
            ),
    {
        let ghost b = self.bytes();
        let ghost p0 = self.pos();
        let ghost y0 = self.cursor_y as int;
        let steps = height / 2;
        let mut k: u16 = 0;
        while k < steps
            invariant
                self.wf(),
                self.bytes() == b,
                self.same_setup(old(self)),
                self.same_search(old(self)),
                steps == height / 2,
                k <= steps,
                self.pos() == down_steps(b, height as int, p0, k as nat),
                self.cursor_y == if y0 + k <= last_row(b) {
                    y0 + k
                } else {
                    last_row(b)
                },
                height >= 1 && old(self).cursor_visible(height as int) ==> self.cursor_visible(
                    height as int,
                ),
            decreases steps - k,
        {
            self.move_down(height);
            k = k + 1;
        }
    }

    /// Repeats `move_up` `height / 2` times.
    pub fn half_page_up(&mut self, height: u16)
        requires
            old(self).wf(),
        ensures
            final(self).wf(),
            final(self).same_setup(old(self)),
            final(self).same_search(old(self)),
            final(self).pos() == up_steps(old(self).bytes(), old(self).pos(), (height / 2) as nat),
            final(self).cursor_y == if old(self).cursor_y >= height / 2 {
                old(self).cursor_y - height / 2
            } else {
                0
            },
            height >= 1 && old(self).cursor_visible(height as int) ==> final(self).cursor_visible(
                height as int,
            ),
    {
        let ghost b = self.bytes();
        let ghost p0 = self.pos();
        let ghost y0 = self.cursor_y as int;
        let steps = height / 2;
        let mut k: u16 = 0;
        while k < steps
            invariant
                self.wf(),
                self.bytes() == b,
                self.same_setup(old(self)),
                self.same_search(old(self)),
                steps == height / 2,
                k <= steps,
                self.pos() == up_steps(b, p0, k as nat),
                self.cursor_y == if y0 >= k {
                    y0 - k
                } else {
                    0
                },
                height >= 1 && old(self).cursor_visible(height as int) ==> self.cursor_visible(
                    height as int,
                ),
            decreases steps - k,
        {
            self.move_up();
            k = k + 1;
        }
    }

    /// Cursor to the first row shown (clamped to the last row), column
    /// clamped to that row.
    pub fn cursor_top(&mut self)
        requires
            old(self).wf(),
        ensures
            final(self).wf(),
            final(self).same_setup(old(self)),
            final(self).same_search(old(self)),
            final(self).scroll == old(self).scroll,
            final(self).cursor_y == min(old(self).scroll as int, last_row(old(self).bytes())),
            final(self).cursor_x == min(
                old(self).cursor_x as int,
                len_at(old(self).bytes(), final(self).cursor_y as int),
            ),
    {
        let last = self.row_count().saturating_sub(1);
        self.cursor_y = if self.scroll <= last {
            self.scroll
        } else {
            last
        };
        let len = self.line_len(self.cursor_y);
        if self.cursor_x > len {
            self.cursor_x = len;
        }
    }

    /// Cursor to the middle of the window: `scroll + height / 2`, clamped to
    /// the last row.
    pub fn cursor_middle(&mut self, height: u16)
        requires
            old(self).wf(),
        ensures
            final(self).wf(),
            final(self).same_setup(old(self)),
            final(self).same_search(old(self)),
            final(self).scroll == old(self).scroll,
            final(self).cursor_y == min(
                old(self).scroll + height / 2,
                last_row(old(self).bytes()),
            ),
            final(self).cursor_x == min(
                old(self).cursor_x as int,
                len_at(old(self).bytes(), final(self).cursor_y as int),
            ),
    {
        let last = self.row_count().saturating_sub(1);
        let half = (height / 2) as usize;
        self.cursor_y = if self.scroll <= last && last - self.scroll >= half {
            self.scroll + half
        } else {
            last
        };
        let len = self.line_len(self.cursor_y);
        if self.cursor_x > len {
            self.cursor_x = len;
        }
    }

    /// Cursor to the last row of the window: `scroll + height - 1` (the
    /// first row for a window of no rows), clamped to the last row.
    pub fn cursor_bottom(&mut self, height: u16)
        requires
            old(self).wf(),
        ensures
            final(self).wf(),
            final(self).same_setup(old(self)),
            final(self).same_search(old(self)),
            final(self).scroll == old(self).scroll,
            final(self).cursor_y == min(
                if height >= 1 {
                    old(self).scroll + height - 1
                } else {
                    old(self).scroll as int
                },
                last_row(old(self).bytes()),
            ),
            final(self).cursor_x == min(
                old(self).cursor_x as int,
                len_at(old(self).bytes(), final(self).cursor_y as int),
            ),
    {
        let last = self.row_count().saturating_sub(1);
        let below = if height >= 1 {
            (height - 1) as usize
        } else {
            0
        };
        self.cursor_y = if self.scroll <= last && last - self.scroll >= below {
            self.scroll + below
        } else {
            last
        };
        let len = self.line_len(self.cursor_y);
        if self.cursor_x > len {
            self.cursor_x = len;
        }
    }

    /// Cursor to the start of the first row.
    pub fn goto_first_line(&mut self)
        requires
            old(self).wf(),
        ensures
            final(self).wf(),
            final(self).same_setup(old(self)),
            final(self).same_search(old(self)),
            final(self).pos() == (0int, 0int, old(self).scroll as int),
    {
        self.cursor_y = 0;
        self.cursor_x = 0;
    }

    /// Cursor to the start of the last row; nothing moves on an empty view.
    pub fn goto_last_line(&mut self)
        requires
            old(self).wf(),
        ensures
            final(self).wf(),
            final(self).same_setup(old(self)),
            final(self).same_search(old(self)),
            old(self).bytes().len() > 0 ==> final(self).pos() == (
                last_row(old(self).bytes()),
                0int,
                old(self).scroll as int,
            ),
            old(self).bytes().len() == 0 ==> final(self).pos() == old(self).pos(),
    {
        let n = self.row_count();
        if n > 0 {
            self.cursor_y = n - 1;
            self.cursor_x = 0;
        }
    }
    /// The byte under a position.
    pub fn char_at(&self, y: usize, x: usize) -> (r: Option<u8>)
        requires
            overlays_sorted(self.overlays@),
        ensures
            r == byte_at(self.bytes(), y as int, x as int),
    {
        let lines = self.display_lines();
        if y < lines.len() {
            let bytes = lines[y].text().as_bytes();
            proof {
                assert(row_texts(lines@)[y as int] == lines@[y as int].spec_text());
            }
            if x < bytes.len() {
                return Some(bytes[x]);
            }
        }
        None
    }

    /// The byte before a position, looking into the row above at a row start.
    pub fn char_before(&self, y: usize, x: usize) -> (r: Option<u8>)
        requires
            overlays_sorted(self.overlays@),
        ensures
            r == byte_before(self.bytes(), y as int, x as int),
    {
        if x > 0 {
            return self.char_at(y, x - 1);
        }
        if y > 0 {
            let lines = self.display_lines();
            if y - 1 < lines.len() {
                let bytes = lines[y - 1].text().as_bytes();
                proof {
                    assert(row_texts(lines@)[y - 1] == lines@[y - 1].spec_text());
                }
                if bytes.len() > 0 {
                    return Some(bytes[bytes.len() - 1]);
                }
            }
        }
        None
    }

    /// Advances `(y, x)` over bytes of class `class`; only a whitespace skip
    /// goes on past the end of a row.
    pub fn skip_forward(&self, y: &mut usize, x: &mut usize, class: ByteClass)
        requires
            overlays_sorted(self.overlays@),
            valid_pos(self.bytes(), *old(y) as int, *old(x) as int),
        ensures
            (*final(y) as int, *final(x) as int) == skip_fwd(
                self.bytes(),
                *old(y) as int,
                *old(x) as int,
                class,
            ),
            valid_pos(self.bytes(), *final(y) as int, *final(x) as int),
    {
        let ghost b = self.bytes();
        let ghost target = skip_fwd(b, *y as int, *x as int, class);
        let lines = self.display_lines();
        let n = lines.len();
        while *y < n
            invariant
                b == self.bytes(),
                row_texts(lines@) == self.rows(),
                n == b.len(),
                valid_pos(b, *y as int, *x as int),
                skip_fwd(b, *y as int, *x as int, class) == target,
                target == skip_fwd(b, *old(y) as int, *old(x) as int, class),
            decreases n - *y,
        {
            let bytes = lines[*y].text().as_bytes();
            proof {
                assert(row_texts(lines@)[*y as int] == lines@[*y as int].spec_text());
                assert(bytes@ == b[*y as int]);
            }
            while *x < bytes.len() && class_of(bytes[*x]) == class
                invariant
                    *y < n,
                    n == b.len(),
                    bytes@ == b[*y as int],
                    valid_pos(b, *y as int, *x as int),
                    skip_fwd(b, *y as int, *x as int, class) == target,
                    target == skip_fwd(b, *old(y) as int, *old(x) as int, class),
                decreases bytes@.len() - *x,
            {
                *x = *x + 1;
            }
            if *x < bytes.len() {
                proof {
                    assert(spec_class_of(b[*y as int][*x as int]) != class);
                    assert(skip_fwd(b, *y as int, *x as int, class) == (*y as int, *x as int));
                }
                return;
            }
            if *y + 1 == n || class != ByteClass::Whitespace {
                proof {
                    assert(skip_fwd(b, *y as int, *x as int, class) == (*y as int, *x as int));
                }
                return;
            }
            *y = *y + 1;
            *x = 0;
        }
    }

    /// Moves `(y, x)` back over bytes of class `class` within one row, first
    /// climbing to the end of the nearest non-empty row above when at a row start.
    pub fn skip_backward(&self, y: &mut usize, x: &mut usize, class: ByteClass)
        requires
            overlays_sorted(self.overlays@),
            valid_pos(self.bytes(), *old(y) as int, *old(x) as int),
        ensures
            (*final(y) as int, *final(x) as int) == skip_bwd(
                self.bytes(),
                *old(y) as int,
                *old(x) as int,
                class,
            ),
            valid_pos(self.bytes(), *final(y) as int, *final(x) as int),
    {
        let ghost b = self.bytes();
        let ghost target = skip_bwd(b, *y as int, *x as int, class);
        let lines = self.display_lines();
        while *x == 0 && *y > 0
            invariant
                b == self.bytes(),
                row_texts(lines@) == self.rows(),
                lines@.len() == b.len(),
                valid_pos(b, *y as int, *x as int),
                skip_bwd(b, *y as int, *x as int, class) == target,
            decreases *y,
        {
            *y = *y - 1;
            proof {
                assert(row_texts(lines@)[*y as int] == lines@[*y as int].spec_text());
            }
            *x = lines[*y].text().as_bytes().len();
        }
        if *x == 0 {
            return;
        }
        let bytes = lines[*y].text().as_bytes();
        proof {
            assert(row_texts(lines@)[*y as int] == lines@[*y as int].spec_text());
            assert(bytes@ == b[*y as int]);
        }
        while *x > 0 && class_of(bytes[*x - 1]) == class
            invariant
                bytes@ == b[*y as int],
                valid_pos(b, *y as int, *x as int),
                *x > 0 || target == (*y as int, *x as int),
                target == (*y as int, run_start(b[*y as int], *x as int, class)),
            decreases *x,
        {
            *x = *x - 1;
        }
    }

    /// To the first byte of the next non-whitespace run, or the end of the
    /// document.
    pub fn move_word_forward(&mut self)
        requires
            old(self).wf(),
        ensures
            final(self).wf(),
            final(self).same_setup(old(self)),
            final(self).same_search(old(self)),
            final(self).scroll == old(self).scroll,
            (final(self).cursor_y as int, final(self).cursor_x as int) == word_forward_pos(
                old(self).bytes(),
                old(self).cursor_y as int,
                old(self).cursor_x as int,
            ),
    {
        let mut y = self.cursor_y;
        let mut x = self.cursor_x;
        if let Some(c) = self.char_at(y, x) {
            self.skip_forward(&mut y, &mut x, class_of(c));
        }
        self.skip_forward(&mut y, &mut x, ByteClass::Whitespace);
        let lines_len = self.row_count();
        let last = lines_len.saturating_sub(1);
        self.cursor_y = if y <= last {
            y
        } else {
            last
        };
        let len = self.line_len(self.cursor_y);
        self.cursor_x = if x <= len {
            x
        } else {
            len
        };
    }

    /// To the start of the previous word or punctuation run.
    pub fn move_word_backward(&mut self)
        requires
            old(self).wf(),
        ensures
            final(self).wf(),
            final(self).same_setup(old(self)),
            final(self).same_search(old(self)),
            final(self).scroll == old(self).scroll,
            (final(self).cursor_y as int, final(self).cursor_x as int) == word_backward_target(
                old(self).bytes(),
                old(self).cursor_y as int,
                old(self).cursor_x as int,
            ),
    {
        if self.cursor_y == 0 && self.cursor_x == 0 {
            return;
        }
        let mut y = self.cursor_y;
        let mut x = self.cursor_x;
        self.skip_backward(&mut y, &mut x, ByteClass::Whitespace);
        if let Some(c) = self.char_before(y, x) {
            if class_of(c) == ByteClass::Word {
                self.skip_backward(&mut y, &mut x, ByteClass::Word);
            } else {
                self.skip_backward(&mut y, &mut x, ByteClass::Other);
            }
        }
        self.cursor_y = y;
        self.cursor_x = x;
    }
    /// Whether row `i` of the composed view is blank once trimmed.
    fn row_is_blank(&self, i: usize) -> (r: bool)
        requires
            overlays_sorted(self.overlays@),
            i < self.rows().len(),
        ensures
            r == is_blank(self.rows()[i as int]),
    {
        let lines = self.display_lines();
        proof {
            assert(row_texts(lines@)[i as int] == lines@[i as int].spec_text());
        }
        let t = trim_str(lines[i].text());
        proof {
            lemma_trim_empty(lines@[i as int].spec_text());
        }
        t.is_empty()
    }

    /// To the next blank row below the cursor, or to the last row when there
    /// is none; column zero.
    pub fn move_paragraph_down(&mut self)
        requires
            old(self).wf(),
        ensures
            final(self).wf(),
            final(self).same_setup(old(self)),
            final(self).same_search(old(self)),
            final(self).scroll == old(self).scroll,
            final(self).cursor_x == 0,
            paragraph_down_row(old(self).rows(), old(self).cursor_y as int, final(self).cursor_y as int),
    {
        let n = self.row_count();
        let mut i = self.cursor_y + 1;
        while i < n
            invariant
                self.wf(),
                *self == *old(self),
                n == self.rows().len(),
                self.cursor_y < i,
                forall|j: int| self.cursor_y < j < i ==> !is_blank(#[trigger] self.rows()[j]),
            decreases n - i,
        {
            if self.row_is_blank(i) {
                self.cursor_y = i;
                self.cursor_x = 0;
                return;
            }
            i = i + 1;
        }
        self.cursor_y = n.saturating_sub(1);
        self.cursor_x = 0;
    }

    /// To the nearest blank row above the cursor, or to the first row when
    /// there is none; column zero. Nothing moves on the first row.
    pub fn move_paragraph_up(&mut self)
        requires
            old(self).wf(),
        ensures
            final(self).wf(),
            final(self).same_setup(old(self)),
            final(self).same_search(old(self)),
            final(self).scroll == old(self).scroll,
            old(self).cursor_y == 0 ==> final(self).pos() == old(self).pos(),
            old(self).cursor_y > 0 ==> final(self).cursor_x == 0 && paragraph_up_row(
                old(self).rows(),
                old(self).cursor_y as int,
                final(self).cursor_y as int,
            ),
    {
        if self.cursor_y == 0 {
            return;
        }
        let mut i = self.cursor_y;
        while i > 0
            invariant
                self.wf(),
                *self == *old(self),
                i <= self.cursor_y,
                forall|j: int| i <= j < self.cursor_y ==> !is_blank(#[trigger] self.rows()[j]),
            decreases i,
        {
            if self.row_is_blank(i - 1) {
                self.cursor_y = i - 1;
                self.cursor_x = 0;
                return;
            }
            i = i - 1;
        }
        self.cursor_y = 0;
        self.cursor_x = 0;
    }
    /// Every occurrence of `q` in the composed view, row by row.
    fn collect_hits(&self, q: &[u8]) -> (r: Vec<(usize, usize)>)
        requires
            overlays_sorted(self.overlays@),
            q@.len() > 0,
        ensures
            hits_in_view(self.bytes(), r@),
            hits_view(r@) == all_hits(self.bytes(), q@, self.bytes().len() as int),
    {
        let ghost b = self.bytes();
        let ghost qv = q@;
        let mut hits: Vec<(usize, usize)> = Vec::new();
        let lines = self.display_lines();
        let n = lines.len();
        let mut y: usize = 0;
        while y < n
            invariant
                b == self.bytes(),
                qv == q@,
                qv.len() > 0,
                row_texts(lines@) == self.rows(),
                n == b.len(),
                y <= n,
                overlays_sorted(self.overlays@),
                hits_in_view(b, hits@),
                hits_view(hits@) == all_hits(b, qv, y as int),
            decreases n - y,
        {
            let t = lines[y].text().as_bytes();
            proof {
                assert(row_texts(lines@)[y as int] == lines@[y as int].spec_text());
                assert(t@ == b[y as int]);
            }
            let cols = find_all(t, q);
            let ghost before = hits_view(hits@);
            let mut k: usize = 0;
            while k < cols.len()
                invariant
                    b == self.bytes(),
                    t@ == b[y as int],
                    y < n,
                    n == b.len(),
                    k <= cols@.len(),
                    forall|i: int| 0 <= i < cols@.len() ==> cols@[i] + qv.len() <= t@.len(),
                    hits_in_view(b, hits@),
                    hits_view(hits@) == before + Seq::new(
                        k as nat,
                        |i: int| (y as int, cols@[i] as int),
                    ),
                decreases cols@.len() - k,
            {
                let ghost h0 = hits@;
                hits.push((y, cols[k]));
                proof {
                    assert(hits@ == h0.push((y, cols@[k as int])));
                    assert(hits_view(hits@) =~= hits_view(h0).push((y as int, cols@[k as int] as int)));
                    assert(hits_view(hits@) =~= before + Seq::new(
                        (k + 1) as nat,
                        |i: int| (y as int, cols@[i] as int),
                    ));
                    assert forall|i: int| 0 <= i < hits@.len() implies valid_pos(
                        b,
                        hits@[i].0 as int,
                        hits@[i].1 as int,
                    ) by {
                        if i < h0.len() {
                            assert(hits@[i] == h0[i]);
                        }
                    }
                }
                k = k + 1;
            }
            proof {
                let rh = row_hits(t@, qv, 0);
                assert(rh.len() == cols@.len());
                assert forall|i: int| 0 <= i < cols@.len() implies rh[i] == cols@[i] as int by {
                    assert(cols@.map_values(|p: usize| p as int)[i] == cols@[i] as int);
                }
                assert(Seq::new(k as nat, |i: int| (y as int, cols@[i] as int)) =~= rh.map_values(
                    |p: int| (y as int, p),
                ));
                assert(hits_view(hits@) =~= all_hits(b, qv, y + 1));
            }
            y = y + 1;
        }
        hits
    }

    /// Adds an overlay after the overlays anchored at or before its line, so
    /// that anchors stay in order and ties keep their arrival order. The
    /// cursor is then clamped to the new view, the window follows it, and the
    /// hits of the active query are found again, with no current hit.
    pub fn insert_overlay(&mut self, item: OverlayItem, height: u16)
        requires
            old(self).wf(),
        ensures
            final(self).wf(),
            final(self).doc == old(self).doc,
            final(self).overlays@ == old(self).overlays@.insert(
                count_below(old(self).overlays@, item.after_line + 1),
                item,
            ),
            final(self).mode == old(self).mode,
            final(self).selection_start == old(self).selection_start,
            final(self).commands == old(self).commands,
            ({
                let b = final(self).bytes();
                let row = min(old(self).cursor_y as int, last_row(b));
                &&& final(self).cursor_y == row
                &&& final(self).cursor_x == min(old(self).cursor_x as int, len_at(b, row))
                &&& final(self).scroll == visible_scroll(old(self).scroll as int, row, height as int)
            }),
            final(self).search_query == old(self).search_query,
            final(self).current_hit is None,
            match old(self).search_query {
                Some(q) => encode_utf8(q@).len() > 0 ==> hits_view(final(self).search_hits@)
                    == all_hits(final(self).bytes(), encode_utf8(q@), final(self).bytes().len() as int),
                None => true,
            },
            (match old(self).search_query {
                Some(q) => encode_utf8(q@).len() == 0,
                None => true,
            }) ==> final(self).search_hits@.len() == 0,
    {
        let ghost ovs = self.overlays@;
        let a = item.after_line;
        let mut k: usize = 0;
        while k < self.overlays.len() && self.overlays[k].after_line <= a
            invariant
                ovs == self.overlays@,
                *self == *old(self),
                k <= ovs.len(),
                forall|j: int| 0 <= j < k ==> ovs[j].after_line <= a,
            decreases ovs.len() - k,
        {
            k = k + 1;
        }
        proof {
            if k < ovs.len() {
                assert(ovs[k as int].after_line > a);
            }
            lemma_count_below_is(ovs, a + 1, k as int);
        }
        self.overlays.insert(k, item);
        proof {
            let n2 = self.overlays@;
            assert forall|i: int, j: int| 0 <= i <= j < n2.len() implies n2[i].after_line
                <= n2[j].after_line by {
                if i < k && j > k {
                    assert(n2[i] == ovs[i]);
                    assert(n2[j] == ovs[j - 1]);
                    if k < ovs.len() {
                        assert(ovs[k as int].after_line <= ovs[j - 1].after_line);
                    }
                } else if i < k && j == k {
                    assert(n2[i] == ovs[i]);
                } else if i == k && j > k {
                    assert(n2[j] == ovs[j - 1]);
                    assert(ovs[k as int].after_line <= ovs[j - 1].after_line);
                } else if i > k {
                    assert(n2[i] == ovs[i - 1]);
                    assert(n2[j] == ovs[j - 1]);
                } else if j < k {
                    assert(n2[i] == ovs[i]);
                    assert(n2[j] == ovs[j]);
                }
            }
        }
        let last = self.row_count().saturating_sub(1);
        if self.cursor_y > last {
            self.cursor_y = last;
        }
        let len = self.line_len(self.cursor_y);
        if self.cursor_x > len {
            self.cursor_x = len;
        }
        let hits = match &self.search_query {
            Some(q) => {
                let qb = q.as_str().as_bytes();
                if qb.len() > 0 {
                    self.collect_hits(qb)
                } else {
                    Vec::new()
                }
            },
            None => Vec::new(),
        };
        self.search_hits = hits;
        self.current_hit = None;
        self.ensure_visible(height);
    }

    /// Starts a search: records every occurrence of `query` in the composed
    /// view and jumps to the first one. An empty query clears the search.
    pub fn set_search_query(&mut self, query: String)
        requires
            old(self).wf(),
        ensures
            final(self).wf(),
            final(self).same_setup(old(self)),
            final(self).scroll == old(self).scroll,
            searched(*old(self), *final(self), query@),
    {
        let q = query.as_str().as_bytes();
        if q.len() == 0 {
            self.clear_search();
            return;
        }
        let hits = self.collect_hits(q);
        self.search_hits = hits;
        self.current_hit = None;
        self.search_query = Some(query);
        if self.search_hits.len() > 0 {
            self.current_hit = Some(0);
            let (hy, hx) = self.search_hits[0];
            self.cursor_y = hy;
            self.cursor_x = hx;
        }
    }

    /// Forgets the query, the hits and the current hit.
    pub fn clear_search(&mut self)
        requires
            old(self).wf(),
        ensures
            final(self).wf(),
            final(self).same_setup(old(self)),
            final(self).pos() == old(self).pos(),
            final(self).search_query is None,
            final(self).search_hits@.len() == 0,
            final(self).current_hit is None,
    {
        self.search_query = None;
        self.search_hits.clear();
        self.current_hit = None;
    }

    /// To the next hit, wrapping from the last to the first; nothing happens
    /// without hits.
    pub fn next_hit(&mut self, height: u16)
        requires
            old(self).wf(),
        ensures
            final(self).wf(),
            final(self).same_setup(old(self)),
            final(self).search_query == old(self).search_query,
            final(self).search_hits == old(self).search_hits,
            old(self).search_hits@.len() == 0 ==> *final(self) == *old(self),
            old(self).search_hits@.len() > 0 ==> jumped(
                *old(self),
                *final(self),
                next_index(old(self).current_hit, old(self).search_hits@.len() as int),
                height as int,
            ),
    {
        if self.search_hits.len() == 0 {
            return;
        }
        let next = match self.current_hit {
            Some(i) => (i + 1) % self.search_hits.len(),
            None => 0,
        };
        self.current_hit = Some(next);
        let (y, x) = self.search_hits[next];
        self.cursor_y = y;
        self.cursor_x = x;
        self.ensure_visible(height);
    }

    /// To the previous hit, wrapping from the first to the last; nothing
    /// happens without hits.
    pub fn prev_hit(&mut self, height: u16)
        requires
            old(self).wf(),
        ensures
            final(self).wf(),
            final(self).same_setup(old(self)),
            final(self).search_query == old(self).search_query,
            final(self).search_hits == old(self).search_hits,
            old(self).search_hits@.len() == 0 ==> *final(self) == *old(self),
            old(self).search_hits@.len() > 0 ==> jumped(
                *old(self),
                *final(self),
                prev_index(old(self).current_hit, old(self).search_hits@.len() as int),
                height as int,
            ),
    {
        if self.search_hits.len() == 0 {
            return;
        }
        let prev = match self.current_hit {
            Some(0) | None => self.search_hits.len() - 1,
            Some(i) => i - 1,
        };
        self.current_hit = Some(prev);
        let (y, x) = self.search_hits[prev];
        self.cursor_y = y;
        self.cursor_x = x;
        self.ensure_visible(height);
    }
}

/// Whether `q` occurs in `t` at column `s`.
pub fn matches_at(t: &[u8], s: usize, q: &[u8]) -> (r: bool)
    requires
        s + q@.len() <= t@.len(),
    ensures
        r == (t@.subrange(s as int, s + q@.len()) == q@),
{
    let tl = t.len();
    let mut j: usize = 0;
    while j < q.len()
        invariant
            tl == t@.len(),
            s + q@.len() <= t@.len(),
            j <= q@.len(),
            forall|k: int| 0 <= k < j ==> t@[s + k] == q@[k],
        decreases q@.len() - j,
    {
        if t[s + j] != q[j] {
            proof {
                assert(t@.subrange(s as int, s + q@.len())[j as int] != q@[j as int]);
            }
            return false;
        }
        j = j + 1;
    }
    proof {
        assert(t@.subrange(s as int, s + q@.len()) =~= q@);
    }
    true
}

/// The start columns of the non-overlapping occurrences of `q` in `t`, left
/// to right.
pub fn find_all(t: &[u8], q: &[u8]) -> (r: Vec<usize>)
    requires
        q@.len() > 0,
    ensures
        r@.map_values(|p: usize| p as int) == row_hits(t@, q@, 0),
        forall|k: int| 0 <= k < r@.len() ==> r@[k] + q@.len() <= t@.len(),
{
    let mut out: Vec<usize> = Vec::new();
    let mut st: usize = 0;
    while st <= t.len() && t.len() - st >= q.len()
        invariant
            q@.len() > 0,
            st <= t@.len(),
            out@.map_values(|p: usize| p as int) + row_hits(t@, q@, st as int) == row_hits(t@, q@, 0),
            forall|k: int| 0 <= k < out@.len() ==> out@[k] + q@.len() <= t@.len(),
        decreases t@.len() - st,
    {
        let ghost o0 = out@.map_values(|p: usize| p as int);
        let ghost rest = row_hits(t@, q@, st as int);
        if matches_at(t, st, q) {
            let ghost ov = out@;
            out.push(st);
            proof {
                let tail = row_hits(t@, q@, st + q@.len());
                assert(rest == seq![st as int] + tail);
                assert(out@.map_values(|p: usize| p as int) =~= o0.push(st as int));
                assert(out@.map_values(|p: usize| p as int) + tail =~= o0 + rest);
                assert forall|k: int| 0 <= k < out@.len() implies out@[k] + q@.len() <= t@.len() by {
                    if k < ov.len() {
                        assert(out@[k] == ov[k]);
                    }
                }
            }
            st = st + q.len();
        } else {
            st = st + 1;
        }
    }
    proof {
        assert(row_hits(t@, q@, st as int) =~= Seq::<int>::empty());
        assert(out@.map_values(|p: usize| p as int) + row_hits(t@, q@, st as int)
            =~= out@.map_values(|p: usize| p as int));
    }
    out
}

} // verus!
