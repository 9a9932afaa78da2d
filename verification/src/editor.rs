//! The editing state: URL bar, method, body editor, response scroll, focus.
use vstd::prelude::*;

use crate::method::HttpMethod;
use crate::status::Status;
use crate::render::{body_start_row, cursor_segments, first_visible_row, segments_of};
use crate::text::{
    byte_len, char_index, index_at, byte_length, char_width, insert_at, is_boundary,
    lemma_boundary, lemma_char_index, lemma_insert, lemma_remove, lemma_offset_step, offset_of,
    remove_at, utf8_width, join_lines, string_from_chars, chars_of, boundary_at,
};

verus! {

/// Which pane receives the keys.
#[derive(Clone, Copy, PartialEq, Eq, Debug, Structural)]
pub enum Focus {
    Url,
    Body,
    Response,
}

impl Focus {
    /// The pane after this one: URL, body, response, then URL again.
    pub open spec fn following(self) -> Focus {
        match self {
            Focus::Url => Focus::Body,
            Focus::Body => Focus::Response,
            Focus::Response => Focus::Url,
        }
    }

    /// The pane before this one.
    pub open spec fn preceding(self) -> Focus {
        match self {
            Focus::Url => Focus::Response,
            Focus::Body => Focus::Url,
            Focus::Response => Focus::Body,
        }
    }

    /// Focus after Tab.
    pub fn next(self) -> (f: Focus)
        ensures
            f == self.following(),
    {
        match self {
            Focus::Url => Focus::Body,
            Focus::Body => Focus::Response,
            Focus::Response => Focus::Url,
        }
    }

    /// Focus after Shift-Tab.
    pub fn prev(self) -> (f: Focus)
        ensures
            f == self.preceding(),
    {
        match self {
            Focus::Url => Focus::Response,
            Focus::Body => Focus::Url,
            Focus::Response => Focus::Body,
        }
    }
}

/// The whole editing state, in mathematical terms.
pub struct AppView {
    pub url: Seq<char>,
    /// Byte offset of the cursor in the URL.
    pub url_cursor: nat,
    pub method: HttpMethod,
    /// The body, one entry per line (without line breaks).
    pub lines: Seq<Seq<char>>,
    pub row: nat,
    /// Byte offset of the cursor in the current line; may exceed its length.
    pub col: nat,
    pub scroll: nat,
    pub focus: Focus,
    pub status: Status,
    pub should_quit: bool,
}

impl AppView {
    /// The line that holds the cursor.
    pub open spec fn line(self) -> Seq<char> {
        self.lines[self.row as int]
    }

    /// The cursor column, clamped to the current line.
    pub open spec fn col_clamped(self) -> nat {
        if self.col <= byte_len(self.line()) {
            self.col
        } else {
            byte_len(self.line())
        }
    }

    /// Index of the character at the (clamped) body cursor.
    pub open spec fn col_index(self) -> int {
        char_index(self.line(), self.col_clamped() as int)
    }

    /// Index of the character at the URL cursor.
    pub open spec fn url_index(self) -> int {
        char_index(self.url, self.url_cursor as int)
    }

    /// The body cursor falls between two characters of its line, or past its end.
    pub open spec fn body_cursor_ok(self) -> bool {
        is_boundary(self.line(), self.col_clamped() as int)
    }

    pub open spec fn wf(self) -> bool {
        &&& is_boundary(self.url, self.url_cursor as int)
        &&& byte_len(self.url) <= usize::MAX
        &&& self.lines.len() >= 1
        &&& self.row < self.lines.len()
        &&& forall|i: int| 0 <= i < self.lines.len() ==> byte_len(#[trigger] self.lines[i]) <= usize::MAX
        &&& self.scroll <= u16::MAX
    }

    // ── What each editing step does ──────────────────────────────────────

    /// `ch` typed at the URL cursor; the cursor moves past it.
    pub open spec fn url_inserted(self, ch: char) -> AppView {
        AppView {
            url: insert_at(self.url, self.url_index(), ch),
            url_cursor: self.url_cursor + utf8_width(ch),
            ..self
        }
    }

    /// The character before the URL cursor removed; nothing at the start.
    pub open spec fn url_backspaced(self) -> AppView {
        if self.url_cursor == 0 {
            self
        } else {
            AppView {
                url: remove_at(self.url, self.url_index() - 1),
                url_cursor: offset_of(self.url, self.url_index() - 1),
                ..self
            }
        }
    }

    /// The character at the URL cursor removed; nothing at the end.
    pub open spec fn url_deleted(self) -> AppView {
        if self.url_cursor >= byte_len(self.url) {
            self
        } else {
            AppView { url: remove_at(self.url, self.url_index()), ..self }
        }
    }

    /// The URL cursor one character to the left; nothing at the start.
    pub open spec fn url_moved_left(self) -> AppView {
        if self.url_cursor == 0 {
            self
        } else {
            AppView { url_cursor: offset_of(self.url, self.url_index() - 1), ..self }
        }
    }

    /// The URL cursor one character to the right; nothing at the end.
    pub open spec fn url_moved_right(self) -> AppView {
        if self.url_cursor >= byte_len(self.url) {
            self
        } else {
            AppView { url_cursor: offset_of(self.url, self.url_index() + 1), ..self }
        }
    }

    /// The URL cursor at the start.
    pub open spec fn url_homed(self) -> AppView {
        AppView { url_cursor: 0, ..self }
    }

    /// The URL cursor past the last character.
    pub open spec fn url_ended(self) -> AppView {
        AppView { url_cursor: byte_len(self.url), ..self }
    }

    /// `ch` typed at the (clamped) body cursor; the cursor moves past it.
    pub open spec fn body_inserted(self, ch: char) -> AppView {
        AppView {
            lines: self.lines.update(self.row as int, insert_at(self.line(), self.col_index(), ch)),
            col: self.col_clamped() + utf8_width(ch),
            ..self
        }
    }

    /// The current line split at the cursor; the cursor at the start of the second half.
    pub open spec fn body_newlined(self) -> AppView {
        AppView {
            lines: self.lines.take(self.row as int) + seq![
                self.line().take(self.col_index()),
                self.line().skip(self.col_index()),
            ] + self.lines.skip(self.row + 1int),
            row: self.row + 1,
            col: 0,
            ..self
        }
    }

    /// Backspace in the body: at column 0 the line joins the previous one (nothing
    /// on the first line); elsewhere the character before the cursor goes.
    pub open spec fn body_backspaced(self) -> AppView {
        if self.col == 0 {
            if self.row == 0 {
                self
            } else {
                AppView {
                    lines: merged_lines(self.lines, self.row - 1),
                    row: (self.row - 1) as nat,
                    col: byte_len(self.lines[self.row - 1]),
                    ..self
                }
            }
        } else if self.col_clamped() == 0 {
            AppView { col: 0, ..self }
        } else {
            AppView {
                lines: self.lines.update(self.row as int, remove_at(self.line(), self.col_index() - 1)),
                col: offset_of(self.line(), self.col_index() - 1),
                ..self
            }
        }
    }

    /// Delete in the body: at the end of a line the next line joins it (nothing on
    /// the last line); elsewhere the character at the cursor goes.
    pub open spec fn body_deleted(self) -> AppView {
        if self.col_clamped() == byte_len(self.line()) {
            if self.row + 1 < self.lines.len() {
                AppView { lines: merged_lines(self.lines, self.row as int), ..self }
            } else {
                self
            }
        } else {
            AppView {
                lines: self.lines.update(self.row as int, remove_at(self.line(), self.col_index())),
                ..self
            }
        }
    }

    /// The cursor on the previous line, its column clamped to that line.
    pub open spec fn body_moved_up(self) -> AppView {
        if self.row == 0 {
            self
        } else {
            AppView {
                row: (self.row - 1) as nat,
                col: min_nat(self.col, byte_len(self.lines[self.row - 1])),
                ..self
            }
        }
    }

    /// The cursor on the next line, its column clamped to that line.
    pub open spec fn body_moved_down(self) -> AppView {
        if self.row + 1 >= self.lines.len() {
            self
        } else {
            AppView {
                row: self.row + 1,
                col: min_nat(self.col, byte_len(self.lines[self.row + 1int])),
                ..self
            }
        }
    }

    /// The cursor one character left, or at the end of the previous line from column 0.
    pub open spec fn body_moved_left(self) -> AppView {
        if self.col == 0 {
            if self.row == 0 {
                self
            } else {
                AppView {
                    row: (self.row - 1) as nat,
                    col: byte_len(self.lines[self.row - 1]),
                    ..self
                }
            }
        } else if self.col_clamped() == 0 {
            AppView { col: 0, ..self }
        } else {
            AppView { col: offset_of(self.line(), self.col_index() - 1), ..self }
        }
    }

    /// The cursor one character right, or at the start of the next line from the
    /// end of a line.
    pub open spec fn body_moved_right(self) -> AppView {
        if self.col_clamped() == byte_len(self.line()) {
            if self.row + 1 < self.lines.len() {
                AppView { row: self.row + 1, col: 0, ..self }
            } else {
                self
            }
        } else {
            AppView { col: offset_of(self.line(), self.col_index() + 1), ..self }
        }
    }

    /// The body cursor at the start of its line.
    pub open spec fn body_homed(self) -> AppView {
        AppView { col: 0, ..self }
    }

    /// The body cursor at the end of its line.
    pub open spec fn body_ended(self) -> AppView {
        AppView { col: byte_len(self.line()), ..self }
    }

    /// The response scrolled up one line, stopping at the top.
    pub open spec fn scrolled_up(self) -> AppView {
        AppView { scroll: if self.scroll == 0 { 0 } else { (self.scroll - 1) as nat }, ..self }
    }

    /// The response scrolled down one line, stopping at the largest offset.
    pub open spec fn scrolled_down(self) -> AppView {
        AppView { scroll: if self.scroll >= u16::MAX { u16::MAX as nat } else { self.scroll + 1 }, ..self }
    }

    /// A request's outcome shown in the response pane, from the top.
    pub open spec fn received(self, status: Status) -> AppView {
        AppView { status: status, scroll: 0, ..self }
    }

    // ── When a step is possible ──────────────────────────────────────────

    /// The URL can grow by `ch` without its byte length overflowing.
    pub open spec fn url_insert_ok(self, ch: char) -> bool {
        byte_len(self.url) + utf8_width(ch) <= usize::MAX
    }

    /// The current line can grow by `ch` without overflowing.
    pub open spec fn body_insert_ok(self, ch: char) -> bool {
        self.body_cursor_ok() && byte_len(self.line()) + utf8_width(ch) <= usize::MAX
    }

    /// Backspace at column 0 joins two lines whose total length fits.
    pub open spec fn body_backspace_ok(self) -> bool {
        &&& self.body_cursor_ok()
        &&& self.col == 0 && self.row > 0 ==> byte_len(self.lines[self.row - 1]) + byte_len(self.line()) <= usize::MAX
    }

    /// Delete at the end of a line joins two lines whose total length fits.
    pub open spec fn body_delete_ok(self) -> bool {
        &&& self.body_cursor_ok()
        &&& self.col_clamped() == byte_len(self.line()) && self.row + 1 < self.lines.len() ==> byte_len(self.line())
            + byte_len(self.lines[self.row + 1int]) <= usize::MAX
    }
}

/// `lines` with `lines[i]` and `lines[i + 1]` joined into one line.
pub open spec fn merged_lines(lines: Seq<Seq<char>>, i: int) -> Seq<Seq<char>> {
    lines.take(i) + seq![lines[i] + lines[i + 1]] + lines.skip(i + 2)
}

/// The client's editing state. Cursors are byte offsets into the UTF-8
/// encoding of the text they move in, as for a `String`.
pub struct App {
    url: Vec<char>,
    url_cursor: usize,
    method: HttpMethod,
    body_lines: Vec<Vec<char>>,
    body_row: usize,
    body_col: usize,
    response_scroll: u16,
    focus: Focus,
    status: Status,
    should_quit: bool,
}

impl View for App {
    type V = AppView;

    closed spec fn view(&self) -> AppView {
        AppView {
            url: self.url@,
            url_cursor: self.url_cursor as nat,
            method: self.method,
            lines: self.body_lines@.map_values(|l: Vec<char>| l@),
            row: self.body_row as nat,
            col: self.body_col as nat,
            scroll: self.response_scroll as nat,
            focus: self.focus,
            status: self.status,
            should_quit: self.should_quit,
        }
    }
}

impl App {
    pub open spec fn wf(&self) -> bool {
        self@.wf()
    }

    /// An empty URL, method `POST`, one empty body line, focus on the URL.
    pub fn new() -> (app: Self)
        ensures
            app.wf(),
            app@.url == Seq::<char>::empty(),
            app@.url_cursor == 0,
            app@.method == HttpMethod::Post,
            app@.lines == seq![Seq::<char>::empty()],
            app@.row == 0,
            app@.col == 0,
            app@.scroll == 0,
            app@.focus == Focus::Url,
            app@.status == Status::Idle,
            !app@.should_quit,
    {
        let mut lines: Vec<Vec<char>> = Vec::new();
        lines.push(Vec::new());
        let app = App {
            url: Vec::new(),
            url_cursor: 0,
            method: HttpMethod::Post,
            body_lines: lines,
            body_row: 0,
            body_col: 0,
            response_scroll: 0,
            focus: Focus::Url,
            status: Status::Idle,
            should_quit: false,
        };
        proof {
            assert(app@.lines =~= seq![Seq::<char>::empty()]);
            crate::text::lemma_offset_ends(app@.url);
            assert(byte_len(Seq::<char>::empty()) == 0);
        }
        app
    }

    // ── URL bar ──────────────────────────────────────────────────────────

    /// Inserts `ch` at the cursor and moves the cursor past it.
    pub fn url_insert(&mut self, ch: char)
        requires
            old(self).wf(),
            old(self)@.url_insert_ok(ch),
        ensures
            final(self).wf(),
            final(self)@ == old(self)@.url_inserted(ch),
    {
        proof {
            lemma_boundary(self@.url, self@.url_cursor as int);
        }
        let k = index_at(&self.url, self.url_cursor);
        let ghost old_url = self@.url;
        self.url.insert(k, ch);
        proof {
            lemma_insert(old_url, k as int, ch);
            assert(self.url@ =~= insert_at(old_url, k as int, ch));
            crate::text::lemma_offset_bounded(self.url@, k as int + 1);
        }
        self.url_cursor = self.url_cursor + char_width(ch);
        proof {
            assert(offset_of(self.url@, k as int + 1) == self.url_cursor);
            assert(0 <= k + 1 <= self.url@.len());
            lemma_char_index(self.url@, k as int + 1);
        }
    }

    /// Deletes the character before the cursor; nothing at the start of the URL.
    pub fn url_backspace(&mut self)
        requires
            old(self).wf(),
        ensures
            final(self).wf(),
            final(self)@ == old(self)@.url_backspaced(),
    {
        if self.url_cursor == 0 {
            return;
        }
        proof {
            lemma_boundary(self@.url, self@.url_cursor as int);
        }
        let k = index_at(&self.url, self.url_cursor);
        let ghost old_url = self@.url;
        proof {
            lemma_offset_step(old_url, k - 1);
        }
        let prev = self.url_cursor - char_width(self.url[k - 1]);
        self.url.remove(k - 1);
        self.url_cursor = prev;
        proof {
            lemma_remove(old_url, k - 1);
            assert(self.url@ =~= remove_at(old_url, k - 1));
            lemma_char_index(self.url@, k - 1);
        }
    }

    /// Deletes the character at the cursor; nothing at the end of the URL.
    pub fn url_delete(&mut self)
        requires
            old(self).wf(),
        ensures
            final(self).wf(),
            final(self)@ == old(self)@.url_deleted(),
    {
        let n = byte_length(&self.url);
        if self.url_cursor >= n {
            return;
        }
        proof {
            lemma_boundary(self@.url, self@.url_cursor as int);
        }
        let k = index_at(&self.url, self.url_cursor);
        let ghost old_url = self@.url;
        self.url.remove(k);
        proof {
            lemma_remove(old_url, k as int);
            assert(self.url@ =~= remove_at(old_url, k as int));
            lemma_char_index(self.url@, k as int);
        }
    }

    /// Moves the cursor one character to the left; nothing at the start.
    pub fn url_move_left(&mut self)
        requires
            old(self).wf(),
        ensures
            final(self).wf(),
            final(self)@ == old(self)@.url_moved_left(),
    {
        if self.url_cursor == 0 {
            return;
        }
        proof {
            lemma_boundary(self@.url, self@.url_cursor as int);
        }
        let k = index_at(&self.url, self.url_cursor);
        proof {
            lemma_offset_step(self@.url, k - 1);
            lemma_char_index(self@.url, k - 1);
        }
        self.url_cursor = self.url_cursor - char_width(self.url[k - 1]);
    }

    /// Moves the cursor one character to the right; nothing at the end.
    pub fn url_move_right(&mut self)
        requires
            old(self).wf(),
        ensures
            final(self).wf(),
            final(self)@ == old(self)@.url_moved_right(),
    {
        let n = byte_length(&self.url);
        if self.url_cursor >= n {
            return;
        }
        proof {
            lemma_boundary(self@.url, self@.url_cursor as int);
        }
        let k = index_at(&self.url, self.url_cursor);
        proof {
            lemma_offset_step(self@.url, k as int);
            crate::text::lemma_offset_bounded(self@.url, k + 1);
            lemma_char_index(self@.url, k + 1);
        }
        self.url_cursor = self.url_cursor + char_width(self.url[k]);
    }

    /// Moves the URL cursor to the start.
    pub fn url_home(&mut self)
        requires
            old(self).wf(),
        ensures
            final(self).wf(),
            final(self)@ == old(self)@.url_homed(),
    {
        self.url_cursor = 0;
        proof {
            lemma_char_index(self@.url, 0);
            crate::text::lemma_offset_ends(self@.url);
        }
    }

    /// Moves the URL cursor past the last character.
    pub fn url_end(&mut self)
        requires
            old(self).wf(),
        ensures
            final(self).wf(),
            final(self)@ == old(self)@.url_ended(),
    {
        self.url_cursor = byte_length(&self.url);
        proof {
            crate::text::lemma_offset_ends(self@.url);
            lemma_char_index(self@.url, self@.url.len() as int);
        }
    }

    // ── Body editor ──────────────────────────────────────────────────────

    /// Byte length of the current line and the clamped cursor column.
    fn clamped_col(&self) -> (res: (usize, usize))
        requires
            self.wf(),
        ensures
            res.0 == byte_len(self@.line()),
            res.1 == self@.col_clamped(),
    {
        proof {
            self.lemma_line(self.body_row as int);
        }
        let len = byte_length(&self.body_lines[self.body_row]);
        let col = if self.body_col < len {
            self.body_col
        } else {
            len
        };
        (len, col)
    }

    proof fn lemma_line(&self, i: int)
        requires
            0 <= i < self.body_lines@.len(),
        ensures
            self@.lines[i] == self.body_lines@[i]@,
            self@.lines.len() == self.body_lines@.len(),
    {
    }

    /// Inserts `ch` at the cursor of the current line and moves the cursor past it.
    pub fn body_insert(&mut self, ch: char)
        requires
            old(self).wf(),
            old(self)@.body_insert_ok(ch),
        ensures
            final(self).wf(),
            final(self)@ == old(self)@.body_inserted(ch),
    {
        let ghost old_view = self@;
        let row = self.body_row;
        let (_, col) = self.clamped_col();
        proof {
            self.lemma_line(row as int);
            lemma_boundary(old_view.line(), col as int);
        }
        let k = index_at(&self.body_lines[row], col);
        let ghost old_lines = self.body_lines@;
        self.body_lines[row].insert(k, ch);
        proof {
            assert(self.body_lines@.len() == old_lines.len());
            assert(self.body_lines@[row as int]@ =~= insert_at(old_view.line(), k as int, ch));
            assert(forall|i: int| 0 <= i < old_lines.len() && i != row ==> self.body_lines@[i] == old_lines[i]);
            lemma_insert(old_view.line(), k as int, ch);
            crate::text::lemma_offset_bounded(old_view.line(), k as int);
        }
        self.body_col = col + char_width(ch);
        proof {
            assert(self@.lines =~= old_view.lines.update(row as int, insert_at(old_view.line(), k as int, ch)));
        }
    }

    /// Splits the current line at the cursor; the cursor goes to the start of the new line.
    pub fn body_newline(&mut self)
        requires
            old(self).wf(),
            old(self)@.body_cursor_ok(),
        ensures
            final(self).wf(),
            final(self)@ == old(self)@.body_newlined(),
    {
        let ghost old_view = self@;
        let row = self.body_row;
        let (_, col) = self.clamped_col();
        proof {
            self.lemma_line(row as int);
            lemma_boundary(old_view.line(), col as int);
        }
        let k = index_at(&self.body_lines[row], col);
        let n = self.body_lines.len();
        let ghost old_lines = self.body_lines@;
        let remainder = self.body_lines[row].split_off(k);
        proof {
            assert(self.body_lines@.len() == old_lines.len());
            assert(self.body_lines@[row as int]@ =~= old_view.line().take(k as int));
            assert(remainder@ =~= old_view.line().skip(k as int));
            assert(forall|i: int| 0 <= i < old_lines.len() && i != row ==> self.body_lines@[i] == old_lines[i]);
            assert(row < n);
        }
        self.body_row = row + 1;
        self.body_lines.insert(row + 1, remainder);
        self.body_col = 0;
        proof {
            let line = old_view.line();
            assert(line =~= line.take(k as int) + line.skip(k as int));
            crate::text::lemma_byte_len_concat(line.take(k as int), line.skip(k as int));
            assert(self@.lines =~= old_view.lines.take(row as int)
                + seq![line.take(k as int), line.skip(k as int)]
                + old_view.lines.skip(row + 1));
        }
    }

    /// Joins the line at `row` onto the one before it.
    fn merge_into_previous(&mut self, row: usize)
        requires
            old(self).wf(),
            0 < row < old(self)@.lines.len(),
            byte_len(old(self)@.lines[row - 1]) + byte_len(old(self)@.lines[row as int]) <= usize::MAX,
        ensures
            final(self).wf(),
            final(self)@ == (AppView {
                lines: merged_lines(old(self)@.lines, row - 1),
                row: if old(self)@.row >= row { (old(self)@.row - 1) as nat } else { old(self)@.row },
                ..old(self)@
            }),
    {
        let ghost old_view = self@;
        let ghost old_lines = self.body_lines@;
        proof {
            self.lemma_line(row as int);
            self.lemma_line(row - 1);
        }
        let mut current = self.body_lines.remove(row);
        if self.body_row >= row {
            self.body_row = self.body_row - 1;
        }
        let ghost mid_lines = self.body_lines@;
        self.body_lines[row - 1].append(&mut current);
        proof {
            assert(self.body_lines@.len() == mid_lines.len());
            assert(forall|i: int| 0 <= i < mid_lines.len() && i != row - 1 ==> self.body_lines@[i] == mid_lines[i]);
            let joined = old_view.lines[row - 1] + old_view.lines[row as int];
            assert(self.body_lines@[row - 1]@ =~= joined);
            crate::text::lemma_byte_len_concat(old_view.lines[row - 1], old_view.lines[row as int]);
            assert(self@.lines =~= merged_lines(old_view.lines, row - 1));
        }
    }

    /// At column 0, joins the line onto the previous one (nothing on the first
    /// line); elsewhere deletes the character before the cursor.
    pub fn body_backspace(&mut self)
        requires
            old(self).wf(),
            old(self)@.body_backspace_ok(),
        ensures
            final(self).wf(),
            final(self)@ == old(self)@.body_backspaced(),
    {
        let ghost old_view = self@;
        let row = self.body_row;
        if self.body_col == 0 {
            if row == 0 {
                return;
            }
            proof {
                self.lemma_line(row - 1);
            }
            let prev_len = byte_length(&self.body_lines[row - 1]);
            self.merge_into_previous(row);
            self.body_col = prev_len;
        } else {
            let (_, col) = self.clamped_col();
            if col == 0 {
                self.body_col = 0;
                return;
            }
            proof {
                self.lemma_line(row as int);
                lemma_boundary(old_view.line(), col as int);
            }
            let k = index_at(&self.body_lines[row], col);
            proof {
                lemma_offset_step(old_view.line(), k - 1);
            }
            let prev = col - char_width(self.body_lines[row][k - 1]);
            let ghost old_lines = self.body_lines@;
            self.body_lines[row].remove(k - 1);
            proof {
                assert(self.body_lines@.len() == old_lines.len());
                assert(self.body_lines@[row as int]@ =~= remove_at(old_view.line(), k - 1));
                assert(forall|i: int| 0 <= i < old_lines.len() && i != row ==> self.body_lines@[i] == old_lines[i]);
                lemma_remove(old_view.line(), k - 1);
                assert(self@.lines =~= old_view.lines.update(row as int, remove_at(old_view.line(), k - 1)));
            }
            self.body_col = prev;
        }
    }

    /// At the end of the line, joins the next line onto it (nothing on the last
    /// line); elsewhere deletes the character at the cursor.
    pub fn body_delete(&mut self)
        requires
            old(self).wf(),
            old(self)@.body_delete_ok(),
        ensures
            final(self).wf(),
            final(self)@ == old(self)@.body_deleted(),
    {
        let ghost old_view = self@;
        let row = self.body_row;
        let (len, col) = self.clamped_col();
        if col >= len {
            let n = self.body_lines.len();
            if row + 1 < n {
                self.merge_into_previous(row + 1);
            }
        } else {
            proof {
                self.lemma_line(row as int);
                lemma_boundary(old_view.line(), col as int);
            }
            let k = index_at(&self.body_lines[row], col);
            let ghost old_lines = self.body_lines@;
            self.body_lines[row].remove(k);
            proof {
                assert(self.body_lines@.len() == old_lines.len());
                assert(self.body_lines@[row as int]@ =~= remove_at(old_view.line(), k as int));
                assert(forall|i: int| 0 <= i < old_lines.len() && i != row ==> self.body_lines@[i] == old_lines[i]);
                lemma_remove(old_view.line(), k as int);
                assert(self@.lines =~= old_view.lines.update(row as int, remove_at(old_view.line(), k as int)));
            }
        }
    }

    /// Moves to the previous line, keeping the column where that line is long enough.
    pub fn body_up(&mut self)
        requires
            old(self).wf(),
        ensures
            final(self).wf(),
            final(self)@ == old(self)@.body_moved_up(),
    {
        if self.body_row > 0 {
            self.body_row = self.body_row - 1;
            proof {
                self.lemma_line(self.body_row as int);
            }
            let len = byte_length(&self.body_lines[self.body_row]);
            self.body_col = if self.body_col < len { self.body_col } else { len };
        }
    }

    /// Moves to the next line, keeping the column where that line is long enough.
    pub fn body_down(&mut self)
        requires
            old(self).wf(),
        ensures
            final(self).wf(),
            final(self)@ == old(self)@.body_moved_down(),
    {
        let n = self.body_lines.len();
        if self.body_row + 1 < n {
            self.body_row = self.body_row + 1;
            proof {
                self.lemma_line(self.body_row as int);
            }
            let len = byte_length(&self.body_lines[self.body_row]);
            self.body_col = if self.body_col < len { self.body_col } else { len };
        }
    }

    /// Moves one character left, or to the end of the previous line from column 0.
    pub fn body_move_left(&mut self)
        requires
            old(self).wf(),
            old(self)@.body_cursor_ok(),
        ensures
            final(self).wf(),
            final(self)@ == old(self)@.body_moved_left(),
    {
        let ghost old_view = self@;
        if self.body_col == 0 {
            if self.body_row > 0 {
                self.body_row = self.body_row - 1;
                proof {
                    self.lemma_line(self.body_row as int);
                }
                self.body_col = byte_length(&self.body_lines[self.body_row]);
            }
        } else {
            let row = self.body_row;
            let (_, col) = self.clamped_col();
            if col == 0 {
                self.body_col = 0;
                return;
            }
            proof {
                self.lemma_line(row as int);
                lemma_boundary(old_view.line(), col as int);
            }
            let k = index_at(&self.body_lines[row], col);
            proof {
                lemma_offset_step(old_view.line(), k - 1);
            }
            self.body_col = col - char_width(self.body_lines[row][k - 1]);
        }
    }

    /// Moves one character right, or to the start of the next line from the end
    /// of a line (nothing at the end of the last line).
    pub fn body_move_right(&mut self)
        requires
            old(self).wf(),
            old(self)@.body_cursor_ok(),
        ensures
            final(self).wf(),
            final(self)@ == old(self)@.body_moved_right(),
    {
        let ghost old_view = self@;
        let row = self.body_row;
        let (len, col) = self.clamped_col();
        if col >= len {
            let n = self.body_lines.len();
            if row + 1 < n {
                self.body_row = row + 1;
                self.body_col = 0;
            }
        } else {
            proof {
                self.lemma_line(row as int);
                lemma_boundary(old_view.line(), col as int);
            }
            let k = index_at(&self.body_lines[row], col);
            proof {
                lemma_offset_step(old_view.line(), k as int);
                crate::text::lemma_offset_bounded(old_view.line(), k + 1);
            }
            self.body_col = col + char_width(self.body_lines[row][k]);
        }
    }

    /// Moves the body cursor to the start of the line.
    pub fn body_home(&mut self)
        requires
            old(self).wf(),
        ensures
            final(self).wf(),
            final(self)@ == old(self)@.body_homed(),
    {
        self.body_col = 0;
    }

    /// Moves the body cursor to the end of the line.
    pub fn body_end(&mut self)
        requires
            old(self).wf(),
        ensures
            final(self).wf(),
            final(self)@ == old(self)@.body_ended(),
    {
        proof {
            self.lemma_line(self.body_row as int);
        }
        self.body_col = byte_length(&self.body_lines[self.body_row]);
    }

    /// The body as one text, lines separated by `\n`.
    pub fn body_text(&self) -> (text: String)
        requires
            self.wf(),
        ensures
            text@ == join_lines(self@.lines),
    {
        let mut out: Vec<char> = Vec::new();
        let n = self.body_lines.len();
        let mut i: usize = 0;
        while i < n
            invariant
                n == self.body_lines@.len(),
                n == self@.lines.len(),
                i <= n,
                out@ == join_lines(self@.lines.take(i as int)),
            decreases n - i,
        {
            proof {
                self.lemma_line(i as int);
                let t = self@.lines.take(i as int + 1);
                assert(t.drop_last() =~= self@.lines.take(i as int));
                assert(t.last() == self@.lines[i as int]);
                if i == 0 {
                    assert(self@.lines.take(0) =~= Seq::<Seq<char>>::empty());
                }
            }
            if i > 0 {
                out.push('\n');
            }
            out.extend_from_slice(self.body_lines[i].as_slice());
            i = i + 1;
        }
        proof {
            assert(self@.lines.take(n as int) =~= self@.lines);
        }
        string_from_chars(out.as_slice())
    }

    // ── Response pane ────────────────────────────────────────────────────

    /// Scrolls the response up one line, stopping at the top.
    pub fn scroll_response_up(&mut self)
        requires
            old(self).wf(),
        ensures
            final(self).wf(),
            final(self)@ == old(self)@.scrolled_up(),
    {
        self.response_scroll = self.response_scroll.saturating_sub(1);
    }

    /// Scrolls the response down one line, stopping at the largest offset.
    pub fn scroll_response_down(&mut self)
        requires
            old(self).wf(),
        ensures
            final(self).wf(),
            final(self)@ == old(self)@.scrolled_down(),
    {
        self.response_scroll = self.response_scroll.saturating_add(1);
    }

    // ── State shared with the event loop ─────────────────────────────────

    /// Takes in the outcome of a request: shows it from the top of the pane.
    pub fn receive_status(&mut self, status: Status)
        requires
            old(self).wf(),
        ensures
            final(self).wf(),
            final(self)@ == old(self)@.received(status),
    {
        self.status = status;
        self.response_scroll = 0;
    }

    pub fn set_status(&mut self, status: Status)
        requires
            old(self).wf(),
        ensures
            final(self).wf(),
            final(self)@ == (AppView { status: status, ..old(self)@ }),
    {
        self.status = status;
    }

    pub fn set_focus(&mut self, focus: Focus)
        requires
            old(self).wf(),
        ensures
            final(self).wf(),
            final(self)@ == (AppView { focus: focus, ..old(self)@ }),
    {
        self.focus = focus;
    }

    pub fn set_method(&mut self, method: HttpMethod)
        requires
            old(self).wf(),
        ensures
            final(self).wf(),
            final(self)@ == (AppView { method: method, ..old(self)@ }),
    {
        self.method = method;
    }

    pub fn quit(&mut self)
        requires
            old(self).wf(),
        ensures
            final(self).wf(),
            final(self)@ == (AppView { should_quit: true, ..old(self)@ }),
    {
        self.should_quit = true;
    }

    /// Places the URL cursor at byte offset `cursor`.
    pub fn set_url_cursor(&mut self, cursor: usize)
        requires
            old(self).wf(),
            is_boundary(old(self)@.url, cursor as int),
        ensures
            final(self).wf(),
            final(self)@ == (AppView { url_cursor: cursor as nat, ..old(self)@ }),
    {
        self.url_cursor = cursor;
    }

    /// Places the body cursor on line `row`.
    pub fn set_body_row(&mut self, row: usize)
        requires
            old(self).wf(),
            row < old(self)@.lines.len(),
        ensures
            final(self).wf(),
            final(self)@ == (AppView { row: row as nat, ..old(self)@ }),
    {
        self.body_row = row;
    }

    /// Places the body cursor at byte offset `col` of its line.
    pub fn set_body_col(&mut self, col: usize)
        requires
            old(self).wf(),
        ensures
            final(self).wf(),
            final(self)@ == (AppView { col: col as nat, ..old(self)@ }),
    {
        self.body_col = col;
    }

    /// Replaces the body's lines; the cursor position is kept.
    pub fn set_body_lines(&mut self, lines: &Vec<String>)
        requires
            old(self).wf(),
            old(self)@.row < lines@.len(),
            forall|i: int| 0 <= i < lines@.len() ==> byte_len(#[trigger] lines@[i]@) <= usize::MAX,
        ensures
            final(self).wf(),
            final(self)@ == (AppView { lines: lines@.map_values(|l: String| l@), ..old(self)@ }),
    {
        let mut out: Vec<Vec<char>> = Vec::new();
        let n = lines.len();
        let mut i: usize = 0;
        while i < n
            invariant
                n == lines@.len(),
                i <= n,
                out@.len() == i,
                forall|j: int| 0 <= j < i ==> #[trigger] out@[j]@ == lines@[j]@,
            decreases n - i,
        {
            out.push(chars_of(lines[i].as_str()));
            i = i + 1;
        }
        self.body_lines = out;
        proof {
            assert(self@.lines =~= lines@.map_values(|l: String| l@));
        }
    }

    /// The URL as typed.
    pub fn url(&self) -> (s: String)
        ensures
            s@ == self@.url,
    {
        string_from_chars(self.url.as_slice())
    }

    /// Byte offset of the URL cursor.
    pub fn url_cursor(&self) -> (c: usize)
        ensures
            c == self@.url_cursor,
    {
        self.url_cursor
    }

    pub fn method(&self) -> (m: HttpMethod)
        ensures
            m == self@.method,
    {
        self.method
    }

    /// Number of lines in the body.
    pub fn body_line_count(&self) -> (n: usize)
        ensures
            n == self@.lines.len(),
    {
        self.body_lines.len()
    }

    /// Line `i` of the body.
    pub fn body_line(&self, i: usize) -> (s: String)
        requires
            i < self@.lines.len(),
        ensures
            s@ == self@.lines[i as int],
    {
        string_from_chars(self.body_lines[i].as_slice())
    }

    /// The body's lines.
    pub fn body_lines(&self) -> (v: Vec<String>)
        ensures
            v@.len() == self@.lines.len(),
            forall|i: int| 0 <= i < v@.len() ==> #[trigger] v@[i]@ == self@.lines[i],
    {
        let mut v: Vec<String> = Vec::new();
        let n = self.body_lines.len();
        let mut i: usize = 0;
        while i < n
            invariant
                n == self.body_lines@.len(),
                n == self@.lines.len(),
                i <= n,
                v@.len() == i,
                forall|j: int| 0 <= j < i ==> #[trigger] v@[j]@ == self@.lines[j],
            decreases n - i,
        {
            v.push(string_from_chars(self.body_lines[i].as_slice()));
            i = i + 1;
        }
        v
    }

    pub fn body_row(&self) -> (r: usize)
        ensures
            r == self@.row,
    {
        self.body_row
    }

    pub fn body_col(&self) -> (c: usize)
        ensures
            c == self@.col,
    {
        self.body_col
    }

    pub fn response_scroll(&self) -> (s: u16)
        ensures
            s == self@.scroll,
    {
        self.response_scroll
    }

    pub fn focus(&self) -> (f: Focus)
        ensures
            f == self@.focus,
    {
        self.focus
    }

    pub fn status(&self) -> (s: &Status)
        ensures
            *s == self@.status,
    {
        &self.status
    }

    pub fn should_quit(&self) -> (q: bool)
        ensures
            q == self@.should_quit,
    {
        self.should_quit
    }
    // ── Drawing ──────────────────────────────────────────────────────────

    /// The URL split around its cursor, for drawing the focused URL bar.
    pub fn url_segments(&self) -> (r: (String, String, String))
        requires
            self.wf(),
        ensures
            ({
                let (b, c, a) = segments_of(self@.url, self@.url_index());
                r.0@ == b && r.1@ == c && r.2@ == a
            }),
    {
        proof {
            lemma_boundary(self@.url, self@.url_cursor as int);
        }
        cursor_segments(&self.url, self.url_cursor)
    }

    /// The cursor's line split around the cursor, for drawing the focused body.
    pub fn body_segments(&self) -> (r: (String, String, String))
        requires
            self.wf(),
            self@.body_cursor_ok(),
        ensures
            ({
                let (b, c, a) = segments_of(self@.line(), self@.col_index());
                r.0@ == b && r.1@ == c && r.2@ == a
            }),
    {
        proof {
            self.lemma_line(self.body_row as int);
        }
        cursor_segments(&self.body_lines[self.body_row], self.body_col)
    }

    /// First body line to show in a pane `visible_height` lines high.
    pub fn body_first_visible_row(&self, visible_height: usize) -> (start: usize)
        requires
            self.wf(),
        ensures
            start == first_visible_row(self@.row, visible_height as nat),
    {
        let line_count = self.body_lines.len();
        assert(self.body_row < line_count);
        body_start_row(self.body_row, visible_height)
    }
    // ── Checks before a step ─────────────────────────────────────────────

    /// Whether the body cursor falls between two characters of its line (or past its end).
    pub fn body_cursor_valid(&self) -> (b: bool)
        requires
            self.wf(),
        ensures
            b == self@.body_cursor_ok(),
    {
        let (_, col) = self.clamped_col();
        proof {
            self.lemma_line(self.body_row as int);
        }
        boundary_at(&self.body_lines[self.body_row], col)
    }

    /// Whether `ch` can be typed into the URL.
    pub fn url_insert_fits(&self, ch: char) -> (b: bool)
        requires
            self.wf(),
        ensures
            b == self@.url_insert_ok(ch),
    {
        let n = byte_length(&self.url);
        n <= usize::MAX - char_width(ch)
    }

    /// Whether `ch` can be typed into the body.
    pub fn body_insert_fits(&self, ch: char) -> (b: bool)
        requires
            self.wf(),
        ensures
            b == self@.body_insert_ok(ch),
    {
        let (len, col) = self.clamped_col();
        self.body_cursor_valid() && len <= usize::MAX - char_width(ch)
    }

    /// Whether Backspace can be applied to the body.
    pub fn body_backspace_fits(&self) -> (b: bool)
        requires
            self.wf(),
        ensures
            b == self@.body_backspace_ok(),
    {
        if !self.body_cursor_valid() {
            return false;
        }
        if self.body_col == 0 && self.body_row > 0 {
            proof {
                self.lemma_line(self.body_row as int);
                self.lemma_line(self.body_row - 1);
            }
            let a = byte_length(&self.body_lines[self.body_row - 1]);
            let b = byte_length(&self.body_lines[self.body_row]);
            a <= usize::MAX - b
        } else {
            true
        }
    }

    /// Whether Delete can be applied to the body.
    pub fn body_delete_fits(&self) -> (b: bool)
        requires
            self.wf(),
        ensures
            b == self@.body_delete_ok(),
    {
        if !self.body_cursor_valid() {
            return false;
        }
        let (len, col) = self.clamped_col();
        let n = self.body_lines.len();
        if col == len && self.body_row + 1 < n {
            proof {
                self.lemma_line(self.body_row + 1);
            }
            let b = byte_length(&self.body_lines[self.body_row + 1]);
            len <= usize::MAX - b
        } else {
            true
        }
    }
}

/// The smaller of two naturals.
pub open spec fn min_nat(a: nat, b: nat) -> nat {
    if a <= b {
        a
    } else {
        b
    }
}

} // verus!
