//! Properties that relate several operations of the client.
use vstd::prelude::*;

use crate::editor::{AppView, Focus, merged_lines};
use crate::method::HttpMethod;
use crate::text::{
    byte_len, insert_at, join_lines, lemma_boundary, lemma_char_index, lemma_insert,
    lemma_offset_step, offset_of, remove_at,
};

verus! {

/// Cycling the method forward and back returns to it, and five steps forward
/// go round the whole cycle `GET → POST → PUT → PATCH → DELETE → GET`.
pub proof fn method_cycle(m: HttpMethod)
    ensures
        m.spec_next().spec_prev() == m,
        m.spec_prev().spec_next() == m,
        m.spec_next().spec_next().spec_next().spec_next().spec_next() == m,
        HttpMethod::Get.spec_next() == HttpMethod::Post,
        HttpMethod::Post.spec_next() == HttpMethod::Put,
        HttpMethod::Put.spec_next() == HttpMethod::Patch,
        HttpMethod::Patch.spec_next() == HttpMethod::Delete,
        HttpMethod::Delete.spec_next() == HttpMethod::Get,
{
}

/// Tab and Shift-Tab undo each other, and three Tabs come back to the same pane.
pub proof fn focus_cycle(f: Focus)
    ensures
        f.following().preceding() == f,
        f.preceding().following() == f,
        f.following().following().following() == f,
{
}

/// Typing a character in the URL bar and then Backspace restores the URL and cursor.
pub proof fn url_insert_then_backspace(v: AppView, c: char)
    requires
        v.wf(),
        v.url_insert_ok(c),
    ensures
        v.url_inserted(c).wf(),
        v.url_inserted(c).url_backspaced() == v,
{
    let k = v.url_index();
    lemma_boundary(v.url, v.url_cursor as int);
    let w = v.url_inserted(c);
    lemma_insert(v.url, k, c);
    lemma_char_index(w.url, k + 1);
    assert(w.url_index() == k + 1);
    assert(remove_at(w.url, k) =~= v.url);
}

/// Typing a character, moving left over it and deleting it restores the URL and cursor.
pub proof fn url_insert_left_delete(v: AppView, c: char)
    requires
        v.wf(),
        v.url_insert_ok(c),
    ensures
        v.url_inserted(c).url_moved_left().url_deleted() == v,
{
    let k = v.url_index();
    lemma_boundary(v.url, v.url_cursor as int);
    let w = v.url_inserted(c);
    lemma_insert(v.url, k, c);
    lemma_char_index(w.url, k + 1);
    let x = w.url_moved_left();
    assert(x.url_cursor == v.url_cursor);
    lemma_char_index(w.url, k);
    assert(x.url_index() == k);
    crate::text::lemma_offset_bounded(w.url, k);
    assert(remove_at(w.url, k) =~= v.url);
}

/// Moving the URL cursor left and then right returns it, except at the start.
pub proof fn url_left_then_right(v: AppView)
    requires
        v.wf(),
        v.url_cursor > 0,
    ensures
        v.url_moved_left().url_moved_right() == v,
{
    let k = v.url_index();
    lemma_boundary(v.url, v.url_cursor as int);
    lemma_char_index(v.url, k - 1);
    crate::text::lemma_offset_bounded(v.url, k - 1);
    lemma_char_index(v.url, k);
}

/// Moving the URL cursor right and then left returns it, except at the end.
pub proof fn url_right_then_left(v: AppView)
    requires
        v.wf(),
        v.url_cursor < byte_len(v.url),
    ensures
        v.url_moved_right().url_moved_left() == v,
{
    let k = v.url_index();
    lemma_boundary(v.url, v.url_cursor as int);
    lemma_char_index(v.url, k + 1);
    lemma_offset_step(v.url, k);
    lemma_char_index(v.url, k);
}

/// Typing a character in the body and then Backspace restores the body and
/// cursor (for a cursor within its line).
pub proof fn body_insert_then_backspace(v: AppView, c: char)
    requires
        v.wf(),
        v.body_insert_ok(c),
        v.col <= byte_len(v.line()),
    ensures
        v.body_inserted(c).wf(),
        v.body_inserted(c).body_backspace_ok(),
        v.body_inserted(c).body_backspaced() == v,
{
    let line = v.line();
    let k = v.col_index();
    lemma_boundary(line, v.col as int);
    let w = v.body_inserted(c);
    lemma_insert(line, k, c);
    let nl = insert_at(line, k, c);
    assert(w.line() == nl);
    crate::text::lemma_offset_bounded(nl, k + 1);
    lemma_char_index(nl, k + 1);
    assert(w.col_clamped() == w.col);
    assert(w.col_index() == k + 1);
    crate::text::lemma_width_bounds(c);
    assert(remove_at(nl, k) =~= line);
    assert(w.lines.update(v.row as int, line) =~= v.lines);
    lemma_char_index(nl, k + 1);
    assert(w.body_cursor_ok());
    assert forall|i: int| 0 <= i < w.lines.len() implies byte_len(#[trigger] w.lines[i]) <= usize::MAX by {
        if i != v.row {
            assert(w.lines[i] == v.lines[i]);
        }
    }
}

/// Breaking a line and then Backspace at the start of the new line joins the
/// two halves back and restores the cursor (for a cursor within its line).
pub proof fn body_newline_then_backspace(v: AppView)
    requires
        v.wf(),
        v.body_cursor_ok(),
        v.col <= byte_len(v.line()),
    ensures
        v.body_newlined().wf(),
        v.body_newlined().body_backspace_ok(),
        v.body_newlined().body_backspaced() == v,
{
    let line = v.line();
    let k = v.col_index();
    let r = v.row as int;
    lemma_boundary(line, v.col as int);
    let w = v.body_newlined();
    assert(w.lines[r] == line.take(k));
    assert(w.lines[r + 1] == line.skip(k));
    assert(line.take(k) + line.skip(k) =~= line);
    assert(merged_lines(w.lines, r) =~= v.lines);
    assert(line.take(k) =~= line.take(k).take(k as int));
    assert(offset_of(line, k) == byte_len(line.take(k)));
    crate::text::lemma_byte_len_concat(line.take(k), line.skip(k));
    crate::text::lemma_offset_ends(w.lines[r + 1]);
    lemma_char_index(w.lines[r + 1], 0);
    assert(w.body_cursor_ok());
    assert forall|i: int| 0 <= i < w.lines.len() implies byte_len(#[trigger] w.lines[i]) <= usize::MAX by {
        if i < r {
            assert(w.lines[i] == v.lines[i]);
        } else if i > r + 1 {
            assert(w.lines[i] == v.lines[i - 1]);
        }
    }
}

/// Moving up and then down returns to the same line.
pub proof fn body_up_then_down(v: AppView)
    requires
        v.wf(),
        v.row > 0,
    ensures
        v.body_moved_up().body_moved_down().row == v.row,
{
}

/// Scrolling the response down and then up returns to the same offset,
/// except at the largest offset; scrolling up from the top stays there.
pub proof fn scroll_down_then_up(v: AppView)
    requires
        v.wf(),
    ensures
        v.scroll < u16::MAX ==> v.scrolled_down().scrolled_up() == v,
        v.scroll == 0 ==> v.scrolled_up() == v,
{
}

/// Joining two non-empty runs of lines puts one line break between them.
pub proof fn lemma_join_concat(a: Seq<Seq<char>>, b: Seq<Seq<char>>)
    requires
        a.len() > 0,
        b.len() > 0,
    ensures
        join_lines(a + b) == join_lines(a) + seq!['\n'] + join_lines(b),
    decreases b.len(),
{
    let ab = a + b;
    assert(ab.drop_last() =~= a + b.drop_last());
    assert(ab.last() == b.last());
    if b.len() == 1 {
        assert(a + b.drop_last() =~= a);
    } else {
        lemma_join_concat(a, b.drop_last());
        assert(join_lines(ab) =~= join_lines(a) + seq!['\n'] + join_lines(b));
    }
}

/// The text before the lines `lines.skip(i)` in the joined body, break included.
pub open spec fn joined_prefix(lines: Seq<Seq<char>>, i: int) -> Seq<char> {
    if i == 0 {
        Seq::empty()
    } else {
        join_lines(lines.take(i)) + seq!['\n']
    }
}

pub proof fn lemma_join_three(p: Seq<Seq<char>>, m: Seq<Seq<char>>, s: Seq<Seq<char>>)
    requires
        m.len() > 0,
    ensures
        join_lines(p + m + s) == (if p.len() == 0 { Seq::empty() } else { join_lines(p) + seq!['\n'] })
            + join_lines(m) + (if s.len() == 0 { Seq::empty() } else { seq!['\n'] + join_lines(s) }),
{
    let ms = m + s;
    if s.len() > 0 {
        lemma_join_concat(m, s);
    } else {
        assert(ms =~= m);
    }
    if p.len() > 0 {
        assert(p + m + s =~= p + ms);
        lemma_join_concat(p, ms);
    } else {
        assert(p + m + s =~= ms);
    }
}

/// Where the body cursor lies in the joined body text.
pub open spec fn text_position(v: AppView) -> int {
    joined_prefix(v.lines, v.row as int).len() + v.col_index()
}

proof fn lemma_split_text(pre: Seq<char>, line: Seq<char>, suf: Seq<char>, k: int)
    requires
        0 <= k <= line.len(),
    ensures
        pre + (line.take(k) + seq!['\n'] + line.skip(k)) + suf == insert_at(pre + line + suf, pre.len() + k, '\n'),
{
    let whole = pre + line + suf;
    let pos = pre.len() + k;
    assert(whole.take(pos) =~= pre + line.take(k));
    assert(whole.skip(pos) =~= line.skip(k) + suf);
    assert(pre + (line.take(k) + seq!['\n'] + line.skip(k)) + suf =~= insert_at(whole, pos, '\n'));
}

/// Breaking a line inserts exactly one line break into the body text, at the cursor.
pub proof fn body_newline_inserts_line_break(v: AppView)
    requires
        v.wf(),
        v.body_cursor_ok(),
    ensures
        join_lines(v.body_newlined().lines) == insert_at(join_lines(v.lines), text_position(v), '\n'),
{
    let line = v.line();
    let k = v.col_index();
    let r = v.row as int;
    lemma_boundary(line, v.col_clamped() as int);
    let p = v.lines.take(r);
    let sfx = v.lines.skip(r + 1);
    let l1 = line.take(k);
    let l2 = line.skip(k);
    let one = seq![line];
    let two = seq![l1, l2];
    assert(v.lines =~= p + one + sfx);
    assert(v.body_newlined().lines =~= p + two + sfx);
    lemma_join_three(p, one, sfx);
    lemma_join_three(p, two, sfx);
    assert(join_lines(seq![l1]) == l1);
    assert(two.drop_last() =~= seq![l1]);
    assert(join_lines(two) == l1 + seq!['\n'] + l2);
    assert(join_lines(one) == line);
    let pre = if p.len() == 0 { Seq::<char>::empty() } else { join_lines(p) + seq!['\n'] };
    let suf = if sfx.len() == 0 { Seq::<char>::empty() } else { seq!['\n'] + join_lines(sfx) };
    assert(pre == joined_prefix(v.lines, r));
    lemma_split_text(pre, line, suf, k);
}

/// Backspace at the start of a line (other than the first) removes exactly the
/// line break before the cursor from the body text.
pub proof fn body_backspace_removes_line_break(v: AppView)
    requires
        v.wf(),
        v.col == 0,
        v.row > 0,
    ensures
        text_position(v) > 0,
        join_lines(v.body_backspaced().lines) == remove_at(join_lines(v.lines), text_position(v) - 1),
{
    let r = v.row as int;
    let p = v.lines.take(r - 1);
    let a = v.lines[r - 1];
    let b = v.lines[r];
    let sfx = v.lines.skip(r + 1);
    let two = seq![a, b];
    let one = seq![a + b];
    assert(v.lines =~= p + two + sfx);
    assert(merged_lines(v.lines, r - 1) =~= p + one + sfx);
    lemma_join_three(p, two, sfx);
    lemma_join_three(p, one, sfx);
    assert(join_lines(seq![a]) == a);
    assert(two.drop_last() =~= seq![a]);
    assert(join_lines(two) == a + seq!['\n'] + b);
    assert(join_lines(one) == a + b);
    let pre = if p.len() == 0 { Seq::<char>::empty() } else { join_lines(p) + seq!['\n'] };
    let suf = if sfx.len() == 0 { Seq::<char>::empty() } else { seq!['\n'] + join_lines(sfx) };
    // the text before the cursor's line ends with `a` and a break
    let empty = Seq::<Seq<char>>::empty();
    assert(v.lines.take(r) =~= p + seq![a] + empty);
    lemma_join_three(p, seq![a], empty);
    assert(joined_prefix(v.lines, r) == pre + a + seq!['\n']);
    crate::text::lemma_offset_ends(v.line());
    lemma_char_index(v.line(), 0);
    let pos = (pre.len() + a.len()) as int;
    let whole = pre + (a + seq!['\n'] + b) + suf;
    assert(remove_at(whole, pos) =~= pre + (a + b) + suf);
}

/// Each method's badge has a colour of its own.
pub proof fn method_colors_differ(a: HttpMethod, b: HttpMethod)
    ensures
        a != b ==> a.badge_color() != b.badge_color(),
{
}

/// A received outcome replaces the shown status and is shown from the top of
/// the pane; the text being edited, the method and the focus stay as they are.
pub proof fn receiving_shows_from_top(v: AppView, s: crate::status::Status)
    ensures
        v.received(s).status == s,
        v.received(s).scroll == 0,
        v.received(s).url == v.url && v.received(s).url_cursor == v.url_cursor,
        v.received(s).lines == v.lines && v.received(s).row == v.row && v.received(s).col == v.col,
        v.received(s).method == v.method && v.received(s).focus == v.focus,
        v.wf() ==> v.received(s).wf(),
{
}

/// GET and DELETE send no body; every other method of the cycle does.
pub proof fn which_methods_send_a_body(m: HttpMethod)
    ensures
        !HttpMethod::Get.sends_body(),
        !HttpMethod::Delete.sends_body(),
        m != HttpMethod::Get && m != HttpMethod::Delete ==> m.sends_body(),
{
}

} // verus!
