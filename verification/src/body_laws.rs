//! What each body editing step does to the body as one text: the joined lines
//! and the cursor's position in them.
use vstd::prelude::*;

use crate::editor::{AppView, merged_lines, min_nat};
use crate::laws::{joined_prefix, lemma_join_concat, lemma_join_three, text_position};
use crate::text::{
    byte_len, char_index, insert_at, is_boundary, join_lines, lemma_boundary, lemma_byte_len_concat,
    lemma_char_index, lemma_insert, lemma_offset_bounded, lemma_offset_ends, lemma_offset_step,
    lemma_remove, offset_of, remove_at,
};

verus! {

/// The text after line `r` in the joined body, break included.
pub open spec fn joined_after(lines: Seq<Seq<char>>, r: int) -> Seq<char> {
    if r + 1 < lines.len() {
        seq!['\n'] + join_lines(lines.skip(r + 1))
    } else {
        Seq::empty()
    }
}

/// The body as one text.
pub open spec fn body_of(v: AppView) -> Seq<char> {
    join_lines(v.lines)
}

/// The cursor lies within its line (not past its end) and between two characters.
pub open spec fn cursor_in_line(v: AppView) -> bool {
    &&& v.col <= byte_len(v.line())
    &&& is_boundary(v.line(), v.col as int)
}

pub proof fn lemma_join_around(lines: Seq<Seq<char>>, r: int)
    requires
        0 <= r < lines.len(),
    ensures
        join_lines(lines) == joined_prefix(lines, r) + lines[r] + joined_after(lines, r),
{
    let p = lines.take(r);
    let s = lines.skip(r + 1);
    assert(lines =~= p + seq![lines[r]] + s);
    lemma_join_three(p, seq![lines[r]], s);
    assert(join_lines(seq![lines[r]]) == lines[r]);
    if r == 0 {
        assert(p.len() == 0);
    }
}

pub proof fn lemma_prefix_step(lines: Seq<Seq<char>>, r: int)
    requires
        0 <= r < lines.len(),
    ensures
        joined_prefix(lines, r + 1) == joined_prefix(lines, r) + lines[r] + seq!['\n'],
{
    let t = lines.take(r + 1);
    if r == 0 {
        assert(t =~= seq![lines[0]]);
        assert(join_lines(t) == lines[0]);
        assert(joined_prefix(lines, 0) =~= Seq::<char>::empty());
        assert(joined_prefix(lines, 1) =~= Seq::<char>::empty() + lines[0] + seq!['\n']);
    } else {
        assert(t =~= lines.take(r) + seq![lines[r]]);
        lemma_join_concat(lines.take(r), seq![lines[r]]);
        assert(join_lines(seq![lines[r]]) == lines[r]);
    }
}

/// The joined prefix only depends on the lines before the row.
pub proof fn lemma_prefix_same(a: Seq<Seq<char>>, b: Seq<Seq<char>>, r: int)
    requires
        0 <= r <= a.len(),
        r <= b.len(),
        a.take(r) =~= b.take(r),
    ensures
        joined_prefix(a, r) == joined_prefix(b, r),
{
}

/// The cursor's position in the body text.
pub proof fn lemma_position(v: AppView)
    requires
        v.wf(),
        v.body_cursor_ok(),
    ensures
        0 <= v.col_index() <= v.line().len(),
        offset_of(v.line(), v.col_index()) == v.col_clamped(),
        text_position(v) == joined_prefix(v.lines, v.row as int).len() + v.col_index(),
        body_of(v) == joined_prefix(v.lines, v.row as int) + v.line() + joined_after(v.lines, v.row as int),
        0 <= text_position(v) <= body_of(v).len(),
        text_position(v) == 0 <==> v.row == 0 && v.col_index() == 0,
        text_position(v) == body_of(v).len() <==> v.row + 1 == v.lines.len() && v.col_index() == v.line().len(),
{
    lemma_boundary(v.line(), v.col_clamped() as int);
    lemma_join_around(v.lines, v.row as int);
}

/// Typing a character inserts it into the body text at the cursor, and the
/// cursor moves past it.
pub proof fn body_insert_in_text(v: AppView, c: char)
    requires
        v.wf(),
        v.body_insert_ok(c),
        cursor_in_line(v),
    ensures
        body_of(v.body_inserted(c)) == insert_at(body_of(v), text_position(v), c),
        text_position(v.body_inserted(c)) == text_position(v) + 1,
        cursor_in_line(v.body_inserted(c)),
        v.body_inserted(c).row == v.row,
{
    let w = v.body_inserted(c);
    let r = v.row as int;
    let line = v.line();
    let k = v.col_index();
    lemma_position(v);
    let nl = insert_at(line, k, c);
    lemma_insert(line, k, c);
    assert(w.lines =~= v.lines.update(r, nl));
    assert(w.line() == nl);
    lemma_join_around(w.lines, r);
    lemma_prefix_same(v.lines, w.lines, r);
    assert(w.lines.skip(r + 1) =~= v.lines.skip(r + 1));
    assert(joined_after(w.lines, r) == joined_after(v.lines, r));
    let p = joined_prefix(v.lines, r);
    let a = joined_after(v.lines, r);
    assert(p + nl + a =~= insert_at(p + line + a, p.len() + k, c));
    lemma_offset_bounded(nl, k + 1);
    lemma_char_index(nl, k + 1);
}

/// Enter inserts a line break into the body text at the cursor, and the cursor
/// moves past it to the start of the new line.
pub proof fn body_newline_in_text(v: AppView)
    requires
        v.wf(),
        cursor_in_line(v),
    ensures
        body_of(v.body_newlined()) == insert_at(body_of(v), text_position(v), '\n'),
        text_position(v.body_newlined()) == text_position(v) + 1,
        cursor_in_line(v.body_newlined()),
        v.body_newlined().lines.len() == v.lines.len() + 1,
        v.body_newlined().row == v.row + 1,
{
    let w = v.body_newlined();
    let r = v.row as int;
    let line = v.line();
    let k = v.col_index();
    lemma_position(v);
    crate::laws::body_newline_inserts_line_break(v);
    assert(w.lines.take(r) =~= v.lines.take(r));
    lemma_prefix_same(v.lines, w.lines, r);
    assert(w.lines[r] == line.take(k));
    lemma_prefix_step(w.lines, r);
    assert(w.line() == line.skip(k));
    lemma_offset_ends(w.line());
    lemma_char_index(w.line(), 0);
}

/// Backspace removes the character (or line break) before the cursor from the
/// body text, and the cursor moves back over it; at the very start nothing changes.
pub proof fn body_backspace_in_text(v: AppView)
    requires
        v.wf(),
        v.body_backspace_ok(),
        cursor_in_line(v),
    ensures
        text_position(v) == 0 ==> v.body_backspaced() == v,
        text_position(v) > 0 ==> {
            &&& body_of(v.body_backspaced()) == remove_at(body_of(v), text_position(v) - 1)
            &&& text_position(v.body_backspaced()) == text_position(v) - 1
            &&& cursor_in_line(v.body_backspaced())
        },
{
    let w = v.body_backspaced();
    let r = v.row as int;
    let line = v.line();
    let k = v.col_index();
    lemma_position(v);
    if text_position(v) == 0 {
        lemma_offset_ends(line);
        return;
    }
    if v.col == 0 {
        assert(k == 0) by {
            lemma_offset_ends(line);
            lemma_char_index(line, 0);
        }
        crate::laws::body_backspace_removes_line_break(v);
        let a = v.lines[r - 1];
        let b = v.lines[r];
        assert(w.lines[r - 1] == a + b);
        assert(w.lines.take(r - 1) =~= v.lines.take(r - 1));
        lemma_prefix_same(v.lines, w.lines, r - 1);
        lemma_prefix_step(v.lines, r - 1);
        lemma_byte_len_concat(a, b);
        assert((a + b).take(a.len() as int) =~= a);
        lemma_offset_ends(a);
        assert(offset_of(a + b, a.len() as int) == byte_len(a));
        lemma_char_index(a + b, a.len() as int);
        assert(w.col_index() == a.len());
    } else {
        assert(k > 0) by {
            lemma_offset_ends(line);
        }
        let nl = remove_at(line, k - 1);
        lemma_remove(line, k - 1);
        lemma_offset_step(line, k - 1);
        assert(w.lines =~= v.lines.update(r, nl));
        lemma_join_around(w.lines, r);
        lemma_prefix_same(v.lines, w.lines, r);
        assert(w.lines.skip(r + 1) =~= v.lines.skip(r + 1));
        let p = joined_prefix(v.lines, r);
        let af = joined_after(v.lines, r);
        assert(p + nl + af =~= remove_at(p + line + af, p.len() + k - 1));
        lemma_offset_bounded(nl, k - 1);
        lemma_char_index(nl, k - 1);
    }
}

proof fn lemma_delete_joins(v: AppView)
    requires
        v.wf(),
        cursor_in_line(v),
        v.col == byte_len(v.line()),
        v.row + 1 < v.lines.len(),
    ensures
        body_of(v.body_deleted()) == remove_at(body_of(v), text_position(v)),
        text_position(v.body_deleted()) == text_position(v),
        cursor_in_line(v.body_deleted()),
{
    let w = v.body_deleted();
    let r = v.row as int;
    let line = v.line();
    lemma_position(v);
    lemma_offset_ends(line);
    lemma_char_index(line, line.len() as int);
    let k = v.col_index();
    assert(k == line.len());
    let nx = v.lines[r + 1];
    let p = v.lines.take(r);
    let sfx = v.lines.skip(r + 2);
    assert(w.lines == merged_lines(v.lines, r));
    assert(v.lines =~= p + seq![line, nx] + sfx);
    assert(w.lines =~= p + seq![line + nx] + sfx);
    lemma_join_three(p, seq![line, nx], sfx);
    lemma_join_three(p, seq![line + nx], sfx);
    assert(join_lines(seq![line]) == line);
    assert(seq![line, nx].drop_last() =~= seq![line]);
    assert(join_lines(seq![line, nx]) == line + seq!['\n'] + nx);
    assert(join_lines(seq![line + nx]) == line + nx);
    let pre = if p.len() == 0 { Seq::<char>::empty() } else { join_lines(p) + seq!['\n'] };
    let suf = if sfx.len() == 0 { Seq::<char>::empty() } else { seq!['\n'] + join_lines(sfx) };
    assert(pre == joined_prefix(v.lines, r));
    assert(remove_at(pre + (line + seq!['\n'] + nx) + suf, (pre.len() + line.len()) as int) =~= pre + (line + nx) + suf);
    assert(w.lines.take(r) =~= v.lines.take(r));
    lemma_prefix_same(v.lines, w.lines, r);
    lemma_byte_len_concat(line, nx);
    assert((line + nx).take(line.len() as int) =~= line);
    lemma_char_index(line + nx, line.len() as int);
    assert(w.line() == line + nx);
    assert(w.col_index() == line.len());
}

proof fn lemma_delete_char(v: AppView)
    requires
        v.wf(),
        cursor_in_line(v),
        v.col < byte_len(v.line()),
    ensures
        body_of(v.body_deleted()) == remove_at(body_of(v), text_position(v)),
        text_position(v.body_deleted()) == text_position(v),
        cursor_in_line(v.body_deleted()),
        text_position(v) < body_of(v).len(),
{
    let w = v.body_deleted();
    let r = v.row as int;
    let line = v.line();
    lemma_position(v);
    lemma_offset_ends(line);
    let k = v.col_index();
    assert(k < line.len()) by {
        if k == line.len() {
            assert(false);
        }
    }
    let nl = remove_at(line, k);
    lemma_remove(line, k);
    assert(w.lines =~= v.lines.update(r, nl));
    lemma_join_around(w.lines, r);
    lemma_prefix_same(v.lines, w.lines, r);
    assert(w.lines.skip(r + 1) =~= v.lines.skip(r + 1));
    let p = joined_prefix(v.lines, r);
    let af = joined_after(v.lines, r);
    assert(p + nl + af =~= remove_at(p + line + af, p.len() + k));
    lemma_offset_bounded(nl, k);
    lemma_char_index(nl, k);
}

/// Delete removes the character (or line break) at the cursor from the body
/// text and leaves the cursor where it is; at the very end nothing changes.
/// Joining the next line keeps every other line: those before the cursor's
/// line in place, those after the joined pair one place earlier.
pub proof fn body_delete_in_text(v: AppView)
    requires
        v.wf(),
        v.body_delete_ok(),
        cursor_in_line(v),
    ensures
        text_position(v) == body_of(v).len() ==> v.body_deleted() == v,
        text_position(v) < body_of(v).len() ==> {
            &&& body_of(v.body_deleted()) == remove_at(body_of(v), text_position(v))
            &&& text_position(v.body_deleted()) == text_position(v)
            &&& cursor_in_line(v.body_deleted())
        },
        v.col == byte_len(v.line()) && v.row + 1 < v.lines.len() ==> {
            &&& v.body_deleted().lines.len() == v.lines.len() - 1
            &&& forall|i: int| 0 <= i < v.row ==> v.body_deleted().lines[i] == v.lines[i]
            &&& v.body_deleted().lines[v.row as int] == v.line() + v.lines[v.row + 1int]
            &&& forall|i: int| v.row < i < v.lines.len() - 1 ==> v.body_deleted().lines[i] == v.lines[i + 1]
        },
{
    let line = v.line();
    lemma_position(v);
    lemma_offset_ends(line);
    if v.col == byte_len(line) {
        lemma_char_index(line, line.len() as int);
        if v.row + 1 < v.lines.len() {
            lemma_delete_joins(v);
        }
    } else {
        lemma_delete_char(v);
    }
}

/// Left moves the cursor back over one character (or line break) of the body
/// text; at the very start nothing changes.
pub proof fn body_move_left_in_text(v: AppView)
    requires
        v.wf(),
        cursor_in_line(v),
    ensures
        text_position(v) == 0 ==> v.body_moved_left() == v,
        text_position(v) > 0 ==> {
            &&& v.body_moved_left().lines == v.lines
            &&& text_position(v.body_moved_left()) == text_position(v) - 1
            &&& cursor_in_line(v.body_moved_left())
        },
{
    let w = v.body_moved_left();
    let r = v.row as int;
    let line = v.line();
    let k = v.col_index();
    lemma_position(v);
    lemma_offset_ends(line);
    if text_position(v) == 0 {
        return;
    }
    if v.col == 0 {
        lemma_char_index(line, 0);
        let a = v.lines[r - 1];
        lemma_prefix_step(v.lines, r - 1);
        lemma_offset_ends(a);
        lemma_char_index(a, a.len() as int);
        assert(w.line() == a);
        assert(w.col_index() == a.len());
    } else {
        lemma_offset_bounded(line, k - 1);
        lemma_char_index(line, k - 1);
    }
}

/// Right moves the cursor forward over one character (or line break) of the
/// body text; at the very end nothing changes.
pub proof fn body_move_right_in_text(v: AppView)
    requires
        v.wf(),
        cursor_in_line(v),
    ensures
        text_position(v) == body_of(v).len() ==> v.body_moved_right() == v,
        text_position(v) < body_of(v).len() ==> {
            &&& v.body_moved_right().lines == v.lines
            &&& text_position(v.body_moved_right()) == text_position(v) + 1
            &&& cursor_in_line(v.body_moved_right())
        },
{
    let w = v.body_moved_right();
    let r = v.row as int;
    let line = v.line();
    let k = v.col_index();
    lemma_position(v);
    lemma_offset_ends(line);
    if v.col == byte_len(line) {
        lemma_char_index(line, line.len() as int);
        if r + 1 < v.lines.len() {
            lemma_prefix_step(v.lines, r);
            lemma_offset_ends(w.line());
            lemma_char_index(w.line(), 0);
        }
    } else {
        assert(k < line.len()) by {
            if k == line.len() {
                assert(false);
            }
        }
        lemma_offset_step(line, k);
        lemma_offset_bounded(line, k + 1);
        lemma_char_index(line, k + 1);
    }
}

/// Up and Down change the line by one (where there is one) and keep the
/// column, cut back to the length of the line entered.
pub proof fn body_vertical_moves(v: AppView)
    requires
        v.wf(),
    ensures
        v.row > 0 ==> {
            let w = v.body_moved_up();
            &&& w.lines == v.lines
            &&& w.row + 1 == v.row
            &&& w.col == (if v.col <= byte_len(w.line()) { v.col } else { byte_len(w.line()) })
        },
        v.row == 0 ==> v.body_moved_up() == v,
        v.row + 1 < v.lines.len() ==> {
            let w = v.body_moved_down();
            &&& w.lines == v.lines
            &&& w.row == v.row + 1
            &&& w.col == (if v.col <= byte_len(w.line()) { v.col } else { byte_len(w.line()) })
        },
        v.row + 1 == v.lines.len() ==> v.body_moved_down() == v,
{
}

/// Home and End put the cursor at the start and the end of its line in the
/// body text.
pub proof fn body_home_end_in_text(v: AppView)
    requires
        v.wf(),
    ensures
        v.body_homed().lines == v.lines && v.body_homed().row == v.row,
        cursor_in_line(v.body_homed()),
        text_position(v.body_homed()) == joined_prefix(v.lines, v.row as int).len(),
        v.body_ended().lines == v.lines && v.body_ended().row == v.row,
        cursor_in_line(v.body_ended()),
        text_position(v.body_ended()) == joined_prefix(v.lines, v.row as int).len() + v.line().len(),
{
    let line = v.line();
    lemma_offset_ends(line);
    lemma_char_index(line, 0);
    lemma_char_index(line, line.len() as int);
}

} // verus!
