//! What each key does, stated over the text, the cursor and the other parts
//! of the state, and what a send hands out.
use vstd::prelude::*;

use crate::body_laws::{
    body_delete_in_text, body_backspace_in_text, body_home_end_in_text, body_insert_in_text,
    body_move_left_in_text, body_move_right_in_text, body_newline_in_text, body_of,
    body_vertical_moves, cursor_in_line,
};
use crate::editor::{AppView, Focus};
use crate::input::{after_key, is_quit_key, is_send_key, send_outcome, Key, KeyCode};
use crate::laws::{joined_prefix, text_position};
use crate::method::method_order;
use crate::status::{decimal, is_response_status, Status};
use crate::text::{
    byte_len, char_index, insert_at, join_lines, lemma_boundary, lemma_char_index,
    lemma_offset_bounded, lemma_offset_ends, lemma_offset_step, remove_at, trimmed, utf8_width,
};

verus! {

/// Which keys send: Ctrl-S anywhere and Enter in the URL bar; Ctrl-C and
/// Ctrl-Q quit instead; Enter elsewhere does not send.
pub proof fn send_keys(v: AppView, key: Key)
    ensures
        key.ctrl && key.code == KeyCode::Char('s') ==> is_send_key(v, key),
        v.focus == Focus::Url && key.code == KeyCode::Enter ==> is_send_key(v, key),
        is_quit_key(key) ==> !is_send_key(v, key) && after_key(v, key) == (AppView { should_quit: true, ..v }),
        v.focus != Focus::Url && !key.ctrl ==> !is_send_key(v, key),
        !is_send_key(v, key) && !is_quit_key(key) ==> !after_key(v, key).should_quit || v.should_quit,
{
}

/// Tab and Shift-Tab move the focus URL → body → response → URL and back,
/// and change nothing else.
pub proof fn focus_keys(v: AppView, key: Key)
    requires
        !is_quit_key(key),
    ensures
        key.code == KeyCode::Tab ==> after_key(v, key) == (AppView {
            focus: match v.focus {
                Focus::Url => Focus::Body,
                Focus::Body => Focus::Response,
                Focus::Response => Focus::Url,
            },
            ..v
        }),
        key.code == KeyCode::BackTab ==> after_key(v, key) == (AppView {
            focus: match v.focus {
                Focus::Url => Focus::Response,
                Focus::Body => Focus::Url,
                Focus::Response => Focus::Body,
            },
            ..v
        }),
{
}

/// A key that the URL bar handles (not quit, send or a focus key).
pub open spec fn url_key(v: AppView, key: Key) -> bool {
    &&& v.focus == Focus::Url
    &&& !is_quit_key(key) && !is_send_key(v, key)
    &&& key.code != KeyCode::Tab && key.code != KeyCode::BackTab
}

/// In the URL bar, typing inserts the character at the cursor, Backspace and
/// Delete remove the character before and at the cursor, the arrows move over
/// one character (or change the method with Alt), Home and End jump to the
/// ends. The body, the focus and the status are left alone.
pub proof fn url_bar_keys(v: AppView, key: Key)
    requires
        v.wf(),
        url_key(v, key),
    ensures
        ({
            let w = after_key(v, key);
            let k = char_index(v.url, v.url_cursor as int);
            &&& w.lines == v.lines && w.row == v.row && w.col == v.col
            &&& w.focus == v.focus && w.status == v.status && w.scroll == v.scroll
            &&& key.code matches KeyCode::Char(c) ==> w.url == insert_at(v.url, k, c)
                && w.url_cursor == v.url_cursor + utf8_width(c) && w.method == v.method
            &&& key.code == KeyCode::Backspace && v.url_cursor > 0 ==> w.url == remove_at(v.url, k - 1)
                && w.url_cursor + utf8_width(v.url[k - 1]) == v.url_cursor
                && char_index(w.url, w.url_cursor as int) == k - 1
            &&& key.code == KeyCode::Backspace && v.url_cursor == 0 ==> w == v
            &&& key.code == KeyCode::Delete && v.url_cursor < byte_len(v.url) ==> w.url == remove_at(v.url, k)
                && w.url_cursor == v.url_cursor
            &&& key.code == KeyCode::Delete && v.url_cursor >= byte_len(v.url) ==> w == v
            &&& key.code == KeyCode::Left && !key.alt ==> w.url == v.url && w.method == v.method && (
                if v.url_cursor == 0 { w == v } else {
                    w.url_cursor + utf8_width(v.url[k - 1]) == v.url_cursor
                    && char_index(w.url, w.url_cursor as int) == k - 1
                })
            &&& key.code == KeyCode::Right && !key.alt ==> w.url == v.url && w.method == v.method && (
                if v.url_cursor >= byte_len(v.url) { w == v } else {
                    w.url_cursor == v.url_cursor + utf8_width(v.url[k])
                    && char_index(w.url, w.url_cursor as int) == k + 1
                })
            &&& key.code == KeyCode::Left && key.alt ==> w.url == v.url && w.url_cursor == v.url_cursor
                && w.method == method_order()[(v.method.index() + 4) % 5]
            &&& key.code == KeyCode::Right && key.alt ==> w.url == v.url && w.url_cursor == v.url_cursor
                && w.method == method_order()[(v.method.index() + 1) % 5]
            &&& key.code == KeyCode::Home ==> w.url == v.url && w.url_cursor == 0
            &&& key.code == KeyCode::End ==> w.url == v.url && w.url_cursor == byte_len(v.url)
        }),
{
    let k = char_index(v.url, v.url_cursor as int);
    lemma_boundary(v.url, v.url_cursor as int);
    if k > 0 {
        lemma_offset_step(v.url, k - 1);
        lemma_char_index(v.url, k - 1);
        lemma_offset_bounded(v.url, k - 1);
        crate::text::lemma_remove(v.url, k - 1);
        lemma_char_index(remove_at(v.url, k - 1), k - 1);
    }
    if k < v.url.len() {
        lemma_offset_step(v.url, k);
        lemma_offset_bounded(v.url, k + 1);
        lemma_char_index(v.url, k + 1);
    }
}

/// A key that the body editor handles (not quit, send or a focus key).
pub open spec fn body_key(v: AppView, key: Key) -> bool {
    &&& v.focus == Focus::Body
    &&& !is_quit_key(key) && !is_send_key(v, key)
    &&& key.code != KeyCode::Tab && key.code != KeyCode::BackTab
}

/// In the body, with the cursor within its line: typing and Enter insert the
/// character or a line break into the body text at the cursor and move past
/// it; Backspace and Delete remove the character or line break before and at
/// the cursor; Left and Right move over one; Home and End jump to the ends of
/// the line. The URL, the method and the focus are left alone.
pub proof fn body_editor_keys(v: AppView, key: Key)
    requires
        v.wf(),
        cursor_in_line(v),
        body_key(v, key),
    ensures
        ({
            let w = after_key(v, key);
            let p = text_position(v);
            let t = body_of(v);
            &&& w.url == v.url && w.url_cursor == v.url_cursor && w.method == v.method
            &&& w.focus == v.focus && w.status == v.status && w.scroll == v.scroll
            &&& key.code matches KeyCode::Char(c) ==> (v.body_insert_ok(c) ==> body_of(w) == insert_at(t, p, c)
                && text_position(w) == p + 1)
            &&& key.code == KeyCode::Enter ==> body_of(w) == insert_at(t, p, '\n') && text_position(w) == p + 1
                && w.lines.len() == v.lines.len() + 1
            &&& key.code == KeyCode::Backspace && v.body_backspace_ok() ==> if p == 0 { w == v } else {
                body_of(w) == remove_at(t, p - 1) && text_position(w) == p - 1
            }
            &&& key.code == KeyCode::Delete && v.body_delete_ok() ==> if p == t.len() { w == v } else {
                body_of(w) == remove_at(t, p) && text_position(w) == p
            }
            &&& key.code == KeyCode::Left ==> if p == 0 { w == v } else {
                w.lines == v.lines && text_position(w) == p - 1
            }
            &&& key.code == KeyCode::Right ==> if p == t.len() { w == v } else {
                w.lines == v.lines && text_position(w) == p + 1
            }
            &&& key.code == KeyCode::Home ==> w.lines == v.lines && w.row == v.row
                && text_position(w) == joined_prefix(v.lines, v.row as int).len()
            &&& key.code == KeyCode::End ==> w.lines == v.lines && w.row == v.row
                && text_position(w) == joined_prefix(v.lines, v.row as int).len() + v.line().len()
            &&& key.code == KeyCode::Up ==> w.lines == v.lines && (if v.row == 0 { w == v } else { w.row + 1 == v.row })
            &&& key.code == KeyCode::Down ==> w.lines == v.lines && (if v.row + 1 == v.lines.len() { w == v } else {
                w.row == v.row + 1
            })
        }),
{
    crate::body_laws::lemma_position(v);
    match key.code {
        KeyCode::Char(c) => {
            if v.body_insert_ok(c) {
                body_insert_in_text(v, c);
            }
        },
        KeyCode::Enter => body_newline_in_text(v),
        KeyCode::Backspace => {
            if v.body_backspace_ok() {
                body_backspace_in_text(v);
            }
        },
        KeyCode::Delete => {
            if v.body_delete_ok() {
                body_delete_in_text(v);
            }
        },
        KeyCode::Left => body_move_left_in_text(v),
        KeyCode::Right => body_move_right_in_text(v),
        KeyCode::Home => body_home_end_in_text(v),
        KeyCode::End => body_home_end_in_text(v),
        KeyCode::Up => body_vertical_moves(v),
        KeyCode::Down => body_vertical_moves(v),
        _ => {},
    }
}

/// In the response pane, Up/k and Down/j scroll by one line, Page Up and Page
/// Down by ten, never above the top or past the largest offset; nothing else
/// changes.
pub proof fn response_pane_keys(v: AppView, key: Key)
    requires
        v.wf(),
        v.focus == Focus::Response,
        !is_quit_key(key) && !is_send_key(v, key),
        key.code != KeyCode::Tab && key.code != KeyCode::BackTab,
    ensures
        ({
            let w = after_key(v, key);
            &&& w == (AppView { scroll: w.scroll, ..v })
            &&& (key.code == KeyCode::Up || key.code == KeyCode::Char('k')) ==> w.scroll == (if v.scroll >= 1 {
                v.scroll - 1
            } else {
                0
            })
            &&& (key.code == KeyCode::Down || key.code == KeyCode::Char('j')) ==> w.scroll == (if v.scroll + 1
                <= u16::MAX { v.scroll + 1 } else { u16::MAX as nat })
            &&& key.code == KeyCode::PageUp ==> w.scroll == (if v.scroll >= 10 { v.scroll - 10 } else { 0 })
            &&& key.code == KeyCode::PageDown ==> w.scroll == (if v.scroll + 10 <= u16::MAX { v.scroll + 10 } else {
                u16::MAX as nat
            })
            &&& key.code == KeyCode::Other || key.code == KeyCode::Enter || key.code == KeyCode::Home ==> w == v
        }),
{
}

/// A send with a URL that is not blank hands out a request for the trimmed
/// URL, with the method selected in the state and the body lines joined by
/// line breaks, and marks the request as being sent; a blank URL is refused
/// with an error and no request. Nothing else changes.
pub proof fn send_uses_state(before: AppView, after: AppView, req: Option<crate::input::Request>)
    requires
        send_outcome(before, after, req),
    ensures
        trimmed(before.url).len() > 0 ==> {
            &&& req is Some
            &&& req->0.method == before.method
            &&& req->0.url@ == trimmed(before.url)
            &&& req->0.body@ == join_lines(before.lines)
            &&& after.status is Sending
        },
        trimmed(before.url).len() == 0 ==> req is None && after.status is Error,
        after.url == before.url && after.lines == before.lines && after.method == before.method,
        after.focus == before.focus && after.url_cursor == before.url_cursor,
{
}

/// Every 2xx code makes a success carrying the code and the body; every other
/// code makes an error whose text starts with `HTTP`, the code and a space,
/// and ends with the body.
pub proof fn response_status_by_code(s: Status, code: u16, reason: Option<Seq<char>>, body: Seq<char>)
    requires
        is_response_status(s, code, reason, body),
    ensures
        200 <= code <= 299 ==> (s matches Status::Success { code: c, body: b } && c == code && b@ == body),
        !(200 <= code <= 299) ==> (s matches Status::Error(e) && e@.take((5 + decimal(code as nat).len() + 1) as int)
            == "HTTP "@ + decimal(code as nat) + " "@ && e@.skip(e@.len() - body.len()) == body),
{
    if !(200 <= code <= 299) {
        reveal_strlit("HTTP ");
        reveal_strlit(" ");
        let e = s->Error_0@;
        let head = "HTTP "@ + decimal(code as nat) + " "@;
        assert(head.len() == 5 + decimal(code as nat).len() + 1);
        assert(e.take(head.len() as int) =~= head);
        assert(e.skip(e.len() - body.len()) =~= body);
    }
}

} // verus!
