//! What the panes show: cursor highlighting, scrolling of the body, and the
//! response pane's title and text.
use vstd::prelude::*;
use vstd::string::StringExecFns;

use crate::palette::Color;
use crate::status::{decimal, decimal_string, Status};
use crate::text::{
    byte_len, byte_length, char_index, index_at, is_boundary, lemma_boundary, string_from_chars,
};

verus! {

/// A line split around its cursor: the text before it, the highlighted cell
/// (the character under the cursor, or a space past the end), and the rest.
pub open spec fn segments_of(s: Seq<char>, k: int) -> (Seq<char>, Seq<char>, Seq<char>) {
    if k < s.len() {
        (s.take(k), seq![s[k]], s.skip(k + 1))
    } else {
        (s.take(k), seq![' '], Seq::empty())
    }
}

/// The cursor position `cursor`, clamped to the text's byte length.
pub open spec fn clamp_to(s: Seq<char>, cursor: nat) -> nat {
    if cursor <= byte_len(s) {
        cursor
    } else {
        byte_len(s)
    }
}

/// Splits `text` around the cursor at byte offset `cursor` (clamped to the end).
pub fn cursor_segments(text: &Vec<char>, cursor: usize) -> (r: (String, String, String))
    requires
        byte_len(text@) <= usize::MAX,
        is_boundary(text@, clamp_to(text@, cursor as nat) as int),
    ensures
        ({
            let (b, c, a) = segments_of(text@, char_index(text@, clamp_to(text@, cursor as nat) as int));
            r.0@ == b && r.1@ == c && r.2@ == a
        }),
{
    let len = byte_length(text);
    let col = if cursor < len {
        cursor
    } else {
        len
    };
    proof {
        lemma_boundary(text@, col as int);
    }
    let k = index_at(text, col);
    let mut before: Vec<char> = Vec::new();
    let mut i: usize = 0;
    while i < k
        invariant
            k <= text@.len(),
            i <= k,
            before@ == text@.take(i as int),
        decreases k - i,
    {
        before.push(text[i]);
        i = i + 1;
        proof {
            assert(before@ =~= text@.take(i as int));
        }
    }
    let mut cell: Vec<char> = Vec::new();
    let mut rest: Vec<char> = Vec::new();
    if k < text.len() {
        cell.push(text[k]);
        let mut j: usize = k + 1;
        while j < text.len()
            invariant
                k < text@.len(),
                k + 1 <= j <= text@.len(),
                rest@ == text@.subrange(k + 1, j as int),
            decreases text@.len() - j,
        {
            rest.push(text[j]);
            j = j + 1;
            proof {
                assert(rest@ =~= text@.subrange(k + 1, j as int));
            }
        }
        proof {
            assert(rest@ =~= text@.skip(k + 1));
            assert(cell@ =~= seq![text@[k as int]]);
        }
    } else {
        cell.push(' ');
        proof {
            assert(cell@ =~= seq![' ']);
            assert(rest@ =~= Seq::<char>::empty());
        }
    }
    (
        string_from_chars(before.as_slice()),
        string_from_chars(cell.as_slice()),
        string_from_chars(rest.as_slice()),
    )
}

/// First body line shown in a pane `height` lines high when the cursor is on
/// line `row`.
pub open spec fn first_visible_row(row: nat, height: nat) -> nat {
    if row >= height {
        (row + 1 - height) as nat
    } else {
        0
    }
}

/// First body line shown in a pane `visible_height` lines high, so that the
/// cursor's line is the last one shown once it moves past the first screen.
pub fn body_start_row(body_row: usize, visible_height: usize) -> (start: usize)
    requires
        body_row < usize::MAX,
    ensures
        start == first_visible_row(body_row as nat, visible_height as nat),
{
    if body_row >= visible_height {
        body_row + 1 - visible_height
    } else {
        0
    }
}

/// The response pane's title.
pub open spec fn response_title_text(s: Status) -> Seq<char> {
    match s {
        Status::Success { code, .. } => " Response — "@ + decimal(code as nat) + " (↑/↓ or j/k to scroll) "@,
        _ => " Response "@,
    }
}

/// The response pane's text.
pub open spec fn response_text(s: Status) -> Seq<char> {
    match s {
        Status::Idle => "No request sent yet."@,
        Status::Sending => "Waiting for response…"@,
        Status::Success { body, .. } => body@,
        Status::Error(e) => "Error: "@ + e@,
    }
}

/// The response pane's text colour (`None` for the terminal's default).
pub open spec fn response_color(s: Status) -> Option<Color> {
    match s {
        Status::Idle => None,
        Status::Sending => Some(Color::Yellow),
        Status::Success { .. } => Some(Color::Green),
        Status::Error(_) => Some(Color::Red),
    }
}

/// The response pane's title for `status`.
pub fn response_title(status: &Status) -> (t: String)
    ensures
        t@ == response_title_text(*status),
{
    match status {
        Status::Success { code, .. } => {
            let mut t = " Response — ".to_owned();
            t.append(decimal_string(*code).as_str());
            t.append(" (↑/↓ or j/k to scroll) ");
            t
        },
        _ => " Response ".to_owned(),
    }
}

/// The response pane's text and colour for `status`.
pub fn response_content(status: &Status) -> (r: (String, Option<Color>))
    ensures
        r.0@ == response_text(*status),
        r.1 == response_color(*status),
{
    match status {
        Status::Idle => ("No request sent yet.".to_owned(), None),
        Status::Sending => ("Waiting for response…".to_owned(), Some(Color::Yellow)),
        Status::Success { body, .. } => (body.as_str().to_owned(), Some(Color::Green)),
        Status::Error(e) => {
            let mut t = "Error: ".to_owned();
            t.append(e.as_str());
            (t, Some(Color::Red))
        },
    }
}

} // verus!
