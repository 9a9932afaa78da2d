use text_sender::editor::App;
use text_sender::method::HttpMethod;

// ── URL editing ────────────────────────────────────────────────────────

#[test]
fn url_insert_and_cursor_advance() {
    let mut app = App::new();
    app.url_insert('h');
    app.url_insert('i');
    assert_eq!(app.url(), "hi");
    assert_eq!(app.url_cursor(), 2);
}

#[test]
fn url_backspace_removes_previous_char() {
    let mut app = App::new();
    for c in "hello".chars() {
        app.url_insert(c);
    }
    app.url_backspace();
    assert_eq!(app.url(), "hell");
    assert_eq!(app.url_cursor(), 4);
}

#[test]
fn url_backspace_at_start_is_noop() {
    let mut app = App::new();
    app.url_backspace(); // should not panic
    assert_eq!(app.url(), "");
    assert_eq!(app.url_cursor(), 0);
}

#[test]
fn url_delete_removes_char_at_cursor() {
    let mut app = App::new();
    for c in "hello".chars() {
        app.url_insert(c);
    }
    // move cursor to start
    app.set_url_cursor(0);
    app.url_delete();
    assert_eq!(app.url(), "ello");
    assert_eq!(app.url_cursor(), 0);
}

#[test]
fn url_move_left_right() {
    let mut app = App::new();
    for c in "abc".chars() {
        app.url_insert(c);
    }
    assert_eq!(app.url_cursor(), 3);
    app.url_move_left();
    assert_eq!(app.url_cursor(), 2);
    app.url_move_right();
    assert_eq!(app.url_cursor(), 3);
}

// ── Body editing ───────────────────────────────────────────────────────

#[test]
fn body_insert_characters() {
    let mut app = App::new();
    app.body_insert('H');
    app.body_insert('i');
    assert_eq!(app.body_line(0), "Hi");
    assert_eq!(app.body_col(), 2);
}

#[test]
fn body_newline_splits_line() {
    let mut app = App::new();
    for c in "Hello World".chars() {
        app.body_insert(c);
    }
    // move cursor to between 'Hello' and ' World'
    app.set_body_col(5);
    app.body_newline();
    assert_eq!(app.body_line(0), "Hello");
    assert_eq!(app.body_line(1), " World");
    assert_eq!(app.body_row(), 1);
    assert_eq!(app.body_col(), 0);
}

#[test]
fn body_backspace_merges_lines() {
    let mut app = App::new();
    for c in "Hello".chars() {
        app.body_insert(c);
    }
    app.body_newline();
    for c in "World".chars() {
        app.body_insert(c);
    }
    // cursor is at end of "World" on row 1
    // move to start of row 1 and backspace to merge
    app.set_body_col(0);
    app.body_backspace();
    assert_eq!(app.body_line_count(), 1);
    assert_eq!(app.body_line(0), "HelloWorld");
    assert_eq!(app.body_row(), 0);
    assert_eq!(app.body_col(), 5);
}

#[test]
fn body_text_joins_lines() {
    let mut app = App::new();
    app.set_body_lines(&vec!["line one".to_owned(), "line two".to_owned()]);
    assert_eq!(app.body_text(), "line one\nline two");
}

#[test]
fn body_up_down_navigation() {
    let mut app = App::new();
    app.set_body_lines(&vec!["aaa".to_owned(), "bbb".to_owned(), "ccc".to_owned()]);
    app.set_body_row(0);
    app.set_body_col(2);

    app.body_down();
    assert_eq!(app.body_row(), 1);
    app.body_down();
    assert_eq!(app.body_row(), 2);
    app.body_down(); // at last row — should not panic
    assert_eq!(app.body_row(), 2);

    app.body_up();
    assert_eq!(app.body_row(), 1);
    app.body_up();
    assert_eq!(app.body_row(), 0);
    app.body_up(); // at first row — should not panic
    assert_eq!(app.body_row(), 0);
}

#[test]
fn body_home_end() {
    let mut app = App::new();
    for c in "hello".chars() {
        app.body_insert(c);
    }
    app.body_home();
    assert_eq!(app.body_col(), 0);
    app.body_end();
    assert_eq!(app.body_col(), 5);
}

// ── HTTP method cycling ────────────────────────────────────────────────

#[test]
fn method_next_wraps_around() {
    let mut m = HttpMethod::Delete;
    m = m.next();
    assert_eq!(m, HttpMethod::Get);
}

#[test]
fn method_prev_wraps_around() {
    let mut m = HttpMethod::Get;
    m = m.prev();
    assert_eq!(m, HttpMethod::Delete);
}

// ── Response scroll ────────────────────────────────────────────────────

#[test]
fn response_scroll_saturates_at_zero() {
    let mut app = App::new();
    app.scroll_response_up(); // already 0 — should not underflow
    assert_eq!(app.response_scroll(), 0);
}

#[test]
fn response_scroll_down_then_up() {
    let mut app = App::new();
    app.scroll_response_down();
    app.scroll_response_down();
    assert_eq!(app.response_scroll(), 2);
    app.scroll_response_up();
    assert_eq!(app.response_scroll(), 1);
}
