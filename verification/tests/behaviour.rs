use text_sender::editor::{App, Focus};
use text_sender::input::{Key, KeyCode};
use text_sender::method::HttpMethod;
use text_sender::palette::{focus_color, Color};
use text_sender::render::{body_start_row, response_content, response_title};
use text_sender::status::{decimal_string, is_success, pretty_or_raw, response_status, status_from_response, Status};
use text_sender::text::{byte_length, char_width, chars_of, index_at, is_whitespace, trim_chars};

fn key(code: KeyCode) -> Key {
    Key { code, ctrl: false, alt: false }
}

fn ctrl(c: char) -> Key {
    Key { code: KeyCode::Char(c), ctrl: true, alt: false }
}

fn alt(code: KeyCode) -> Key {
    Key { code, ctrl: false, alt: true }
}

fn type_url(app: &mut App, s: &str) {
    for c in s.chars() {
        app.url_insert(c);
    }
}

fn type_body(app: &mut App, s: &str) {
    for c in s.chars() {
        app.body_insert(c);
    }
}

// ── Methods ────────────────────────────────────────────────────────────

#[test]
fn method_names_and_order() {
    let names: Vec<&str> = HttpMethod::all().iter().map(|m| m.as_str()).collect();
    assert_eq!(names, vec!["GET", "POST", "PUT", "PATCH", "DELETE"]);
}

#[test]
fn method_next_goes_round_the_cycle() {
    let mut m = HttpMethod::Get;
    let mut seen = Vec::new();
    for _ in 0..5 {
        m = m.next();
        seen.push(m);
    }
    assert_eq!(seen, vec![HttpMethod::Post, HttpMethod::Put, HttpMethod::Patch, HttpMethod::Delete, HttpMethod::Get]);
    for m in HttpMethod::all() {
        assert_eq!(m.next().prev(), *m);
        assert_eq!(m.prev().next(), *m);
    }
}

#[test]
fn method_colors_and_bodies() {
    assert_eq!(HttpMethod::Get.color(), Color::Green);
    assert_eq!(HttpMethod::Post.color(), Color::Blue);
    assert_eq!(HttpMethod::Put.color(), Color::Yellow);
    assert_eq!(HttpMethod::Patch.color(), Color::Cyan);
    assert_eq!(HttpMethod::Delete.color(), Color::Red);
    assert!(!HttpMethod::Get.carries_body());
    assert!(HttpMethod::Post.carries_body());
    assert!(HttpMethod::Put.carries_body());
    assert!(HttpMethod::Patch.carries_body());
    assert!(!HttpMethod::Delete.carries_body());
}

// ── Text and UTF-8 offsets ─────────────────────────────────────────────

#[test]
fn char_widths_follow_utf8() {
    for c in ['a', 'é', '€', '😀'] {
        assert_eq!(char_width(c), c.len_utf8());
    }
    let v = chars_of("aé€😀");
    assert_eq!(v, vec!['a', 'é', '€', '😀']);
    assert_eq!(byte_length(&v), 10);
    assert_eq!(index_at(&v, 0), 0);
    assert_eq!(index_at(&v, 1), 1);
    assert_eq!(index_at(&v, 3), 2);
    assert_eq!(index_at(&v, 6), 3);
    assert_eq!(index_at(&v, 10), 4);
}

#[test]
fn trim_cuts_white_space_at_both_ends() {
    let t = trim_chars(&chars_of(" \t http://a b \n"));
    assert_eq!(t.iter().collect::<String>(), "http://a b");
    let t = trim_chars(&chars_of("\u{a0}x\u{2003}"));
    assert_eq!(t, vec!['x']);
    assert!(trim_chars(&chars_of("  \n ")).is_empty());
    assert!(trim_chars(&chars_of("\t")).is_empty());
    assert!(trim_chars(&chars_of("")).is_empty());
}

#[test]
fn url_cursor_moves_by_whole_characters() {
    let mut app = App::new();
    type_url(&mut app, "aé😀");
    assert_eq!(app.url_cursor(), 7);
    app.url_move_left();
    assert_eq!(app.url_cursor(), 3);
    app.url_move_left();
    assert_eq!(app.url_cursor(), 1);
    app.url_move_right();
    assert_eq!(app.url_cursor(), 3);
    app.url_delete();
    assert_eq!(app.url(), "aé");
    app.url_backspace();
    assert_eq!(app.url(), "a");
    assert_eq!(app.url_cursor(), 1);
    app.url_end();
    assert_eq!(app.url_cursor(), 1);
    app.url_home();
    assert_eq!(app.url_cursor(), 0);
    app.url_move_left();
    assert_eq!(app.url_cursor(), 0);
}

#[test]
fn url_insert_in_the_middle() {
    let mut app = App::new();
    type_url(&mut app, "ac");
    app.url_move_left();
    app.url_insert('€');
    assert_eq!(app.url(), "a€c");
    assert_eq!(app.url_cursor(), 4);
    app.url_move_right();
    app.url_delete();
    assert_eq!(app.url(), "a€c");
}

#[test]
fn url_insert_then_backspace_restores() {
    let mut app = App::new();
    type_url(&mut app, "héllo");
    app.set_url_cursor(3);
    app.url_insert('ü');
    app.url_backspace();
    assert_eq!(app.url(), "héllo");
    assert_eq!(app.url_cursor(), 3);
}

// ── Body editor ────────────────────────────────────────────────────────

#[test]
fn body_delete_joins_next_line_at_end() {
    let mut app = App::new();
    app.set_body_lines(&vec!["ab".to_owned(), "cd".to_owned()]);
    app.body_end();
    app.body_delete();
    assert_eq!(app.body_lines(), vec!["abcd".to_owned()]);
    assert_eq!(app.body_col(), 2);
    app.body_delete();
    assert_eq!(app.body_lines(), vec!["abd".to_owned()]);
    app.body_end();
    app.body_delete();
    assert_eq!(app.body_lines(), vec!["abd".to_owned()]);
}

#[test]
fn body_moves_across_line_ends() {
    let mut app = App::new();
    app.set_body_lines(&vec!["ab".to_owned(), "é".to_owned()]);
    app.body_end();
    app.body_move_right();
    assert_eq!((app.body_row(), app.body_col()), (1, 0));
    app.body_move_right();
    assert_eq!((app.body_row(), app.body_col()), (1, 2));
    app.body_move_right();
    assert_eq!((app.body_row(), app.body_col()), (1, 2));
    app.body_move_left();
    app.body_move_left();
    assert_eq!((app.body_row(), app.body_col()), (0, 2));
    app.body_move_left();
    assert_eq!((app.body_row(), app.body_col()), (0, 1));
    app.body_home();
    app.body_move_left();
    assert_eq!((app.body_row(), app.body_col()), (0, 0));
}

#[test]
fn body_column_past_the_end_is_clamped() {
    let mut app = App::new();
    app.set_body_lines(&vec!["abc".to_owned()]);
    app.set_body_col(10);
    app.body_backspace();
    assert_eq!(app.body_line(0), "ab");
    assert_eq!(app.body_col(), 2);
    app.set_body_col(10);
    app.body_insert('z');
    assert_eq!(app.body_line(0), "abz");
    assert_eq!(app.body_col(), 3);
    app.set_body_lines(&vec!["".to_owned()]);
    app.set_body_col(4);
    app.body_backspace();
    assert_eq!(app.body_col(), 0);
}

#[test]
fn body_up_keeps_column_where_it_fits() {
    let mut app = App::new();
    app.set_body_lines(&vec!["a".to_owned(), "abcdef".to_owned()]);
    app.set_body_row(1);
    app.set_body_col(4);
    app.body_up();
    assert_eq!((app.body_row(), app.body_col()), (0, 1));
    app.body_down();
    assert_eq!((app.body_row(), app.body_col()), (1, 1));
}

#[test]
fn body_newline_then_backspace_restores() {
    let mut app = App::new();
    type_body(&mut app, "Hello World");
    app.set_body_col(5);
    app.body_newline();
    assert_eq!(app.body_text(), "Hello\n World");
    app.body_backspace();
    assert_eq!(app.body_lines(), vec!["Hello World".to_owned()]);
    assert_eq!((app.body_row(), app.body_col()), (0, 5));
}

#[test]
fn body_newline_inserts_a_break_into_the_text() {
    let mut app = App::new();
    app.set_body_lines(&vec!["one".to_owned(), "twö".to_owned(), "three".to_owned()]);
    app.set_body_row(1);
    app.set_body_col(2);
    app.body_newline();
    assert_eq!(app.body_text(), "one\ntw\nö\nthree");
    assert_eq!((app.body_row(), app.body_col()), (2, 0));
}

#[test]
fn body_insert_then_backspace_restores() {
    let mut app = App::new();
    type_body(&mut app, "abc");
    app.set_body_col(1);
    app.body_insert('😀');
    assert_eq!(app.body_col(), 5);
    app.body_backspace();
    assert_eq!(app.body_line(0), "abc");
    assert_eq!(app.body_col(), 1);
}

// ── Keys ───────────────────────────────────────────────────────────────

#[test]
fn tab_cycles_focus() {
    let mut app = App::new();
    assert_eq!(app.focus(), Focus::Url);
    assert!(app.handle_key(key(KeyCode::Tab)).is_none());
    assert_eq!(app.focus(), Focus::Body);
    app.handle_key(key(KeyCode::Tab));
    assert_eq!(app.focus(), Focus::Response);
    app.handle_key(key(KeyCode::Tab));
    assert_eq!(app.focus(), Focus::Url);
    app.handle_key(key(KeyCode::BackTab));
    assert_eq!(app.focus(), Focus::Response);
    app.handle_key(key(KeyCode::BackTab));
    assert_eq!(app.focus(), Focus::Body);
    assert_eq!(Focus::Url.next().prev(), Focus::Url);
}

#[test]
fn ctrl_q_and_ctrl_c_quit() {
    let mut app = App::new();
    assert!(!app.should_quit());
    app.handle_key(ctrl('q'));
    assert!(app.should_quit());
    let mut app = App::new();
    app.handle_key(ctrl('c'));
    assert!(app.should_quit());
}

#[test]
fn blank_url_is_not_sent() {
    let mut app = App::new();
    type_url(&mut app, "   ");
    let req = app.handle_key(ctrl('s'));
    assert!(req.is_none());
    assert_eq!(app.status().label(), "✗ URL is empty — enter a URL first");
    assert_eq!(app.status().color(), Color::Red);
}

#[test]
fn enter_in_url_bar_sends_trimmed_url_and_body() {
    let mut app = App::new();
    for c in "  http://example.org/post ".chars() {
        app.handle_key(key(KeyCode::Char(c)));
    }
    app.handle_key(key(KeyCode::Tab));
    for c in "line".chars() {
        app.handle_key(key(KeyCode::Char(c)));
    }
    app.handle_key(key(KeyCode::Enter));
    app.handle_key(key(KeyCode::Char('2')));
    app.handle_key(key(KeyCode::BackTab));
    let req = app.handle_key(key(KeyCode::Enter)).expect("a request");
    assert_eq!(req.url, "http://example.org/post");
    assert_eq!(req.method, HttpMethod::Post);
    assert_eq!(req.body, "line\n2");
    assert_eq!(app.status().label(), "Sending…");
    assert_eq!(app.status().color(), Color::Yellow);
}

#[test]
fn alt_arrows_change_method_in_url_bar() {
    let mut app = App::new();
    app.handle_key(alt(KeyCode::Right));
    assert_eq!(app.method(), HttpMethod::Put);
    app.handle_key(alt(KeyCode::Left));
    app.handle_key(alt(KeyCode::Left));
    assert_eq!(app.method(), HttpMethod::Get);
    app.handle_key(alt(KeyCode::Left));
    assert_eq!(app.method(), HttpMethod::Delete);
}

#[test]
fn other_ctrl_letters_are_typed() {
    let mut app = App::new();
    app.handle_key(ctrl('a'));
    assert_eq!(app.url(), "a");
    assert!(!app.should_quit());
}

#[test]
fn response_keys_scroll() {
    let mut app = App::new();
    app.set_focus(Focus::Response);
    app.handle_key(key(KeyCode::Char('j')));
    app.handle_key(key(KeyCode::Down));
    assert_eq!(app.response_scroll(), 2);
    app.handle_key(key(KeyCode::Char('k')));
    assert_eq!(app.response_scroll(), 1);
    app.handle_key(key(KeyCode::PageDown));
    assert_eq!(app.response_scroll(), 11);
    app.handle_key(key(KeyCode::PageUp));
    app.handle_key(key(KeyCode::PageUp));
    assert_eq!(app.response_scroll(), 0);
    app.handle_key(key(KeyCode::Char('x')));
    assert_eq!(app.url(), "");
}

#[test]
fn received_status_is_shown_from_the_top() {
    let mut app = App::new();
    app.scroll_response_down();
    app.receive_status(Status::Success { code: 201, body: "made".to_owned() });
    assert_eq!(app.response_scroll(), 0);
    assert_eq!(app.status().label(), "✓ 201 OK");
}

// ── Status and responses ───────────────────────────────────────────────

#[test]
fn status_labels_and_colors() {
    assert_eq!(Status::Idle.label(), "Idle — press Ctrl-S to send, Tab to switch focus");
    assert_eq!(Status::Idle.color(), Color::DarkGray);
    assert_eq!(Status::Sending.label(), "Sending…");
    assert_eq!(Status::Success { code: 200, body: String::new() }.label(), "✓ 200 OK");
    assert_eq!(Status::Success { code: 200, body: String::new() }.color(), Color::Green);
    assert_eq!(Status::Error("boom".to_owned()).label(), "✗ boom");
    assert_eq!(Status::Error("boom".to_owned()).color(), Color::Red);
}

#[test]
fn decimal_notation() {
    assert_eq!(decimal_string(0), "0");
    assert_eq!(decimal_string(7), "7");
    assert_eq!(decimal_string(404), "404");
    assert_eq!(decimal_string(65535), "65535");
}

#[test]
fn success_codes() {
    assert!(!is_success(199));
    assert!(is_success(200));
    assert!(is_success(299));
    assert!(!is_success(300));
}

#[test]
fn response_status_formats_errors() {
    match response_status(200, Some("OK"), "hi") {
        Status::Success { code, body } => {
            assert_eq!(code, 200);
            assert_eq!(body, "hi");
        }
        other => panic!("unexpected {:?}", other),
    }
    match response_status(404, Some("Not Found"), "x") {
        Status::Error(e) => assert_eq!(e, "HTTP 404 Not Found:\n\nx"),
        other => panic!("unexpected {:?}", other),
    }
    match response_status(500, None, "") {
        Status::Error(e) => assert_eq!(e, "HTTP 500 Unknown Status"),
        other => panic!("unexpected {:?}", other),
    }
}

#[test]
fn status_from_response_uses_canonical_reason() {
    match status_from_response(404, "nope") {
        Status::Error(e) => assert_eq!(e, "HTTP 404 Not Found:\n\nnope"),
        other => panic!("unexpected {:?}", other),
    }
    match status_from_response(599, "") {
        Status::Error(e) => assert_eq!(e, "HTTP 599 Unknown Status"),
        other => panic!("unexpected {:?}", other),
    }
    match status_from_response(1000, "") {
        Status::Error(e) => assert_eq!(e, "HTTP 1000 Unknown Status"),
        other => panic!("unexpected {:?}", other),
    }
}

#[test]
fn json_bodies_are_pretty_printed() {
    assert_eq!(pretty_or_raw("{\"a\":1}"), "{\n  \"a\": 1\n}");
    assert_eq!(pretty_or_raw("plain text"), "plain text");
    match status_from_response(200, "[1,2]") {
        Status::Success { code, body } => {
            assert_eq!(code, 200);
            assert_eq!(body, "[\n  1,\n  2\n]");
        }
        other => panic!("unexpected {:?}", other),
    }
}

// ── Drawing helpers ────────────────────────────────────────────────────

#[test]
fn cursor_segments_split_around_the_cursor() {
    let mut app = App::new();
    type_url(&mut app, "aéc");
    assert_eq!(app.url_segments(), ("aéc".to_owned(), " ".to_owned(), "".to_owned()));
    app.url_move_left();
    app.url_move_left();
    assert_eq!(app.url_segments(), ("a".to_owned(), "é".to_owned(), "c".to_owned()));
    type_body(&mut app, "xy");
    app.body_home();
    assert_eq!(app.body_segments(), ("".to_owned(), "x".to_owned(), "y".to_owned()));
}

#[test]
fn body_scrolls_to_keep_cursor_visible() {
    assert_eq!(body_start_row(0, 3), 0);
    assert_eq!(body_start_row(2, 3), 0);
    assert_eq!(body_start_row(3, 3), 1);
    assert_eq!(body_start_row(5, 3), 3);
    let mut app = App::new();
    app.set_body_lines(&vec!["a".to_owned(); 6]);
    app.set_body_row(5);
    assert_eq!(app.body_first_visible_row(4), 2);
}

#[test]
fn response_pane_title_and_content() {
    let ok = Status::Success { code: 200, body: "{}".to_owned() };
    assert_eq!(response_title(&ok), " Response — 200 (↑/↓ or j/k to scroll) ");
    assert_eq!(response_title(&Status::Idle), " Response ");
    assert_eq!(response_content(&ok), ("{}".to_owned(), Some(Color::Green)));
    assert_eq!(response_content(&Status::Idle), ("No request sent yet.".to_owned(), None));
    assert_eq!(response_content(&Status::Sending), ("Waiting for response…".to_owned(), Some(Color::Yellow)));
    assert_eq!(response_content(&Status::Error("x".to_owned())), ("Error: x".to_owned(), Some(Color::Red)));
    assert_eq!(focus_color(true), Color::Cyan);
    assert_eq!(focus_color(false), Color::DarkGray);
}

#[test]
fn cursor_inside_a_character_is_refused() {
    let mut app = App::new();
    app.set_body_lines(&vec!["ab".to_owned(), "é".to_owned()]);
    app.set_body_col(1);
    assert!(app.body_cursor_valid());
    app.body_down();
    assert_eq!((app.body_row(), app.body_col()), (1, 1));
    assert!(!app.body_cursor_valid());
    app.set_focus(Focus::Body);
    assert!(!app.accepts_key(key(KeyCode::Char('x'))));
    assert!(!app.accepts_key(key(KeyCode::Backspace)));
    assert!(app.accepts_key(key(KeyCode::Up)));
    assert!(app.accepts_key(key(KeyCode::Home)));
    assert!(app.accepts_key(ctrl('s')));
    app.body_home();
    assert!(app.accepts_key(key(KeyCode::Char('x'))));
}

#[test]
fn white_space_matches_std() {
    for v in 0u32..0x3100 {
        if let Some(c) = char::from_u32(v) {
            assert_eq!(is_whitespace(c), c.is_whitespace(), "{:#x}", v);
        }
    }
    for c in ['x', '\u{feff}', '\u{10ffff}', '\u{200b}'] {
        assert_eq!(is_whitespace(c), c.is_whitespace());
    }
}

#[test]
fn blank_url_of_tabs_and_no_break_spaces_is_not_sent() {
    let mut app = App::new();
    type_url(&mut app, "\t\u{a0}\u{3000}");
    assert!(app.prepare_send().is_none());
}
