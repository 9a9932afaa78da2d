//! What each key does to the editing state, and when a request goes out.
use vstd::prelude::*;

use crate::editor::{App, AppView, Focus};
use crate::method::HttpMethod;
use crate::status::Status;
use crate::text::{chars_of, join_lines, string_from_chars, trim_chars, trimmed};

verus! {

/// The key that was pressed.
#[derive(Clone, Copy, PartialEq, Eq, Debug, Structural)]
pub enum KeyCode {
    Char(char),
    Backspace,
    Delete,
    Left,
    Right,
    Up,
    Down,
    Home,
    End,
    Enter,
    Tab,
    BackTab,
    PageUp,
    PageDown,
    /// Any key the client does not react to.
    Other,
}

/// A key press with the modifiers that matter here.
#[derive(Clone, Copy, PartialEq, Eq, Debug, Structural)]
pub struct Key {
    pub code: KeyCode,
    pub ctrl: bool,
    pub alt: bool,
}

/// A request ready to be sent.
pub struct Request {
    pub url: String,
    pub method: HttpMethod,
    pub body: String,
}

/// The text shown when a send is asked for without a URL.
pub open spec fn empty_url_message() -> Seq<char> {
    "URL is empty — enter a URL first"@
}

/// `after` and `req` are what asking to send in state `before` gives: with a
/// blank URL an error and no request; otherwise the status `Sending` and a
/// request for the trimmed URL, the method and the body text.
pub open spec fn send_outcome(before: AppView, after: AppView, req: Option<Request>) -> bool {
    if trimmed(before.url).len() == 0 {
        &&& req is None
        &&& after.status matches Status::Error(e) && e@ == empty_url_message()
        &&& after == (AppView { status: after.status, ..before })
    } else {
        &&& req matches Some(r) && r.url@ == trimmed(before.url) && r.method == before.method
            && r.body@ == join_lines(before.lines)
        &&& after == (AppView { status: Status::Sending, ..before })
    }
}

/// Ctrl-C or Ctrl-Q.
pub open spec fn is_quit_key(key: Key) -> bool {
    key.ctrl && (key.code == KeyCode::Char('c') || key.code == KeyCode::Char('q'))
}

/// Ctrl-S anywhere, or Enter in the URL bar.
pub open spec fn is_send_key(v: AppView, key: Key) -> bool {
    &&& !is_quit_key(key)
    &&& (key.ctrl && key.code == KeyCode::Char('s')) || (v.focus == Focus::Url && key.code == KeyCode::Enter)
}

/// The response scrolled up by `n` lines, stopping at the top.
pub open spec fn scrolled_up_by(v: AppView, n: nat) -> AppView {
    AppView { scroll: if v.scroll >= n { (v.scroll - n) as nat } else { 0 }, ..v }
}

/// The response scrolled down by `n` lines, stopping at the largest offset.
pub open spec fn scrolled_down_by(v: AppView, n: nat) -> AppView {
    AppView { scroll: if v.scroll + n >= u16::MAX { u16::MAX as nat } else { v.scroll + n }, ..v }
}

/// The state after `key`, for a key that does not send.
pub open spec fn after_key(v: AppView, key: Key) -> AppView {
    if is_quit_key(key) {
        AppView { should_quit: true, ..v }
    } else if key.code == KeyCode::Tab {
        AppView { focus: v.focus.following(), ..v }
    } else if key.code == KeyCode::BackTab {
        AppView { focus: v.focus.preceding(), ..v }
    } else {
        match v.focus {
            Focus::Url => match key.code {
                KeyCode::Char(c) => v.url_inserted(c),
                KeyCode::Backspace => v.url_backspaced(),
                KeyCode::Delete => v.url_deleted(),
                KeyCode::Left => if key.alt {
                    AppView { method: v.method.spec_prev(), ..v }
                } else {
                    v.url_moved_left()
                },
                KeyCode::Right => if key.alt {
                    AppView { method: v.method.spec_next(), ..v }
                } else {
                    v.url_moved_right()
                },
                KeyCode::Home => v.url_homed(),
                KeyCode::End => v.url_ended(),
                _ => v,
            },
            Focus::Body => match key.code {
                KeyCode::Char(c) => v.body_inserted(c),
                KeyCode::Enter => v.body_newlined(),
                KeyCode::Backspace => v.body_backspaced(),
                KeyCode::Delete => v.body_deleted(),
                KeyCode::Up => v.body_moved_up(),
                KeyCode::Down => v.body_moved_down(),
                KeyCode::Left => v.body_moved_left(),
                KeyCode::Right => v.body_moved_right(),
                KeyCode::Home => v.body_homed(),
                KeyCode::End => v.body_ended(),
                _ => v,
            },
            Focus::Response => match key.code {
                KeyCode::Up => v.scrolled_up(),
                KeyCode::Char('k') => v.scrolled_up(),
                KeyCode::Down => v.scrolled_down(),
                KeyCode::Char('j') => v.scrolled_down(),
                KeyCode::PageUp => scrolled_up_by(v, 10),
                KeyCode::PageDown => scrolled_down_by(v, 10),
                _ => v,
            },
        }
    }
}

/// `key` can be handled in state `v` without a text growing past the
/// machine's limit or a cut falling inside a character.
pub open spec fn key_ok(v: AppView, key: Key) -> bool {
    !is_quit_key(key) && !is_send_key(v, key) && key.code != KeyCode::Tab && key.code
        != KeyCode::BackTab ==> match v.focus {
        Focus::Url => match key.code {
            KeyCode::Char(c) => v.url_insert_ok(c),
            _ => true,
        },
        Focus::Body => match key.code {
            KeyCode::Char(c) => v.body_insert_ok(c),
            KeyCode::Enter => v.body_cursor_ok(),
            KeyCode::Backspace => v.body_backspace_ok(),
            KeyCode::Delete => v.body_delete_ok(),
            KeyCode::Left => v.body_cursor_ok(),
            KeyCode::Right => v.body_cursor_ok(),
            _ => true,
        },
        Focus::Response => true,
    }
}

impl App {
    /// Asks for the request to be sent: refuses a blank URL with an error in
    /// the status, otherwise marks the request as being sent and hands it out.
    pub fn prepare_send(&mut self) -> (req: Option<Request>)
        requires
            old(self).wf(),
        ensures
            final(self).wf(),
            send_outcome(old(self)@, final(self)@, req),
    {
        let url = self.url();
        let chars = chars_of(url.as_str());
        let trimmed_url = trim_chars(&chars);
        if trimmed_url.len() == 0 {
            self.set_status(Status::Error("URL is empty — enter a URL first".to_owned()));
            return None;
        }
        let body = self.body_text();
        let method = self.method();
        self.set_status(Status::Sending);
        Some(Request { url: string_from_chars(trimmed_url.as_slice()), method, body })
    }

    fn scroll_up_by_ten(&mut self)
        requires
            old(self).wf(),
        ensures
            final(self).wf(),
            final(self)@ == scrolled_up_by(old(self)@, 10),
    {
        let ghost start = self@;
        let mut i: usize = 0;
        while i < 10
            invariant
                i <= 10,
                self.wf(),
                self@ == scrolled_up_by(start, i as nat),
            decreases 10 - i,
        {
            self.scroll_response_up();
            i = i + 1;
        }
    }

    fn scroll_down_by_ten(&mut self)
        requires
            old(self).wf(),
        ensures
            final(self).wf(),
            final(self)@ == scrolled_down_by(old(self)@, 10),
    {
        let ghost start = self@;
        let mut i: usize = 0;
        while i < 10
            invariant
                i <= 10,
                self.wf(),
                self@ == scrolled_down_by(start, i as nat),
            decreases 10 - i,
        {
            self.scroll_response_down();
            i = i + 1;
        }
    }

    /// Applies one key press. Returns the request to send where the key asks
    /// for one (Ctrl-S, or Enter in the URL bar).
    pub fn handle_key(&mut self, key: Key) -> (req: Option<Request>)
        requires
            old(self).wf(),
            key_ok(old(self)@, key),
        ensures
            final(self).wf(),
            is_send_key(old(self)@, key) ==> send_outcome(old(self)@, final(self)@, req),
            !is_send_key(old(self)@, key) ==> req is None && final(self)@ == after_key(old(self)@, key),
    {
        if key.ctrl {
            match key.code {
                KeyCode::Char('c') | KeyCode::Char('q') => {
                    self.quit();
                    return None;
                },
                KeyCode::Char('s') => {
                    return self.prepare_send();
                },
                _ => {},
            }
        }
        match key.code {
            KeyCode::Tab => {
                let f = self.focus().next();
                self.set_focus(f);
                return None;
            },
            KeyCode::BackTab => {
                let f = self.focus().prev();
                self.set_focus(f);
                return None;
            },
            _ => {},
        }
        match self.focus() {
            Focus::Url => match key.code {
                KeyCode::Char(c) => self.url_insert(c),
                KeyCode::Backspace => self.url_backspace(),
                KeyCode::Delete => self.url_delete(),
                KeyCode::Left => {
                    if key.alt {
                        let m = self.method().prev();
                        self.set_method(m);
                    } else {
                        self.url_move_left();
                    }
                },
                KeyCode::Right => {
                    if key.alt {
                        let m = self.method().next();
                        self.set_method(m);
                    } else {
                        self.url_move_right();
                    }
                },
                KeyCode::Home => self.url_home(),
                KeyCode::End => self.url_end(),
                KeyCode::Enter => {
                    return self.prepare_send();
                },
                _ => {},
            },
            Focus::Body => match key.code {
                KeyCode::Char(c) => self.body_insert(c),
                KeyCode::Enter => self.body_newline(),
                KeyCode::Backspace => self.body_backspace(),
                KeyCode::Delete => self.body_delete(),
                KeyCode::Up => self.body_up(),
                KeyCode::Down => self.body_down(),
                KeyCode::Left => self.body_move_left(),
                KeyCode::Right => self.body_move_right(),
                KeyCode::Home => self.body_home(),
                KeyCode::End => self.body_end(),
                _ => {},
            },
            Focus::Response => match key.code {
                KeyCode::Up | KeyCode::Char('k') => self.scroll_response_up(),
                KeyCode::Down | KeyCode::Char('j') => self.scroll_response_down(),
                KeyCode::PageUp => self.scroll_up_by_ten(),
                KeyCode::PageDown => self.scroll_down_by_ten(),
                _ => {},
            },
        }
        None
    }
    /// Whether `key` can be handled now (see [`key_ok`]).
    pub fn accepts_key(&self, key: Key) -> (b: bool)
        requires
            self.wf(),
        ensures
            b == key_ok(self@, key),
    {
        let quit = key.ctrl && (key.code == KeyCode::Char('c') || key.code == KeyCode::Char('q'));
        let send = !quit && ((key.ctrl && key.code == KeyCode::Char('s')) || (self.focus() == Focus::Url
            && key.code == KeyCode::Enter));
        if quit || send || key.code == KeyCode::Tab || key.code == KeyCode::BackTab {
            return true;
        }
        match self.focus() {
            Focus::Url => match key.code {
                KeyCode::Char(c) => self.url_insert_fits(c),
                _ => true,
            },
            Focus::Body => match key.code {
                KeyCode::Char(c) => self.body_insert_fits(c),
                KeyCode::Enter | KeyCode::Left | KeyCode::Right => self.body_cursor_valid(),
                KeyCode::Backspace => self.body_backspace_fits(),
                KeyCode::Delete => self.body_delete_fits(),
                _ => true,
            },
            Focus::Response => true,
        }
    }
}

} // verus!
