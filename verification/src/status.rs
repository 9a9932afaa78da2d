//! The outcome of the last request, and how it is shown.
use vstd::prelude::*;
use vstd::string::StringExecFns;

use crate::palette::Color;
use crate::text::string_from_chars;

verus! {

/// Where the last request stands.
#[derive(Clone, Debug)]
pub enum Status {
    Idle,
    Sending,
    Success { code: u16, body: String },
    Error(String),
}

/// The ASCII digit for `d < 10`.
pub open spec fn digit_char(d: nat) -> char {
    ((48 + d) as u8) as char
}

/// Decimal notation of `n`, without leading zeros.
pub open spec fn decimal(n: nat) -> Seq<char>
    decreases n,
{
    if n < 10 {
        seq![digit_char(n)]
    } else {
        decimal(n / 10) + seq![digit_char(n % 10)]
    }
}

fn push_decimal(n: u16, out: &mut Vec<char>)
    ensures
        final(out)@ == old(out)@ + decimal(n as nat),
    decreases n,
{
    if n >= 10 {
        push_decimal(n / 10, out);
    }
    let d = (n % 10) as u8;
    out.push((48u8 + d) as char);
    proof {
        assert(final(out)@ =~= old(out)@ + decimal(n as nat));
    }
}

/// Decimal notation of `n`.
pub fn decimal_string(n: u16) -> (s: String)
    ensures
        s@ == decimal(n as nat),
{
    let mut out: Vec<char> = Vec::new();
    push_decimal(n, &mut out);
    proof {
        assert(out@ =~= decimal(n as nat));
    }
    string_from_chars(out.as_slice())
}

/// The status bar text for `s`.
pub open spec fn label_text(s: Status) -> Seq<char> {
    match s {
        Status::Idle => "Idle — press Ctrl-S to send, Tab to switch focus"@,
        Status::Sending => "Sending…"@,
        Status::Success { code, .. } => "✓ "@ + decimal(code as nat) + " OK"@,
        Status::Error(e) => "✗ "@ + e@,
    }
}

impl Status {
    /// The status bar text.
    pub fn label(&self) -> (s: String)
        ensures
            s@ == label_text(*self),
    {
        match self {
            Status::Idle => "Idle — press Ctrl-S to send, Tab to switch focus".to_owned(),
            Status::Sending => "Sending…".to_owned(),
            Status::Success { code, .. } => {
                let mut s = "✓ ".to_owned();
                s.append(decimal_string(*code).as_str());
                s.append(" OK");
                s
            },
            Status::Error(e) => {
                let mut s = "✗ ".to_owned();
                s.append(e.as_str());
                s
            },
        }
    }

    /// The status bar colour.
    pub fn color(&self) -> (c: Color)
        ensures
            c == (match *self {
                Status::Idle => Color::DarkGray,
                Status::Sending => Color::Yellow,
                Status::Success { .. } => Color::Green,
                Status::Error(_) => Color::Red,
            }),
    {
        match self {
            Status::Idle => Color::DarkGray,
            Status::Sending => Color::Yellow,
            Status::Success { .. } => Color::Green,
            Status::Error(_) => Color::Red,
        }
    }
}

// ── Turning a response into a status ────────────────────────────────────

/// Whether `code` is a success code (what `StatusCode::is_success` tests: 200 to 299).
pub fn is_success(code: u16) -> (b: bool)
    ensures
        b == (200 <= code < 300),
{
    200 <= code && code < 300
}

/// The reason phrase that the `http` crate's table gives a status code, if any.
pub uninterp spec fn canonical_reason_phrase(code: u16) -> Option<Seq<char>>;

/// The canonical reason phrase of `code` (`reqwest::StatusCode::from_u16`, then
/// `StatusCode::canonical_reason`).
///
/// The contract claims that the phrase is `canonical_reason_phrase(code)`, and,
/// as `from_u16` refuses codes outside 100 to 999, that there is none for them.
/// The phrases of the table are not stated.
#[verifier::external_body]
fn canonical_reason(code: u16) -> (r: Option<&'static str>)
    ensures
        r is Some <==> canonical_reason_phrase(code) is Some,
        r matches Some(p) ==> canonical_reason_phrase(code) == Some(p@),
        !(100 <= code <= 999) ==> r is None,
{
    match reqwest::StatusCode::from_u16(code) {
        Ok(status) => status.canonical_reason(),
        Err(_) => None,
    }
}

/// Whether `serde_json` accepts `text` as one JSON value.
pub uninterp spec fn json_value_parses(text: Seq<char>) -> bool;

/// What `serde_json` prints, with indentation, for the JSON value in `text`
/// (`None` where `text` is not one JSON value or printing fails).
pub uninterp spec fn json_reprinted(text: Seq<char>) -> Option<Seq<char>>;

/// Re-prints the JSON value in `text` with indentation:
/// `serde_json::from_str::<serde_json::Value>`, then `serde_json::to_string_pretty`.
///
/// The contract names the result `json_reprinted(text@)`, and claims that a
/// result comes only from a text that parses (`json_value_parses`). The text
/// that `serde_json` prints is not stated.
#[verifier::external_body]
fn reprint_json(text: &str) -> (r: Option<String>)
    ensures
        match r {
            Some(p) => json_reprinted(text@) == Some(p@),
            None => json_reprinted(text@) is None,
        },
        r is Some ==> json_value_parses(text@),
{
    match serde_json::from_str::<serde_json::Value>(text) {
        Ok(value) => match serde_json::to_string_pretty(&value) {
            Ok(pretty) => Some(pretty),
            Err(_) => None,
        },
        Err(_) => None,
    }
}

/// The response body as shown: re-printed where it is JSON, else as received.
pub open spec fn shown_body(raw: Seq<char>) -> Seq<char> {
    match json_reprinted(raw) {
        Some(p) => p,
        None => raw,
    }
}

/// The response text re-printed with indentation where it is JSON, else as received.
pub fn pretty_or_raw(raw: &str) -> (s: String)
    ensures
        s@ == shown_body(raw@),
        !json_value_parses(raw@) ==> s@ == raw@,
{
    match reprint_json(raw) {
        Some(pretty) => pretty,
        None => raw.to_owned(),
    }
}

/// Text of the error shown for an unsuccessful response.
pub open spec fn http_error_text(code: u16, reason: Option<Seq<char>>, body: Seq<char>) -> Seq<char> {
    "HTTP "@ + decimal(code as nat) + " "@ + (match reason {
        Some(r) => r,
        None => "Unknown Status"@,
    }) + (if body.len() == 0 {
        body
    } else {
        ":\n\n"@ + body
    })
}

/// `s` is the status shown for a response with `code`, reason phrase `reason`
/// and (re-printed) body `body`.
pub open spec fn is_response_status(s: Status, code: u16, reason: Option<Seq<char>>, body: Seq<char>) -> bool {
    if 200 <= code < 300 {
        s matches Status::Success { code: c, body: b } && c == code && b@ == body
    } else {
        s matches Status::Error(e) && e@ == http_error_text(code, reason, body)
    }
}

/// The status for a response with `code`, reason phrase `reason` and body `body`:
/// success for 2xx codes, an error naming the code and reason otherwise.
pub fn response_status(code: u16, reason: Option<&str>, body: &str) -> (s: Status)
    ensures
        is_response_status(s, code, match reason {
            Some(r) => Some(r@),
            None => None,
        }, body@),
{
    if is_success(code) {
        Status::Success { code, body: body.to_owned() }
    } else {
        let ghost reason_v = match reason {
            Some(r) => Some(r@),
            None => None,
        };
        let mut text = "HTTP ".to_owned();
        text.append(decimal_string(code).as_str());
        text.append(" ");
        match reason {
            Some(r) => text.append(r),
            None => text.append("Unknown Status"),
        }
        let ghost head = text@;
        assert(head == "HTTP "@ + decimal(code as nat) + " "@ + (match reason_v {
            Some(r) => r,
            None => "Unknown Status"@,
        }));
        if !body.is_empty() {
            text.append(":\n\n");
            text.append(body);
            assert(text@ =~= head + (":\n\n"@ + body@));
        } else {
            text.append(body);
            assert(text@ =~= head + body@);
        }
        Status::Error(text)
    }
}

/// The status for a received response: the body is re-printed where it is JSON,
/// and the reason phrase is the canonical one of the code.
pub fn status_from_response(code: u16, raw: &str) -> (s: Status)
    ensures
        is_response_status(s, code, canonical_reason_phrase(code), shown_body(raw@)),
{
    let body = pretty_or_raw(raw);
    let reason = canonical_reason(code);
    let s = response_status(code, reason, body.as_str());
    proof {
        assert(match reason {
            Some(r) => Some(r@),
            None => None,
        } == canonical_reason_phrase(code));
    }
    s
}

} // verus!
