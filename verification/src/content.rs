//! Field-level rendering of the "now on air" document: pull one timeline's
//! raw fields out of a channel object and shape them for display.
//!
//! Only the navigation into the parsed document is trusted (it goes through
//! the wrappers of [`crate::json`]); everything done to the raw texts —
//! stripping quote marks, clipping the start time to its `hh:mm` window — is
//! verified against the spec functions below, whatever texts the document
//! held.

use vstd::prelude::*;
use vstd::string::StrSliceExecFns;

use crate::json::{value_get, value_to_string};

verus! {

/// `s` without its leading quote marks.
pub open spec fn trim_leading(s: Seq<char>) -> Seq<char>
    decreases s.len(),
{
    if s.len() > 0 && s[0] == '"' {
        trim_leading(s.drop_first())
    } else {
        s
    }
}

/// `s` without its trailing quote marks.
pub open spec fn trim_trailing(s: Seq<char>) -> Seq<char>
    decreases s.len(),
{
    if s.len() > 0 && s.last() == '"' {
        trim_trailing(s.drop_last())
    } else {
        s
    }
}

/// `s` without the quote marks surrounding it — what remains of a raw JSON
/// string member once its delimiters are stripped.
pub open spec fn trim_quotes(s: Seq<char>) -> Seq<char> {
    trim_trailing(trim_leading(s))
}

/// The clock part of a raw timestamp: the five characters after the first
/// eleven (of `2006-01-02T15:04:05+09:00`, the `15:04` window), or what is
/// left of them on a short text.
pub open spec fn time_window(s: Seq<char>) -> Seq<char> {
    if s.len() <= 11 {
        Seq::empty()
    } else if s.len() < 16 {
        s.subrange(11, s.len() as int)
    } else {
        s.subrange(11, 16)
    }
}

/// What the display shows for a timeline's start time, from the raw field if
/// the document had one.
pub open spec fn start_text(raw: Option<Seq<char>>) -> Seq<char> {
    match raw {
        Some(s) => time_window(trim_quotes(s)),
        None => Seq::empty(),
    }
}

/// What the display shows for a plain text field, from the raw field if the
/// document had one.
pub open spec fn field_text(raw: Option<Seq<char>>) -> Seq<char> {
    match raw {
        Some(s) => trim_quotes(s),
        None => Seq::empty(),
    }
}

/// The views of three optional raw fields.
pub open spec fn raw_views(raw: Option<String>) -> Option<Seq<char>> {
    match raw {
        Some(s) => Some(s@),
        None => None,
    }
}

fn trim_leading_exec(s: &str) -> (r: &str)
    ensures
        r@ == trim_leading(s@),
    decreases s@.len(),
{
    let n = s.unicode_len();
    if n > 0 && s.get_char(0) == '"' {
        trim_leading_exec(s.substring_char(1, n))
    } else {
        s
    }
}

fn trim_trailing_exec(s: &str) -> (r: &str)
    ensures
        r@ == trim_trailing(s@),
    decreases s@.len(),
{
    let n = s.unicode_len();
    if n > 0 && s.get_char(n - 1) == '"' {
        trim_trailing_exec(s.substring_char(0, n - 1))
    } else {
        s
    }
}

/// `s` with the quote marks surrounding it stripped.
pub fn trim_quote_marks(s: &str) -> (r: String)
    ensures
        r@ == trim_quotes(s@),
{
    trim_trailing_exec(trim_leading_exec(s)).to_owned()
}

/// The `hh:mm` window of a raw timestamp text.
pub fn clip_time_window(s: &str) -> (r: String)
    ensures
        r@ == time_window(s@),
{
    let n = s.unicode_len();
    if n <= 11 {
        String::new()
    } else if n < 16 {
        s.substring_char(11, n).to_owned()
    } else {
        s.substring_char(11, 16).to_owned()
    }
}

/// Shape one timeline's raw fields for display: the start time is stripped of
/// quote marks and clipped to its clock window, title and subtitle are
/// stripped of quote marks, and an absent field shows as an empty text.
pub fn render_timeline(
    start_raw: Option<String>,
    title_raw: Option<String>,
    subtitle_raw: Option<String>,
) -> (r: (String, String, String))
    ensures
        r.0@ == start_text(raw_views(start_raw)),
        r.1@ == field_text(raw_views(title_raw)),
        r.2@ == field_text(raw_views(subtitle_raw)),
{
    let start = match &start_raw {
        Some(s) => {
            let trimmed = trim_quote_marks(s.as_str());
            clip_time_window(trimmed.as_str())
        },
        None => String::new(),
    };
    let title = match &title_raw {
        Some(s) => trim_quote_marks(s.as_str()),
        None => String::new(),
    };
    let subtitle = match &subtitle_raw {
        Some(s) => trim_quote_marks(s.as_str()),
        None => String::new(),
    };
    (start, title, subtitle)
}

/// The (start, title, subtitle) shown for one timeline (`"previous"`,
/// `"present"` or `"following"`) of a channel object.  With no channel object
/// every part is empty; the start part never exceeds the five characters of
/// its clock window.
pub fn get_content(on_air: Option<&serde_json::Value>, timeline: &str) -> (r: (
    String,
    String,
    String,
))
    ensures
        on_air is None ==> r.0@ == Seq::<char>::empty() && r.1@ == Seq::<char>::empty() && r.2@
            == Seq::<char>::empty(),
        r.0@.len() <= 5,
{
    let description = match on_air {
        Some(data) => value_get(data, timeline),
        None => None,
    };
    let (start_raw, title_raw, subtitle_raw) = match description {
        Some(d) => {
            let start = match value_get(d, "start_time") {
                Some(v) => Some(value_to_string(v)),
                None => None,
            };
            let title = match value_get(d, "title") {
                Some(v) => Some(value_to_string(v)),
                None => None,
            };
            let subtitle = match value_get(d, "subtitle") {
                Some(v) => Some(value_to_string(v)),
                None => None,
            };
            (start, title, subtitle)
        },
        None => (None, None, None),
    };
    render_timeline(start_raw, title_raw, subtitle_raw)
}

} // verus!
