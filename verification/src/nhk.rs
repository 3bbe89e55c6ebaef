//! The application's view model: which service is selected, the last
//! successfully loaded document, and the per-message update decision.
//!
//! The update loop's outside work — performing the fetch a [`Action::Fetch`]
//! asks for — lives with the caller; the decision what to do with a message,
//! the request URL and the interpretation of fetched text are verified here.

use vstd::prelude::*;

use crate::content::get_content;
use crate::json::{json_ok, parse_json, value_get};
use crate::service::{code_chars, Service};

verus! {

/// The application-level error: the feed could not be loaded or read.
#[derive(Clone, Copy, Debug, Eq, Ord, PartialEq, PartialOrd, Structural)]
pub enum Error {
    APIError,
}

/// What the update loop is asked to do next: nothing, or fetch the feed for a
/// service and hand the outcome back as a [`Message::JsonLoaded`].
#[derive(Clone, Copy, Debug, Eq, PartialEq, Structural)]
pub enum Action {
    Idle,
    Fetch(Service),
}

/// The messages the view model reacts to.
#[derive(Debug)]
pub enum Message {
    SwitchTo(Service),
    Reloading,
    JsonLoaded(Result<NhkView, Error>),
}

/// The view model: the selected service and, once a load succeeded, the
/// parsed feed document.
#[derive(Debug)]
pub struct NhkView {
    service: Service,
    json: Option<serde_json::Value>,
}

/// Decimal digit characters of `n`, most significant first.
pub open spec fn decimal_digits(n: nat) -> Seq<char>
    decreases n,
{
    if n < 10 {
        seq![digit_char(n as int)]
    } else {
        decimal_digits(n / 10).push(digit_char((n % 10) as int))
    }
}

/// The character for one decimal digit.
pub open spec fn digit_char(d: int) -> char {
    if d == 0 {
        '0'
    } else if d == 1 {
        '1'
    } else if d == 2 {
        '2'
    } else if d == 3 {
        '3'
    } else if d == 4 {
        '4'
    } else if d == 5 {
        '5'
    } else if d == 6 {
        '6'
    } else if d == 7 {
        '7'
    } else if d == 8 {
        '8'
    } else {
        '9'
    }
}

/// The request URL for one service's "now on air" feed.
pub open spec fn url_chars(area: nat, service: Service, api_key: Seq<char>) -> Seq<char> {
    "https://api.nhk.or.jp/v2/pg/now/"@ + decimal_digits(area) + "/"@ + code_chars(service)
        + ".json?key="@ + api_key
}

fn digit_str(d: u32) -> (r: &'static str)
    requires
        d < 10,
    ensures
        r@ == seq![digit_char(d as int)],
{
    let r: &'static str = match d {
        0 => "0",
        1 => "1",
        2 => "2",
        3 => "3",
        4 => "4",
        5 => "5",
        6 => "6",
        7 => "7",
        8 => "8",
        _ => "9",
    };
    proof {
        reveal_strlit("0");
        reveal_strlit("1");
        reveal_strlit("2");
        reveal_strlit("3");
        reveal_strlit("4");
        reveal_strlit("5");
        reveal_strlit("6");
        reveal_strlit("7");
        reveal_strlit("8");
        reveal_strlit("9");
        assert(r@ =~= seq![digit_char(d as int)]);
    }
    r
}

fn append_decimal(out: &mut String, n: u32)
    ensures
        final(out)@ == old(out)@ + decimal_digits(n as nat),
    decreases n,
{
    if n < 10 {
        out.append(digit_str(n));
    } else {
        proof {
            assert(n / 10 < n) by (nonlinear_arith)
                requires
                    n >= 10,
            ;
        }
        append_decimal(out, n / 10);
        out.append(digit_str(n % 10));
        proof {
            assert(out@ =~= old(out)@ + decimal_digits(n as nat));
        }
    }
}

/// The URL the feed is fetched from, for an area code, a service and an API
/// key — the scheme, host and path the upstream service publishes.
pub fn build_url(area: u32, service: Service, api_key: &str) -> (url: String)
    ensures
        url@ == url_chars(area as nat, service, api_key@),
{
    let mut url = String::new();
    url.append("https://api.nhk.or.jp/v2/pg/now/");
    append_decimal(&mut url, area);
    url.append("/");
    let code = service.code();
    url.append(code.as_str());
    url.append(".json?key=");
    url.append(api_key);
    proof {
        assert(url@ =~= url_chars(area as nat, service, api_key@));
    }
    url
}

impl NhkView {
    /// The selected service.
    pub closed spec fn spec_service(&self) -> Service {
        self.service
    }

    /// Whether a loaded document is held.
    pub closed spec fn has_document(&self) -> bool {
        self.json is Some
    }

    /// A view model with no service selected and no document loaded.
    pub fn new() -> (r: NhkView)
        ensures
            r.spec_service() == Service::Unselected,
            !r.has_document(),
    {
        NhkView { service: Service::Unselected, json: None }
    }

    /// The window title.
    pub fn title(&self) -> (t: String)
        ensures
            t@ == "NHK now"@,
    {
        "NHK now".to_owned()
    }

    /// The selected service.
    pub fn service(&self) -> (s: Service)
        ensures
            s == self.spec_service(),
    {
        self.service
    }

    /// React to one message: switching to a service asks the caller to fetch
    /// its feed and changes nothing yet; a successful load replaces the view
    /// model; a failed load and a mere redraw change nothing.
    pub fn update(&mut self, message: Message) -> (action: Action)
        ensures
            message matches Message::SwitchTo(s) ==> *final(self) == *old(self) && action
                == Action::Fetch(s),
            message is Reloading ==> *final(self) == *old(self) && action == Action::Idle,
            message matches Message::JsonLoaded(Ok(data)) ==> *final(self) == data && action
                == Action::Idle,
            message matches Message::JsonLoaded(Err(_)) ==> *final(self) == *old(self) && action
                == Action::Idle,
    {
        match message {
            Message::SwitchTo(service) => Action::Fetch(service),
            Message::Reloading => Action::Idle,
            Message::JsonLoaded(Ok(data)) => {
                *self = data;
                Action::Idle
            },
            Message::JsonLoaded(Err(_)) => Action::Idle,
        }
    }

    /// Interpret fetched feed text for a service: well-formed JSON yields a
    /// view model holding the document, anything else the application error.
    pub fn from_json_text(service: Service, text: &str) -> (r: Result<NhkView, Error>)
        ensures
            json_ok(text@) ==> (r matches Ok(v) && v.spec_service() == service
                && v.has_document()),
            !json_ok(text@) ==> r == Err::<NhkView, Error>(Error::APIError),
    {
        match parse_json(text) {
            Some(value) => Ok(NhkView { service, json: Some(value) }),
            None => Err(Error::APIError),
        }
    }

    /// The (start, title, subtitle) shown for one timeline of the selected
    /// service's channel object in the loaded document.  Without a document
    /// every part is empty.
    pub fn on_air_content(&self, timeline: &str) -> (r: (String, String, String))
        ensures
            !self.has_document() ==> r.0@ == Seq::<char>::empty() && r.1@ == Seq::<char>::empty()
                && r.2@ == Seq::<char>::empty(),
            r.0@.len() <= 5,
    {
        let on_air = match &self.json {
            Some(j) => match value_get(j, "nowonair_list") {
                Some(list) => {
                    let code = self.service.code();
                    value_get(list, code.as_str())
                },
                None => None,
            },
            None => None,
        };
        get_content(on_air, timeline)
    }
}

impl Default for NhkView {
    fn default() -> (r: Self)
        ensures
            r.spec_service() == Service::Unselected,
            !r.has_document(),
    {
        NhkView::new()
    }
}

} // verus!
