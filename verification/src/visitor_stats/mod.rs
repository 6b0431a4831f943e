//! Visitor statistics: every request is recorded and answered with how many there were.
use crate::text::{before_first, first_part, trim, trimmed};
use vstd::prelude::*;
use vstd::string::*;

pub mod aggregation;
pub mod handler;
pub mod store;

verus! {

/// A request, as far as it matters here.
pub struct VisitRequest {
    pub method: String,
    /// The bytes of the header `x-real-ip`.
    pub real_ip: Option<Vec<u8>>,
    /// The bytes of the header `x-forwarded-for`.
    pub forwarded_for: Option<Vec<u8>>,
    /// The address that the connection comes from.
    pub peer: Option<String>,
}

pub struct VisitRequestView {
    pub method: Seq<char>,
    pub real_ip: Option<Seq<u8>>,
    pub forwarded_for: Option<Seq<u8>>,
    pub peer: Option<Seq<char>>,
}

/// The bytes of an optional header.
pub open spec fn optional_bytes(bytes: Option<Vec<u8>>) -> Option<Seq<u8>> {
    match bytes {
        Some(bytes) => Some(bytes@),
        None => None,
    }
}

impl View for VisitRequest {
    type V = VisitRequestView;

    open spec fn view(&self) -> VisitRequestView {
        VisitRequestView {
            method: self.method@,
            real_ip: optional_bytes(self.real_ip),
            forwarded_for: optional_bytes(self.forwarded_for),
            peer: match self.peer {
                Some(peer) => Some(peer@),
                None => None,
            },
        }
    }
}

/// Whether a byte of a header is a visible ASCII character, a blank or a tab.
pub open spec fn is_visible(b: u8) -> bool {
    32 <= b < 127 || b == 9
}

/// The text of a header whose bytes are all visible.
pub open spec fn visible_text(bytes: Seq<u8>) -> Option<Seq<char>> {
    if forall|i: int| 0 <= i < bytes.len() ==> is_visible(#[trigger] bytes[i]) {
        Some(bytes.map_values(|b: u8| b as char))
    } else {
        None
    }
}

/// `HeaderValue::to_str` of `http`, on a header value of the given bytes: the text of a header
/// whose bytes are all visible. Bytes that no header value can have are not visible either.
#[verifier::external_body]
pub(crate) fn header_text(bytes: &Vec<u8>) -> (r: Option<String>)
    ensures
        r is Some == visible_text(bytes@) is Some,
        r is Some ==> r->0@ == visible_text(bytes@)->0,
{
    axum::http::HeaderValue::from_bytes(bytes).ok().and_then(
        |value| value.to_str().ok().map(|text| text.to_owned()),
    )
}

/// The address in the header `x-real-ip`, without white space around it; empty if there is none.
pub open spec fn real_address(header: Option<Seq<u8>>) -> Seq<char> {
    match header {
        Some(bytes) => match visible_text(bytes) {
            Some(text) => trimmed(text),
            None => Seq::empty(),
        },
        None => Seq::empty(),
    }
}

/// The first address in the header `x-forwarded-for`, without white space around it; empty if there
/// is none.
pub open spec fn forwarded_address(header: Option<Seq<u8>>) -> Seq<char> {
    match header {
        Some(bytes) => match visible_text(bytes) {
            Some(text) => trimmed(before_first(text, ',')),
            None => Seq::empty(),
        },
        None => Seq::empty(),
    }
}

/// Where a request comes from: what the proxies say, else where the connection comes from, else this
/// machine.
pub open spec fn visitor_address(request: VisitRequestView) -> Seq<char> {
    if real_address(request.real_ip).len() > 0 {
        real_address(request.real_ip)
    } else if forwarded_address(request.forwarded_for).len() > 0 {
        forwarded_address(request.forwarded_for)
    } else {
        match request.peer {
            Some(peer) => peer,
            None => "127.0.0.1"@,
        }
    }
}

/// Where a request comes from.
pub fn extract_ip(request: &VisitRequest) -> (ip: String)
    ensures
        ip@ == visitor_address(request@),
{
    if let Some(bytes) = &request.real_ip {
        if let Some(text) = header_text(bytes) {
            let address = trim(text.as_str());
            if address.unicode_len() > 0 {
                return address.to_owned();
            }
        }
    }
    if let Some(bytes) = &request.forwarded_for {
        if let Some(text) = header_text(bytes) {
            let address = trim(first_part(text.as_str(), ','));
            if address.unicode_len() > 0 {
                return address.to_owned();
            }
        }
    }
    match &request.peer {
        Some(peer) => peer.clone(),
        None => "127.0.0.1".to_owned(),
    }
}

/// What is answered to a request.
pub struct HttpResponse {
    pub status: u16,
    /// The names of the headers and their values, in order.
    pub headers: Vec<(&'static str, &'static str)>,
    pub body: String,
}

pub struct HttpResponseView {
    pub status: u16,
    pub headers: Seq<(&'static str, &'static str)>,
    pub body: Seq<char>,
}

impl View for HttpResponse {
    type V = HttpResponseView;

    open spec fn view(&self) -> HttpResponseView {
        HttpResponseView { status: self.status, headers: self.headers@, body: self.body@ }
    }
}

pub const ALLOW_ORIGIN: (&'static str, &'static str) = ("access-control-allow-origin", "*");

pub const ALLOW_METHODS: (&'static str, &'static str) = (
    "access-control-allow-methods",
    "GET, OPTIONS",
);

pub const ALLOW_HEADERS: (&'static str, &'static str) = ("access-control-allow-headers", "*");

pub const PLAIN_TEXT: (&'static str, &'static str) = ("content-type", "text/plain; charset=utf-8");

pub const JSON_TEXT: (&'static str, &'static str) = (
    "content-type",
    "application/json; charset=utf-8",
);

/// What a browser is told that asks what it may do.
pub open spec fn preflight_response() -> HttpResponseView {
    HttpResponseView {
        status: 204,
        headers: seq![ALLOW_ORIGIN, ALLOW_METHODS, ALLOW_HEADERS],
        body: Seq::empty(),
    }
}

/// A failure, for pages from anywhere.
pub open spec fn error_response(status: u16, message: Seq<char>) -> HttpResponseView {
    HttpResponseView { status, headers: seq![PLAIN_TEXT, ALLOW_ORIGIN], body: message }
}

/// A JSON document, for pages from anywhere.
pub open spec fn json_response(body: Seq<char>) -> HttpResponseView {
    HttpResponseView { status: 200, headers: seq![JSON_TEXT, ALLOW_ORIGIN], body }
}

/// Tells a browser what it may do.
pub fn build_preflight() -> (response: HttpResponse)
    ensures
        response@ == preflight_response(),
{
    let headers: Vec<(&'static str, &'static str)> = vec![
        ALLOW_ORIGIN,
        ALLOW_METHODS,
        ALLOW_HEADERS,
    ];
    assert(headers@ =~= preflight_response().headers);
    HttpResponse { status: 204, headers, body: String::new() }
}

/// Answers with a failure.
pub fn build_error(status: u16, message: &str) -> (response: HttpResponse)
    ensures
        response@ == error_response(status, message@),
{
    let headers: Vec<(&'static str, &'static str)> = vec![PLAIN_TEXT, ALLOW_ORIGIN];
    assert(headers@ =~= error_response(status, message@).headers);
    HttpResponse { status, headers, body: message.to_owned() }
}

/// Answers with a JSON document.
pub fn build_json(body: String) -> (response: HttpResponse)
    ensures
        response@ == json_response(body@),
{
    let headers: Vec<(&'static str, &'static str)> = vec![JSON_TEXT, ALLOW_ORIGIN];
    assert(headers@ =~= json_response(body@).headers);
    HttpResponse { status: 200, headers, body }
}

/// Proxies are believed in order: a real address counts whatever else is said, and an address that
/// was passed along counts whatever the connection says.
pub proof fn law_proxies_come_first(a: VisitRequestView, b: VisitRequestView)
    requires
        a.real_ip == b.real_ip,
    ensures
        real_address(a.real_ip).len() > 0 ==> visitor_address(a) == visitor_address(b),
        a.forwarded_for == b.forwarded_for && forwarded_address(a.forwarded_for).len() > 0
            ==> visitor_address(a) == visitor_address(b),
{
}

/// An address is what a header says without the white space around it; of addresses that were passed
/// along the first one counts. A header with anything but visible ASCII says nothing.
pub proof fn law_addresses_in_headers(bytes: Seq<u8>)
    ensures
        real_address(None) == Seq::<char>::empty(),
        forwarded_address(None) == Seq::<char>::empty(),
        (exists|i: int| 0 <= i < bytes.len() && !(32 <= #[trigger] bytes[i] < 127 || bytes[i] == 9))
            ==> real_address(Some(bytes)) == Seq::<char>::empty() && forwarded_address(Some(bytes))
            == Seq::<char>::empty(),
        (forall|i: int| 0 <= i < bytes.len() ==> 32 <= #[trigger] bytes[i] < 127 || bytes[i] == 9)
            ==> {
            let text = Seq::new(bytes.len(), |i: int| bytes[i] as char);
            &&& real_address(Some(bytes)) == trimmed(text)
            &&& forwarded_address(Some(bytes)) == trimmed(before_first(text, ','))
        },
{
    assert(bytes.map_values(|b: u8| b as char) =~= Seq::new(
        bytes.len(),
        |i: int| bytes[i] as char,
    ));
}

/// Where a visitor comes from: the real address if there is one, else the first that was passed along,
/// else the other end of the connection, else this machine.
pub proof fn law_visitor_address_is_the_first_known(request: VisitRequestView)
    ensures
        real_address(request.real_ip).len() > 0 ==> visitor_address(request) == real_address(
            request.real_ip,
        ),
        real_address(request.real_ip).len() == 0 ==> {
            &&& forwarded_address(request.forwarded_for).len() > 0 ==> visitor_address(request)
                == forwarded_address(request.forwarded_for)
            &&& forwarded_address(request.forwarded_for).len() == 0 ==> {
                &&& request.peer matches Some(peer) ==> visitor_address(request) == peer
                &&& request.peer is None ==> visitor_address(request) == "127.0.0.1"@
            }
        },
{
}

/// Every answer may be read by pages from anywhere, tells what it is, and carries its text as it is.
pub proof fn law_answers_are_for_pages_from_anywhere(status: u16, text: Seq<char>)
    ensures
        ({
            let answer = error_response(status, text);
            &&& answer.status == status
            &&& answer.body == text
            &&& answer.headers == seq![
                ("content-type", "text/plain; charset=utf-8"),
                ("access-control-allow-origin", "*"),
            ]
        }),
        ({
            let answer = json_response(text);
            &&& answer.status == 200
            &&& answer.body == text
            &&& answer.headers == seq![
                ("content-type", "application/json; charset=utf-8"),
                ("access-control-allow-origin", "*"),
            ]
        }),
        ({
            let answer = preflight_response();
            &&& answer.status == 204
            &&& answer.body.len() == 0
            &&& answer.headers == seq![
                ("access-control-allow-origin", "*"),
                ("access-control-allow-methods", "GET, OPTIONS"),
                ("access-control-allow-headers", "*"),
            ]
        }),
{
}

/// A request is taken as it came, and an answer is what its parts are.
pub proof fn law_requests_and_answers_in_parts(request: VisitRequest, response: HttpResponse)
    ensures
        request@.method == request.method@,
        request@.real_ip is Some <==> request.real_ip is Some,
        request.real_ip matches Some(bytes) ==> request@.real_ip == Some(bytes@),
        request@.forwarded_for is Some <==> request.forwarded_for is Some,
        request.forwarded_for matches Some(bytes) ==> request@.forwarded_for == Some(bytes@),
        request@.peer is Some <==> request.peer is Some,
        request.peer matches Some(peer) ==> request@.peer == Some(peer@),
        response@.status == response.status,
        response@.headers == response.headers@,
        response@.body == response.body@,
{
}

} // verus!
