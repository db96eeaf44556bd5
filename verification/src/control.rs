//! The daemon's local control API, a minimal HTTP/1.0 server for the LAN:
//! `GET /status` (state of the link, as JSON), `POST /text` (show a text on
//! the Minitel, wrapped and paginated) and `POST /show` (send a raw Videotex
//! stream, e.g. an image).
//!
//! The socket is the caller's; here are the parsing of the request head,
//! the routing and the responses.
use vstd::prelude::*;
use crate::backend::{find_subslice, occurs_at, first_occurrence, Net};
use crate::chars::{
    ascii_lower_text, chars_of, lossy_text, lowercase_ascii, parse_usize, parse_usize_spec,
    same_text, string_of, strings_view, utf8_lossy, push_str,
};
use crate::chat::{decimal, push_decimal, split_lines, text_lines, trim_spec, trim_text};
use crate::videotex::{split_words, words_of};
use vstd::string::StrSliceExecFns;
use vstd::utf8::encode_utf8;

verus! {

/// Default port of the control API.
pub const DEFAULT_CTRL_PORT: u16 = 3010;

/// What the request head asks for.
pub struct RequestHead {
    /// First word of the request line.
    pub method: String,
    /// Second word of the request line.
    pub path: String,
    /// Length of the body announced by the first `Content-Length` header
    /// (0 without one, or when its value is not a number).
    pub content_length: usize,
}

/// The `i`-th word of the request line (empty when there is none).
pub open spec fn request_word(lines: Seq<Seq<char>>, i: int) -> Seq<char> {
    let req = if lines.len() > 0 { lines[0] } else { seq![] };
    let w = words_of(req);
    if 0 <= i < w.len() { w[i] } else { seq![] }
}

/// Whether a header line is a `Content-Length` header, in any case.
pub open spec fn is_length_header(l: Seq<char>) -> bool {
    let p = "content-length:"@;
    let low = ascii_lower_text(l);
    low.len() >= p.len() && low.take(p.len() as int) == p
}

/// The value of a `Content-Length` header line: its trimmed value when it is
/// a number, else 0.
pub open spec fn header_length(l: Seq<char>) -> nat {
    let p = "content-length:"@;
    match parse_usize_spec(trim_spec(ascii_lower_text(l).skip(p.len() as int))) {
        Some(v) => v,
        None => 0,
    }
}

/// The length announced by the first `Content-Length` line; 0 without one.
pub open spec fn content_length_of(lines: Seq<Seq<char>>) -> nat
    decreases lines.len(),
{
    if lines.len() == 0 {
        0
    } else if is_length_header(lines[0]) {
        header_length(lines[0])
    } else {
        content_length_of(lines.drop_first())
    }
}

/// Index of the end of the request head (the blank line `\r\n\r\n`), if
/// the bytes received so far hold it.
pub fn head_end(buf: &[u8]) -> (r: Option<usize>)
    ensures
        match r {
            Some(i) => first_occurrence(buf@, seq![0x0Du8, 0x0Au8, 0x0Du8, 0x0Au8], i as int),
            None => forall|i: int| 0 <= i ==> !occurs_at(buf@, seq![0x0Du8, 0x0Au8, 0x0Du8, 0x0Au8], i),
        },
{
    let sep: [u8; 4] = [0x0D, 0x0A, 0x0D, 0x0A];
    assert(sep@ =~= seq![0x0Du8, 0x0Au8, 0x0Du8, 0x0Au8]);
    find_subslice(buf, sep.as_slice())
}

fn value_of_length_header(low: &Vec<char>, n: usize) -> (v: usize)
    requires
        n <= low@.len(),
    ensures
        v == match parse_usize_spec(trim_spec(low@.skip(n as int))) {
            Some(v) => v,
            None => 0,
        },
{
    let mut rest: Vec<char> = Vec::new();
    let mut k: usize = n;
    while k < low.len()
        invariant
            n <= k <= low@.len(),
            rest@ == low@.subrange(n as int, k as int),
        decreases low@.len() - k,
    {
        rest.push(low[k]);
        assert(low@.subrange(n as int, k + 1) =~= low@.subrange(n as int, k as int).push(low@[k as int]));
        k = k + 1;
    }
    assert(rest@ =~= low@.skip(n as int));
    let s = string_of(rest.as_slice());
    let t = trim_text(s.as_str());
    let tc = chars_of(t.as_str());
    match parse_usize(tc.as_slice()) {
        Some(v) => v,
        None => 0,
    }
}

fn starts_with_chars(low: &Vec<char>, prefix: &Vec<char>) -> (same: bool)
    ensures
        same == (low@.len() >= prefix@.len() && low@.take(prefix@.len() as int) == prefix@),
{
    if low.len() < prefix.len() {
        return false;
    }
    let mut k: usize = 0;
    while k < prefix.len()
        invariant
            k <= prefix@.len() <= low@.len(),
            low@.take(k as int) == prefix@.take(k as int),
        decreases prefix@.len() - k,
    {
        if low[k] != prefix[k] {
            assert(low@.take(prefix@.len() as int)[k as int] != prefix@[k as int]);
            return false;
        }
        assert(low@.take(k + 1) =~= low@.take(k as int).push(low@[k as int]));
        assert(prefix@.take(k + 1) =~= prefix@.take(k as int).push(prefix@[k as int]));
        k = k + 1;
    }
    assert(prefix@.take(prefix@.len() as int) =~= prefix@);
    true
}

/// Parses the request head (the bytes before the blank line): method and
/// path from the request line, length of the body from the first
/// `Content-Length` header. The bytes are read as UTF-8, invalid sequences
/// replaced.
pub fn parse_head(head: &[u8]) -> (r: RequestHead)
    ensures
        r.method@ == request_word(text_lines(lossy_text(head@)), 0),
        r.path@ == request_word(text_lines(lossy_text(head@)), 1),
        r.content_length == content_length_of(text_lines(lossy_text(head@))),
{
    let text = utf8_lossy(head);
    parse_head_text(text.as_str())
}

/// Parses the text of a request head: method and path from the request
/// line, length of the body from the first `Content-Length` header.
pub fn parse_head_text(text: &str) -> (r: RequestHead)
    ensures
        r.method@ == request_word(text_lines(text@), 0),
        r.path@ == request_word(text_lines(text@), 1),
        r.content_length == content_length_of(text_lines(text@)),
{
    let lines = split_lines(text);
    let ghost ls = text_lines(text@);
    assert(strings_view(lines@) == ls);
    let empty = String::new();
    let req: &String = if lines.len() > 0 { &lines[0] } else { &empty };
    assert(lines@.len() > 0 ==> strings_view(lines@)[0] == lines@[0]@);
    assert(req@ == (if ls.len() > 0 { ls[0] } else { Seq::<char>::empty() }));
    let words = split_words(req.as_str());
    assert(words@.len() > 0 ==> strings_view(words@)[0] == words@[0]@);
    assert(words@.len() > 1 ==> strings_view(words@)[1] == words@[1]@);
    let method = if words.len() > 0 { words[0].clone() } else { String::new() };
    let path = if words.len() > 1 { words[1].clone() } else { String::new() };
    assert(strings_view(words@) == words_of(req@));
    assert(method@ == request_word(ls, 0));
    assert(path@ == request_word(ls, 1));
    let prefix = chars_of("content-length:");
    let mut content_length: usize = 0;
    let mut i: usize = 0;
    assert(ls.skip(0) =~= ls);
    while i < lines.len()
        invariant
            i <= lines@.len(),
            strings_view(lines@) == ls,
            ls == text_lines(text@),
            prefix@ == "content-length:"@,
            content_length_of(ls.skip(i as int)) == content_length_of(ls),
            content_length == 0,
            method@ == request_word(ls, 0),
            path@ == request_word(ls, 1),
        decreases lines@.len() - i,
    {
        let ghost l = ls[i as int];
        assert(strings_view(lines@)[i as int] == lines@[i as int]@);
        assert(ls.skip(i as int)[0] == l);
        let line = chars_of(lines[i].as_str());
        let low = lowercase_ascii(line.as_slice());
        let same = starts_with_chars(&low, &prefix);
        if same {
            let v = value_of_length_header(&low, prefix.len());
            return RequestHead { method, path, content_length: v };
        }
        assert(ls.skip(i as int).drop_first() =~= ls.skip(i + 1));
        i = i + 1;
    }
    assert(ls.skip(i as int).len() == 0);
    RequestHead { method, path, content_length }
}

/// What a request is routed to.
#[derive(Debug, Clone, Copy, PartialEq, Eq, Structural)]
pub enum Route {
    /// `GET /status`: the state of the link, as JSON.
    Status,
    /// `POST /text`: a text to show.
    Text,
    /// `POST /show`: a raw Videotex stream to show.
    Show,
    /// Anything else: 404.
    NotFound,
}

/// The route of a method and a path.
pub open spec fn route_spec(method: Seq<char>, path: Seq<char>) -> Route {
    if method == "GET"@ && path == "/status"@ {
        Route::Status
    } else if method == "POST"@ && path == "/text"@ {
        Route::Text
    } else if method == "POST"@ && path == "/show"@ {
        Route::Show
    } else {
        Route::NotFound
    }
}

/// Routes a request.
pub fn route(method: &str, path: &str) -> (r: Route)
    ensures
        r == route_spec(method@, path@),
{
    if same_text(method, "GET") && same_text(path, "/status") {
        Route::Status
    } else if same_text(method, "POST") && same_text(path, "/text") {
        Route::Text
    } else if same_text(method, "POST") && same_text(path, "/show") {
        Route::Show
    } else {
        Route::NotFound
    }
}

/// A command pushed by the control API to the main loop.
#[derive(Debug, Clone, PartialEq, Eq)]
pub enum Ctl {
    /// Show a text (wrapped and paginated).
    Text(String),
    /// Show a raw Videotex stream (an image).
    Show(Vec<u8>),
}

/// The command a request carries: its body read as text for `POST /text`
/// (invalid UTF-8 replaced), as is for `POST /show`; none for the others.
pub fn command_of(r: Route, body: Vec<u8>) -> (c: Option<Ctl>)
    ensures
        r == Route::Text ==> (c matches Some(Ctl::Text(t)) && t@ == lossy_text(body@)),
        r == Route::Show ==> (c matches Some(Ctl::Show(b)) && b@ == body@),
        r == Route::Status || r == Route::NotFound ==> c is None,
{
    match r {
        Route::Text => Some(Ctl::Text(utf8_lossy(body.as_slice()))),
        Route::Show => Some(Ctl::Show(body)),
        _ => None,
    }
}

/// State of the daemon exposed by `GET /status`.
#[derive(Debug, Clone, Copy, PartialEq, Eq, Structural)]
pub struct Status {
    /// A Minitel answered lately on a negotiated link.
    pub connected: bool,
    /// Speed of the link (0 before any connection).
    pub baud: u32,
    /// Seconds since the last key typed.
    pub idle_secs: u64,
    /// The Minitel is let asleep (no probe, no clock).
    pub sleeping: bool,
    /// State of the network chain.
    pub net: Net,
}

/// `true` or `false`.
pub open spec fn bool_text(b: bool) -> Seq<char> {
    if b { "true"@ } else { "false"@ }
}

/// The network state's word in the JSON.
pub open spec fn net_word(n: Net) -> Seq<char> {
    match n {
        Net::Unknown => "unknown"@,
        Net::Online => "online"@,
        Net::NoWeb => "noweb"@,
        Net::Offline => "offline"@,
    }
}

/// The JSON of `GET /status`.
pub open spec fn status_json_text(s: Status) -> Seq<char> {
    "{\"connected\":"@ + bool_text(s.connected) + ",\"baud\":"@ + decimal(s.baud as nat)
        + ",\"idle_secs\":"@ + decimal(s.idle_secs as nat) + ",\"sleeping\":"@
        + bool_text(s.sleeping) + ",\"net\":\""@ + net_word(s.net) + "\"}"@
}

fn push_bool(t: &mut String, b: bool)
    ensures
        final(t)@ == old(t)@ + bool_text(b),
{
    if b {
        push_str(t, "true");
    } else {
        push_str(t, "false");
    }
}

/// The JSON of `GET /status`:
/// `{"connected":..,"baud":..,"idle_secs":..,"sleeping":..,"net":".."}`.
pub fn status_json(s: &Status) -> (j: String)
    ensures
        j@ == status_json_text(*s),
{
    let mut j = String::new();
    push_str(&mut j, "{\"connected\":");
    push_bool(&mut j, s.connected);
    push_str(&mut j, ",\"baud\":");
    push_decimal(&mut j, s.baud as u64);
    push_str(&mut j, ",\"idle_secs\":");
    push_decimal(&mut j, s.idle_secs);
    push_str(&mut j, ",\"sleeping\":");
    push_bool(&mut j, s.sleeping);
    push_str(&mut j, ",\"net\":\"");
    let word = match s.net {
        Net::Unknown => "unknown",
        Net::Online => "online",
        Net::NoWeb => "noweb",
        Net::Offline => "offline",
    };
    push_str(&mut j, word);
    push_str(&mut j, "\"}");
    assert(j@ =~= status_json_text(*s));
    j
}

/// Head of a `200 OK` response for a body of `len` bytes.
pub open spec fn ok_head_text(ctype: Seq<char>, len: nat) -> Seq<char> {
    "HTTP/1.0 200 OK\r\nContent-Type: "@ + ctype + "\r\nContent-Length: "@ + decimal(len)
        + "\r\nConnection: close\r\n\r\n"@
}

/// A `200 OK` response (HTTP/1.0, connection closed) carrying `body`.
pub fn http_ok(ctype: &str, body: &[u8]) -> (r: Vec<u8>)
    ensures
        r@ == encode_utf8(ok_head_text(ctype@, body@.len())) + body@,
{
    let mut h = String::new();
    push_str(&mut h, "HTTP/1.0 200 OK\r\nContent-Type: ");
    push_str(&mut h, ctype);
    push_str(&mut h, "\r\nContent-Length: ");
    push_decimal(&mut h, body.len() as u64);
    push_str(&mut h, "\r\nConnection: close\r\n\r\n");
    assert(h@ =~= ok_head_text(ctype@, body@.len()));
    let mut r = h.as_str().as_bytes_vec();
    let mut i: usize = 0;
    let ghost r0 = r@;
    while i < body.len()
        invariant
            i <= body@.len(),
            r@ == r0 + body@.take(i as int),
        decreases body@.len() - i,
    {
        r.push(body[i]);
        assert(body@.take(i + 1) =~= body@.take(i as int).push(body@[i as int]));
        i = i + 1;
    }
    assert(body@.take(body@.len() as int) =~= body@);
    r
}

/// The response to anything but the three routes.
pub open spec fn not_found_text() -> Seq<char> {
    "HTTP/1.0 404 Not Found\r\nContent-Length: 0\r\nConnection: close\r\n\r\n"@
}

/// The response of a route: the status JSON, an acknowledgement
/// `{"ok":true}` of a command, or a 404.
pub open spec fn response_spec(r: Route, st: Status) -> Seq<u8> {
    match r {
        Route::Status => encode_utf8(ok_head_text("application/json"@, encode_utf8(status_json_text(st)).len()))
            + encode_utf8(status_json_text(st)),
        Route::NotFound => encode_utf8(not_found_text()),
        _ => encode_utf8(ok_head_text("application/json"@, encode_utf8("{\"ok\":true}"@).len()))
            + encode_utf8("{\"ok\":true}"@),
    }
}

/// The response to a routed request, given the daemon's state.
pub fn respond(r: Route, st: &Status) -> (b: Vec<u8>)
    ensures
        b@ == response_spec(r, *st),
{
    match r {
        Route::Status => {
            let j = status_json(st);
            let body = j.as_str().as_bytes_vec();
            http_ok("application/json", body.as_slice())
        },
        Route::NotFound => "HTTP/1.0 404 Not Found\r\nContent-Length: 0\r\nConnection: close\r\n\r\n".as_bytes_vec(),
        _ => {
            let body = "{\"ok\":true}".as_bytes_vec();
            http_ok("application/json", body.as_slice())
        },
    }
}

} // verus!
