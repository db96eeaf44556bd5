//! The pure parts of the client of the **application backend** (the brain of
//! the terminal).
//!
//! The Minitel has no network access: the daemon asks an HTTP server that
//! *you* provide. The contract is tiny (four routes, JSON) and the exchange is
//! a single plain HTTP/1.0 round trip. This module builds the requests and
//! interprets the answers; the socket work stays with the caller.
use vstd::prelude::*;
use vstd::string::StringSliceAdditionalSpecFns;
use crate::chars::{push_char, push_str};

verus! {

/// State of the network chain, as shown by the Minitel's indicator.
///
/// Two links can break independently: the backend itself, and the backend's
/// access to the Internet.
#[derive(Clone, Copy, PartialEq, Eq, Debug, Structural)]
pub enum Net {
    /// Not probed yet (at start-up).
    Unknown,
    /// Backend reachable **and** it reaches the Internet.
    Online,
    /// Backend reachable but without Internet access.
    NoWeb,
    /// Backend unreachable.
    Offline,
}

impl Default for Net {
    fn default() -> (n: Self)
        ensures
            n == Net::Unknown,
    {
        Net::Unknown
    }
}

/// Status-bar label of each state.
pub open spec fn net_label(n: Net) -> Seq<char> {
    match n {
        Net::Unknown => "WEB ??"@,
        Net::Online => "WEB OK"@,
        Net::NoWeb => "WEB KO"@,
        Net::Offline => "SRV KO"@,
    }
}

/// Message shown when a search fails, by broken link.
pub open spec fn net_hint(n: Net) -> Seq<char> {
    match n {
        Net::Offline => "Serveur injoignable - le verifier."@,
        Net::NoWeb => "Le serveur n'a pas d'acces Internet."@,
        _ => "Service indisponible."@,
    }
}

impl Net {
    /// Label for the status bar (row 0). **Exactly 6 characters** for every
    /// state, so that the clock aligned on the right never moves.
    pub fn label(self) -> (s: &'static str)
        ensures
            s@ == net_label(self),
            s@.len() == 6,
    {
        match self {
            Net::Unknown => {
                proof { reveal_strlit("WEB ??"); }
                "WEB ??"
            },
            Net::Online => {
                proof { reveal_strlit("WEB OK"); }
                "WEB OK"
            },
            Net::NoWeb => {
                proof { reveal_strlit("WEB KO"); }
                "WEB KO"
            },
            Net::Offline => {
                proof { reveal_strlit("SRV KO"); }
                "SRV KO"
            },
        }
    }

    /// Error message for a failed search, fitted to the broken link.
    pub fn failure_hint(self) -> (s: &'static str)
        ensures
            s@ == net_hint(self),
    {
        match self {
            Net::Offline => "Serveur injoignable - le verifier.",
            Net::NoWeb => "Le serveur n'a pas d'acces Internet.",
            _ => "Service indisponible.",
        }
    }
}

/// State given by a `GET /health` probe: `Some(net)` when the backend
/// answered a readable JSON body (`net` = its Internet access), `None` when
/// it was silent, unreadable or too slow.
pub fn net_from_health(probe: Option<bool>) -> (n: Net)
    ensures
        n == (match probe {
            Some(true) => Net::Online,
            Some(false) => Net::NoWeb,
            None => Net::Offline,
        }),
{
    match probe {
        Some(true) => Net::Online,
        Some(false) => Net::NoWeb,
        None => Net::Offline,
    }
}

/// Outcome of an `/ask` or `/service` answer: its `error` field when there is
/// one, else its `text`.
pub fn answer_outcome(text: String, error: Option<String>) -> (r: Result<String, String>)
    ensures
        r == (match error {
            Some(e) => Err(e),
            None => Ok(text),
        }),
{
    match error {
        Some(e) => Err(e),
        None => Ok(text),
    }
}

/// Why a request to the backend gave no answer, by kind.
#[derive(Debug, Clone, PartialEq, Eq)]
pub enum Failure {
    /// The backend answered with an error message of its own (`"error"`),
    /// written for the screen.
    Reported(String),
    /// The answer was not the expected JSON (`JSON: ` and the parser's
    /// message).
    Unreadable(String),
    /// No complete answer within the delay.
    TimedOut,
    /// The connection failed (the I/O error's message).
    Transport(String),
}

/// What became of a request to `/ask` or `/service`, as the caller saw it.
#[derive(Debug, Clone, PartialEq, Eq)]
pub enum Exchange {
    /// No complete answer within the delay.
    TimedOut,
    /// Connecting, writing or reading failed, with the I/O error's message.
    Transport(String),
    /// The body could not be read as the answer's JSON, with the parser's
    /// message.
    Unreadable(String),
    /// The answer's `text` field (empty when absent) and `error` field.
    Answer { text: String, error: Option<String> },
}

/// Outcome of a request to `/ask` or `/service`: the answer's text, the
/// backend's own error message, or the kind of failure (unreadable answer,
/// time-out, connection error).
pub fn exchange_outcome(x: Exchange) -> (r: Result<String, Failure>)
    ensures
        match x {
            Exchange::TimedOut => r == Err::<String, Failure>(Failure::TimedOut),
            Exchange::Transport(m) => r == Err::<String, Failure>(Failure::Transport(m)),
            Exchange::Unreadable(m) => (r matches Err(Failure::Unreadable(t)) && t@ == "JSON: "@ + m@),
            Exchange::Answer { text, error } => match error {
                Some(e) => r == Err::<String, Failure>(Failure::Reported(e)),
                None => r == Ok::<String, Failure>(text),
            },
        },
{
    match x {
        Exchange::TimedOut => Err(Failure::TimedOut),
        Exchange::Transport(m) => Err(Failure::Transport(m)),
        Exchange::Unreadable(m) => {
            let mut t = String::new();
            push_str(&mut t, "JSON: ");
            push_str(&mut t, m.as_str());
            Err(Failure::Unreadable(t))
        },
        Exchange::Answer { text, error } => match answer_outcome(text, error) {
            Ok(t) => Ok(t),
            Err(e) => Err(Failure::Reported(e)),
        },
    }
}

/// Bytes kept as such by the percent-encoding.
pub open spec fn is_url_safe(b: u8) -> bool {
    ||| 0x41 <= b <= 0x5A
    ||| 0x61 <= b <= 0x7A
    ||| 0x30 <= b <= 0x39
    ||| b == 0x2D || b == 0x5F || b == 0x2E || b == 0x7E
}

/// Upper-case hexadecimal digit of `d < 16`.
pub open spec fn hex_digit(d: u8) -> char {
    if d < 10 {
        (0x30 + d) as char
    } else {
        (0x41 + d - 10) as char
    }
}

/// Encoding of one byte: itself when safe, `+` for a space, else `%XX`.
pub open spec fn url_byte(b: u8) -> Seq<char> {
    if is_url_safe(b) {
        seq![b as char]
    } else if b == 0x20 {
        seq!['+']
    } else {
        seq!['%', hex_digit(b / 16), hex_digit(b % 16)]
    }
}

/// Percent-encoding of a byte sequence.
pub open spec fn url_encode_spec(s: Seq<u8>) -> Seq<char>
    decreases s.len(),
{
    if s.len() == 0 {
        seq![]
    } else {
        url_encode_spec(s.drop_last()) + url_byte(s.last())
    }
}

/// The characters an encoded query parameter is made of: ASCII letters and
/// digits, `-`, `_`, `.`, `~`, and the `+` and `%` of the encoding.
pub open spec fn is_query_char(c: char) -> bool {
    ||| 'A' <= c <= 'Z'
    ||| 'a' <= c <= 'z'
    ||| '0' <= c <= '9'
    ||| c == '-' || c == '_' || c == '.' || c == '~' || c == '+' || c == '%'
}

/// The percent-encoding only gives query-safe characters: whatever the user
/// types, the parameter cannot hold a `&`, `=`, `#`, space or control
/// character, so it cannot add parameters to the request nor break its line.
pub proof fn law_urlencode_query_safe(s: Seq<u8>)
    ensures
        forall|i: int| 0 <= i < url_encode_spec(s).len() ==> is_query_char(#[trigger] url_encode_spec(s)[i]),
    decreases s.len(),
{
    if s.len() > 0 {
        law_urlencode_query_safe(s.drop_last());
        let a = url_encode_spec(s.drop_last());
        let b = url_byte(s.last());
        let x = s.last();
        assert forall|j: int| 0 <= j < b.len() implies is_query_char(#[trigger] b[j]) by {
            if !is_url_safe(x) && x != 0x20 {
                assert(x / 16 < 16 && x % 16 < 16);
            }
        }
        assert forall|i: int| 0 <= i < url_encode_spec(s).len() implies is_query_char(#[trigger] url_encode_spec(s)[i]) by {
            if i < a.len() {
                assert(url_encode_spec(s)[i] == a[i]);
            } else {
                assert(url_encode_spec(s)[i] == b[i - a.len()]);
            }
        }
    }
}

/// Value of a hexadecimal digit.
pub open spec fn hex_value(c: char) -> int {
    if '0' <= c <= '9' {
        c as int - 0x30
    } else if 'A' <= c <= 'F' {
        c as int - 0x41 + 10
    } else {
        c as int - 0x61 + 10
    }
}

/// How a backend reads a query parameter (form decoding): `+` is a space,
/// `%XX` the byte of hexadecimal value `XX`, any other character its own
/// byte.
pub open spec fn form_decode(t: Seq<char>) -> Seq<u8>
    decreases t.len(),
{
    if t.len() == 0 {
        seq![]
    } else if t[0] == '%' && t.len() >= 3 {
        seq![(hex_value(t[1]) * 16 + hex_value(t[2])) as u8] + form_decode(t.skip(3))
    } else if t[0] == '+' {
        seq![0x20u8] + form_decode(t.skip(1))
    } else {
        seq![(t[0] as u32) as u8] + form_decode(t.skip(1))
    }
}

proof fn lemma_encode_front(b: u8, s: Seq<u8>)
    ensures
        url_encode_spec(seq![b] + s) == url_byte(b) + url_encode_spec(s),
    decreases s.len(),
{
    let t = seq![b] + s;
    assert(t.len() > 0);
    assert(url_encode_spec(t) == url_encode_spec(t.drop_last()) + url_byte(t.last()));
    if s.len() == 0 {
        assert(t.drop_last() =~= Seq::<u8>::empty());
        assert(url_encode_spec(t.drop_last()) =~= Seq::<char>::empty());
        assert(url_encode_spec(s) =~= Seq::<char>::empty());
        assert(url_encode_spec(t) =~= url_byte(b) + url_encode_spec(s));
    } else {
        lemma_encode_front(b, s.drop_last());
        assert(t.drop_last() =~= seq![b] + s.drop_last());
        assert(t.last() == s.last());
        assert(url_encode_spec(s) == url_encode_spec(s.drop_last()) + url_byte(s.last()));
        assert(url_byte(b) + url_encode_spec(s.drop_last()) + url_byte(s.last())
            =~= url_byte(b) + (url_encode_spec(s.drop_last()) + url_byte(s.last())));
    }
}

proof fn lemma_decode_unit(b: u8, z: Seq<char>)
    ensures
        form_decode(url_byte(b) + z) == seq![b] + form_decode(z),
{
    let t = url_byte(b) + z;
    if is_url_safe(b) {
        assert(t[0] == b as char);
        assert(t.skip(1) =~= z);
        assert(((b as char) as u32) as u8 == b);
    } else if b == 0x20 {
        assert(t[0] == '+');
        assert(t.skip(1) =~= z);
    } else {
        let hi = b / 16;
        let lo = b % 16;
        assert(t[0] == '%' && t[1] == hex_digit(hi) && t[2] == hex_digit(lo));
        assert(t.skip(3) =~= z);
        assert(hex_value(hex_digit(hi)) == hi);
        assert(hex_value(hex_digit(lo)) == lo);
        assert(hi * 16 + lo == b);
    }
}

/// The percent-encoding is read back by the backend as the query itself:
/// form-decoding the encoded bytes gives every byte back, so a `+` in the
/// encoding only ever stands for a space and a `%` only starts an escape.
pub proof fn law_urlencode_decodes_back(s: Seq<u8>)
    ensures
        form_decode(url_encode_spec(s)) == s,
    decreases s.len(),
{
    if s.len() > 0 {
        let rest = s.skip(1);
        assert(s =~= seq![s[0]] + rest);
        lemma_encode_front(s[0], rest);
        lemma_decode_unit(s[0], url_encode_spec(rest));
        law_urlencode_decodes_back(rest);
    } else {
        assert(url_encode_spec(s) =~= Seq::<char>::empty());
    }
}

fn hex_char(d: u8) -> (c: char)
    requires
        d < 16,
    ensures
        c == hex_digit(d),
{
    if d < 10 {
        (0x30 + d) as char
    } else {
        (0x41 + d - 10) as char
    }
}

/// Minimal percent-encoding of the UTF-8 bytes of `s` (unsafe bytes become
/// `%XX`, a space becomes `+`).
pub fn urlencode(s: &str) -> (out: String)
    ensures
        out@ == url_encode_spec(s.spec_bytes()),
{
    let bytes = s.as_bytes();
    let mut out = String::new();
    let mut i: usize = 0;
    while i < bytes.len()
        invariant
            i <= bytes@.len(),
            bytes@ == s.spec_bytes(),
            out@ == url_encode_spec(bytes@.take(i as int)),
        decreases bytes@.len() - i,
    {
        let b = bytes[i];
        assert(bytes@.take(i + 1).drop_last() =~= bytes@.take(i as int));
        let ghost before = out@;
        let safe = (0x41 <= b && b <= 0x5A) || (0x61 <= b && b <= 0x7A) || (0x30 <= b && b <= 0x39)
            || b == 0x2D || b == 0x5F || b == 0x2E || b == 0x7E;
        if safe {
            push_char(&mut out, b as char);
            assert(out@ =~= before + seq![b as char]);
        } else if b == 0x20 {
            push_char(&mut out, '+');
            assert(out@ =~= before + seq!['+']);
        } else {
            push_char(&mut out, '%');
            push_char(&mut out, hex_char(b / 16));
            push_char(&mut out, hex_char(b % 16));
            assert(out@ =~= before + seq!['%', hex_digit(b / 16), hex_digit(b % 16)]);
        }
        i = i + 1;
    }
    assert(bytes@.take(bytes@.len() as int) =~= bytes@);
    out
}

/// Does `needle` occur in `hay` at index `i`?
pub open spec fn occurs_at(hay: Seq<u8>, needle: Seq<u8>, i: int) -> bool {
    0 <= i && i + needle.len() <= hay.len() && hay.subrange(i, i + needle.len()) == needle
}

/// Index of the first occurrence of a non-empty `needle` in `hay`.
pub fn find_subslice(hay: &[u8], needle: &[u8]) -> (r: Option<usize>)
    requires
        needle@.len() > 0,
    ensures
        r matches Some(i) ==> occurs_at(hay@, needle@, i as int)
            && forall|j: int| 0 <= j < i ==> !occurs_at(hay@, needle@, j),
        r is None ==> forall|j: int| 0 <= j ==> !occurs_at(hay@, needle@, j),
{
    let n = needle.len();
    if hay.len() < n {
        return None;
    }
    let mut i: usize = 0;
    while i <= hay.len() - n
        invariant
            n == needle@.len() > 0,
            n <= hay@.len(),
            i <= hay@.len() - n + 1,
            forall|j: int| 0 <= j < i ==> !occurs_at(hay@, needle@, j),
        decreases hay@.len() - n + 1 - i,
    {
        let mut k: usize = 0;
        let mut same = true;
        while k < n
            invariant
                n == needle@.len(),
                hay@.len() == hay.len(),
                i + n <= hay@.len(),
                k <= n,
                same == (forall|m: int| 0 <= m < k ==> hay@[i + m] == needle@[m]),
            decreases n - k,
        {
            if hay[i + k] != needle[k] {
                same = false;
            }
            k = k + 1;
        }
        if same {
            assert(hay@.subrange(i as int, i + n) =~= needle@);
            return Some(i);
        }
        proof {
            let m = choose|m: int| 0 <= m < n && hay@[i + m] != needle@[m];
            assert(hay@.subrange(i as int, i + n)[m] != needle@[m]);
        }
        i = i + 1;
    }
    None
}

/// `i` is the first index where `needle` occurs in `hay`.
pub open spec fn first_occurrence(hay: Seq<u8>, needle: Seq<u8>, i: int) -> bool {
    occurs_at(hay, needle, i) && forall|j: int| 0 <= j < i ==> !occurs_at(hay, needle, j)
}

/// The blank line that ends the headers of an HTTP message.
pub open spec fn blank_line() -> Seq<u8> {
    seq![13u8, 10u8, 13u8, 10u8]
}

/// The body of a raw HTTP response: what follows the first blank line
/// (`\r\n\r\n`), or the whole response when there is none.
pub fn http_body(raw: &[u8]) -> (body: Vec<u8>)
    ensures
        forall|i: int| first_occurrence(raw@, blank_line(), i) ==> body@ == raw@.skip(i + 4),
        (forall|j: int| 0 <= j ==> !occurs_at(raw@, blank_line(), j)) ==> body@ == raw@,
{
    let sep: [u8; 4] = [13, 10, 13, 10];
    assert(sep@ =~= blank_line());
    let start: usize = match find_subslice(raw, &sep) {
        Some(i) => {
            assert(occurs_at(raw@, sep@, i as int));
            assert(i + 4 <= raw@.len());
            assert(raw@.len() == raw.len());
            i + 4
        },
        None => 0,
    };
    let mut body: Vec<u8> = Vec::new();
    let mut k: usize = start;
    while k < raw.len()
        invariant
            start <= k <= raw@.len() || (start > raw@.len() && k == start),
            body@ == raw@.subrange(start as int, k as int),
        decreases raw@.len() - k,
    {
        body.push(raw[k]);
        assert(raw@.subrange(start as int, k + 1) =~= raw@.subrange(start as int, k as int).push(raw@[k as int]));
        k = k + 1;
    }
    proof {
        assert forall|i: int| first_occurrence(raw@, blank_line(), i) implies body@ == raw@.skip(i + 4) by {
            if start == 0 {
                assert(occurs_at(raw@, blank_line(), i));
            } else {
                let i0 = (start - 4) as int;
                assert(occurs_at(raw@, blank_line(), i0));
                if i < i0 {
                } else if i0 < i {
                }
                assert(i == i0);
                assert(body@ =~= raw@.skip(i + 4));
            }
        }
        if start == 0 {
            assert(body@ =~= raw@);
        }
    }
    body
}

/// Text of a plain `GET` request, with the JSON `Accept` header or not.
pub open spec fn get_request_text(path: Seq<char>, authority: Seq<char>, accept_json: bool) -> Seq<char> {
    "GET "@ + path + " HTTP/1.0\r\nHost: "@ + authority
        + (if accept_json { "\r\nAccept: application/json"@ } else { Seq::<char>::empty() })
        + "\r\nConnection: close\r\n\r\n"@
}

/// An HTTP/1.0 `GET` of `path` on `authority` (`ip:port`), closing the
/// connection after the answer.
pub fn get_request(path: &str, authority: &str, accept_json: bool) -> (req: String)
    ensures
        req@ == get_request_text(path@, authority@, accept_json),
{
    let mut req = String::new();
    push_str(&mut req, "GET ");
    push_str(&mut req, path);
    push_str(&mut req, " HTTP/1.0\r\nHost: ");
    push_str(&mut req, authority);
    if accept_json {
        push_str(&mut req, "\r\nAccept: application/json");
    }
    push_str(&mut req, "\r\nConnection: close\r\n\r\n");
    req
}

/// Path of a question: `/ask?q=<query>`, plus `&cont=1` to continue the
/// current conversation thread.
pub fn ask_path(query: &str, cont: bool) -> (p: String)
    ensures
        p@ == "/ask?q="@ + url_encode_spec(query.spec_bytes())
            + (if cont { "&cont=1"@ } else { Seq::<char>::empty() }),
{
    let mut p = String::new();
    push_str(&mut p, "/ask?q=");
    let q = urlencode(query);
    push_str(&mut p, q.as_str());
    if cont {
        push_str(&mut p, "&cont=1");
    }
    p
}

/// Path of a Guide service: `/service?name=<name>`.
pub fn service_path(name: &str) -> (p: String)
    ensures
        p@ == "/service?name="@ + url_encode_spec(name.spec_bytes()),
{
    let mut p = String::new();
    push_str(&mut p, "/service?name=");
    let q = urlencode(name);
    push_str(&mut p, q.as_str());
    p
}

} // verus!
