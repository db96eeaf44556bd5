use minitel::backend::Net;
use minitel::control::{command_of, head_end, http_ok, parse_head, parse_head_text, respond, route, status_json, Ctl, Route, Status};
use minitel::watch::{initial_status, may_draw_status, refresh_status, watchdog, Watchdog};

#[test]
fn request_head_is_parsed() {
    let h = parse_head(b"POST /text HTTP/1.0\r\nHost: 10.0.0.2\r\nContent-Length: 12\r\n");
    assert_eq!(h.method, "POST");
    assert_eq!(h.path, "/text");
    assert_eq!(h.content_length, 12);
}

#[test]
fn content_length_any_case_first_wins_default_zero() {
    assert_eq!(parse_head(b"POST /show HTTP/1.0\r\ncontent-LENGTH:  7 \r\n").content_length, 7);
    assert_eq!(parse_head(b"POST /show HTTP/1.0\r\nContent-Length: +5").content_length, 5);
    assert_eq!(parse_head(b"POST /show HTTP/1.0\r\nContent-Length: abc\r\nContent-Length: 9").content_length, 0);
    assert_eq!(parse_head(b"POST /show HTTP/1.0\r\nContent-Length: 3\r\nContent-Length: 9").content_length, 3);
    assert_eq!(parse_head(b"GET /status HTTP/1.0\r\nHost: x").content_length, 0);
    assert_eq!(parse_head(b"X-Content-Length: 4\r\n").content_length, 0);
}

#[test]
fn empty_or_short_request_line() {
    let h = parse_head(b"");
    assert_eq!((h.method.as_str(), h.path.as_str(), h.content_length), ("", "", 0));
    let h = parse_head(b"GET");
    assert_eq!((h.method.as_str(), h.path.as_str()), ("GET", ""));
    let h = parse_head(b"  GET\t/status   HTTP/1.0");
    assert_eq!((h.method.as_str(), h.path.as_str()), ("GET", "/status"));
}

#[test]
fn head_ends_at_first_blank_line() {
    assert_eq!(head_end(b"GET / HTTP/1.0\r\n\r\nbody\r\n\r\n"), Some(14));
    assert_eq!(head_end(b"GET / HTTP/1.0\r\n"), None);
}

#[test]
fn routes() {
    assert_eq!(route("GET", "/status"), Route::Status);
    assert_eq!(route("POST", "/text"), Route::Text);
    assert_eq!(route("POST", "/show"), Route::Show);
    assert_eq!(route("GET", "/text"), Route::NotFound);
    assert_eq!(route("post", "/show"), Route::NotFound);
    assert_eq!(route("", ""), Route::NotFound);
}

#[test]
fn commands_carry_the_body() {
    assert_eq!(command_of(Route::Text, "café".as_bytes().to_vec()), Some(Ctl::Text("café".to_string())));
    assert_eq!(command_of(Route::Text, vec![b'a', 0xFF]), Some(Ctl::Text("a\u{FFFD}".to_string())));
    assert_eq!(command_of(Route::Show, vec![1, 2]), Some(Ctl::Show(vec![1, 2])));
    assert_eq!(command_of(Route::Status, vec![1]), None);
    assert_eq!(command_of(Route::NotFound, vec![]), None);
}

#[test]
fn status_as_json() {
    let st = Status { connected: true, baud: 4800, idle_secs: 12, sleeping: false, net: Net::NoWeb };
    assert_eq!(
        status_json(&st),
        "{\"connected\":true,\"baud\":4800,\"idle_secs\":12,\"sleeping\":false,\"net\":\"noweb\"}"
    );
    let resp = respond(Route::Status, &st);
    let body = status_json(&st);
    let expected = format!(
        "HTTP/1.0 200 OK\r\nContent-Type: application/json\r\nContent-Length: {}\r\nConnection: close\r\n\r\n{}",
        body.len(),
        body
    );
    assert_eq!(resp, expected.into_bytes());
}

#[test]
fn responses_to_commands_and_unknown_routes() {
    let st = initial_status();
    assert_eq!(
        respond(Route::Text, &st),
        b"HTTP/1.0 200 OK\r\nContent-Type: application/json\r\nContent-Length: 11\r\nConnection: close\r\n\r\n{\"ok\":true}".to_vec()
    );
    assert_eq!(respond(Route::Show, &st), respond(Route::Text, &st));
    assert_eq!(
        respond(Route::NotFound, &st),
        b"HTTP/1.0 404 Not Found\r\nContent-Length: 0\r\nConnection: close\r\n\r\n".to_vec()
    );
    assert_eq!(http_ok("text/plain", b""), b"HTTP/1.0 200 OK\r\nContent-Type: text/plain\r\nContent-Length: 0\r\nConnection: close\r\n\r\n".to_vec());
}

#[test]
fn watchdog_decisions() {
    assert_eq!(watchdog(180, 0, false, false, 4800), Watchdog::FallAsleep);
    assert_eq!(watchdog(500, 0, true, true, 4800), Watchdog::StayAsleep);
    assert_eq!(watchdog(10, 60_000_000_000, false, true, 4800), Watchdog::KeepSeen);
    assert_eq!(watchdog(10, 10_000_000_000, false, false, 4800), Watchdog::Probe);
    assert_eq!(watchdog(10, 10_000_000_001, false, false, 4800), Watchdog::ProbeAndReset);
    assert_eq!(watchdog(10, 50_000_000_000, false, false, 0), Watchdog::Nothing);
}

#[test]
fn status_refresh_keeps_connected_while_asleep() {
    let st = initial_status();
    assert_eq!(st, Status { connected: false, baud: 0, idle_secs: 0, sleeping: false, net: Net::Unknown });
    let st = refresh_status(st, 4800, 3, false, Net::Online, 2);
    assert!(st.connected);
    let st = refresh_status(st, 4800, 200, true, Net::Online, 60);
    assert!(st.connected && st.sleeping && st.idle_secs == 200);
    let st = refresh_status(st, 4800, 1, false, Net::Online, 8);
    assert!(!st.connected);
    assert!(may_draw_status(1200, false));
    assert!(!may_draw_status(1200, true));
    assert!(!may_draw_status(0, false));
}

#[test]
fn head_text_is_parsed() {
    let h = parse_head_text("POST /show HTTP/1.0\r\nCONTENT-length: 42");
    assert_eq!((h.method.as_str(), h.path.as_str(), h.content_length), ("POST", "/show", 42));
}
