use minitel::backend::{exchange_outcome, Exchange, Failure};
use minitel::backend::{answer_outcome, ask_path, find_subslice, get_request, http_body, net_from_health, service_path, urlencode, Net};

#[test]
fn urlencode_space_and_accents() {
    assert_eq!(urlencode("meteo a paris"), "meteo+a+paris");
    assert_eq!(urlencode("café"), "caf%C3%A9");
}

#[test]
fn net_labels_all_six_chars() {
    for n in [Net::Unknown, Net::Online, Net::NoWeb, Net::Offline] {
        assert_eq!(n.label().chars().count(), 6, "label {n:?}");
    }
}

#[test]
fn urlencode_keeps_unreserved_and_escapes_the_rest() {
    assert_eq!(urlencode("A-z_0.9~"), "A-z_0.9~");
    assert_eq!(urlencode("a&b=c/d?"), "a%26b%3Dc%2Fd%3F");
    assert_eq!(urlencode(""), "");
}

#[test]
fn failure_hints_and_health_states() {
    assert_eq!(Net::Offline.failure_hint(), "Serveur injoignable - le verifier.");
    assert_eq!(Net::NoWeb.failure_hint(), "Le serveur n'a pas d'acces Internet.");
    assert_eq!(Net::Online.failure_hint(), "Service indisponible.");
    assert_eq!(Net::default(), Net::Unknown);
    assert_eq!(net_from_health(Some(true)), Net::Online);
    assert_eq!(net_from_health(Some(false)), Net::NoWeb);
    assert_eq!(net_from_health(None), Net::Offline);
    assert_eq!(answer_outcome("x".into(), None), Ok("x".to_string()));
    assert_eq!(answer_outcome("x".into(), Some("boom".into())), Err("boom".to_string()));
}

#[test]
fn request_text_and_body_extraction() {
    assert_eq!(
        get_request(&ask_path("la tour", true), "10.0.0.1:3009", true),
        "GET /ask?q=la+tour&cont=1 HTTP/1.0\r\nHost: 10.0.0.1:3009\r\nAccept: application/json\r\nConnection: close\r\n\r\n"
    );
    assert_eq!(
        get_request("/reset", "h:1", false),
        "GET /reset HTTP/1.0\r\nHost: h:1\r\nConnection: close\r\n\r\n"
    );
    assert_eq!(service_path("météo"), "/service?name=m%C3%A9t%C3%A9o");
    assert_eq!(ask_path("x", false), "/ask?q=x");
    assert_eq!(http_body(b"HTTP/1.0 200 OK\r\nA: b\r\n\r\n{\"x\":1}\r\n\r\nz"), b"{\"x\":1}\r\n\r\nz".to_vec());
    assert_eq!(http_body(b"{}"), b"{}".to_vec());
    assert_eq!(find_subslice(b"abcabc", b"ca"), Some(2));
    assert_eq!(find_subslice(b"ab", b"abc"), None);
}

#[test]
fn encoded_queries_hold_only_query_characters() {
    let e = minitel::backend::urlencode("a&b=c#d é\r\n~x");
    assert_eq!(e, "a%26b%3Dc%23d+%C3%A9%0D%0A~x");
    assert!(e.chars().all(|c| c.is_ascii_alphanumeric() || "-_.~+%".contains(c)));
}

#[test]
fn exchange_outcomes_keep_the_failure_kind() {
    assert_eq!(
        exchange_outcome(Exchange::Answer { text: "ZAGREB\nCapitale de la Croatie.".to_string(), error: None }),
        Ok("ZAGREB\nCapitale de la Croatie.".to_string())
    );
    assert_eq!(
        exchange_outcome(Exchange::Answer { text: String::new(), error: Some("API meteo injoignable".to_string()) }),
        Err(Failure::Reported("API meteo injoignable".to_string()))
    );
    assert_eq!(exchange_outcome(Exchange::Unreadable("eof".to_string())), Err(Failure::Unreadable("JSON: eof".to_string())));
    assert_eq!(exchange_outcome(Exchange::TimedOut), Err(Failure::TimedOut));
    assert_eq!(exchange_outcome(Exchange::Transport("refused".to_string())), Err(Failure::Transport("refused".to_string())));
}
