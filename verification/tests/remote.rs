use minitel::remote::{
    daemon_status_of, is_ok_status, parse_status,
    byte_index, cursor_x, image_shown_message, input_title, journal_start, parse_response, request_head,
    text_sent_message, vtx_shown_message, DaemonStatus, EditKey, Job, Remote, Reply, Tint,
};

fn typed(r: &mut Remote, s: &str) {
    for c in s.chars() {
        r.edit(EditKey::Char(c));
    }
}

#[test]
fn greeting_and_text_submission() {
    let mut r = Remote::new("127.0.0.1:3010");
    assert_eq!(r.history(), vec![(Tint::DarkGray, "minitel-tui — /help pour les commandes".to_string())]);
    typed(&mut r, "  Bonjour à tous  ");
    let (keep, job) = r.submit();
    assert!(keep);
    assert_eq!(job, Some(Job::Text("Bonjour à tous".to_string())));
    assert_eq!(r.history().last().unwrap(), &(Tint::Green, "> Bonjour à tous".to_string()));
    assert_eq!(r.input(), "");
    assert_eq!(r.cursor(), 0);
}

#[test]
fn commands() {
    let mut r = Remote::new("a");
    typed(&mut r, "/help");
    assert_eq!(r.submit(), (true, None));
    assert_eq!(r.history().len(), 5);
    assert_eq!(r.history()[4], (Tint::DarkGray, "/quit ou Échap        quitter".to_string()));
    typed(&mut r, "/img photo.png --gray --row 3");
    let (keep, job) = r.submit();
    assert!(keep);
    assert_eq!(
        job,
        Some(Job::Img("photo.png".to_string(), vec!["--gray".to_string(), "--row".to_string(), "3".to_string()]))
    );
    assert_eq!(r.history().last().unwrap(), &(Tint::Yellow, "conversion de photo.png…".to_string()));
    typed(&mut r, "/vtx logo.vtx");
    assert_eq!(r.submit(), (true, Some(Job::Vtx("logo.vtx".to_string()))));
    typed(&mut r, "/vtx a b");
    assert_eq!(r.submit(), (true, None));
    assert_eq!(r.history().last().unwrap(), &(Tint::Red, "commande inconnue : /vtx — /help".to_string()));
    typed(&mut r, "/img");
    assert_eq!(r.submit(), (true, None));
    typed(&mut r, "   ");
    let n = r.history().len();
    assert_eq!(r.submit(), (true, None));
    assert_eq!(r.history().len(), n);
    typed(&mut r, "/q");
    assert_eq!(r.submit(), (false, None));
    typed(&mut r, "/quit");
    assert_eq!(r.submit(), (false, None));
}

#[test]
fn editing_keys_count_characters() {
    let mut r = Remote::new("a");
    typed(&mut r, "cfé");
    r.edit(EditKey::Left);
    r.edit(EditKey::Left);
    r.edit(EditKey::Char('a'));
    assert_eq!(r.input(), "café");
    assert_eq!(r.cursor(), 2);
    r.edit(EditKey::Backspace);
    assert_eq!(r.input(), "cfé");
    r.edit(EditKey::Delete);
    assert_eq!(r.input(), "cé");
    r.edit(EditKey::End);
    assert_eq!(r.cursor(), 2);
    r.edit(EditKey::Right);
    assert_eq!(r.cursor(), 2);
    r.edit(EditKey::Delete);
    assert_eq!(r.input(), "cé");
    r.edit(EditKey::Home);
    r.edit(EditKey::Backspace);
    r.edit(EditKey::Left);
    assert_eq!((r.input().as_str(), r.cursor()), ("cé", 0));
}

#[test]
fn replies_and_status_line() {
    let mut r = Remote::new("10.0.0.2:3010");
    assert_eq!(
        r.status_spans(),
        vec![(Tint::Cyan, " 10.0.0.2:3010 ".to_string()), (Tint::DarkGray, "interrogation…".to_string())]
    );
    r.apply(Reply::Status(Err("refused".to_string())));
    assert_eq!(r.status_spans()[1], (Tint::Red, "daemon injoignable (refused)".to_string()));
    r.apply(Reply::Status(Ok(DaemonStatus { connected: true, baud: 4800, sleeping: true, net: "noweb".to_string() })));
    assert_eq!(
        r.status_spans(),
        vec![
            (Tint::Cyan, " 10.0.0.2:3010 ".to_string()),
            (Tint::Green, "Minitel OK 4800 bd".to_string()),
            (Tint::Yellow, "  veille".to_string()),
            (Tint::Plain, "  ·  ".to_string()),
            (Tint::Yellow, "backend sans Internet".to_string()),
        ]
    );
    r.apply(Reply::Status(Ok(DaemonStatus { connected: false, baud: 0, sleeping: false, net: "?".to_string() })));
    assert_eq!(r.status_spans()[1], (Tint::Red, "Minitel déconnecté".to_string()));
    assert_eq!(r.status_spans()[3], (Tint::DarkGray, "backend ?".to_string()));
    r.apply(Reply::Info("ok".to_string()));
    r.apply(Reply::Error("boom".to_string()));
    let h = r.history();
    assert_eq!(h[h.len() - 2], (Tint::White, "ok".to_string()));
    assert_eq!(h[h.len() - 1], (Tint::Red, "échec : boom".to_string()));
}

#[test]
fn layout_helpers() {
    assert_eq!(journal_start(10, 7), 5);
    assert_eq!(journal_start(3, 7), 0);
    assert_eq!(journal_start(4, 1), 4);
    assert_eq!(input_title(7), " saisie — 7 car. (lignes de 40 sur le Minitel) ");
    assert_eq!(cursor_x(0, 20, 5), 6);
    assert_eq!(cursor_x(2, 10, 50), 11);
    assert_eq!(cursor_x(2, 1, 50), 3);
}

#[test]
fn journal_messages() {
    assert_eq!(text_sent_message("café"), "texte envoyé (4 car.)");
    assert_eq!(image_shown_message("a.png", 1200), "a.png convertie et affichée (1200 octets)");
    assert_eq!(vtx_shown_message("a.vtx", 3), "a.vtx affiché (3 octets)");
}

#[test]
fn http_exchange_with_the_daemon() {
    assert_eq!(
        request_head("POST", "/text", "10.0.0.2:3010", 5),
        "POST /text HTTP/1.0\r\nHost: 10.0.0.2:3010\r\nContent-Length: 5\r\nConnection: close\r\n\r\n"
    );
    assert_eq!(parse_response(b"HTTP/1.0 200 OK\r\nA: b\r\n\r\n{\"ok\":true}"), Ok(b"{\"ok\":true}".to_vec()));
    assert_eq!(
        parse_response(b"HTTP/1.0 404 Not Found\r\nContent-Length: 0\r\n\r\n"),
        Err("HTTP/1.0 404 Not Found".to_string())
    );
    assert_eq!(parse_response(b"HTTP/1.0 200 OK\r\n"), Err("réponse tronquée".to_string()));
    assert_eq!(parse_response(b"HTTP/1.0 200\r\n\r\nx"), Err("HTTP/1.0 200".to_string()));
}

#[test]
fn byte_offsets_of_characters() {
    assert_eq!(byte_index("café", 3), 3);
    assert_eq!(byte_index("café", 4), 5);
    assert_eq!(byte_index("éa", 1), 2);
    assert_eq!(byte_index("ab", 10), 2);
}

#[test]
fn status_body_is_read_with_defaults() {
    let s = parse_status(b"{\"connected\":true,\"baud\":4800,\"idle_secs\":3,\"sleeping\":false,\"net\":\"online\"}").unwrap();
    assert_eq!(s, DaemonStatus { connected: true, baud: 4800, sleeping: false, net: "online".to_string() });
    let s = parse_status(b"{\"baud\":\"fast\",\"sleeping\":true}").unwrap();
    assert_eq!(s, DaemonStatus { connected: false, baud: 0, sleeping: true, net: "?".to_string() });
    assert_eq!(parse_status(b"[]").unwrap(), DaemonStatus { connected: false, baud: 0, sleeping: false, net: "?".to_string() });
    assert!(parse_status(b"HTTP/1.0 200 OK").is_err());
    assert!(parse_status(b"").is_err());
    assert_eq!(
        daemon_status_of((Some(true), None, None, Some("noweb".to_string()))),
        DaemonStatus { connected: true, baud: 0, sleeping: false, net: "noweb".to_string() }
    );
}

#[test]
fn ok_status_lines() {
    assert!(is_ok_status("HTTP/1.0 200 OK"));
    assert!(!is_ok_status("HTTP/1.0 200"));
    assert!(!is_ok_status("HTTP/1.0 404 Not Found"));
}
