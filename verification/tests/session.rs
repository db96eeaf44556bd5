use minitel::session::{menu_of, ServiceText};
use minitel::backend::Net;
use minitel::constants::Color;
use minitel::input::{Arrow, Event, FnKey};
use minitel::protocol::{identify_request, keyboard_lowercase, set_echo};
use minitel::session::{Action, Failure, Mode, Service, Session};
use minitel::videotex::{colored, encode_text};

fn contains(hay: &[u8], needle: &[u8]) -> bool {
    needle.is_empty() || hay.windows(needle.len()).any(|w| w == needle)
}

fn sent(actions: &[Action]) -> Vec<u8> {
    let mut out = Vec::new();
    for a in actions {
        if let Action::Send(b) = a {
            out.extend_from_slice(b);
        }
    }
    out
}

fn type_text(s: &mut Session, text: &str) {
    for c in text.chars() {
        s.handle(Event::Char(c));
    }
}

fn meteo() -> Vec<Service> {
    vec![Service { key: '1', name: "meteo".to_string(), label: "Meteo du jour".to_string() }]
}

#[test]
fn connection_draws_home_between_init_and_probe() {
    let mut s = Session::new("MINITEL", None, Vec::new());
    let b = s.connected(4800);
    let mut head = set_echo(false);
    head.extend(keyboard_lowercase());
    head.push(0x0C);
    assert!(b.starts_with(&head));
    assert!(b.ends_with(&identify_request()));
    assert!(contains(&b, &colored(Color::Cyan, "RECHERCHE :")));
    assert!(contains(&b, &encode_text(&".".repeat(40))));
    assert!(!contains(&b, &encode_text("GUIDE = services")));
    assert_eq!(s.mode(), Mode::Home);
    assert_eq!(s.baud(), 4800);
}

#[test]
fn guide_hint_only_with_services() {
    let mut s = Session::new("MINITEL", None, meteo());
    let b = s.connected(1200);
    assert!(contains(&b, &colored(Color::Green, "GUIDE = services")));
}

#[test]
fn typed_characters_are_echoed_and_kept() {
    let mut s = Session::new("MINITEL", None, Vec::new());
    s.connected(1200);
    let acts = s.handle(Event::Char('é'));
    assert_eq!(acts, vec![Action::Send(encode_text("é"))]);
    type_text(&mut s, "t");
    assert_eq!(s.input(), "ét");
    let acts = s.handle(Event::Function(FnKey::Correction));
    assert_eq!(acts, vec![Action::Send(vec![0x08, b'.', 0x08])]);
    assert_eq!(s.input(), "é");
}

#[test]
fn envoi_sends_the_trimmed_question_and_waits() {
    let mut s = Session::new("MINITEL", None, Vec::new());
    s.connected(1200);
    type_text(&mut s, "  meteo  ");
    let acts = s.handle(Event::Enter);
    assert_eq!(acts.len(), 3);
    assert_eq!(acts[0], Action::StartWaiting);
    match &acts[1] {
        Action::Send(b) => {
            assert!(contains(b, &colored(Color::Cyan, "Recherche en cours  ")));
            assert!(contains(b, &encode_text("  0s")));
        }
        other => panic!("{other:?}"),
    }
    assert_eq!(acts[2], Action::Ask { query: "meteo".to_string(), cont: false });
    assert_eq!(s.mode(), Mode::Searching);
    assert_eq!(s.pending(), Some("meteo".to_string()));
}

#[test]
fn blank_field_sends_nothing() {
    let mut s = Session::new("MINITEL", None, Vec::new());
    s.connected(1200);
    type_text(&mut s, "   ");
    assert!(s.handle(Event::Function(FnKey::Send)).is_empty());
    assert_eq!(s.mode(), Mode::Home);
}

#[test]
fn keys_are_ignored_while_waiting_but_connexion_fin() {
    let mut s = Session::new("MINITEL", None, Vec::new());
    s.connected(1200);
    type_text(&mut s, "q");
    s.handle(Event::Enter);
    assert!(s.handle(Event::Char('x')).is_empty());
    assert!(s.handle(Event::Function(FnKey::Summary)).is_empty());
    assert!(s.handle(Event::Identify { constructor: b'C', device: b'u', version: b'1' }).is_empty());
    assert_eq!(s.handle(Event::Function(FnKey::Connect)), vec![Action::ResetLink]);
    assert_eq!(s.mode(), Mode::Searching);
}

#[test]
fn answer_joins_the_thread_under_its_question() {
    let mut s = Session::new("MINITEL", None, Vec::new());
    s.connected(1200);
    type_text(&mut s, "meteo");
    s.handle(Event::Enter);
    let b = s.on_result(Ok("Il fait beau.\n".to_string()));
    assert_eq!(s.mode(), Mode::Chat);
    assert_eq!(
        s.thread_lines(),
        vec![(Color::Green, "> meteo".to_string()), (Color::White, "Il fait beau.".to_string())]
    );
    assert_eq!(s.pending(), None);
    assert_eq!(s.input(), "");
    assert!(contains(&b, &colored(Color::Yellow, "MINITEL   p1/1")));
    assert!(contains(&b, &colored(Color::Cyan, "VOUS :")));
    assert!(contains(&b, &colored(Color::Green, "ENVOI  SUITE/RETOUR=page  SOMMAIRE=raz")));
    // a follow-up goes in the thread
    type_text(&mut s, "et demain ?");
    let acts = s.handle(Event::Function(FnKey::Send));
    assert_eq!(acts[2], Action::Ask { query: "et demain ?".to_string(), cont: true });
}

#[test]
fn results_outside_waiting_are_ignored() {
    let mut s = Session::new("MINITEL", None, Vec::new());
    s.connected(1200);
    assert!(s.on_result(Ok("late".to_string())).is_empty());
    assert_eq!(s.mode(), Mode::Home);
    assert!(s.thread_lines().is_empty());
}

#[test]
fn blank_answer_and_failure_give_messages() {
    let mut s = Session::new("MINITEL", None, Vec::new());
    s.connected(1200);
    type_text(&mut s, "a");
    s.handle(Event::Enter);
    let b = s.on_result(Ok(" \n ".to_string()));
    assert_eq!(s.mode(), Mode::Home);
    let msg = format!("{:<39}", "Aucune reponse.");
    assert!(contains(&b, &colored(Color::White, &msg)));
    type_text(&mut s, "b");
    s.handle(Event::Enter);
    s.set_net(Net::Offline);
    let b = s.on_result(Err(Failure::TimedOut));
    let msg = format!("{:<39}", "Serveur injoignable - le verifier.");
    assert!(contains(&b, &colored(Color::White, &msg)));
    assert_eq!(s.net(), Net::Offline);
    type_text(&mut s, "c");
    s.handle(Event::Enter);
    let b = s.on_result(Err(Failure::Reported("API meteo injoignable".to_string())));
    let msg = format!("{:<39}", "API meteo injoignable");
    assert!(contains(&b, &colored(Color::White, &msg)));
    assert_eq!(s.mode(), Mode::Home);
}

#[test]
fn sommaire_starts_a_new_thread() {
    let mut s = Session::new("MINITEL", None, Vec::new());
    s.connected(1200);
    s.push_text("bonjour");
    assert_eq!(s.mode(), Mode::Chat);
    let acts = s.handle(Event::Function(FnKey::Summary));
    assert_eq!(acts[0], Action::ResetBackend);
    assert_eq!(acts.len(), 2);
    assert!(s.thread_lines().is_empty());
    assert_eq!(s.mode(), Mode::Home);
}

#[test]
fn guide_menu_without_and_with_services() {
    let mut s = Session::new("MINITEL", None, Vec::new());
    s.connected(1200);
    let acts = s.handle(Event::Function(FnKey::Guide));
    assert!(contains(&sent(&acts), &colored(Color::White, "Aucun service configure.")));
    assert_eq!(s.mode(), Mode::Guide);
    assert!(s.handle(Event::Char('1')).is_empty());

    let mut s = Session::new("MINITEL", None, meteo());
    s.connected(1200);
    let acts = s.handle(Event::Function(FnKey::Guide));
    let b = sent(&acts);
    assert!(contains(&b, &colored(Color::White, "1")));
    assert!(contains(&b, &colored(Color::Cyan, "Meteo du jour")));
    assert!(s.handle(Event::Char('2')).is_empty());
    let acts = s.handle(Event::Char('1'));
    assert_eq!(acts.len(), 3);
    assert_eq!(acts[0], Action::StartWaiting);
    assert!(contains(&sent(&acts), &colored(Color::Cyan, "Chargement          ")));
    assert_eq!(acts[2], Action::FetchService("meteo".to_string()));
    assert_eq!(s.mode(), Mode::Searching);
}

#[test]
fn suite_and_retour_page_through_the_thread() {
    let mut s = Session::new("MINITEL", None, Vec::new());
    s.connected(1200);
    let long: Vec<String> = (0..25).map(|i| format!("ligne {i}")).collect();
    let b = s.push_text(&long.join("\n"));
    assert_eq!(s.page(), 1);
    assert!(contains(&b, &colored(Color::Yellow, "MINITEL   p2/2")));
    assert!(s.handle(Event::Function(FnKey::Next)).is_empty());
    let acts = s.handle(Event::Function(FnKey::Return));
    assert_eq!(s.page(), 0);
    assert!(contains(&sent(&acts), &colored(Color::Yellow, "MINITEL   p1/2")));
    assert!(contains(&sent(&acts), &colored(Color::White, "ligne 0")));
    assert!(s.handle(Event::Function(FnKey::Return)).is_empty());
    let acts = s.handle(Event::Function(FnKey::Next));
    assert_eq!(s.page(), 1);
    assert!(contains(&sent(&acts), &colored(Color::White, "ligne 24")));
}

#[test]
fn chat_field_is_one_row() {
    let mut s = Session::new("MINITEL", None, Vec::new());
    s.connected(1200);
    s.push_text("x");
    type_text(&mut s, &"y".repeat(60));
    assert_eq!(s.input().chars().count(), 40);
    let acts = s.handle(Event::Arrow(Arrow::Left));
    assert_eq!(acts.len(), 1);
}

#[test]
fn identification_is_a_proof_of_life() {
    let mut s = Session::new("MINITEL", None, Vec::new());
    s.connected(1200);
    let acts = s.handle(Event::Identify { constructor: b'C', device: b'u', version: b'1' });
    assert_eq!(acts, vec![Action::Alive]);
    assert!(s.handle(Event::ProtocolAck(vec![0x3B])).is_empty());
}

#[test]
fn spinner_and_chronometer() {
    let mut s = Session::new("MINITEL", None, Vec::new());
    s.connected(1200);
    assert!(s.tick(3).is_empty());
    type_text(&mut s, "q");
    s.handle(Event::Enter);
    let b = s.tick(0);
    assert_eq!(b, vec![0x1F, 0x40 + 20, 0x40 + 29, b'*']);
    let b = s.tick(12);
    assert!(b.starts_with(&[0x1F, 0x40 + 20, 0x40 + 29, b'/']));
    assert!(b.ends_with(&encode_text(" 12s")));
}

#[test]
fn pushed_stream_clears_screen_and_row_zero() {
    let mut s = Session::new("MINITEL", None, Vec::new());
    s.connected(1200);
    let b = s.show_pushed(vec![1, 2, 3]);
    assert_eq!(b, vec![0x14, 0x0C, 0x1F, 0x40, 0x41, 0x18, 1, 2, 3]);
    assert_eq!(s.mode(), Mode::Pushed);
    assert!(s.handle(Event::Char('a')).is_empty());
}

#[test]
fn long_title_is_cut_and_logo_replaces_banner() {
    let title = "ABCDEFGHIJKLMNOPQRSTUVWXYZ0123";
    let mut s = Session::new(title, None, Vec::new());
    s.connected(1200);
    let b = s.push_text("x");
    assert!(contains(&b, &colored(Color::Yellow, "ABCDEFGHIJKLMNOPQRSTUVWX   p1/1")));
    let mut s = Session::new("T", Some(vec![0xAA, 0xBB]), Vec::new());
    let b = s.connected(1200);
    assert!(contains(&b, &[0x0C, 0xAA, 0xBB]));
}

#[test]
fn every_failure_kind_but_reported_gives_the_hint() {
    for f in [Failure::Transport("refused".to_string()), Failure::Unreadable("JSON: eof".to_string())] {
        let mut s = Session::new("MINITEL", None, Vec::new());
        s.connected(1200);
        type_text(&mut s, "q");
        s.handle(Event::Enter);
        let b = s.on_result(Err(f));
        assert!(contains(&b, &colored(Color::White, &format!("{:<39}", "Service indisponible."))));
    }
}

#[test]
fn menu_keeps_only_single_character_keys() {
    let e = |k: &str, n: &str| ServiceText { key: k.to_string(), name: n.to_string(), label: format!("L {n}") };
    let menu = menu_of(vec![e("1", "meteo"), e("", "vide"), e("22", "double"), e("é", "accent")]);
    assert_eq!(menu.len(), 2);
    assert_eq!((menu[0].key, menu[0].name.as_str(), menu[0].label.as_str()), ('1', "meteo", "L meteo"));
    assert_eq!((menu[1].key, menu[1].name.as_str()), ('é', "accent"));
}
