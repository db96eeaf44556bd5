use minitel::backend::Net;
use minitel::chat::{
    status_line, status_line_at, wrap_answer, Transcript, ANIM_ROW, AREA_COLS, AREA_ROW,
    AREA_ROWS, CHAT_INPUT_ROW, CHAT_INPUT_ROWS, CHAT_LABEL_ROW, COLS, CONTENT_ROW, FOOTER_ROW,
    HINT_ROW, LABEL_ROW, MAX_TRANSCRIPT, MSG_ROW, PAGE_ROWS,
};
use minitel::constants::Color;
use minitel::edit::Editor;

#[test]
fn chat_footer_fits_with_color_attribute() {
    const FOOTER: &str = "ENVOI  SUITE/RETOUR=page  SOMMAIRE=raz";
    assert!(FOOTER.chars().count() + 1 <= COLS, "{} cols", FOOTER.chars().count());
    assert_eq!(minitel::chat::CHAT_FOOTER, FOOTER);
}

#[test]
fn chat_layout_fits_the_screen() {
    let last_thread_row = CONTENT_ROW as usize + PAGE_ROWS - 1;
    assert!(last_thread_row < CHAT_LABEL_ROW as usize, "le fil mange le libelle");
    assert_eq!(CHAT_LABEL_ROW + 1, CHAT_INPUT_ROW, "libelle non colle a la saisie");
    let last_input_row = CHAT_INPUT_ROW as usize + CHAT_INPUT_ROWS - 1;
    assert!(last_input_row < FOOTER_ROW as usize, "la saisie mange le pied de page");
    assert_eq!(FOOTER_ROW, 24, "le pied de page doit rester la derniere rangee");
}

#[test]
fn chat_input_cannot_overflow_below_the_screen() {
    let mut ed = Editor::new(AREA_COLS, AREA_ROWS);
    ed.set_rows(CHAT_INPUT_ROWS);
    for _ in 0..500 {
        ed.insert('x');
    }
    assert_eq!(ed.last_row(), CHAT_INPUT_ROWS - 1);
    assert_eq!(ed.text().chars().count(), AREA_COLS * CHAT_INPUT_ROWS);
}

#[test]
fn transcript_stays_paginable_when_capped() {
    let lines: Vec<(Color, String)> =
        (0..MAX_TRANSCRIPT).map(|i| (Color::White, format!("l{i}"))).collect();
    let pages = lines.len().div_ceil(PAGE_ROWS).max(1);
    assert_eq!(MAX_TRANSCRIPT % PAGE_ROWS, 0, "plafond non multiple d'une page");
    assert_eq!(pages, MAX_TRANSCRIPT / PAGE_ROWS);
    assert!((pages - 1) * PAGE_ROWS < lines.len());
}

#[test]
fn status_line_never_exceeds_37_cols() {
    for net in [Net::Unknown, Net::Online, Net::NoWeb, Net::Offline] {
        for baud in [1200u32, 4800] {
            let s = status_line(baud, net);
            assert!(s.chars().count() <= 37, "{net:?} {baud}: {s:?}");
            assert!(s.contains(net.label()), "voyant absent : {s:?}");
        }
    }
}

#[test]
fn status_line_keeps_clock_visible() {
    let s = status_line(4800, Net::Online);
    let clock = chrono::Local::now().format("%H:%M").to_string();
    assert!(s.ends_with(&clock), "heure tronquee : {s:?}");
}

#[test]
fn message_row_does_not_collide_with_other_rows() {
    assert_ne!(MSG_ROW, HINT_ROW);
    assert_ne!(MSG_ROW, ANIM_ROW);
    assert_ne!(MSG_ROW, LABEL_ROW);
    assert!(MSG_ROW < AREA_ROW || MSG_ROW >= AREA_ROW + AREA_ROWS as u8);
}

#[test]
fn status_line_layout_for_a_fixed_clock() {
    assert_eq!(
        status_line_at(4800, Net::Online, "09:05"),
        "miniteld 1.0  4800 bd  WEB OK   09:05"
    );
    assert_eq!(status_line_at(4800, Net::Online, "09:05").chars().count(), 37);
    // a ten-digit speed pushes the clock out of the 37 columns, never the label
    let s = status_line_at(4_000_000_000, Net::Offline, "23:59");
    assert_eq!(s, "miniteld 1.0  4000000000 bd  SRV KO 2");
    assert!(s.contains("SRV KO"));
}

#[test]
fn answers_are_split_trimmed_and_wrapped() {
    let rows = wrap_answer("ZAGREB   \r\nCapitale de la Croatie.\n\n  fin\n");
    let texts: Vec<&str> = rows.iter().map(|(_, t)| t.as_str()).collect();
    assert_eq!(texts, vec!["ZAGREB", "Capitale de la Croatie.", "", "fin"]);
    assert!(rows.iter().all(|(c, _)| *c == Color::White));
    assert!(wrap_answer("").is_empty());
    let long = "mot ".repeat(30);
    let rows = wrap_answer(&long);
    assert!(rows.iter().all(|(_, t)| t.chars().count() <= 40));
    assert_eq!(rows.len(), 3);
}

#[test]
fn transcript_turns_pages_and_cap() {
    let mut t = Transcript::new();
    assert_eq!(t.pages(), 1);
    t.push_turn(Some("quelle heure ?"), "midi");
    assert_eq!(t.len(), 2);
    assert_eq!(t.line(0), &(Color::Green, "> quelle heure ?".to_string()));
    assert_eq!(t.line(1), &(Color::White, "midi".to_string()));
    t.push_turn(None, "et demain");
    assert_eq!(t.len(), 4);
    assert_eq!(t.line(2), &(Color::White, String::new()));
    for i in 0..200 {
        t.push_turn(Some(&format!("q{i}")), "a");
        assert!(t.len() <= MAX_TRANSCRIPT);
        assert_eq!(t.page(), t.last_page());
    }
    assert_eq!(t.len(), MAX_TRANSCRIPT);
    assert_eq!(t.pages(), MAX_TRANSCRIPT / PAGE_ROWS);
    assert!(!t.next_page());
    assert!(t.prev_page());
    assert_eq!(t.page(), t.last_page() - 1);
    assert!(t.next_page());
    t.clear();
    assert_eq!((t.len(), t.page(), t.pages()), (0, 0, 1));
}

#[test]
fn long_questions_are_indented() {
    let mut t = Transcript::new();
    let q = "a ".repeat(25);
    t.push_turn(Some(&q), "ok");
    assert!(t.line(0).1.starts_with("> a a"));
    assert!(t.line(1).1.starts_with("  a"));
    assert!(t.line(0).1.chars().count() <= 40);
}

#[test]
fn thread_lines_never_exceed_the_screen() {
    let mut t = Transcript::new();
    let long_word = "x".repeat(95);
    t.push_turn(Some(&format!("question {long_word} fin")), &format!("{long_word}\n\nmot {long_word}"));
    t.push_turn(None, "court");
    for i in 0..t.len() {
        assert!(t.line(i).1.chars().count() <= 40, "{:?}", t.line(i));
    }
    assert_eq!(t.line(0).1, "> question");
    assert_eq!(t.line(1).1, format!("  {}", "x".repeat(38)));
}
