use minitel::link::Backoff;
use minitel::constants::Baud;
use minitel::link::{
    first_step, next_backoff, next_step, probe_verdict, LinkConfig, LinkError, Negotiation, SPEED_ATTEMPTS,
};

#[test]
fn default_configuration() {
    let c = LinkConfig::default();
    assert_eq!(c.device, "/dev/serial/by-id/usb-1a86_USB_Serial-if00-port0");
    assert_eq!(c.baud, Baud::B1200);
    assert_eq!(c.fast_baud, Some(Baud::B4800));
    assert_eq!((c.reconnect_initial_ms, c.reconnect_max_ms), (500, 15000));
}

#[test]
fn backoff_doubles_up_to_the_cap() {
    let mut b = 500;
    let mut seen = vec![b];
    for _ in 0..8 {
        b = next_backoff(b, 15000);
        seen.push(b);
    }
    assert_eq!(seen, vec![500, 1000, 2000, 4000, 8000, 15000, 15000, 15000, 15000]);
    assert_eq!(next_backoff(u64::MAX, u64::MAX), u64::MAX);
    assert_eq!(next_backoff(20000, 15000), 15000);
}

#[test]
fn probe_answers() {
    assert_eq!(probe_verdict(&[0x01, b'C', b'u', b'1', 0x04]), Some(true));
    assert_eq!(probe_verdict(&[0x04, 0x01]), Some(true));
    assert_eq!(probe_verdict(&[0x01, b'C']), None);
    assert_eq!(probe_verdict(&[0x7F; 65]), Some(false));
    assert_eq!(probe_verdict(&[0x7F; 64]), None);
    assert_eq!(probe_verdict(&[]), None);
}

#[test]
fn negotiation_steps() {
    let c = LinkConfig::default();
    let s0 = first_step(&c);
    assert_eq!(s0, Negotiation::Probe { fast: Baud::B4800, timeout_ms: 800 });
    assert_eq!(next_step(&c, s0, true), Negotiation::Keep(Baud::B4800));
    let mut s = next_step(&c, s0, false);
    for attempt in 1..=SPEED_ATTEMPTS {
        assert_eq!(
            s,
            Negotiation::Reprogram { attempt, slow: Baud::B1200, fast: Baud::B4800, settle_ms: 500, timeout_ms: 1200 }
        );
        s = next_step(&c, s, false);
    }
    assert_eq!(s, Negotiation::Open(Baud::B1200));
    let slow_only = LinkConfig { fast_baud: None, ..LinkConfig::default() };
    assert_eq!(first_step(&slow_only), Negotiation::Open(Baud::B1200));
}

#[test]
fn error_messages() {
    assert_eq!(LinkError::Io("boom".to_string()).message(), "erreur d'E/S: boom");
    assert_eq!(LinkError::ChannelClosed.message(), "canal fermé");
}

#[test]
fn backoff_over_a_run_starts_over_after_a_session() {
    let c = LinkConfig::default();
    let mut b = Backoff::new(&c);
    let outcomes = [false, false, false, true, false, false, false, false, false, false];
    let sleeps: Vec<u64> = outcomes.iter().map(|&ok| b.after_attempt(ok)).collect();
    assert_eq!(sleeps, vec![500, 1000, 2000, 500, 1000, 2000, 4000, 8000, 15000, 15000]);
}
