//! Decisions of the robust serial link to the Minitel.
//!
//! The link itself (opening the port, pumping bytes, sleeping) is I/O and is
//! driven by the caller; this module holds what it decides: the speed
//! negotiation, the reading of a probe answer and the reconnection back-off.
//!
//! Minitel serial settings: 7 bits, even parity, 1 stop bit.
use vstd::prelude::*;
use crate::chars::push_str;
use crate::constants::{Baud, END_OF_TRANSMISSION, START_OF_HEADING};

verus! {

/// Error of the link.
#[derive(Debug, Clone, PartialEq, Eq)]
pub enum LinkError {
    /// Serial I/O error, with its message.
    Io(String),
    /// The channel to the supervision task is closed.
    ChannelClosed,
}

impl LinkError {
    /// Human-readable message of the error.
    pub fn message(&self) -> (m: String)
        ensures
            m@ == (match self {
                LinkError::Io(e) => "erreur d'E/S: "@ + e@,
                LinkError::ChannelClosed => "canal fermé"@,
            }),
    {
        let mut m = String::new();
        match self {
            LinkError::Io(e) => {
                push_str(&mut m, "erreur d'E/S: ");
                push_str(&mut m, e.as_str());
            },
            LinkError::ChannelClosed => {
                push_str(&mut m, "canal fermé");
            },
        }
        m
    }
}

/// Configuration of the serial link.
#[derive(Debug, Clone)]
pub struct LinkConfig {
    /// Port path. Prefer the stable `by-id` link of the CH340.
    pub device: String,
    /// Base speed (the 1B's speed at boot on the DIN socket): 1200 bps.
    pub baud: Baud,
    /// Faster speed to negotiate at start-up, if any; falls back to `baud`.
    pub fast_baud: Option<Baud>,
    /// Initial reconnection back-off, in milliseconds.
    pub reconnect_initial_ms: u64,
    /// Maximal reconnection back-off, in milliseconds.
    pub reconnect_max_ms: u64,
}

impl Default for LinkConfig {
    fn default() -> (c: Self)
        ensures
            c.device@ == "/dev/serial/by-id/usb-1a86_USB_Serial-if00-port0"@,
            c.baud == Baud::B1200,
            c.fast_baud == Some(Baud::B4800),
            c.reconnect_initial_ms == 500,
            c.reconnect_max_ms == 15000,
    {
        let mut device = String::new();
        push_str(&mut device, "/dev/serial/by-id/usb-1a86_USB_Serial-if00-port0");
        LinkConfig {
            device,
            baud: Baud::B1200,
            fast_baud: Some(Baud::B4800),
            reconnect_initial_ms: 500,
            reconnect_max_ms: 15000,
        }
    }
}

/// Event reported by the link to the session layer.
#[derive(Debug, Clone, PartialEq, Eq)]
pub enum LinkEvent {
    /// The port has just been (re)opened, at this speed (bauds).
    Connected(u32),
    /// The port fell; a reconnection is under way.
    Disconnected,
    /// Bytes received from the Minitel (keyboard / protocol answers).
    Rx(Vec<u8>),
}

/// Back-off after `current_ms`: doubled, capped at `max_ms`.
pub open spec fn backoff_after(current_ms: u64, max_ms: u64) -> int {
    if 2 * current_ms <= max_ms { 2 * current_ms } else { max_ms as int }
}

/// Next reconnection back-off: twice the current one, at most `max_ms`.
pub fn next_backoff(current_ms: u64, max_ms: u64) -> (next: u64)
    ensures
        next == backoff_after(current_ms, max_ms),
{
    let doubled: u128 = (current_ms as u128) * 2;
    if doubled <= (max_ms as u128) {
        doubled as u64
    } else {
        max_ms
    }
}

/// Back-off never exceeds the maximum, and while the current delay is within
/// it, never shrinks: repeated failures wait longer and longer, up to the cap.
pub proof fn law_backoff_grows_to_cap(current_ms: u64, max_ms: u64)
    ensures
        backoff_after(current_ms, max_ms) <= max_ms,
        current_ms <= max_ms ==> current_ms <= backoff_after(current_ms, max_ms),
{
}

/// Sleep after an attempt at opening the link: the initial delay after a
/// session (the back-off starts over), else the delay due.
pub open spec fn sleep_of(initial_ms: u64, due_ms: u64, connected: bool) -> u64 {
    if connected { initial_ms } else { due_ms }
}

/// The delay due before the attempt that follows the attempts whose
/// outcomes (connected or not) are `outcomes`, in order.
pub open spec fn due_after(initial_ms: u64, max_ms: u64, outcomes: Seq<bool>) -> u64
    decreases outcomes.len(),
{
    if outcomes.len() == 0 {
        initial_ms
    } else {
        backoff_after(sleep_of(initial_ms, due_after(initial_ms, max_ms, outcomes.drop_last()), outcomes.last()), max_ms) as u64
    }
}

/// The sleeps after each attempt, for the given outcomes.
pub open spec fn sleeps(initial_ms: u64, max_ms: u64, outcomes: Seq<bool>) -> Seq<u64> {
    Seq::new(outcomes.len(), |n: int| sleep_of(initial_ms, due_after(initial_ms, max_ms, outcomes.take(n)), outcomes[n]))
}

/// The reconnection back-off of the supervision loop.
pub struct Backoff {
    initial_ms: u64,
    max_ms: u64,
    due_ms: u64,
}

impl View for Backoff {
    type V = (u64, u64, u64);

    closed spec fn view(&self) -> (u64, u64, u64) {
        (self.initial_ms, self.max_ms, self.due_ms)
    }
}

impl Backoff {
    /// The back-off of a link configuration, before any attempt.
    pub fn new(cfg: &LinkConfig) -> (b: Self)
        ensures
            b@ == (cfg.reconnect_initial_ms, cfg.reconnect_max_ms, cfg.reconnect_initial_ms),
    {
        Backoff { initial_ms: cfg.reconnect_initial_ms, max_ms: cfg.reconnect_max_ms, due_ms: cfg.reconnect_initial_ms }
    }

    /// After an attempt (`connected`: the link was opened, and the session
    /// on it has ended): the sleep before the next attempt, and the delay
    /// due after it, doubled up to the maximum.
    pub fn after_attempt(&mut self, connected: bool) -> (sleep_ms: u64)
        ensures
            sleep_ms == sleep_of(old(self)@.0, old(self)@.2, connected),
            final(self)@ == (old(self)@.0, old(self)@.1, backoff_after(sleep_ms, old(self)@.1) as u64),
    {
        let sleep_ms = if connected { self.initial_ms } else { self.due_ms };
        self.due_ms = next_backoff(sleep_ms, self.max_ms);
        sleep_ms
    }
}

/// Over a run of attempts, the sleeps follow the reconnection rule: the
/// first is the initial delay; after a session the delay starts over at the
/// initial one; after a failure it is twice the previous sleep, capped at
/// the maximum.
pub proof fn law_backoff_run(initial_ms: u64, max_ms: u64, outcomes: Seq<bool>)
    ensures
        outcomes.len() > 0 ==> sleeps(initial_ms, max_ms, outcomes)[0] == initial_ms,
        forall|n: int| 0 <= n < outcomes.len() - 1 ==> #[trigger] sleeps(initial_ms, max_ms, outcomes)[n + 1] == if outcomes[n + 1] {
            initial_ms as int
        } else {
            backoff_after(sleeps(initial_ms, max_ms, outcomes)[n], max_ms)
        },
{
    let s = sleeps(initial_ms, max_ms, outcomes);
    if outcomes.len() > 0 {
        assert(outcomes.take(0) =~= Seq::<bool>::empty());
    }
    assert forall|n: int| 0 <= n < outcomes.len() - 1 implies #[trigger] s[n + 1] == if outcomes[n + 1] {
        initial_ms as int
    } else {
        backoff_after(s[n], max_ms)
    } by {
        assert(outcomes.take(n + 1).drop_last() =~= outcomes.take(n));
        assert(outcomes.take(n + 1).last() == outcomes[n]);
        let d = due_after(initial_ms, max_ms, outcomes.take(n));
        let sn = sleep_of(initial_ms, d, outcomes[n]);
        assert(s[n] == sn);
        assert(backoff_after(sn, max_ms) <= u64::MAX);
        assert(due_after(initial_ms, max_ms, outcomes.take(n + 1)) == backoff_after(sn, max_ms) as u64);
    }
}

/// Verdict on the bytes read so far after an identification request:
/// `Some(true)` once both SOH and EOT arrived (a plausible identification
/// answer), `Some(false)` once more than 64 bytes arrived without it (line
/// noise at the wrong speed), `None` to keep reading.
pub fn probe_verdict(acc: &[u8]) -> (v: Option<bool>)
    ensures
        v == (if acc@.contains(START_OF_HEADING) && acc@.contains(END_OF_TRANSMISSION) {
            Some(true)
        } else if acc@.len() > 64 {
            Some(false)
        } else {
            None
        }),
{
    let mut soh = false;
    let mut eot = false;
    let mut i: usize = 0;
    while i < acc.len()
        invariant
            i <= acc@.len(),
            soh == (exists|j: int| 0 <= j < i && acc@[j] == START_OF_HEADING),
            eot == (exists|j: int| 0 <= j < i && acc@[j] == END_OF_TRANSMISSION),
        decreases acc@.len() - i,
    {
        if acc[i] == START_OF_HEADING {
            soh = true;
        }
        if acc[i] == END_OF_TRANSMISSION {
            eot = true;
        }
        i = i + 1;
    }
    if soh && eot {
        Some(true)
    } else if acc.len() > 64 {
        Some(false)
    } else {
        None
    }
}

/// Number of attempts at programming the fast speed from the base speed.
pub const SPEED_ATTEMPTS: u32 = 3;

/// A step of the speed negotiation, for the caller to perform.
#[derive(Debug, Clone, Copy, PartialEq, Eq, Structural)]
pub enum Negotiation {
    /// Open the port at this speed and use it: negotiation over.
    Open(Baud),
    /// Keep the port just probed at this speed: negotiation over.
    Keep(Baud),
    /// Open at `fast` and probe for `timeout_ms` (already fast?).
    Probe { fast: Baud, timeout_ms: u64 },
    /// Attempt number `attempt`: open at `slow`, send the speed command for
    /// `fast`, wait `settle_ms`, reopen at `fast` and probe for `timeout_ms`.
    Reprogram { attempt: u32, slow: Baud, fast: Baud, settle_ms: u64, timeout_ms: u64 },
}

/// First step of the negotiation.
pub open spec fn first_step_spec(baud: Baud, fast_baud: Option<Baud>) -> Negotiation {
    match fast_baud {
        None => Negotiation::Open(baud),
        Some(f) => Negotiation::Probe { fast: f, timeout_ms: 800 },
    }
}

/// Step following `step`, given whether the probe it ended with got an
/// identification answer.
pub open spec fn next_step_spec(baud: Baud, step: Negotiation, answered: bool) -> Negotiation {
    match step {
        Negotiation::Probe { fast, timeout_ms } => if answered {
            Negotiation::Keep(fast)
        } else {
            Negotiation::Reprogram { attempt: 1, slow: baud, fast, settle_ms: 500, timeout_ms: 1200 }
        },
        Negotiation::Reprogram { attempt, slow, fast, settle_ms, timeout_ms } => if answered {
            Negotiation::Keep(fast)
        } else if attempt < SPEED_ATTEMPTS {
            Negotiation::Reprogram { attempt: (attempt + 1) as u32, slow, fast, settle_ms, timeout_ms }
        } else {
            Negotiation::Open(baud)
        },
        other => other,
    }
}

/// First step of the speed negotiation.
///
/// The 1B has no EEPROM and restarts at 1200 bps on the DIN socket: try the
/// fast speed first (Minitel still powered and fast), then program it from
/// the base speed (up to three times), and fall back to the base speed.
pub fn first_step(cfg: &LinkConfig) -> (s: Negotiation)
    ensures
        s == first_step_spec(cfg.baud, cfg.fast_baud),
{
    match cfg.fast_baud {
        None => Negotiation::Open(cfg.baud),
        Some(f) => Negotiation::Probe { fast: f, timeout_ms: 800 },
    }
}

/// Step after `step`, once its probe got an answer (`answered`) or not.
pub fn next_step(cfg: &LinkConfig, step: Negotiation, answered: bool) -> (s: Negotiation)
    ensures
        s == next_step_spec(cfg.baud, step, answered),
{
    match step {
        Negotiation::Probe { fast, timeout_ms } => if answered {
            Negotiation::Keep(fast)
        } else {
            Negotiation::Reprogram { attempt: 1, slow: cfg.baud, fast, settle_ms: 500, timeout_ms: 1200 }
        },
        Negotiation::Reprogram { attempt, slow, fast, settle_ms, timeout_ms } => if answered {
            Negotiation::Keep(fast)
        } else if attempt < SPEED_ATTEMPTS {
            Negotiation::Reprogram { attempt: attempt + 1, slow, fast, settle_ms, timeout_ms }
        } else {
            Negotiation::Open(cfg.baud)
        },
        other => other,
    }
}

/// The step reached after the probes answered as `answers` says, in order.
pub open spec fn run_negotiation(baud: Baud, fast_baud: Option<Baud>, answers: Seq<bool>) -> Negotiation
    decreases answers.len(),
{
    if answers.len() == 0 {
        first_step_spec(baud, fast_baud)
    } else {
        next_step_spec(baud, run_negotiation(baud, fast_baud, answers.drop_last()), answers.last())
    }
}

/// The negotiation always ends: with no fast speed configured it opens the
/// base speed at once; otherwise, when the probes never answer, it has
/// probed once and reprogrammed three times, and falls back to the base
/// speed, which always works; the first answer keeps the fast speed.
pub proof fn law_negotiation_ends(baud: Baud, fast_baud: Option<Baud>, answers: Seq<bool>)
    ensures
        fast_baud is None ==> run_negotiation(baud, fast_baud, answers) == Negotiation::Open(baud),
        fast_baud is Some && answers.len() >= 4 && (forall|i: int| 0 <= i < 4 ==> !answers[i])
            ==> run_negotiation(baud, fast_baud, answers) == Negotiation::Open(baud),
        fast_baud is Some && answers.len() >= 1 && answers[0]
            ==> run_negotiation(baud, fast_baud, answers) == Negotiation::Keep(fast_baud->0),
    decreases answers.len(),
{
    if answers.len() > 0 {
        law_negotiation_ends(baud, fast_baud, answers.drop_last());
        let init = answers.drop_last();
        if fast_baud is Some && answers.len() >= 1 && answers[0] && answers.len() > 1 {
            assert(init[0] == answers[0]);
        }
        if fast_baud is Some && answers.len() >= 4 && (forall|i: int| 0 <= i < 4 ==> !answers[i]) {
            if answers.len() > 4 {
                assert forall|i: int| 0 <= i < 4 implies !init[i] by {
                    assert(init[i] == answers[i]);
                }
            } else {
                reveal_with_fuel(run_negotiation, 5);
                assert(!answers[0] && !answers[1] && !answers[2] && !answers[3]);
                assert(init.drop_last().drop_last().drop_last() =~= Seq::<bool>::empty());
                assert(init.drop_last().drop_last().last() == answers[0]);
                assert(init.drop_last().last() == answers[1]);
                assert(init.last() == answers[2]);
            }
        }
    }
}


proof fn lemma_final_steps_stay(baud: Baud, fast_baud: Option<Baud>, answers: Seq<bool>, k: int)
    requires
        0 <= k <= answers.len(),
        run_negotiation(baud, fast_baud, answers.take(k)) is Keep || run_negotiation(baud, fast_baud, answers.take(k)) is Open,
    ensures
        run_negotiation(baud, fast_baud, answers) == run_negotiation(baud, fast_baud, answers.take(k)),
    decreases answers.len() - k,
{
    if k < answers.len() {
        assert(answers.take(k + 1).drop_last() =~= answers.take(k));
        lemma_final_steps_stay(baud, fast_baud, answers, k + 1);
    } else {
        assert(answers.take(k) =~= answers);
    }
}

/// Whenever a probe answers, the fast speed is kept: with a fast speed
/// configured, when the probe of the first attempt (`answers[0]`) or of one
/// of the three reprogramming attempts answers before any other did, the
/// negotiation ends on `Keep(fast)`, whatever follows; and until a probe
/// answers, the fast speed is never kept.
pub proof fn law_answer_keeps_fast_speed(baud: Baud, fast: Baud, answers: Seq<bool>, i: int)
    requires
        0 <= i < 4,
        i < answers.len(),
        answers[i],
        forall|j: int| 0 <= j < i ==> !answers[j],
    ensures
        run_negotiation(baud, Some(fast), answers) == Negotiation::Keep(fast),
        forall|k: int| 0 <= k <= i ==> !(#[trigger] run_negotiation(baud, Some(fast), answers.take(k)) is Keep),
{
    reveal_with_fuel(run_negotiation, 5);
    let t = answers.take(i + 1);
    assert(t.drop_last() =~= answers.take(i));
    assert forall|k: int| 0 <= k <= i implies !(#[trigger] run_negotiation(baud, Some(fast), answers.take(k)) is Keep) by {
        let p = answers.take(k);
        if k >= 1 {
            assert(p.drop_last() =~= answers.take(k - 1));
        }
        if k >= 2 {
            assert(p.drop_last().drop_last() =~= answers.take(k - 2));
        }
        if k >= 3 {
            assert(p.drop_last().drop_last().drop_last() =~= answers.take(k - 3));
        }
        if k >= 4 {
            assert(p.drop_last().drop_last().drop_last().drop_last() =~= answers.take(k - 4));
        }
        assert(answers.take(0) =~= Seq::<bool>::empty());
        if k >= 1 { assert(p[k - 1] == answers[k - 1]); }
        if k >= 2 { assert(p.drop_last()[k - 2] == answers[k - 2]); }
        if k >= 3 { assert(p.drop_last().drop_last()[k - 3] == answers[k - 3]); }
    }
    let p = answers.take(i + 1);
    if i >= 1 {
        assert(p.drop_last().drop_last() =~= answers.take(i - 1));
    }
    if i >= 2 {
        assert(p.drop_last().drop_last().drop_last() =~= answers.take(i - 2));
    }
    if i >= 3 {
        assert(p.drop_last().drop_last().drop_last().drop_last() =~= answers.take(i - 3));
    }
    assert(answers.take(0) =~= Seq::<bool>::empty());
    assert(p.last() == answers[i]);
    if i >= 1 { assert(p.drop_last().last() == answers[i - 1]); }
    if i >= 2 { assert(p.drop_last().drop_last().last() == answers[i - 2]); }
    if i >= 3 { assert(p.drop_last().drop_last().drop_last().last() == answers[i - 3]); }
    assert(run_negotiation(baud, Some(fast), p) == Negotiation::Keep(fast));
    lemma_final_steps_stay(baud, Some(fast), answers, i + 1);
}

} // verus!
