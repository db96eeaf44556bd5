//! The daemon's periodic decisions: the watchdog that probes the Minitel
//! and lets it fall asleep, and the state exposed by `GET /status`.
//!
//! The clocks are the caller's: these functions take the elapsed times.
use vstd::prelude::*;
use crate::backend::Net;
use crate::control::Status;

verus! {

/// Inactivity (no key typed) after which the Minitel is let fall asleep:
/// probe and clock stop, the serial line goes silent.
pub const IDLE_SLEEP_SECS: u64 = 180;

/// Period of the network probe (`GET /health` of the backend, which caches
/// its own Internet probe for 20 s).
pub const NET_POLL_SECS: u64 = 20;

/// Silence (in nanoseconds) after which a probed Minitel counts as gone and
/// the link is reset (it was power-cycled).
pub const SILENCE_RESET_NANOS: u128 = 10_000_000_000;

/// Silence (in seconds) under which the Minitel counts as connected.
pub const CONNECTED_SECS: u64 = 8;

/// What the watchdog does on its tick.
#[derive(Debug, Clone, Copy, PartialEq, Eq, Structural)]
pub enum Watchdog {
    /// Inactive for too long: go to sleep (silence on the line).
    FallAsleep,
    /// Asleep already: stay silent.
    StayAsleep,
    /// Waiting for the backend: no probe (the screen is busy), but the
    /// Minitel counts as seen, or the silence caused here would later look
    /// like a dead Minitel and reset the link over the answer just shown.
    KeepSeen,
    /// Send the identification request (proof of life).
    Probe,
    /// Send the identification request, and reset the link: the Minitel has
    /// been silent too long.
    ProbeAndReset,
    /// No link negotiated yet: nothing to do.
    Nothing,
}

/// The watchdog's decision, from the seconds since the last key, the
/// silence of the Minitel, whether it sleeps, whether the backend is being
/// waited for, and the speed of the link.
pub open spec fn watchdog_spec(idle_secs: u64, silent_nanos: u128, sleeping: bool, searching: bool, baud: u32) -> Watchdog {
    if idle_secs >= IDLE_SLEEP_SECS {
        if sleeping { Watchdog::StayAsleep } else { Watchdog::FallAsleep }
    } else if searching {
        Watchdog::KeepSeen
    } else if baud > 0 {
        if silent_nanos > SILENCE_RESET_NANOS { Watchdog::ProbeAndReset } else { Watchdog::Probe }
    } else {
        Watchdog::Nothing
    }
}

/// The watchdog's decision on its tick.
pub fn watchdog(idle_secs: u64, silent_nanos: u128, sleeping: bool, searching: bool, baud: u32) -> (w: Watchdog)
    ensures
        w == watchdog_spec(idle_secs, silent_nanos, sleeping, searching, baud),
{
    if idle_secs >= IDLE_SLEEP_SECS {
        if sleeping {
            Watchdog::StayAsleep
        } else {
            Watchdog::FallAsleep
        }
    } else if searching {
        Watchdog::KeepSeen
    } else if baud > 0 {
        if silent_nanos > SILENCE_RESET_NANOS {
            Watchdog::ProbeAndReset
        } else {
            Watchdog::Probe
        }
    } else {
        Watchdog::Nothing
    }
}

/// Whether the status bar may be drawn (clock tick, network change): only on
/// a negotiated link, and never asleep (any write would wake the Minitel).
pub fn may_draw_status(baud: u32, sleeping: bool) -> (r: bool)
    ensures
        r == (baud > 0 && !sleeping),
{
    baud > 0 && !sleeping
}

/// The state exposed by `GET /status` after a watchdog tick: speed, idle
/// time, sleep and network are the current ones; `connected` is refreshed
/// (a negotiated link and a Minitel heard from lately) except asleep, where
/// the last known value is kept.
pub fn refresh_status(prev: Status, baud: u32, idle_secs: u64, sleeping: bool, net: Net, silent_secs: u64) -> (s: Status)
    ensures
        s.baud == baud,
        s.idle_secs == idle_secs,
        s.sleeping == sleeping,
        s.net == net,
        s.connected == if sleeping { prev.connected } else { baud > 0 && silent_secs < CONNECTED_SECS },
{
    Status {
        connected: if sleeping { prev.connected } else { baud > 0 && silent_secs < CONNECTED_SECS },
        baud,
        idle_secs,
        sleeping,
        net,
    }
}

/// The state exposed before any connection.
pub fn initial_status() -> (s: Status)
    ensures
        s == (Status { connected: false, baud: 0, idle_secs: 0, sleeping: false, net: Net::Unknown }),
{
    Status { connected: false, baud: 0, idle_secs: 0, sleeping: false, net: Net::Unknown }
}

/// The watchdog never probes a sleeping or inactive Minitel: past the idle
/// delay it only falls or stays asleep, so the line stays silent.
pub proof fn law_idle_minitel_left_alone(idle_secs: u64, silent_nanos: u128, sleeping: bool, searching: bool, baud: u32)
    requires
        idle_secs >= IDLE_SLEEP_SECS,
    ensures
        watchdog_spec(idle_secs, silent_nanos, sleeping, searching, baud) == Watchdog::FallAsleep
            || watchdog_spec(idle_secs, silent_nanos, sleeping, searching, baud) == Watchdog::StayAsleep,
        sleeping ==> watchdog_spec(idle_secs, silent_nanos, sleeping, searching, baud) == Watchdog::StayAsleep,
{
}

/// While the backend is waited for (and the Minitel is active), the link is
/// never reset by the watchdog, however long the wait.
pub proof fn law_no_reset_while_waiting(idle_secs: u64, silent_nanos: u128, sleeping: bool, baud: u32)
    requires
        idle_secs < IDLE_SLEEP_SECS,
    ensures
        watchdog_spec(idle_secs, silent_nanos, sleeping, true, baud) == Watchdog::KeepSeen,
{
}

} // verus!
