use vstd::prelude::*;

verus! {

/// A single-fire shutdown notification. Its view is the instant (in
/// milliseconds) at which it fired, or `None` while it has not.
#[derive(Clone, Copy, Debug)]
pub struct ShutdownSignal {
    fired_at: Option<u64>,
}

/// What firing at `now` does to a signal that fired at `at`, if it did:
/// only the first firing counts.
pub open spec fn fire_spec(at: Option<u64>, now: u64) -> Option<u64> {
    match at {
        Some(t) => Some(t),
        None => Some(now),
    }
}

/// The instant at which the grace period that starts at `fired_at` ends,
/// capped at the largest instant a `u64` holds.
pub open spec fn deadline_spec(fired_at: u64, timeout_secs: u64) -> u64 {
    let d = fired_at as nat + timeout_secs as nat * 1000;
    if d > u64::MAX {
        u64::MAX
    } else {
        d as u64
    }
}

impl View for ShutdownSignal {
    type V = Option<u64>;

    closed spec fn view(&self) -> Option<u64> {
        self.fired_at
    }
}

impl ShutdownSignal {
    /// A signal that has not fired.
    pub fn new() -> (r: ShutdownSignal)
        ensures
            r@ is None,
    {
        ShutdownSignal { fired_at: None }
    }

    /// Fires the signal at instant `now`; a signal that already fired keeps
    /// its first instant.
    pub fn fire(&mut self, now: u64)
        ensures
            final(self)@ == fire_spec(old(self)@, now),
    {
        if self.fired_at.is_none() {
            self.fired_at = Some(now);
        }
    }

    /// Whether the signal has fired; never blocks.
    pub fn is_fired(&self) -> (r: bool)
        ensures
            r == self@ is Some,
    {
        self.fired_at.is_some()
    }

    /// The instant at which the signal fired, if it did.
    pub fn fired_at(&self) -> (r: Option<u64>)
        ensures
            r == self@,
    {
        self.fired_at
    }
}

/// The grace-period timer shared by every connection: it elapses a fixed
/// number of seconds after the shutdown signal fires.
#[derive(Clone, Copy, Debug, PartialEq, Eq, Structural)]
pub struct Tripwire {
    pub timeout_secs: u64,
}

impl Tripwire {
    pub fn new(timeout_secs: u64) -> (r: Tripwire)
        ensures
            r.timeout_secs == timeout_secs,
    {
        Tripwire { timeout_secs }
    }

    /// The instant at which the tripwire elapses, once `signal` has fired.
    pub fn deadline(&self, signal: &ShutdownSignal) -> (r: Option<u64>)
        ensures
            r == match signal@ {
                Some(t) => Some(deadline_spec(t, self.timeout_secs)),
                None => None::<u64>,
            },
    {
        match signal.fired_at() {
            Some(t) => {
                let grace: u64 = if self.timeout_secs > u64::MAX / 1000 {
                    u64::MAX
                } else {
                    self.timeout_secs * 1000
                };
                Some(t.saturating_add(grace))
            },
            None => None,
        }
    }

    /// Whether the tripwire has elapsed at instant `now`.
    pub fn elapsed(&self, signal: &ShutdownSignal, now: u64) -> (r: bool)
        ensures
            r == (signal@ matches Some(t) && now >= deadline_spec(t, self.timeout_secs)),
    {
        match self.deadline(signal) {
            Some(d) => now >= d,
            None => false,
        }
    }
}

/// Firing twice is the same as firing once: the instant kept, and so the
/// tripwire's deadline, is that of the first firing, and the signal stays
/// fired.
pub proof fn lemma_fire_idempotent(at: Option<u64>, first: u64, second: u64)
    ensures
        fire_spec(fire_spec(at, first), second) == fire_spec(at, first),
        fire_spec(at, first) is Some,
        at matches Some(t) ==> fire_spec(at, first) == Some(t),
{
}

} // verus!
