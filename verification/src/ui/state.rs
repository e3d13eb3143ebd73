//! The transient status state shown to users: which notices are active and
//! when each expires. Time is handed in by the caller as milliseconds, so the
//! expiry logic is pure.

use vstd::prelude::*;

verus! {

/// How long a notice stays up, in milliseconds.
pub const NOTICE_MILLIS: u64 = 3000;

/// The status notices: "saved" and "reset", each with an expiry deadline.
#[derive(Debug)]
pub struct State {
    saved: bool,
    saved_deadline: Option<u64>,
    reset: bool,
    reset_deadline: Option<u64>,
}

impl Default for State {
    /// The initial state: no notice active.
    fn default() -> (r: Self)
        ensures
            !r.saved_spec() && !r.reset_spec(),
    {
        State { saved: false, saved_deadline: None, reset: false, reset_deadline: None }
    }
}

impl State {
    /// Whether the "saved" notice is set (not considering expiration).
    pub closed spec fn saved_spec(&self) -> bool {
        self.saved
    }

    /// Whether the "reset" notice is set (not considering expiration).
    pub closed spec fn reset_spec(&self) -> bool {
        self.reset
    }

    /// Whether the "saved" notice, set at its deadline, has expired by `now`.
    pub closed spec fn saved_expired(&self, now_ms: u64) -> bool {
        match self.saved_deadline {
            Some(d) => now_ms >= d,
            None => false,
        }
    }

    /// Whether the "reset" notice, set at its deadline, has expired by `now`.
    pub closed spec fn reset_expired(&self, now_ms: u64) -> bool {
        match self.reset_deadline {
            Some(d) => now_ms >= d,
            None => false,
        }
    }

    /// Raise the "saved" notice; it stays up for the notice window.
    pub fn saved(&mut self, now_ms: u64)
        requires
            now_ms + NOTICE_MILLIS <= u64::MAX,
        ensures
            final(self).saved_spec(),
            final(self).reset_spec() == old(self).reset_spec(),
            !final(self).saved_expired(now_ms),
    {
        self.saved = true;
        self.saved_deadline = Some(now_ms + NOTICE_MILLIS);
    }

    /// Raise the "reset" notice; it stays up for the notice window.
    pub fn reset(&mut self, now_ms: u64)
        requires
            now_ms + NOTICE_MILLIS <= u64::MAX,
        ensures
            final(self).reset_spec(),
            final(self).saved_spec() == old(self).saved_spec(),
            !final(self).reset_expired(now_ms),
    {
        self.reset = true;
        self.reset_deadline = Some(now_ms + NOTICE_MILLIS);
    }

    /// Drop every notice whose deadline has passed.
    fn scan_expiration_and_reset(&mut self, now_ms: u64)
        ensures
            final(self).saved_spec() == (old(self).saved_spec() && !old(self).saved_expired(
                now_ms,
            )),
            final(self).reset_spec() == (old(self).reset_spec() && !old(self).reset_expired(
                now_ms,
            )),
            !final(self).saved_expired(now_ms),
            !final(self).reset_expired(now_ms),
    {
        let expired_saved = match self.saved_deadline {
            Some(d) => now_ms >= d,
            None => false,
        };
        if expired_saved {
            self.saved = false;
            self.saved_deadline = None;
        }
        let expired_reset = match self.reset_deadline {
            Some(d) => now_ms >= d,
            None => false,
        };
        if expired_reset {
            self.reset = false;
            self.reset_deadline = None;
        }
    }

    /// Is the "saved" notice still up at `now`?
    pub fn is_saved(&mut self, now_ms: u64) -> (r: bool)
        ensures
            r == (old(self).saved_spec() && !old(self).saved_expired(now_ms)),
            final(self).saved_spec() == r,
            final(self).reset_spec() == (old(self).reset_spec() && !old(self).reset_expired(
                now_ms,
            )),
    {
        self.scan_expiration_and_reset(now_ms);
        self.saved
    }

    /// Is the "reset" notice still up at `now`?
    pub fn is_reset(&mut self, now_ms: u64) -> (r: bool)
        ensures
            r == (old(self).reset_spec() && !old(self).reset_expired(now_ms)),
            final(self).reset_spec() == r,
            final(self).saved_spec() == (old(self).saved_spec() && !old(self).saved_expired(
                now_ms,
            )),
    {
        self.scan_expiration_and_reset(now_ms);
        self.reset
    }

    /// The human-readable status line at `now`, expired notices dropped.
    pub fn get_human_text(&mut self, now_ms: u64) -> (r: &'static str)
        ensures
            final(self).saved_spec() && final(self).reset_spec() ==> r@ == (
            "The rank has been saved & reset!")@,
            final(self).saved_spec() && !final(self).reset_spec() ==> r@ == (
            "The rank has been saved!")@,
            !final(self).saved_spec() && final(self).reset_spec() ==> r@ == (
            "The rank has been reset!")@,
            !final(self).saved_spec() && !final(self).reset_spec() ==> r@ == ""@,
            final(self).saved_spec() == (old(self).saved_spec() && !old(self).saved_expired(
                now_ms,
            )),
            final(self).reset_spec() == (old(self).reset_spec() && !old(self).reset_expired(
                now_ms,
            )),
    {
        self.scan_expiration_and_reset(now_ms);
        if self.saved && self.reset {
            "The rank has been saved & reset!"
        } else if self.saved {
            "The rank has been saved!"
        } else if self.reset {
            "The rank has been reset!"
        } else {
            ""
        }
    }
}

} // verus!
