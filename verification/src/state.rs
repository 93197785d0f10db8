//! Change detection for the clipboard monitor: the hash of the content last
//! seen, and suppression of the echo of our own clipboard writes.

use vstd::prelude::*;

verus! {

/// How long (ms) after a programmatic clipboard write changes are ignored,
/// so our own paste-back write isn't recorded as a new history entry.
pub const SUPPRESS_WINDOW_MS: u64 = 1200;

/// Monitor bookkeeping. Times are milliseconds of a monotonic clock.
pub struct MonitorState {
    /// Hash of the last clipboard content observed.
    pub last_seen_hash: Option<String>,
    /// When set (and not yet elapsed), the next observed change is treated
    /// as our own write and skipped.
    pub suppress_until: Option<u64>,
}

/// The view of an optional string.
pub open spec fn opt_chars(o: Option<String>) -> Option<Seq<char>> {
    match o {
        Some(s) => Some(s@),
        None => None,
    }
}

impl MonitorState {
    /// Nothing seen, nothing suppressed.
    pub fn new() -> (r: MonitorState)
        ensures
            r.last_seen_hash is None,
            r.suppress_until is None,
    {
        MonitorState { last_seen_hash: None, suppress_until: None }
    }

    /// Arm suppression before a programmatic clipboard write.
    pub fn arm_suppress(&mut self, now: u64)
        requires
            now + SUPPRESS_WINDOW_MS <= u64::MAX,
        ensures
            final(self).suppress_until == armed_until(now),
            final(self).last_seen_hash == old(self).last_seen_hash,
    {
        self.suppress_until = Some(now + SUPPRESS_WINDOW_MS);
    }

    /// Whether suppression is active at `now`; the flag is cleared either way.
    pub fn consume_suppress(&mut self, now: u64) -> (active: bool)
        ensures
            active == suppress_active(old(self).suppress_until, now),
            final(self).suppress_until is None,
            final(self).last_seen_hash == old(self).last_seen_hash,
    {
        let active = match self.suppress_until {
            Some(t) => now < t,
            None => false,
        };
        self.suppress_until = None;
        active
    }

    /// Record the hash of the content last seen.
    pub fn set_last_seen(&mut self, hash: Option<String>)
        ensures
            final(self).last_seen_hash == hash,
            final(self).suppress_until == old(self).suppress_until,
    {
        self.last_seen_hash = hash;
    }

    /// The hash of the content last seen.
    pub fn last_seen(&self) -> (r: Option<String>)
        ensures
            r == self.last_seen_hash,
    {
        crate::text::copy_opt_string(&self.last_seen_hash)
    }

    /// One poll of the monitor with the current content's hash: `false` when
    /// nothing changed since the last poll, or when the change is the echo of
    /// our own write (suppression active); `true` when the change should be
    /// recorded. The hash becomes the last seen either way.
    pub fn observe(&mut self, hash: &str, now: u64) -> (record: bool)
        ensures
            opt_chars(final(self).last_seen_hash) == Some(hash@),
            record == observe_records(
                opt_chars(old(self).last_seen_hash),
                old(self).suppress_until,
                hash@,
                now,
            ),
            opt_chars(old(self).last_seen_hash) == Some(hash@) ==> final(self).suppress_until
                == old(self).suppress_until,
            opt_chars(old(self).last_seen_hash) != Some(hash@) ==> final(self).suppress_until is None,
    {
        let same = match &self.last_seen_hash {
            Some(h) => crate::text::str_eq(h.as_str(), hash),
            None => false,
        };
        if same {
            return false;
        }
        self.last_seen_hash = Some(hash.to_owned());
        !self.consume_suppress(now)
    }

    /// Bookkeeping for our own clipboard write of content with hash `hash`:
    /// arm suppression and mark the content as already seen.
    pub fn note_own_write(&mut self, hash: String, now: u64)
        requires
            now + SUPPRESS_WINDOW_MS <= u64::MAX,
        ensures
            final(self).last_seen_hash == Some(hash),
            final(self).suppress_until == Some((now + SUPPRESS_WINDOW_MS) as u64),
    {
        self.arm_suppress(now);
        self.set_last_seen(Some(hash));
    }
}

/// The suppression deadline that arming at `now` sets.
pub open spec fn armed_until(now: u64) -> Option<u64> {
    Some((now + SUPPRESS_WINDOW_MS) as u64)
}

/// Whether suppression with this deadline is active at `now`.
pub open spec fn suppress_active(until: Option<u64>, now: u64) -> bool {
    until matches Some(t) && now < t
}

/// Suppression is taken once: after arming at `t0`, the first consumption
/// at `now` answers whether `now` is still inside the window, and, the flag
/// being cleared by it, any later consumption answers no.
pub proof fn law_suppress_consumed_once(t0: u64, now: u64, later: u64)
    requires
        t0 + SUPPRESS_WINDOW_MS <= u64::MAX,
    ensures
        suppress_active(armed_until(t0), now) == (now < t0 + SUPPRESS_WINDOW_MS),
        !suppress_active(None, later),
{
}

/// Whether a poll that sees content `hash` at `now` records it, given the
/// last seen hash and the suppression deadline before the poll.
pub open spec fn observe_records(
    last: Option<Seq<char>>,
    until: Option<u64>,
    hash: Seq<char>,
    now: u64,
) -> bool {
    last != Some(hash) && !(until matches Some(t) && now < t)
}

/// Our own write is not recorded: after noting a write of content `h` at
/// `t`, no poll within the suppression window records anything, whatever
/// content it sees.
pub proof fn law_own_write_not_recorded(h: Seq<char>, t: u64, seen: Seq<char>, now: u64)
    requires
        t + SUPPRESS_WINDOW_MS <= u64::MAX,
        now < t + SUPPRESS_WINDOW_MS,
    ensures
        !observe_records(Some(h), Some((t + SUPPRESS_WINDOW_MS) as u64), seen, now),
{
}

/// Once the window has passed, new content is recorded again.
pub proof fn law_recorded_after_window(h: Seq<char>, t: u64, seen: Seq<char>, now: u64)
    requires
        t + SUPPRESS_WINDOW_MS <= u64::MAX,
        now >= t + SUPPRESS_WINDOW_MS,
        seen != h,
    ensures
        observe_records(Some(h), Some((t + SUPPRESS_WINDOW_MS) as u64), seen, now),
{
}

} // verus!
