use vstd::prelude::*;

verus! {

/// A start-rate limiter: at most `burst` starts within each window of
/// `interval` microseconds. Times come from a monotonic clock read by the
/// caller.
pub struct RateLimit {
    pub interval: u64,
    pub burst: u32,
    /// Start of the current window, where one is open.
    pub begin: Option<u64>,
    /// Starts granted in the current window.
    pub num: u32,
}

/// Whether a call at `now` opens a new window.
pub open spec fn window_expired(begin: Option<u64>, interval: u64, now: u64) -> bool {
    match begin {
        None => true,
        Some(b) => now < b || now - b > interval,
    }
}

/// The limiter after taking a configured interval and burst.
pub open spec fn spec_init(l: RateLimit, interval: u64, burst: u32) -> RateLimit {
    if interval > 0 && burst > 0 && (interval != l.interval || burst != l.burst) {
        RateLimit { interval, burst, begin: None, num: 0 }
    } else {
        l
    }
}

/// The limiter after a start attempt at `now`, and whether it was allowed.
pub open spec fn spec_below(l: RateLimit, now: u64) -> (RateLimit, bool) {
    if l.interval == 0 || l.burst == 0 {
        (l, true)
    } else if window_expired(l.begin, l.interval, now) {
        (RateLimit { begin: Some(now), num: 1, ..l }, true)
    } else if l.num < l.burst {
        (RateLimit { num: (l.num + 1) as u32, ..l }, true)
    } else {
        (l, false)
    }
}

/// The outcome of a start attempt on a limiter.
#[derive(Clone, Copy, Debug, PartialEq, Eq, Structural)]
pub enum StartLimitResult {
    StartLimitNotHit,
    StartLimitHit,
}

impl RateLimit {
    /// At most `burst` grants are counted in a window.
    pub open spec fn wf(&self) -> bool {
        self.burst == 0 || self.num <= self.burst
    }

    /// A limiter with no open window; an interval or burst of 0 means no limit.
    pub fn new(interval: u64, burst: u32) -> (r: RateLimit)
        ensures
            r.interval == interval,
            r.burst == burst,
            r.begin is None,
            r.num == 0,
            r.wf(),
    {
        RateLimit { interval, burst, begin: None, num: 0 }
    }

    /// Takes the unit's configured interval and burst where both are set
    /// and differ from the current ones; a changed limit starts afresh.
    pub fn init_from_config(&mut self, interval: u64, burst: u32)
        ensures
            *final(self) == spec_init(*old(self), interval, burst),
            (interval > 0 && burst > 0 && (interval != old(self).interval || burst != old(self).burst)) ==> (final(self).interval == interval && final(self).burst == burst
                && final(self).begin is None && final(self).num == 0),
            !(interval > 0 && burst > 0 && (interval != old(self).interval || burst != old(self).burst)) ==> *final(self) == *old(self),
    {
        if interval > 0 && burst > 0 && (interval != self.interval || burst != self.burst) {
            self.interval = interval;
            self.burst = burst;
            self.begin = None;
            self.num = 0;
        }
    }

    /// Whether a start at `now` is allowed. Without a limit it always is.
    /// A call after the window expired opens a new one at `now` and is
    /// allowed; within the window the first `burst` calls are allowed and the
    /// rest refused.
    pub fn ratelimit_below(&mut self, now: u64) -> (r: bool)
        requires
            old(self).wf(),
        ensures
            final(self).wf(),
            (*final(self), r) == spec_below(*old(self), now),
            final(self).interval == old(self).interval,
            final(self).burst == old(self).burst,
            (old(self).interval == 0 || old(self).burst == 0) ==> r && *final(self) == *old(self),
            (old(self).interval > 0 && old(self).burst > 0 && window_expired(
                old(self).begin,
                old(self).interval,
                now,
            )) ==> r && final(self).begin == Some(now) && final(self).num == 1,
            (old(self).interval > 0 && old(self).burst > 0 && !window_expired(
                old(self).begin,
                old(self).interval,
                now,
            )) ==> r == (old(self).num < old(self).burst) && final(self).begin == old(self).begin
                && final(self).num == (if r {
                old(self).num + 1
            } else {
                old(self).num as int
            }),
    {
        if self.interval == 0 || self.burst == 0 {
            return true;
        }
        let expired = match self.begin {
            None => true,
            Some(b) => now < b || now - b > self.interval,
        };
        if expired {
            self.begin = Some(now);
            self.num = 1;
            return true;
        }
        if self.num < self.burst {
            self.num = self.num + 1;
            return true;
        }
        false
    }

    /// Records a start attempt at `now`: `StartLimitHit` where it was refused.
    pub fn test_start_limit(&mut self, now: u64) -> (r: StartLimitResult)
        requires
            old(self).wf(),
        ensures
            final(self).wf(),
            (*final(self), r == StartLimitResult::StartLimitNotHit) == spec_below(*old(self), now),
            (old(self).interval == 0 || old(self).burst == 0 || window_expired(
                old(self).begin,
                old(self).interval,
                now,
            )) ==> r == StartLimitResult::StartLimitNotHit,
            (old(self).interval > 0 && old(self).burst > 0 && !window_expired(
                old(self).begin,
                old(self).interval,
                now,
            )) ==> (r == StartLimitResult::StartLimitNotHit) == (old(self).num < old(self).burst),
    {
        if self.ratelimit_below(now) {
            StartLimitResult::StartLimitNotHit
        } else {
            StartLimitResult::StartLimitHit
        }
    }
}

} // verus!
