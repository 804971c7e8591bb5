//! Local wall-clock time as plain integers, and the choice of the forecast day.
use vstd::prelude::*;

verus! {

/// Seconds in one day.
pub const SECS_PER_DAY: i64 = 86400;

/// Seconds in one hour.
pub const SECS_PER_HOUR: i64 = 3600;

/// Largest local time, in seconds since 1970-01-01 00:00 local, that a [`LocalTime`] holds.
pub const MAX_LOCAL_SECS: i64 = 0x100_0000_0000;

/// The hour at which the forecast switches to the next day when none is configured.
pub const DEFAULT_ROLLOVER_HOUR: u32 = 5;

/// An instant together with the offsets of the local time zone at that instant and at the
/// local midnight that starts its day (they differ on a day that daylight saving changes).
#[derive(Clone, Copy, Debug, PartialEq, Eq)]
pub struct LocalTime {
    /// Seconds since 1970-01-01 00:00 UTC.
    pub epoch: i64,
    /// Local time minus UTC at `epoch`, in seconds.
    pub utc_offset: i64,
    /// Local time minus UTC at the local midnight that starts the day of `epoch`, in seconds.
    pub midnight_offset: i64,
}

/// The local hour of day (0..24) of local seconds `l`.
pub open spec fn hour_of(l: int) -> int {
    (l % (SECS_PER_DAY as int)) / (SECS_PER_HOUR as int)
}

/// The 12-hour clock reading (1..=12) of hour `h`.
pub open spec fn hour12_of(h: int) -> int {
    if h % 12 == 0 { 12 } else { h % 12 }
}

impl LocalTime {
    /// The offsets are less than a day, and the local time lies in 1970..MAX_LOCAL_SECS.
    pub open spec fn wf(&self) -> bool {
        -SECS_PER_DAY < self.utc_offset < SECS_PER_DAY
        && -SECS_PER_DAY < self.midnight_offset < SECS_PER_DAY
        && 0 <= self.epoch + self.utc_offset <= MAX_LOCAL_SECS
    }

    /// Seconds since 1970-01-01 00:00 in local time.
    pub open spec fn local_secs(&self) -> int {
        self.epoch + self.utc_offset
    }

    /// The instant of the local midnight that starts the current day.
    pub open spec fn midnight_spec(&self) -> int {
        self.local_secs() - self.local_secs() % (SECS_PER_DAY as int) - self.midnight_offset
    }

    /// The instant at which the forecast day starts: today's local midnight before the
    /// rollover hour, 24 hours after it from the rollover hour on.
    pub open spec fn window_start_spec(&self, rollover: u32) -> int {
        if hour_of(self.local_secs()) < rollover as int {
            self.midnight_spec()
        } else {
            self.midnight_spec() + SECS_PER_DAY
        }
    }

    /// Checks that the offsets and the local time are in range.
    pub fn is_valid(&self) -> (r: bool)
        ensures
            r == self.wf(),
    {
        -SECS_PER_DAY < self.utc_offset && self.utc_offset < SECS_PER_DAY
            && -SECS_PER_DAY < self.midnight_offset && self.midnight_offset < SECS_PER_DAY
            && self.epoch >= -SECS_PER_DAY && self.epoch <= MAX_LOCAL_SECS + SECS_PER_DAY
            && 0 <= self.epoch + self.utc_offset && self.epoch + self.utc_offset <= MAX_LOCAL_SECS
    }

    /// The local hour of day, 0 to 23.
    pub fn hour(&self) -> (r: u32)
        requires
            self.wf(),
        ensures
            r as int == hour_of(self.local_secs()),
            r < 24,
    {
        let l: i64 = self.epoch + self.utc_offset;
        ((l % SECS_PER_DAY) / SECS_PER_HOUR) as u32
    }

    /// The hour on a 12-hour clock, 1 to 12.
    pub fn hour12(&self) -> (r: u32)
        requires
            self.wf(),
        ensures
            r as int == hour12_of(hour_of(self.local_secs())),
            1 <= r <= 12,
    {
        let h: u32 = self.hour();
        if h % 12 == 0 { 12 } else { h % 12 }
    }

    /// The instant of today's local midnight.
    pub fn midnight(&self) -> (r: i64)
        requires
            self.wf(),
        ensures
            r as int == self.midnight_spec(),
    {
        let l: i64 = self.epoch + self.utc_offset;
        l - l % SECS_PER_DAY - self.midnight_offset
    }

    /// The instant at which the 24-hour forecast window starts (see `window_start_spec`).
    pub fn window_start(&self, rollover: u32) -> (r: i64)
        requires
            self.wf(),
        ensures
            r as int == self.window_start_spec(rollover),
            r as int == self.midnight_spec() || r as int == self.midnight_spec() + SECS_PER_DAY,
    {
        let m: i64 = self.midnight();
        if self.hour() < rollover {
            m
        } else {
            m + SECS_PER_DAY
        }
    }
}

/// Before the rollover hour the window starts at today's local midnight; from the rollover
/// hour on, 24 hours later. Today's local midnight is a whole day in local time, and where the
/// offset has not changed since it, it lies in the 24 hours up to the current instant.
pub proof fn lemma_rollover_picks_day(t: LocalTime, rollover: u32)
    requires
        t.wf(),
    ensures
        hour_of(t.local_secs()) < rollover ==> t.window_start_spec(rollover) == t.midnight_spec(),
        hour_of(t.local_secs()) >= rollover ==> t.window_start_spec(rollover) == t.midnight_spec()
            + SECS_PER_DAY,
        (t.midnight_spec() + t.midnight_offset) % (SECS_PER_DAY as int) == 0,
        t.midnight_offset == t.utc_offset ==> t.midnight_spec() <= t.epoch < t.midnight_spec()
            + SECS_PER_DAY,
{
    let l = t.local_secs();
    let d = SECS_PER_DAY as int;
    assert((l - l % d) % d == 0) by (nonlinear_arith)
        requires d == 86400, l >= 0;
}

} // verus!
