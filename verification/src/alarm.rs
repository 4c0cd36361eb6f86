//! An alarm that waits before it goes off.

use vstd::prelude::*;

verus! {

/// What came of looking at an alarm's condition.
#[derive(Clone, Copy, Debug, PartialEq, Eq, Structural)]
pub enum AlarmStatus {
    /// The condition has now held for long enough.
    Triggered,
    /// The alarm had gone off, and the condition no longer holds.
    Resolved,
    Unchanged,
}

/// An alarm that goes off once its condition has held for a while. Times are in
/// milliseconds, on a clock of the caller's.
#[derive(Clone, Copy, Debug, PartialEq, Eq, Structural)]
pub struct DebouncedAlarm {
    pub debounce_ms: u64,
    /// Since when the condition holds, if it does.
    pub since_ms: Option<u64>,
    /// Whether the alarm has gone off since then.
    pub fired: bool,
}

/// Since when a condition that holds now has held.
pub open spec fn held_since(alarm: DebouncedAlarm, now_ms: u64) -> u64 {
    match alarm.since_ms {
        Some(since) => since,
        None => now_ms,
    }
}

/// What comes of looking at the condition.
pub open spec fn alarm_status(alarm: DebouncedAlarm, condition: bool, now_ms: u64) -> AlarmStatus {
    if !condition {
        if alarm.fired {
            AlarmStatus::Resolved
        } else {
            AlarmStatus::Unchanged
        }
    } else if !alarm.fired && now_ms - held_since(alarm, now_ms) >= alarm.debounce_ms {
        AlarmStatus::Triggered
    } else {
        AlarmStatus::Unchanged
    }
}

/// The alarm after looking at the condition.
pub open spec fn alarm_after(
    alarm: DebouncedAlarm,
    condition: bool,
    now_ms: u64,
) -> DebouncedAlarm {
    if condition {
        DebouncedAlarm {
            since_ms: Some(held_since(alarm, now_ms)),
            fired: alarm.fired || alarm_status(alarm, condition, now_ms) == AlarmStatus::Triggered,
            ..alarm
        }
    } else {
        DebouncedAlarm { since_ms: None, fired: false, ..alarm }
    }
}

impl DebouncedAlarm {
    /// An alarm whose condition does not hold.
    pub fn new(debounce_ms: u64) -> (r: DebouncedAlarm)
        ensures
            r == (DebouncedAlarm { debounce_ms, since_ms: None, fired: false }),
    {
        DebouncedAlarm { debounce_ms, since_ms: None, fired: false }
    }

    /// Forgets how long the condition has held.
    pub fn reset(&mut self)
        ensures
            *final(self) == (DebouncedAlarm { since_ms: None, fired: false, ..*old(self) }),
    {
        self.since_ms = None;
        self.fired = false;
    }

    /// Looks at the condition.
    pub fn check(&mut self, condition: bool, now_ms: u64) -> (r: AlarmStatus)
        ensures
            r == alarm_status(*old(self), condition, now_ms),
            *final(self) == alarm_after(*old(self), condition, now_ms),
    {
        if !condition {
            let fired: bool = self.fired;
            self.reset();
            return if fired {
                AlarmStatus::Resolved
            } else {
                AlarmStatus::Unchanged
            };
        }
        let since: u64 = match self.since_ms {
            Some(since) => since,
            None => now_ms,
        };
        self.since_ms = Some(since);
        if !self.fired && now_ms >= since && now_ms - since >= self.debounce_ms {
            self.fired = true;
            AlarmStatus::Triggered
        } else {
            AlarmStatus::Unchanged
        }
    }
}

/// An alarm that has gone off does not go off again while its condition holds.
/// Once the condition has ceased, that is told once.
pub proof fn law_alarm_goes_off_once(alarm: DebouncedAlarm, first_ms: u64, then_ms: u64)
    requires
        alarm_status(alarm, true, first_ms) == AlarmStatus::Triggered,
    ensures
        ({
            let fired = alarm_after(alarm, true, first_ms);
            let ceased = alarm_after(fired, false, then_ms);
            &&& alarm_status(fired, true, then_ms) == AlarmStatus::Unchanged
            &&& alarm_after(fired, true, then_ms) == fired
            &&& alarm_status(fired, false, then_ms) == AlarmStatus::Resolved
            &&& alarm_status(ceased, false, then_ms) == AlarmStatus::Unchanged
        }),
{
}

/// A condition that begins at one time and still holds at a later one sets the
/// alarm off then exactly when it has held for the whole wait; a break in between
/// makes it wait anew.
pub proof fn law_alarm_waits(alarm: DebouncedAlarm, first_ms: u64, break_ms: u64, then_ms: u64)
    requires
        alarm.since_ms is None,
        !alarm.fired,
        alarm.debounce_ms > 0,
        first_ms <= break_ms <= then_ms,
    ensures
        ({
            let held = alarm_after(alarm, true, first_ms);
            let broken = alarm_after(held, false, break_ms);
            &&& alarm_status(alarm, true, first_ms) == AlarmStatus::Unchanged
            &&& alarm_status(held, true, then_ms) == AlarmStatus::Triggered <==> then_ms - first_ms
                >= alarm.debounce_ms
            &&& alarm_after(held, true, break_ms).since_ms == held.since_ms
            &&& broken == alarm
            &&& alarm_status(broken, true, then_ms) == AlarmStatus::Unchanged
            &&& alarm_status(alarm, false, first_ms) == AlarmStatus::Unchanged
        }),
{
}

} // verus!
