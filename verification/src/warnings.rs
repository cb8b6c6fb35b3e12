//! When the monitor speaks up on its own: load warnings, held back so that
//! they do not repeat at once, and regular status updates.
//!
//! Times are whole seconds on a clock that does not run backwards.

use vstd::prelude::*;
use crate::message_system::strings_view;

verus! {

/// Seconds that must have passed since a warning before the same kind of
/// warning is given again.
pub const WARNING_PAUSE: u64 = 30;

/// When each kind of announcement was last made.
#[derive(Debug, Clone, Copy)]
pub struct WarningSchedule {
    pub last_cpu_warning: Option<u64>,
    pub last_memory_warning: Option<u64>,
    pub last_status_update: u64,
}

/// One reading of the load. `cpu_usage` is a percentage in tenths of a
/// point; the memory sizes are bytes.
#[derive(Debug, Clone, Copy)]
pub struct LoadReading {
    pub cpu_usage: u32,
    pub memory_used: u64,
    pub memory_total: u64,
}

/// Which announcements are due.
#[derive(Debug, Clone, Copy, PartialEq, Eq, Structural)]
pub struct Announcements {
    pub cpu_warning: bool,
    pub memory_warning: bool,
    pub status_update: bool,
}

/// The seconds from `earlier` to `now`, zero where `earlier` is not in the
/// past.
pub open spec fn elapsed(earlier: nat, now: nat) -> nat {
    if now >= earlier {
        (now - earlier) as nat
    } else {
        0
    }
}

/// Whether a warning last given at `last` may be given again at `now`:
/// never given before, or more than [`WARNING_PAUSE`] seconds ago.
pub open spec fn may_warn(last: Option<u64>, now: u64) -> bool {
    match last {
        None => true,
        Some(t) => elapsed(t as nat, now as nat) > WARNING_PAUSE,
    }
}

/// Whether more than nine tenths of the memory are in use.
pub open spec fn memory_is_tight(used: nat, total: nat) -> bool {
    used * 10 > total * 9
}

/// The announcements due at `now` for a reading: a processor warning where
/// the usage is above `cpu_threshold`, a memory warning where memory is
/// tight, each only if it may be given again; a status update once
/// `update_interval` seconds have passed since the last.
pub open spec fn due(
    schedule: WarningSchedule,
    now: u64,
    reading: LoadReading,
    cpu_threshold: u32,
    update_interval: u64,
) -> Announcements {
    Announcements {
        cpu_warning: reading.cpu_usage > cpu_threshold && may_warn(schedule.last_cpu_warning, now),
        memory_warning: memory_is_tight(reading.memory_used as nat, reading.memory_total as nat)
            && may_warn(schedule.last_memory_warning, now),
        status_update: elapsed(schedule.last_status_update as nat, now as nat) >= update_interval,
    }
}

/// The schedule after the announcements `made` were made at `now`.
pub open spec fn advanced(schedule: WarningSchedule, now: u64, made: Announcements) -> WarningSchedule {
    WarningSchedule {
        last_cpu_warning: if made.cpu_warning {
            Some(now)
        } else {
            schedule.last_cpu_warning
        },
        last_memory_warning: if made.memory_warning {
            Some(now)
        } else {
            schedule.last_memory_warning
        },
        last_status_update: if made.status_update {
            now
        } else {
            schedule.last_status_update
        },
    }
}

impl Announcements {
    /// The kinds of the announcements that are due, in the order in which
    /// they are made: the processor warning, the memory warning, the status
    /// update. Each is a speak request of its own.
    pub open spec fn triggers(self) -> Seq<Seq<char>> {
        (if self.cpu_warning {
            seq!["cpu_warning"@]
        } else {
            Seq::<Seq<char>>::empty()
        }) + (if self.memory_warning {
            seq!["memory_warning"@]
        } else {
            Seq::<Seq<char>>::empty()
        }) + (if self.status_update {
            seq!["status_update"@]
        } else {
            Seq::<Seq<char>>::empty()
        })
    }

    /// Computes [`Announcements::triggers`].
    pub fn trigger_kinds(&self) -> (r: Vec<String>)
        ensures
            strings_view(r@) == self.triggers(),
    {
        let mut r: Vec<String> = Vec::new();
        if self.cpu_warning {
            r.push(String::from_str("cpu_warning"));
        }
        if self.memory_warning {
            r.push(String::from_str("memory_warning"));
        }
        if self.status_update {
            r.push(String::from_str("status_update"));
        }
        assert(strings_view(r@) =~= self.triggers());
        r
    }
}

fn may_warn_again(last: Option<u64>, now: u64) -> (r: bool)
    ensures
        r == may_warn(last, now),
{
    match last {
        None => true,
        Some(t) => now >= t && now - t > WARNING_PAUSE,
    }
}

impl WarningSchedule {
    /// A schedule on which no warning was given yet and the status was last
    /// announced at `now`.
    pub fn new(now: u64) -> (r: Self)
        ensures
            r == (WarningSchedule {
                last_cpu_warning: None,
                last_memory_warning: None,
                last_status_update: now,
            }),
    {
        WarningSchedule { last_cpu_warning: None, last_memory_warning: None, last_status_update: now }
    }

    /// Decides which announcements are due at `now` and notes them as made;
    /// see [`due`] and [`advanced`].
    pub fn check_system_warnings(
        &mut self,
        now: u64,
        reading: LoadReading,
        cpu_threshold: u32,
        update_interval: u64,
    ) -> (made: Announcements)
        ensures
            made == due(*old(self), now, reading, cpu_threshold, update_interval),
            *final(self) == advanced(*old(self), now, made),
    {
        let cpu_warning = reading.cpu_usage > cpu_threshold && may_warn_again(
            self.last_cpu_warning,
            now,
        );
        let memory_warning = (reading.memory_used as u128) * 10 > (reading.memory_total as u128) * 9
            && may_warn_again(self.last_memory_warning, now);
        let since: u64 = if now >= self.last_status_update {
            now - self.last_status_update
        } else {
            0
        };
        let status_update = since >= update_interval;
        if cpu_warning {
            self.last_cpu_warning = Some(now);
        }
        if memory_warning {
            self.last_memory_warning = Some(now);
        }
        if status_update {
            self.last_status_update = now;
        }
        Announcements { cpu_warning, memory_warning, status_update }
    }
}

/// A warning that was just given is not given again within the pause.
pub proof fn lemma_warnings_do_not_repeat(
    schedule: WarningSchedule,
    now: u64,
    later: u64,
    reading: LoadReading,
    next: LoadReading,
    cpu_threshold: u32,
    update_interval: u64,
)
    requires
        now <= later <= now + WARNING_PAUSE,
    ensures
        ({
            let made = due(schedule, now, reading, cpu_threshold, update_interval);
            let again = due(advanced(schedule, now, made), later, next, cpu_threshold, update_interval);
            &&& made.cpu_warning ==> !again.cpu_warning
            &&& made.memory_warning ==> !again.memory_warning
        }),
{
}

} // verus!
