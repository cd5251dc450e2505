//! The units of time in which a remaining time is displayed.

use vstd::prelude::*;

verus! {

/// Seconds in one second.
pub const SECOND: u64 = 1;

/// Seconds in one minute.
pub const MINUTE: u64 = 60 * SECOND;

/// Seconds in one hour.
pub const HOUR: u64 = 60 * MINUTE;

/// Seconds in one day.
pub const DAY: u64 = 24 * HOUR;

/// Seconds in one week.
pub const WEEK: u64 = 7 * DAY;

/// A unit of time, from the smallest to the largest.
#[derive(Clone, Copy, Debug, PartialEq, Eq, Structural)]
pub enum Unit {
    Second,
    Minute,
    Hour,
    Day,
    Week,
}

/// The largest unit that fits into `secs` seconds at least once; `None` where
/// not even a second fits.
pub open spec fn largest_unit(secs: nat) -> Option<Unit> {
    if secs < SECOND {
        None
    } else if secs >= WEEK {
        Some(Unit::Week)
    } else if secs >= DAY {
        Some(Unit::Day)
    } else if secs >= HOUR {
        Some(Unit::Hour)
    } else if secs >= MINUTE {
        Some(Unit::Minute)
    } else {
        Some(Unit::Second)
    }
}

impl Unit {
    /// The length of the unit in seconds.
    pub open spec fn span(self) -> nat {
        match self {
            Unit::Second => SECOND as nat,
            Unit::Minute => MINUTE as nat,
            Unit::Hour => HOUR as nat,
            Unit::Day => DAY as nat,
            Unit::Week => WEEK as nat,
        }
    }

    /// The word displayed for the unit: always the plural, whatever the count.
    pub open spec fn name(self) -> Seq<char> {
        match self {
            Unit::Second => "secs"@,
            Unit::Minute => "mins"@,
            Unit::Hour => "hours"@,
            Unit::Day => "days"@,
            Unit::Week => "weeks"@,
        }
    }

    /// The length of the unit in seconds.
    pub fn secs(self) -> (secs: u64)
        ensures
            secs == self.span(),
    {
        match self {
            Unit::Second => SECOND,
            Unit::Minute => MINUTE,
            Unit::Hour => HOUR,
            Unit::Day => DAY,
            Unit::Week => WEEK,
        }
    }

    /// The word displayed for the unit.
    pub fn label(self) -> (label: &'static str)
        ensures
            label@ == self.name(),
    {
        match self {
            Unit::Second => "secs",
            Unit::Minute => "mins",
            Unit::Hour => "hours",
            Unit::Day => "days",
            Unit::Week => "weeks",
        }
    }

    /// The largest unit that fits into `eta_secs` seconds at least once.
    pub fn largest_in(eta_secs: u64) -> (unit: Option<Unit>)
        ensures
            unit == largest_unit(eta_secs as nat),
    {
        if eta_secs < SECOND {
            None
        } else if eta_secs >= WEEK {
            Some(Unit::Week)
        } else if eta_secs >= DAY {
            Some(Unit::Day)
        } else if eta_secs >= HOUR {
            Some(Unit::Hour)
        } else if eta_secs >= MINUTE {
            Some(Unit::Minute)
        } else {
            Some(Unit::Second)
        }
    }
}

/// `largest_unit` names the unit that fits and is no shorter than any
/// other unit that fits, where a unit fits from its own length on. It
/// names none for zero seconds only.
pub proof fn lemma_largest_unit_is_largest_fitting(secs: nat, unit: Unit)
    ensures
        largest_unit(secs) == Some(unit) <==> {
            &&& unit.span() <= secs
            &&& forall|other: Unit|
                #![trigger other.span()]
                other.span() <= secs ==> other.span() <= unit.span()
        },
        largest_unit(secs) is None <==> secs == 0,
{
    if unit.span() <= secs && largest_unit(secs) != Some(unit) {
        let named = largest_unit(secs)->Some_0;
        assert(named.span() <= secs);
    }
}

} // verus!
