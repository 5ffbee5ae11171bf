//! Change-notification events and the shared output formatting.
//!
//! The notification channel is subsystem-wide: it carries events for every
//! backlight device, each with an event kind and the originating device's
//! name. The library only consumes change events and filters them against
//! the bound handle's id (see `Backlight::should_notify`); establishing the
//! subscription and blocking on the socket happen outside the library, which
//! is handed one plain event at a time.

use vstd::prelude::*;
use crate::decimal::{spec_render_i32, render_numeric_value};
use crate::percentage::{spec_percentage_of, calculate_percentage};

verus! {

/// The kind of a device-change notification. Only `Change` ever produces a
/// callback; every other kind is folded into `Other` and discarded.
#[derive(Clone, Copy, Debug, PartialEq, Eq, Structural)]
pub enum EventKind {
    Change,
    Other,
}

/// One notification from the subsystem-wide change stream.
#[derive(Debug)]
pub struct MonitorEvent {
    pub kind: EventKind,
    pub device_name: String,
}

/// Renders a brightness reading the way the command surface shows it:
/// the bare value, or its percentage of `max` followed by `%`. The monitor
/// loop and a manual query use this same rule.
pub fn format_brightness(max: i32, current: i32, display_percentage: bool) -> (s: String)
    requires
        display_percentage ==> max > 0,
        display_percentage ==> i32::MIN <= spec_percentage_of(max as int, current as int)
            <= i32::MAX,
    ensures
        !display_percentage ==> s@ == spec_render_i32(current as int),
        display_percentage ==> s@ == spec_render_i32(
            spec_percentage_of(max as int, current as int),
        ) + "%"@,
{
    if display_percentage {
        let p = calculate_percentage(max, current);
        let mut s = render_numeric_value(p);
        s.append("%");
        s
    } else {
        render_numeric_value(current)
    }
}

} // verus!
