//! The uptime widget: tracks how many whole days the machine has stayed
//! up, as a streak persisted by the surrounding program.

use vstd::prelude::*;
use crate::text::{parse_u64_digits, parse_u64_or_zero};

verus! {

/// Derived state of the uptime widget.
pub struct UptimeWidgetState {
    /// Whole days of uptime carried over from earlier runs.
    pub streak: u64,
}

impl UptimeWidgetState {
    pub fn new(streak: u64) -> (s: Self)
        ensures
            s.streak == streak,
    {
        UptimeWidgetState { streak }
    }

    /// Restores the streak from its persisted text: the recorded number of
    /// days, or zero when the text is not a number.
    pub fn from_saved_text(text: &str) -> (s: Self)
        ensures
            s.streak == parse_u64_or_zero(text@),
    {
        UptimeWidgetState { streak: parse_u64_digits(text) }
    }
}

impl Default for UptimeWidgetState {
    /// Without a persisted record the streak starts at zero.
    fn default() -> (s: Self)
        ensures
            s.streak == 0,
    {
        UptimeWidgetState { streak: 0 }
    }
}

} // verus!
