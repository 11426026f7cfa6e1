//! The collection thread's decision logic: its runtime configuration, the
//! control messages the main loop sends it, and how each message changes
//! the state that governs harvesting and the timed idle wait. The loop
//! around it — invoking the harvester, sending the snapshot, sleeping —
//! lives with the thread itself; everything it decides is decided here.

use vstd::prelude::*;
use crate::config::{AppConfigFields, TemperatureType};

verus! {

/// The harvester settings that can change at runtime.
#[derive(Clone, Copy, Debug, PartialEq, Eq, Structural)]
pub struct CollectorConfig {
    pub temperature_type: TemperatureType,
    pub use_current_cpu_total: bool,
    pub unnormalized_cpu: bool,
    pub show_average_cpu: bool,
}

/// Which metric categories any visible widget needs; unused categories are
/// not harvested.
#[derive(Clone, Copy, Debug, PartialEq, Eq, Structural, Default)]
pub struct UsedWidgets {
    pub use_cpu: bool,
    pub use_mem: bool,
    pub use_net: bool,
    pub use_proc: bool,
    pub use_disk: bool,
    pub use_temp: bool,
    pub use_battery: bool,
    pub use_connections: bool,
}

/// Runtime reconfiguration messages from the main loop to the collection
/// thread, polled without blocking once per iteration.
pub enum ThreadControlEvent {
    /// Drop all retained history and start over.
    Reset,
    /// Apply a new temperature unit / CPU accounting mode.
    UpdateConfig(Box<AppConfigFields>),
    /// Restrict harvesting to the categories some widget still shows.
    UpdateUsedWidgets(Box<UsedWidgets>),
    /// Change the tick interval that governs the timed idle wait.
    UpdateUpdateTime(u64),
}

/// What the loop around the state machine must do after handling a control
/// message.
#[derive(Clone, Copy, Debug, PartialEq, Eq, Structural)]
pub enum CollectionAction {
    /// Nothing beyond the state change.
    Continue,
    /// Clear the harvester's retained history.
    ClearHistory,
}

/// The collection thread's state between iterations.
pub struct CollectionState {
    pub config: CollectorConfig,
    pub used_widgets: UsedWidgets,
    /// Interval between harvests, in milliseconds; governs the idle wait.
    pub update_rate_ms: u64,
}

/// The collector settings named by an application configuration.
pub open spec fn collector_config_of(c: AppConfigFields) -> CollectorConfig {
    CollectorConfig {
        temperature_type: c.temperature_type,
        use_current_cpu_total: c.use_current_cpu_total,
        unnormalized_cpu: c.unnormalized_cpu,
        show_average_cpu: c.show_average_cpu,
    }
}

impl CollectionState {
    pub fn new(config: CollectorConfig, used_widgets: UsedWidgets, update_rate_ms: u64) -> (s:
        Self)
        ensures
            s.config == config,
            s.used_widgets == used_widgets,
            s.update_rate_ms == update_rate_ms,
    {
        CollectionState { config, used_widgets, update_rate_ms }
    }

    /// Applies one control message. A new update time governs every later
    /// idle wait; a reset changes no state here but tells the loop to
    /// clear the harvester's history.
    pub fn apply_control(&mut self, msg: ThreadControlEvent) -> (act: CollectionAction)
        ensures
            match msg {
                ThreadControlEvent::Reset => act == CollectionAction::ClearHistory && *final(self)
                    == *old(self),
                ThreadControlEvent::UpdateConfig(c) => act == CollectionAction::Continue && final(self).config == collector_config_of(*c) && final(self).used_widgets == old(self).used_widgets && final(self).update_rate_ms == old(self).update_rate_ms,
                ThreadControlEvent::UpdateUsedWidgets(u) => act == CollectionAction::Continue
                    && final(self).used_widgets == *u && final(self).config == old(self).config
                    && final(self).update_rate_ms == old(self).update_rate_ms,
                ThreadControlEvent::UpdateUpdateTime(t) => act == CollectionAction::Continue
                    && final(self).update_rate_ms == t && final(self).config == old(self).config
                    && final(self).used_widgets == old(self).used_widgets,
            },
    {
        match msg {
            ThreadControlEvent::Reset => CollectionAction::ClearHistory,
            ThreadControlEvent::UpdateConfig(c) => {
                self.config = CollectorConfig {
                    temperature_type: c.temperature_type,
                    use_current_cpu_total: c.use_current_cpu_total,
                    unnormalized_cpu: c.unnormalized_cpu,
                    show_average_cpu: c.show_average_cpu,
                };
                CollectionAction::Continue
            },
            ThreadControlEvent::UpdateUsedWidgets(u) => {
                self.used_widgets = *u;
                CollectionAction::Continue
            },
            ThreadControlEvent::UpdateUpdateTime(t) => {
                self.update_rate_ms = t;
                CollectionAction::Continue
            },
        }
    }

    /// How long the next idle wait between harvests lasts.
    pub fn next_wait_ms(&self) -> (w: u64)
        ensures
            w == self.update_rate_ms,
    {
        self.update_rate_ms
    }

    /// One iteration's decisions, as the loop makes them: observe the
    /// termination flag first; handle at most one pending control message;
    /// report whether to harvest this round, what else to do, and how long
    /// the following idle wait lasts.
    pub fn step(&mut self, terminated: bool, msg: Option<ThreadControlEvent>) -> (r: (
        bool,
        CollectionAction,
        u64,
    ))
        ensures
            r.0 == !terminated,
            terminated ==> *final(self) == *old(self),
            !terminated ==> match msg {
                Some(m) => match m {
                    ThreadControlEvent::Reset => r.1 == CollectionAction::ClearHistory && *final(self) == *old(self),
                    ThreadControlEvent::UpdateConfig(c) => r.1 == CollectionAction::Continue
                        && final(self).config == collector_config_of(*c) && final(self).used_widgets == old(self).used_widgets && final(self).update_rate_ms == old(self).update_rate_ms,
                    ThreadControlEvent::UpdateUsedWidgets(u) => r.1 == CollectionAction::Continue
                        && final(self).used_widgets == *u && final(self).config == old(self).config
                        && final(self).update_rate_ms == old(self).update_rate_ms,
                    ThreadControlEvent::UpdateUpdateTime(t) => r.1 == CollectionAction::Continue
                        && final(self).update_rate_ms == t && final(self).config == old(self).config && final(self).used_widgets == old(self).used_widgets,
                },
                None => r.1 == CollectionAction::Continue && *final(self) == *old(self),
            },
            !terminated ==> r.2 == final(self).update_rate_ms,
    {
        if terminated {
            return (false, CollectionAction::Continue, self.update_rate_ms);
        }
        let act = match msg {
            Some(m) => self.apply_control(m),
            None => CollectionAction::Continue,
        };
        let wait = self.next_wait_ms();
        (true, act, wait)
    }
}

/// Extra slack added to the retention window before the cleaning thread
/// wakes again: sweeping much more often than points can expire would be
/// redundant work.
pub const CLEANUP_MARGIN_MS: u64 = 60000;

/// How long the cleaning thread waits between sweeps: the retention window
/// plus the fixed margin.
pub fn cleaning_wait_ms(retention_ms: u64) -> (w: u64)
    requires
        retention_ms + CLEANUP_MARGIN_MS <= u64::MAX,
    ensures
        w == retention_ms + CLEANUP_MARGIN_MS,
{
    retention_ms + CLEANUP_MARGIN_MS
}

} // verus!
