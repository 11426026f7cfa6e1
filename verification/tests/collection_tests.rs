use bottom::collection::{
    cleaning_wait_ms, CollectionAction, CollectionState, CollectorConfig, ThreadControlEvent,
    UsedWidgets, CLEANUP_MARGIN_MS,
};
use bottom::config::{AppConfigFields, TemperatureType};

fn base_state() -> CollectionState {
    CollectionState::new(
        CollectorConfig {
            temperature_type: TemperatureType::Celsius,
            use_current_cpu_total: false,
            unnormalized_cpu: false,
            show_average_cpu: true,
        },
        UsedWidgets::default(),
        1000,
    )
}

#[test]
fn a_new_update_time_governs_the_next_idle_wait() {
    // Mid-run, the thread receives a 5000 ms update time: its next idle
    // wait uses 5000 ms, not the previous interval.
    let mut s = base_state();
    assert_eq!(s.next_wait_ms(), 1000);
    let (go, act, wait) = s.step(false, Some(ThreadControlEvent::UpdateUpdateTime(5000)));
    assert!(go);
    assert_eq!(act, CollectionAction::Continue);
    assert_eq!(wait, 5000);
    assert_eq!(s.next_wait_ms(), 5000);
}

#[test]
fn reset_asks_for_a_history_clear_and_changes_nothing() {
    let mut s = base_state();
    let (go, act, wait) = s.step(false, Some(ThreadControlEvent::Reset));
    assert!(go);
    assert_eq!(act, CollectionAction::ClearHistory);
    assert_eq!(wait, 1000);
    assert_eq!(s.next_wait_ms(), 1000);
}

#[test]
fn a_config_update_applies_the_new_collector_settings() {
    let mut s = base_state();
    let mut cfg = AppConfigFields::default();
    cfg.temperature_type = TemperatureType::Fahrenheit;
    cfg.use_current_cpu_total = true;
    cfg.unnormalized_cpu = true;
    cfg.show_average_cpu = false;
    let act = s.apply_control(ThreadControlEvent::UpdateConfig(Box::new(cfg)));
    assert_eq!(act, CollectionAction::Continue);
    assert_eq!(s.config.temperature_type, TemperatureType::Fahrenheit);
    assert!(s.config.use_current_cpu_total);
    assert!(s.config.unnormalized_cpu);
    assert!(!s.config.show_average_cpu);
    // The update time is untouched.
    assert_eq!(s.next_wait_ms(), 1000);
}

#[test]
fn a_used_widgets_update_restricts_harvesting() {
    let mut s = base_state();
    let mut used = UsedWidgets::default();
    used.use_cpu = true;
    used.use_connections = true;
    let act = s.apply_control(ThreadControlEvent::UpdateUsedWidgets(Box::new(used)));
    assert_eq!(act, CollectionAction::Continue);
    assert!(s.used_widgets.use_cpu);
    assert!(s.used_widgets.use_connections);
    assert!(!s.used_widgets.use_mem);
}

#[test]
fn termination_stops_the_loop_before_harvesting() {
    let mut s = base_state();
    let (go, _, _) = s.step(true, Some(ThreadControlEvent::UpdateUpdateTime(5000)));
    assert!(!go);
    // The message is not consumed once terminated.
    assert_eq!(s.next_wait_ms(), 1000);
}

#[test]
fn the_cleaning_thread_waits_the_window_plus_the_margin() {
    assert_eq!(CLEANUP_MARGIN_MS, 60000);
    assert_eq!(cleaning_wait_ms(600000), 660000);
    assert_eq!(cleaning_wait_ms(0), 60000);
}
