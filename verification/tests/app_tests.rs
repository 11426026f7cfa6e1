use bottom::app::{update_data, App, Focus};
use bottom::collection::UsedWidgets;
use bottom::config::AppConfigFields;
use bottom::connections::ConnectionsWidgetData;
use bottom::data_store::{MemReading, NetReading, Snapshot};
use bottom::event::BottomEvent;
use bottom::input::{KeyCode, KeyInput, MouseInput, MouseKind};

fn row(name: &str) -> ConnectionsWidgetData {
    ConnectionsWidgetData {
        name: String::from(name),
        local_address: String::new(),
        remote_address: String::new(),
        status: String::new(),
    }
}

fn empty_snapshot(t: u64) -> Snapshot {
    Snapshot {
        timestamp_ms: t,
        cpu: None,
        load_avg: None,
        memory: None,
        swap: None,
        network: None,
        temperatures: None,
        disks: None,
        processes: None,
        connections: None,
        battery: None,
    }
}

fn app_with_connections() -> App {
    let mut used = UsedWidgets::default();
    used.use_connections = true;
    used.use_mem = true;
    used.use_net = true;
    let mut app = App::new(AppConfigFields::default(), used);
    app.add_connections_widget(10);
    app
}

#[test]
fn an_update_merges_the_snapshot_and_refreshes_the_widgets() {
    let mut app = app_with_connections();
    let mut snap = empty_snapshot(1000);
    snap.memory = Some(MemReading { used_kib: 512, total_kib: 1024 });
    snap.network = Some(NetReading { rx_bytes: 10, tx_bytes: 20 });
    snap.connections = Some(vec![row("55/a"), row("1234/b")]);
    let out = app.handle_event(BottomEvent::Update(Box::new(snap)), 1000);
    assert!(out.redraw && !out.quit && !out.reset_collection);
    assert_eq!(app.data_store.memory.len(), 1);
    assert_eq!(app.data_store.network.len(), 1);
    // The widget re-derived: descending by pid, 1234 first.
    let w = &app.connections_widgets[0];
    assert_eq!(w.state.table.rows[0].name, "1234/b");
    assert_eq!(w.state.table.rows[1].name, "55/a");
    assert!(!w.state.force_update_data);
}

#[test]
fn a_partial_snapshot_leaves_missing_categories_untouched() {
    let mut app = app_with_connections();
    let mut snap = empty_snapshot(1000);
    snap.connections = Some(vec![row("7/x")]);
    app.handle_event(BottomEvent::Update(Box::new(snap)), 1000);
    assert_eq!(app.connections_widgets[0].state.table.rows.len(), 1);
    // The next snapshot carries no connection data: the widget keeps what
    // it has.
    let mut snap2 = empty_snapshot(2000);
    snap2.memory = Some(MemReading { used_kib: 1, total_kib: 2 });
    app.handle_event(BottomEvent::Update(Box::new(snap2)), 2000);
    assert_eq!(app.connections_widgets[0].state.table.rows.len(), 1);
    assert_eq!(app.connections_widgets[0].state.table.rows[0].name, "7/x");
}

#[test]
fn clean_evicts_stale_history_through_the_configured_window() {
    let mut app = app_with_connections();
    app.config.retention_ms = 60000;
    for i in 0..8u64 {
        let mut snap = empty_snapshot(i * 10000 + 1);
        snap.memory = Some(MemReading { used_kib: i, total_kib: 100 });
        app.handle_event(BottomEvent::Update(Box::new(snap)), 0);
    }
    assert_eq!(app.data_store.memory.len(), 8);
    let out = app.handle_event(BottomEvent::Clean, 70001);
    assert!(!out.redraw);
    assert_eq!(app.data_store.memory.len(), 7);
    assert_eq!(app.data_store.memory.points[0].timestamp_ms, 10001);
}

#[test]
fn widgets_that_are_not_dirty_never_recompute() {
    let mut app = app_with_connections();
    app.data_store.connections = vec![row("1/a")];
    app.connections_widgets[0].state.force_update_data = false;
    update_data(&mut app);
    assert_eq!(app.connections_widgets[0].state.table.rows.len(), 0);
    app.connections_widgets[0].state.force_update_data = true;
    update_data(&mut app);
    assert_eq!(app.connections_widgets[0].state.table.rows.len(), 1);
}

#[test]
fn quit_keys_quit_and_reset_keys_reset() {
    let mut app = app_with_connections();
    let q = KeyInput { code: KeyCode::Char('q'), ctrl: false, alt: false, shift: false };
    let out = app.handle_event(BottomEvent::KeyInput(q), 0);
    assert!(out.quit);

    let mut app = app_with_connections();
    app.in_search = true;
    let out = app.handle_event(BottomEvent::KeyInput(q), 0);
    assert!(!out.quit);

    let ctrl_c = KeyInput { code: KeyCode::Char('c'), ctrl: true, alt: false, shift: false };
    let out = app.handle_event(BottomEvent::KeyInput(ctrl_c), 0);
    assert!(out.quit);

    let mut app = app_with_connections();
    let mut snap = empty_snapshot(5);
    snap.memory = Some(MemReading { used_kib: 1, total_kib: 2 });
    app.handle_event(BottomEvent::Update(Box::new(snap)), 0);
    assert_eq!(app.data_store.memory.len(), 1);
    let ctrl_r = KeyInput { code: KeyCode::Char('r'), ctrl: true, alt: false, shift: false };
    let out = app.handle_event(BottomEvent::KeyInput(ctrl_r), 0);
    assert!(out.reset_collection && !out.quit);
    assert_eq!(app.data_store.memory.len(), 0);
    assert!(app.connections_widgets[0].state.force_update_data);
}

#[test]
fn scroll_wheel_moves_the_focused_selection() {
    let mut app = app_with_connections();
    let mut snap = empty_snapshot(1);
    snap.connections = Some(vec![row("3/a"), row("2/b"), row("1/c")]);
    app.handle_event(BottomEvent::Update(Box::new(snap)), 0);
    app.focus = Focus::OnConnections(0);
    let down = MouseInput { kind: MouseKind::ScrollDown, column: 0, row: 0 };
    let up = MouseInput { kind: MouseKind::ScrollUp, column: 0, row: 0 };
    app.handle_event(BottomEvent::MouseInput(down), 0);
    assert_eq!(app.connections_widgets[0].state.table.selection, 1);
    app.handle_event(BottomEvent::MouseInput(up), 0);
    assert_eq!(app.connections_widgets[0].state.table.selection, 0);
    app.handle_event(BottomEvent::MouseInput(up), 0);
    assert_eq!(app.connections_widgets[0].state.table.selection, 0);
}

#[test]
fn navigation_keys_move_the_focused_selection() {
    let mut app = app_with_connections();
    let mut snap = empty_snapshot(1);
    snap.connections = Some(vec![row("3/a"), row("2/b"), row("1/c")]);
    app.handle_event(BottomEvent::Update(Box::new(snap)), 0);
    app.focus = Focus::OnConnections(0);
    let end = KeyInput { code: KeyCode::End, ctrl: false, alt: false, shift: false };
    app.handle_event(BottomEvent::KeyInput(end), 0);
    assert_eq!(app.connections_widgets[0].state.table.selection, 2);
    let home = KeyInput { code: KeyCode::Home, ctrl: false, alt: false, shift: false };
    app.handle_event(BottomEvent::KeyInput(home), 0);
    assert_eq!(app.connections_widgets[0].state.table.selection, 0);
}

#[test]
fn a_resize_forces_a_full_repaint() {
    let mut app = app_with_connections();
    app.is_force_redraw = false;
    let out = app.handle_event(BottomEvent::Resize, 0);
    assert!(out.redraw);
    assert!(app.is_force_redraw);
}

#[test]
fn stale_points_are_dropped_but_newer_ones_stay() {
    // Ingest, evict halfway: the store keeps exactly the fresh points.
    let mut app = app_with_connections();
    app.config.retention_ms = 100;
    for t in [10u64, 120, 230] {
        let mut snap = empty_snapshot(t);
        snap.network = Some(NetReading { rx_bytes: t, tx_bytes: t });
        app.handle_event(BottomEvent::Update(Box::new(snap)), 0);
    }
    // At t = 219 only the first point is older than the window.
    app.handle_event(BottomEvent::Clean, 219);
    assert_eq!(app.data_store.network.len(), 2);
    assert_eq!(app.data_store.network.points[0].timestamp_ms, 120);
}
