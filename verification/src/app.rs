//! The single-threaded consumer's application state and event dispatch:
//! every event mutates this state in one place, so the consumer's view of
//! the world is a strict linearization of all producer activity.

use vstd::prelude::*;
use crate::collection::UsedWidgets;
use crate::config::AppConfigFields;
use crate::connections::{
    ConnectionsWidgetState, clone_rows, row_views, displayed_views, lemma_displayed_views,
};
use crate::data_store::{DataStore, Snapshot, snapshot_merged, store_swept, store_cleared};
use crate::event::BottomEvent;
use crate::input::{KeyCode, KeyInput, MouseInput, MouseKind};
use crate::terminal::TerminalWidgetState;
use crate::uptime::UptimeWidgetState;

verus! {

/// One connections widget and the id of the screen region it backs: many
/// widgets may show the same category with independent sort, scroll and
/// selection.
pub struct ConnectionsWidgetEntry {
    pub id: u64,
    pub state: ConnectionsWidgetState,
}

/// Which widget the user's navigation keys act on.
#[derive(Clone, Copy, Debug, PartialEq, Eq, Structural)]
pub enum Focus {
    Unfocused,
    OnTerminal,
    OnConnections(usize),
}

/// What the main loop must do after dispatching one event.
pub struct LoopControl {
    /// Repaint the visible widgets.
    pub redraw: bool,
    /// Leave the event loop.
    pub quit: bool,
    /// Tell the collection thread to drop its history.
    pub reset_collection: bool,
}

/// All application state the consumer owns.
pub struct App {
    pub data_store: DataStore,
    pub connections_widgets: Vec<ConnectionsWidgetEntry>,
    pub terminal: TerminalWidgetState,
    pub uptime: UptimeWidgetState,
    pub config: AppConfigFields,
    pub used_widgets: UsedWidgets,
    pub focus: Focus,
    /// Whether the focused widget is expanded to the whole screen.
    pub is_expanded: bool,
    /// Whether a search box has the keyboard (so `q` types rather than
    /// quits).
    pub in_search: bool,
    /// Whether the next draw must repaint everything.
    pub is_force_redraw: bool,
}

impl App {
    pub open spec fn wf(self) -> bool {
        &&& self.data_store.wf()
        &&& forall|i: int|
            0 <= i < self.connections_widgets@.len()
                ==> (#[trigger] self.connections_widgets@[i]).state.table.wf()
        &&& self.terminal.wf()
    }

    /// A fresh application around the given configuration.
    pub fn new(config: AppConfigFields, used_widgets: UsedWidgets) -> (a: Self)
        ensures
            a.wf(),
            store_cleared(a.data_store),
            a.connections_widgets@.len() == 0,
            a.config == config,
            a.used_widgets == used_widgets,
            a.focus == Focus::Unfocused,
            !a.is_expanded,
            !a.in_search,
            a.is_force_redraw,
    {
        App {
            data_store: DataStore::new(),
            connections_widgets: Vec::new(),
            terminal: TerminalWidgetState::default(),
            uptime: UptimeWidgetState::default(),
            config,
            used_widgets,
            focus: Focus::Unfocused,
            is_expanded: false,
            in_search: false,
            is_force_redraw: true,
        }
    }

    /// Adds one connections widget under the given id.
    pub fn add_connections_widget(&mut self, id: u64)
        requires
            old(self).wf(),
        ensures
            final(self).wf(),
            final(self).connections_widgets@.len() == old(self).connections_widgets@.len() + 1,
            final(self).connections_widgets@.last().id == id,
    {
        self.connections_widgets.push(
            ConnectionsWidgetEntry { id, state: ConnectionsWidgetState::new() },
        );
    }
}

/// How `update_data` refreshes the widgets: every widget whose dirty flag
/// is set re-derives its rows from the store's newest connection data and
/// clears the flag; every other widget is left exactly as it was.
pub open spec fn widgets_refreshed(pre: App, post: App) -> bool {
    &&& post.connections_widgets@.len() == pre.connections_widgets@.len()
    &&& forall|i: int|
        0 <= i < pre.connections_widgets@.len() ==> {
            let prew = pre.connections_widgets@[i];
            let postw = #[trigger] post.connections_widgets@[i];
            &&& postw.id == prew.id
            &&& if prew.state.force_update_data {
                &&& postw.state.table.sort == prew.state.table.sort
                &&& row_views(postw.state.table.rows@) == displayed_views(
                    row_views(pre.data_store.connections@),
                    prew.state.table.sort,
                )
                &&& !postw.state.force_update_data
            } else {
                postw == prew
            }
        }
}

/// Re-derives every dirty widget from the data store and clears its dirty
/// flag; widgets that are not dirty never recompute.
pub fn update_data(app: &mut App)
    requires
        old(app).wf(),
    ensures
        final(app).wf(),
        widgets_refreshed(*old(app), *final(app)),
        final(app).data_store == old(app).data_store,
        final(app).terminal == old(app).terminal,
        final(app).uptime == old(app).uptime,
        final(app).config == old(app).config,
        final(app).used_widgets == old(app).used_widgets,
        final(app).focus == old(app).focus,
        final(app).is_expanded == old(app).is_expanded,
        final(app).in_search == old(app).in_search,
        final(app).is_force_redraw == old(app).is_force_redraw,
{
    let n = app.connections_widgets.len();
    let mut i: usize = 0;
    while i < n
        invariant
            0 <= i <= n,
            app.wf(),
            n == app.connections_widgets@.len(),
            n == old(app).connections_widgets@.len(),
            app.data_store == old(app).data_store,
            app.terminal == old(app).terminal,
            app.uptime == old(app).uptime,
            app.config == old(app).config,
            app.used_widgets == old(app).used_widgets,
            app.focus == old(app).focus,
            app.is_expanded == old(app).is_expanded,
            app.in_search == old(app).in_search,
            app.is_force_redraw == old(app).is_force_redraw,
            forall|k: int|
                i <= k < n ==> #[trigger] app.connections_widgets@[k] == old(
                    app,
                ).connections_widgets@[k],
            forall|k: int|
                0 <= k < i ==> {
                    let prew = old(app).connections_widgets@[k];
                    let postw = #[trigger] app.connections_widgets@[k];
                    &&& postw.id == prew.id
                    &&& if prew.state.force_update_data {
                        &&& postw.state.table.sort == prew.state.table.sort
                        &&& row_views(postw.state.table.rows@) == displayed_views(
                            row_views(old(app).data_store.connections@),
                            prew.state.table.sort,
                        )
                        &&& !postw.state.force_update_data
                    } else {
                        postw == prew
                    }
                },
        decreases n - i,
    {
        if app.connections_widgets[i].state.force_update_data {
            let rows = clone_rows(&app.data_store.connections);
            let ghost rows_snap = rows@;
            let ghost sort_pre = app.connections_widgets@[i as int].state.table.sort;
            app.connections_widgets[i].state.ingest_data(rows);
            proof {
                lemma_displayed_views(rows_snap, sort_pre);
            }
        }
        i = i + 1;
    }
}

/// How merging one snapshot changes the application: the store merges it;
/// every connections widget is marked dirty when fresh connection data
/// arrived for a used category; and every dirty widget then re-derives
/// from the new store. Nothing else moves.
pub open spec fn update_applied(pre: App, post: App, snap: Snapshot) -> bool {
    &&& snapshot_merged(pre.data_store, post.data_store, snap)
    &&& post.connections_widgets@.len() == pre.connections_widgets@.len()
    &&& forall|i: int|
        0 <= i < pre.connections_widgets@.len() ==> {
            let prew = pre.connections_widgets@[i];
            let postw = #[trigger] post.connections_widgets@[i];
            &&& postw.id == prew.id
            &&& if prew.state.force_update_data || (snap.connections is Some
                && pre.used_widgets.use_connections) {
                &&& postw.state.table.sort == prew.state.table.sort
                &&& row_views(postw.state.table.rows@) == displayed_views(
                    row_views(post.data_store.connections@),
                    prew.state.table.sort,
                )
                &&& !postw.state.force_update_data
            } else {
                postw == prew
            }
        }
    &&& post.terminal == pre.terminal
    &&& post.uptime == pre.uptime
    &&& post.config == pre.config
    &&& post.used_widgets == pre.used_widgets
    &&& post.focus == pre.focus
    &&& post.is_expanded == pre.is_expanded
    &&& post.in_search == pre.in_search
    &&& post.is_force_redraw == pre.is_force_redraw
}

/// Everything but the widget registry is unchanged.
pub open spec fn same_but_widgets(pre: App, post: App) -> bool {
    &&& post.data_store == pre.data_store
    &&& post.terminal == pre.terminal
    &&& post.uptime == pre.uptime
    &&& post.config == pre.config
    &&& post.used_widgets == pre.used_widgets
    &&& post.focus == pre.focus
    &&& post.is_expanded == pre.is_expanded
    &&& post.in_search == pre.in_search
    &&& post.is_force_redraw == pre.is_force_redraw
}

/// How one key press changes the application, outside the terminal
/// widget's own key map: a quit chord leaves everything untouched; a reset
/// chord clears the store and marks every widget to re-derive; navigation
/// keys move the focused table's selection.
pub open spec fn key_applied(pre: App, post: App, key: KeyInput, out: LoopControl) -> bool {
    let quit = (key.code == KeyCode::Char('q') && key.plain() && !pre.in_search) || (key.ctrl
        && key.code == KeyCode::Char('c'));
    let reset = !quit && key.ctrl && key.code == KeyCode::Char('r');
    &&& out.quit == quit
    &&& out.reset_collection == reset
    &&& out.redraw == !quit
    &&& quit ==> post == pre
    &&& reset ==> {
        &&& store_cleared(post.data_store)
        &&& post.connections_widgets@.len() == pre.connections_widgets@.len()
        &&& forall|i: int|
            0 <= i < pre.connections_widgets@.len()
                ==> #[trigger] post.connections_widgets@[i] == (ConnectionsWidgetEntry {
                state: ConnectionsWidgetState {
                    force_update_data: true,
                    ..pre.connections_widgets@[i].state
                },
                ..pre.connections_widgets@[i]
            })
        &&& post.terminal == pre.terminal
        &&& post.uptime == pre.uptime
        &&& post.config == pre.config
        &&& post.used_widgets == pre.used_widgets
        &&& post.focus == pre.focus
        &&& post.is_expanded == pre.is_expanded
        &&& post.in_search == pre.in_search
        &&& post.is_force_redraw == pre.is_force_redraw
    }
    &&& !quit && !reset ==> match pre.focus {
        Focus::OnConnections(w) => {
            if w < pre.connections_widgets@.len() && key.plain() {
                let t = pre.connections_widgets@[w as int].state.table;
                let t2 = if key.code == KeyCode::Up {
                    t.moved_up()
                } else if key.code == KeyCode::Down {
                    t.moved_down()
                } else if key.code == KeyCode::Home {
                    t.moved_to_first()
                } else if key.code == KeyCode::End {
                    t.moved_to_last()
                } else {
                    t
                };
                post.connections_widgets@ == pre.connections_widgets@.update(
                    w as int,
                    ConnectionsWidgetEntry {
                        state: ConnectionsWidgetState {
                            table: t2,
                            ..pre.connections_widgets@[w as int].state
                        },
                        ..pre.connections_widgets@[w as int]
                    },
                ) && same_but_widgets(pre, post)
            } else {
                post == pre
            }
        },
        _ => post == pre,
    }
}

/// How one mouse event changes the application: the scroll wheel moves the
/// focused table's selection; everything else is dispatched to the layout
/// layer and changes nothing here.
pub open spec fn mouse_applied(pre: App, post: App, m: MouseInput, out: LoopControl) -> bool {
    &&& !out.quit
    &&& !out.reset_collection
    &&& out.redraw
    &&& match pre.focus {
        Focus::OnConnections(w) => {
            if w < pre.connections_widgets@.len() && (m.kind == MouseKind::ScrollUp || m.kind
                == MouseKind::ScrollDown) {
                let t = pre.connections_widgets@[w as int].state.table;
                let t2 = if m.kind == MouseKind::ScrollUp {
                    t.moved_up()
                } else {
                    t.moved_down()
                };
                post.connections_widgets@ == pre.connections_widgets@.update(
                    w as int,
                    ConnectionsWidgetEntry {
                        state: ConnectionsWidgetState {
                            table: t2,
                            ..pre.connections_widgets@[w as int].state
                        },
                        ..pre.connections_widgets@[w as int]
                    },
                ) && same_but_widgets(pre, post)
            } else {
                post == pre
            }
        },
        _ => post == pre,
    }
}

impl App {
    /// Dimensions changed: every cached layout is stale, so the next draw
    /// repaints unconditionally.
    pub fn on_resize(&mut self) -> (out: LoopControl)
        requires
            old(self).wf(),
        ensures
            final(self).wf(),
            *final(self) == (App { is_force_redraw: true, ..*old(self) }),
            out.redraw && !out.quit && !out.reset_collection,
    {
        self.is_force_redraw = true;
        LoopControl { redraw: true, quit: false, reset_collection: false }
    }

    /// Merges a fresh snapshot into the store, marks every connections
    /// widget dirty when connection data arrived for a used category, and
    /// lets the dirty widgets re-derive.
    pub fn on_update(&mut self, snap: Box<Snapshot>) -> (out: LoopControl)
        requires
            old(self).wf(),
        ensures
            final(self).wf(),
            update_applied(*old(self), *final(self), *snap),
            out.redraw && !out.quit && !out.reset_collection,
    {
        let fresh_connections = snap.connections.is_some();
        self.data_store.ingest(*snap);
        let ghost merged_store = self.data_store;
        if fresh_connections && self.used_widgets.use_connections {
            let n = self.connections_widgets.len();
            let mut i: usize = 0;
            while i < n
                invariant
                    0 <= i <= n,
                    self.wf(),
                    n == self.connections_widgets@.len(),
                    n == old(self).connections_widgets@.len(),
                    forall|k: int|
                        i <= k < n ==> #[trigger] self.connections_widgets@[k] == old(
                            self,
                        ).connections_widgets@[k],
                    forall|k: int|
                        0 <= k < i ==> #[trigger] self.connections_widgets@[k] == (
                        ConnectionsWidgetEntry {
                            state: ConnectionsWidgetState {
                                force_update_data: true,
                                ..old(self).connections_widgets@[k].state
                            },
                            ..old(self).connections_widgets@[k]
                        }),
                    self.data_store == merged_store,
                    self.terminal == old(self).terminal,
                    self.uptime == old(self).uptime,
                    self.config == old(self).config,
                    self.used_widgets == old(self).used_widgets,
                    self.focus == old(self).focus,
                    self.is_expanded == old(self).is_expanded,
                    self.in_search == old(self).in_search,
                    self.is_force_redraw == old(self).is_force_redraw,
                decreases n - i,
            {
                self.connections_widgets[i].state.force_update_data = true;
                i = i + 1;
            }
        }
        update_data(self);
        LoopControl { redraw: true, quit: false, reset_collection: false }
    }

    /// Evicts stale history for the configured retention window.
    pub fn on_clean(&mut self, now_ms: u64) -> (out: LoopControl)
        requires
            old(self).wf(),
        ensures
            final(self).wf(),
            store_swept(
                old(self).data_store,
                final(self).data_store,
                now_ms,
                old(self).config.retention_ms,
            ),
            *final(self) == (App { data_store: final(self).data_store, ..*old(self) }),
            !out.redraw && !out.quit && !out.reset_collection,
    {
        let retention = self.config.retention_ms;
        self.data_store.evict(now_ms, retention);
        LoopControl { redraw: false, quit: false, reset_collection: false }
    }

    /// Applies the global key bindings: quit, collection reset, and
    /// selection movement on the focused table. The terminal widget's own
    /// key map runs first, in `TerminalWidgetState::handle_key`, when that
    /// widget has the keyboard.
    pub fn on_key(&mut self, key: KeyInput) -> (out: LoopControl)
        requires
            old(self).wf(),
        ensures
            final(self).wf(),
            key_applied(*old(self), *final(self), key, out),
    {
        if crate::input::is_quit_key(key, self.in_search) {
            return LoopControl { redraw: false, quit: true, reset_collection: false };
        }
        if crate::input::is_reset_key(key) {
            self.data_store.reset();
            let ghost cleared_store = self.data_store;
            let n = self.connections_widgets.len();
            let mut i: usize = 0;
            while i < n
                invariant
                    0 <= i <= n,
                    self.wf(),
                    n == self.connections_widgets@.len(),
                    n == old(self).connections_widgets@.len(),
                    store_cleared(cleared_store),
                    forall|k: int|
                        i <= k < n ==> #[trigger] self.connections_widgets@[k] == old(
                            self,
                        ).connections_widgets@[k],
                    forall|k: int|
                        0 <= k < i ==> #[trigger] self.connections_widgets@[k] == (
                        ConnectionsWidgetEntry {
                            state: ConnectionsWidgetState {
                                force_update_data: true,
                                ..old(self).connections_widgets@[k].state
                            },
                            ..old(self).connections_widgets@[k]
                        }),
                    self.data_store == cleared_store,
                    self.terminal == old(self).terminal,
                    self.uptime == old(self).uptime,
                    self.config == old(self).config,
                    self.used_widgets == old(self).used_widgets,
                    self.focus == old(self).focus,
                    self.is_expanded == old(self).is_expanded,
                    self.in_search == old(self).in_search,
                    self.is_force_redraw == old(self).is_force_redraw,
                decreases n - i,
            {
                self.connections_widgets[i].state.force_update_data = true;
                i = i + 1;
            }
            return LoopControl { redraw: true, quit: false, reset_collection: true };
        }
        if let Focus::OnConnections(w) = self.focus {
            if w < self.connections_widgets.len() && !key.ctrl && !key.alt && !key.shift {
                match key.code {
                    KeyCode::Up => self.connections_widgets[w].state.table.move_selection_up(),
                    KeyCode::Down => self.connections_widgets[w].state.table.move_selection_down(),
                    KeyCode::Home => self.connections_widgets[w].state.table.select_first(),
                    KeyCode::End => self.connections_widgets[w].state.table.select_last(),
                    _ => {
                        proof {
                            assert(self.connections_widgets@ =~= old(
                                self,
                            ).connections_widgets@.update(
                                w as int,
                                old(self).connections_widgets@[w as int],
                            ));
                        }
                    },
                }
                proof {
                    assert(self.connections_widgets@ =~= old(self).connections_widgets@.update(
                        w as int,
                        self.connections_widgets@[w as int],
                    ));
                }
            }
        }
        LoopControl { redraw: true, quit: false, reset_collection: false }
    }

    /// Applies one mouse event: the scroll wheel moves the focused table's
    /// selection; clicks are resolved by the layout layer.
    pub fn on_mouse(&mut self, m: MouseInput) -> (out: LoopControl)
        requires
            old(self).wf(),
        ensures
            final(self).wf(),
            mouse_applied(*old(self), *final(self), m, out),
    {
        if let Focus::OnConnections(w) = self.focus {
            if w < self.connections_widgets.len() {
                match m.kind {
                    MouseKind::ScrollUp => {
                        self.connections_widgets[w].state.table.move_selection_up();
                        proof {
                            assert(self.connections_widgets@ =~= old(
                                self,
                            ).connections_widgets@.update(
                                w as int,
                                self.connections_widgets@[w as int],
                            ));
                        }
                    },
                    MouseKind::ScrollDown => {
                        self.connections_widgets[w].state.table.move_selection_down();
                        proof {
                            assert(self.connections_widgets@ =~= old(
                                self,
                            ).connections_widgets@.update(
                                w as int,
                                self.connections_widgets@[w as int],
                            ));
                        }
                    },
                    _ => {},
                }
            }
        }
        LoopControl { redraw: true, quit: false, reset_collection: false }
    }

    /// Dispatches one event, exactly as the main loop reads it: an update
    /// merges and re-derives; a clean evicts; a resize forces a repaint;
    /// key and mouse input run the global bindings; a paste is resolved by
    /// the input layer and only repaints.
    pub fn handle_event(&mut self, event: BottomEvent, now_ms: u64) -> (out: LoopControl)
        requires
            old(self).wf(),
        ensures
            final(self).wf(),
            match event {
                BottomEvent::Resize => *final(self) == (App {
                    is_force_redraw: true,
                    ..*old(self)
                }) && out.redraw && !out.quit && !out.reset_collection,
                BottomEvent::KeyInput(k) => key_applied(*old(self), *final(self), k, out),
                BottomEvent::MouseInput(m) => mouse_applied(*old(self), *final(self), m, out),
                BottomEvent::PasteEvent(_) => *final(self) == *old(self) && out.redraw && !out.quit
                    && !out.reset_collection,
                BottomEvent::Update(snap) => update_applied(*old(self), *final(self), *snap)
                    && out.redraw && !out.quit && !out.reset_collection,
                BottomEvent::Clean => store_swept(
                    old(self).data_store,
                    final(self).data_store,
                    now_ms,
                    old(self).config.retention_ms,
                ) && *final(self) == (App {
                    data_store: final(self).data_store,
                    ..*old(self)
                }) && !out.redraw && !out.quit && !out.reset_collection,
            },
    {
        match event {
            BottomEvent::Resize => self.on_resize(),
            BottomEvent::KeyInput(k) => self.on_key(k),
            BottomEvent::MouseInput(m) => self.on_mouse(m),
            BottomEvent::PasteEvent(_) => LoopControl {
                redraw: true,
                quit: false,
                reset_collection: false,
            },
            BottomEvent::Update(snap) => self.on_update(snap),
            BottomEvent::Clean => self.on_clean(now_ms),
        }
    }
}

} // verus!
