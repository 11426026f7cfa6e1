//! Core engine of a terminal system monitor: the event pipeline that
//! harvests, transports, retains and dispatches metric data, and the
//! generic sortable-table machinery behind every tabular widget.

pub mod app;
pub mod collection;
pub mod config;
pub mod connections;
pub mod data_store;
pub mod event;
pub mod input;
pub mod sort;
pub mod table;
pub mod terminal;
pub mod text;
pub mod time_series;
pub mod uptime;
