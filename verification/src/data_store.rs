//! The data store: per-category rolling history plus the newest harvest of
//! the list-valued categories, fed by snapshots and trimmed by retention
//! eviction.

use vstd::prelude::*;
use crate::time_series::{TimeSeries, appended, evicted};
use crate::connections::ConnectionsWidgetData;

verus! {

/// Memory usage at one instant, in kibibytes.
#[derive(Clone, Copy, Debug, PartialEq, Eq, Structural)]
pub struct MemReading {
    pub used_kib: u64,
    pub total_kib: u64,
}

/// Total bytes moved over the network interfaces since startup.
#[derive(Clone, Copy, Debug, PartialEq, Eq, Structural)]
pub struct NetReading {
    pub rx_bytes: u64,
    pub tx_bytes: u64,
}

/// Load averages, in hundredths.
#[derive(Clone, Copy, Debug, PartialEq, Eq, Structural)]
pub struct LoadReading {
    pub one: u64,
    pub five: u64,
    pub fifteen: u64,
}

/// Battery charge, in hundredths of a percent.
#[derive(Clone, Copy, Debug, PartialEq, Eq, Structural)]
pub struct BatteryReading {
    pub charge_centi: u64,
}

/// One temperature sensor: its name and its reading in hundredths of a
/// degree.
pub struct TempReading {
    pub sensor: String,
    pub temp_centi: i64,
}

/// One mounted disk: its name and how much of it is used.
pub struct DiskReading {
    pub name: String,
    pub used_bytes: u64,
    pub total_bytes: u64,
}

/// One running process.
pub struct ProcessReading {
    pub pid: u32,
    pub name: String,
    /// CPU usage, hundredths of a percent.
    pub cpu_centi: u64,
    pub mem_kib: u64,
}

/// One harvest of all active metric categories, captured at one instant.
/// Every category is optional: when harvesting one category fails, that
/// category is simply absent and the rest of the pipeline keeps the last
/// known data for it.
pub struct Snapshot {
    /// Milliseconds on the harvester's monotonic clock.
    pub timestamp_ms: u64,
    /// Per-core usage, hundredths of a percent.
    pub cpu: Option<Vec<u64>>,
    pub load_avg: Option<LoadReading>,
    pub memory: Option<MemReading>,
    pub swap: Option<MemReading>,
    pub network: Option<NetReading>,
    pub temperatures: Option<Vec<TempReading>>,
    pub disks: Option<Vec<DiskReading>>,
    pub processes: Option<Vec<ProcessReading>>,
    pub connections: Option<Vec<ConnectionsWidgetData>>,
    pub battery: Option<BatteryReading>,
}

/// Rolling, retention-bounded history of the graphed categories, plus the
/// newest harvest of each list-valued category (tables show only the
/// newest one).
pub struct DataStore {
    pub cpu: TimeSeries<Vec<u64>>,
    pub load_avg: TimeSeries<LoadReading>,
    pub memory: TimeSeries<MemReading>,
    pub swap: TimeSeries<MemReading>,
    pub network: TimeSeries<NetReading>,
    pub temperatures: Vec<TempReading>,
    pub disks: Vec<DiskReading>,
    pub processes: Vec<ProcessReading>,
    pub connections: Vec<ConnectionsWidgetData>,
    pub battery: Option<BatteryReading>,
}

/// How the store changes when one snapshot is merged: each present graphed
/// category appends one point (dropped if not newer than the stored
/// history), each present list-valued category replaces the newest
/// harvest, and each absent category leaves its previous data untouched.
pub open spec fn snapshot_merged(pre: DataStore, post: DataStore, snap: Snapshot) -> bool {
    &&& match snap.cpu {
        Some(v) => appended(pre.cpu, post.cpu, snap.timestamp_ms, v),
        None => post.cpu == pre.cpu,
    }
    &&& match snap.load_avg {
        Some(v) => appended(pre.load_avg, post.load_avg, snap.timestamp_ms, v),
        None => post.load_avg == pre.load_avg,
    }
    &&& match snap.memory {
        Some(v) => appended(pre.memory, post.memory, snap.timestamp_ms, v),
        None => post.memory == pre.memory,
    }
    &&& match snap.swap {
        Some(v) => appended(pre.swap, post.swap, snap.timestamp_ms, v),
        None => post.swap == pre.swap,
    }
    &&& match snap.network {
        Some(v) => appended(pre.network, post.network, snap.timestamp_ms, v),
        None => post.network == pre.network,
    }
    &&& match snap.temperatures {
        Some(v) => post.temperatures == v,
        None => post.temperatures == pre.temperatures,
    }
    &&& match snap.disks {
        Some(v) => post.disks == v,
        None => post.disks == pre.disks,
    }
    &&& match snap.processes {
        Some(v) => post.processes == v,
        None => post.processes == pre.processes,
    }
    &&& match snap.connections {
        Some(v) => post.connections == v,
        None => post.connections == pre.connections,
    }
    &&& match snap.battery {
        Some(v) => post.battery == Some(v),
        None => post.battery == pre.battery,
    }
}

/// How the store changes when stale history is evicted: every series keeps
/// exactly its points still inside the window, and the newest list-valued
/// harvests stay as they are.
pub open spec fn store_swept(pre: DataStore, post: DataStore, now_ms: u64, retention_ms: u64) -> bool {
    &&& evicted(pre.cpu, post.cpu, now_ms, retention_ms)
    &&& evicted(pre.load_avg, post.load_avg, now_ms, retention_ms)
    &&& evicted(pre.memory, post.memory, now_ms, retention_ms)
    &&& evicted(pre.swap, post.swap, now_ms, retention_ms)
    &&& evicted(pre.network, post.network, now_ms, retention_ms)
    &&& post.temperatures == pre.temperatures
    &&& post.disks == pre.disks
    &&& post.processes == pre.processes
    &&& post.connections == pre.connections
    &&& post.battery == pre.battery
}

/// A store with nothing in it.
pub open spec fn store_cleared(s: DataStore) -> bool {
    &&& s.cpu.points@.len() == 0
    &&& s.load_avg.points@.len() == 0
    &&& s.memory.points@.len() == 0
    &&& s.swap.points@.len() == 0
    &&& s.network.points@.len() == 0
    &&& s.temperatures@.len() == 0
    &&& s.disks@.len() == 0
    &&& s.processes@.len() == 0
    &&& s.connections@.len() == 0
    &&& s.battery is None
}

impl DataStore {
    /// Every series keeps its timestamps strictly increasing.
    pub open spec fn wf(self) -> bool {
        &&& self.cpu.wf()
        &&& self.load_avg.wf()
        &&& self.memory.wf()
        &&& self.swap.wf()
        &&& self.network.wf()
    }

    /// An empty store.
    pub fn new() -> (s: Self)
        ensures
            s.wf(),
            s.cpu.points@.len() == 0,
            s.load_avg.points@.len() == 0,
            s.memory.points@.len() == 0,
            s.swap.points@.len() == 0,
            s.network.points@.len() == 0,
            s.temperatures@.len() == 0,
            s.disks@.len() == 0,
            s.processes@.len() == 0,
            s.connections@.len() == 0,
            s.battery is None,
    {
        DataStore {
            cpu: TimeSeries::new(),
            load_avg: TimeSeries::new(),
            memory: TimeSeries::new(),
            swap: TimeSeries::new(),
            network: TimeSeries::new(),
            temperatures: Vec::new(),
            disks: Vec::new(),
            processes: Vec::new(),
            connections: Vec::new(),
            battery: None,
        }
    }

    /// Merges one snapshot: each present graphed category appends one
    /// point (dropped if not newer than the stored history), each present
    /// list-valued category replaces the newest harvest, and each absent
    /// category leaves its previous data untouched.
    pub fn ingest(&mut self, snap: Snapshot)
        requires
            old(self).wf(),
        ensures
            final(self).wf(),
            snapshot_merged(*old(self), *final(self), snap),
    {
        let t = snap.timestamp_ms;
        if let Some(v) = snap.cpu {
            self.cpu.push(t, v);
        }
        if let Some(v) = snap.load_avg {
            self.load_avg.push(t, v);
        }
        if let Some(v) = snap.memory {
            self.memory.push(t, v);
        }
        if let Some(v) = snap.swap {
            self.swap.push(t, v);
        }
        if let Some(v) = snap.network {
            self.network.push(t, v);
        }
        if let Some(v) = snap.temperatures {
            self.temperatures = v;
        }
        if let Some(v) = snap.disks {
            self.disks = v;
        }
        if let Some(v) = snap.processes {
            self.processes = v;
        }
        if let Some(v) = snap.connections {
            self.connections = v;
        }
        if let Some(v) = snap.battery {
            self.battery = Some(v);
        }
    }

    /// Evicts every stored point that has outlived the retention window:
    /// afterwards every remaining point of every series is at most
    /// `retention_ms` old at `now_ms`. The newest harvests of the
    /// list-valued categories are kept as they are.
    pub fn evict(&mut self, now_ms: u64, retention_ms: u64)
        requires
            old(self).wf(),
        ensures
            final(self).wf(),
            store_swept(*old(self), *final(self), now_ms, retention_ms),
    {
        self.cpu.evict(now_ms, retention_ms);
        self.load_avg.evict(now_ms, retention_ms);
        self.memory.evict(now_ms, retention_ms);
        self.swap.evict(now_ms, retention_ms);
        self.network.evict(now_ms, retention_ms);
    }

    /// Clears every series and every newest harvest without recreating the
    /// structure.
    pub fn reset(&mut self)
        ensures
            final(self).wf(),
            store_cleared(*final(self)),
    {
        self.cpu.reset();
        self.load_avg.reset();
        self.memory.reset();
        self.swap.reset();
        self.network.reset();
        self.temperatures.clear();
        self.disks.clear();
        self.processes.clear();
        self.connections.clear();
        self.battery = None;
    }
}

} // verus!
