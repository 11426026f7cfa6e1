//! Application configuration: what the startup configuration supplies and
//! reconfiguration may later change.

use vstd::prelude::*;

verus! {

/// Temperature scale for sensor readings.
#[derive(Clone, Copy, Debug, PartialEq, Eq, Structural)]
pub enum TemperatureType {
    Celsius,
    Kelvin,
    Fahrenheit,
}

/// How network throughput is scaled for display.
#[derive(Clone, Copy, Debug, PartialEq, Eq, Structural)]
pub enum NetworkScale {
    /// Axis re-scales with the data.
    Dynamic,
    /// Axis fixed to powers of ten.
    Logarithmic,
}

/// The application settings the core consumes, read at startup and applied
/// again on reconfiguration.
#[derive(Clone, Copy, Debug, PartialEq, Eq, Structural)]
pub struct AppConfigFields {
    /// How long a metric point is retained, in milliseconds.
    pub retention_ms: u64,
    /// Interval between harvests, in milliseconds.
    pub update_rate_ms: u64,
    pub temperature_type: TemperatureType,
    pub network_scale: NetworkScale,
    /// Express network throughput in bits rather than bytes.
    pub network_use_bits: bool,
    /// Use binary (1024-based) prefixes for network throughput.
    pub network_use_binary_prefix: bool,
    pub use_current_cpu_total: bool,
    pub show_average_cpu: bool,
    pub unnormalized_cpu: bool,
    /// Ignore mouse clicks on widgets.
    pub disable_click: bool,
}

impl Default for AppConfigFields {
    /// The defaults the program starts with when no configuration file
    /// says otherwise: one-second harvests, a ten-minute retention window.
    fn default() -> (c: Self)
        ensures
            c.retention_ms == 600000,
            c.update_rate_ms == 1000,
            c.temperature_type == TemperatureType::Celsius,
            c.network_scale == NetworkScale::Dynamic,
            !c.network_use_bits,
            !c.network_use_binary_prefix,
            !c.use_current_cpu_total,
            c.show_average_cpu,
            !c.unnormalized_cpu,
            !c.disable_click,
    {
        AppConfigFields {
            retention_ms: 600000,
            update_rate_ms: 1000,
            temperature_type: TemperatureType::Celsius,
            network_scale: NetworkScale::Dynamic,
            network_use_bits: false,
            network_use_binary_prefix: false,
            use_current_cpu_total: false,
            show_average_cpu: true,
            unnormalized_cpu: false,
            disable_click: false,
        }
    }
}

} // verus!
