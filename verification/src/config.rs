//! The settings that the engine is built from.

use vstd::prelude::*;

verus! {

/// The warning and critical levels of one metric, in thousandths.
#[derive(Debug)]
pub struct ThresholdSetting {
    pub metric: String,
    pub warning: i64,
    pub critical: i64,
}

/// The settings of the engine.
#[derive(Debug)]
pub struct AppConfig {
    /// Seconds from the start of one poll cycle to the start of the next.
    pub monitoring_interval: u64,
    /// The number of readings kept per metric.
    pub max_history_size: usize,
    /// Seconds that a cached lookup lives.
    pub cache_ttl_seconds: u64,
    /// The number of devices polled at a time.
    pub max_concurrent_monitors: usize,
    /// The number of database connections kept open.
    pub database_connections: usize,
    pub database_path: String,
    pub alert_thresholds: Vec<ThresholdSetting>,
}

impl AppConfig {
    /// The settings that `default` gives, but for the texts and thresholds.
    pub open spec fn has_default_numbers(&self) -> bool {
        &&& self.monitoring_interval == 5
        &&& self.max_history_size == 100
        &&& self.cache_ttl_seconds == 300
        &&& self.max_concurrent_monitors == 10
        &&& self.database_connections == 5
    }

    /// The thresholds that `default` gives: warning and critical levels of
    /// 80 and 95 for cpu, 85 and 95 for memory, 90 and 98 for disk.
    pub open spec fn has_default_thresholds(&self) -> bool {
        &&& self.alert_thresholds@.len() == 3
        &&& self.alert_thresholds@[0].metric@ == "cpu"@
        &&& self.alert_thresholds@[0].warning == 80_000
        &&& self.alert_thresholds@[0].critical == 95_000
        &&& self.alert_thresholds@[1].metric@ == "memory"@
        &&& self.alert_thresholds@[1].warning == 85_000
        &&& self.alert_thresholds@[1].critical == 95_000
        &&& self.alert_thresholds@[2].metric@ == "disk"@
        &&& self.alert_thresholds@[2].warning == 90_000
        &&& self.alert_thresholds@[2].critical == 98_000
    }
}

impl Default for AppConfig {
    /// A poll every 5 seconds of at most 10 devices at a time, 100 readings
    /// per metric, cached lookups that live 300 seconds, 5 connections to
    /// `network_monitor.db`, and the default thresholds.
    fn default() -> (c: Self)
        ensures
            c.has_default_numbers(),
            c.has_default_thresholds(),
            c.database_path@ == "network_monitor.db"@,
    {
        let mut thresholds: Vec<ThresholdSetting> = Vec::new();
        thresholds.push(
            ThresholdSetting { metric: String::from_str("cpu"), warning: 80_000, critical: 95_000 },
        );
        thresholds.push(
            ThresholdSetting {
                metric: String::from_str("memory"),
                warning: 85_000,
                critical: 95_000,
            },
        );
        thresholds.push(
            ThresholdSetting { metric: String::from_str("disk"), warning: 90_000, critical: 98_000 },
        );
        AppConfig {
            monitoring_interval: 5,
            max_history_size: 100,
            cache_ttl_seconds: 300,
            max_concurrent_monitors: 10,
            database_connections: 5,
            database_path: String::from_str("network_monitor.db"),
            alert_thresholds: thresholds,
        }
    }
}

} // verus!
