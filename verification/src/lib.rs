//! Monitoring and alerting engine for a fleet of networked devices.
//!
//! The engine polls devices for their metrics, keeps a rolling baseline of
//! each metric, raises, changes and resolves one alert per metric of a device,
//! caches expensive lookups for a while, and lays out devices and alerts as
//! rows of a database. It decides and computes; its caller talks to the
//! devices, runs the poll loop and holds the database connections.
//!
//! Readings and thresholds are whole thousandths of a unit, z-scores whole
//! hundredths, and times whole milliseconds: since the start of 1970 where
//! they are shown or stored, and since the cache was made in the cache.
//!
//! - [`scheduler`]: whether the poll loop runs, which devices a cycle polls,
//!   and what each answer of a device leads to.
//! - [`manager`], [`alert`]: the alerts and the rule by which they move.
//! - [`anomaly`], [`stats`]: the baselines and the outlier test.
//! - [`cache`]: the cache of lookups.
//! - [`store`]: the connection pool's bookkeeping and the rows.
//! - [`device`], [`config`]: devices and settings.
//! - [`table`], [`index`], [`keys`]: the keyed table that holds the records.
//! - [`clock`], [`json`], [`text`]: time, JSON and decimal text.
//! - [`listing`]: kinds of directory entries and the defaults of a listing.

pub mod alert;
pub mod anomaly;
pub mod cache;
pub mod clock;
pub mod config;
pub mod device;
pub mod index;
pub mod json;
pub mod keys;
pub mod listing;
pub mod manager;
pub mod scheduler;
pub mod stats;
pub mod store;
pub mod table;
pub mod text;
