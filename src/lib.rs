//! A verified in-process metrics registry for a service that hands out compute
//! units to workers epoch by epoch: per-worker allocated and spent gauges, a
//! query-duration histogram per worker and status, and the current epoch.

pub mod gauge;
pub mod histogram;
pub mod laws;
pub mod registry;
pub mod series;

pub use histogram::{duration_bucket_bounds, DurationSeries, DURATION_BUCKET_COUNT};
pub use registry::{
    can_record, can_spend, init_workers, new_epoch, query_finished, snapshot, spend_comp_units,
    update_allocations, FinishedTask, MetricsRegistry, MetricsSnapshot,
};
