//! Aggregates time-tracking records (task snapshots and time-entry fragments)
//! over a normalized date interval and renders four report variants as TSV text.
//!
//! The date-range normalizer, the bounded duration value, the record
//! reconciler, the four grouping/aggregation views and the report renderer are
//! verified; the HTTP, CLI and logging collaborators live outside this crate
//! and exchange plain values with it.

pub mod aggregated_by;
pub mod as_vec;
pub mod clickup_task;
pub mod clickup_tasks;
pub mod clickup_time_entries;
pub mod clickup_time_entry;
pub mod date_range;
pub mod dto;
pub mod errors;
pub mod grouping;
pub mod jst;
pub mod log_level;
pub mod options;
pub mod params;
pub mod request;
pub mod strfmt;
pub mod task_duration;
pub mod task_record;
pub mod task_records;
pub mod usecase;
pub mod values;
