pub mod charge_and_daily;
pub mod charge_and_total_period;
pub mod engine;
pub mod task_and_daily;
pub mod task_and_total_period;
