//! Outward-facing row shapes of the task × whole-period report, every field
//! already rendered to text.

use vstd::prelude::*;

verus! {

/// One rendered row: update instant, charge code, status, task name and the
/// elapsed time in `HH:MM:SS` form.
#[derive(Debug, Clone, PartialEq)]
pub struct ByTaskAndTotalDto {
    pub updated_at: String,
    pub charge_name: String,
    pub task_status: String,
    pub task_name: String,
    pub duration: String,
}

/// The rendered rows of one report, with the window they cover: a single
/// target date, or a period when `end_date` is present.
#[derive(Debug, Clone, PartialEq)]
pub struct ByTaskAndTotalDtos {
    pub start_date: String,
    pub end_date: Option<String>,
    pub dtos: Vec<ByTaskAndTotalDto>,
}

} // verus!
