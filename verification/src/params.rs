//! The query parameters the source service's endpoints take, built as plain
//! name/value pairs in a fixed order.

use vstd::prelude::*;

use crate::date_range::DateRange;
use crate::strfmt::{dec_str, int_str, int_to_string, push_dec};

verus! {

/// Parameters of one request: a query string as name/value pairs, or a raw
/// request body.
#[derive(Debug, PartialEq)]
pub enum ApiParams {
    QueryString(Vec<(String, Option<String>)>),
    RequestBody(String),
}

/// Builds the parameters of the source service's endpoints.
#[derive(Debug, Clone, PartialEq, Eq, Structural)]
pub struct ClickupParamsBuilder;

impl ClickupParamsBuilder {
    /// The all-lower-case rendering the service expects of a flag.
    pub fn convert_bool_to_lower_string(&self, flag: bool) -> (r: String)
        ensures
            flag ==> r@ == "true"@,
            !flag ==> r@ == "false"@,
    {
        if flag {
            String::from_str("true")
        } else {
            String::from_str("false")
        }
    }

    /// The query of the filtered team-tasks endpoint: page, the two flags in
    /// lower case, and the update-instant window in epoch milliseconds, as
    /// strings, in this order.
    pub fn filterd_team_tasks(
        &self,
        page: u32,
        subtasks: bool,
        include_closed: bool,
        date_updated_gt: i64,
        date_updated_lt: i64,
    ) -> (r: ApiParams)
        requires
            date_updated_gt > i64::MIN,
            date_updated_lt > i64::MIN,
        ensures
            r matches ApiParams::QueryString(q) && q@.len() == 5 && q@[0].0@ == "page"@ && (
            q@[0].1 matches Some(v) && v@ == dec_str(page as int)) && q@[1].0@ == "subtasks"@ && (
            q@[1].1 matches Some(v) && v@ == (if subtasks {
                "true"@
            } else {
                "false"@
            })) && q@[2].0@ == "include_closed"@ && (q@[2].1 matches Some(v) && v@ == (
            if include_closed {
                "true"@
            } else {
                "false"@
            })) && q@[3].0@ == "date_updated_gt"@ && (q@[3].1 matches Some(v) && v@ == int_str(
                date_updated_gt as int,
            )) && q@[4].0@ == "date_updated_lt"@ && (q@[4].1 matches Some(v) && v@ == int_str(
                date_updated_lt as int,
            )),
    {
        let mut page_str = String::new();
        push_dec(&mut page_str, page as u64);
        let mut q: Vec<(String, Option<String>)> = Vec::new();
        q.push((String::from_str("page"), Some(page_str)));
        q.push((String::from_str("subtasks"), Some(self.convert_bool_to_lower_string(subtasks))));
        q.push((
            String::from_str("include_closed"),
            Some(self.convert_bool_to_lower_string(include_closed)),
        ));
        q.push((String::from_str("date_updated_gt"), Some(int_to_string(date_updated_gt))));
        q.push((String::from_str("date_updated_lt"), Some(int_to_string(date_updated_lt))));
        ApiParams::QueryString(q)
    }

    /// The query of the time-entries endpoint: the location-names flag in
    /// lower case and the window bounds in epoch milliseconds, as strings,
    /// in this order.
    pub fn time_entries_within_a_date_range(
        &self,
        include_location_names: bool,
        start_date: i64,
        end_date: i64,
    ) -> (r: ApiParams)
        requires
            start_date > i64::MIN,
            end_date > i64::MIN,
        ensures
            r matches ApiParams::QueryString(q) && q@.len() == 3 && q@[0].0@
                == "include_location_names"@ && (q@[0].1 matches Some(v) && v@ == (
            if include_location_names {
                "true"@
            } else {
                "false"@
            })) && q@[1].0@ == "start_date"@ && (q@[1].1 matches Some(v) && v@ == int_str(
                start_date as int,
            )) && q@[2].0@ == "end_date"@ && (q@[2].1 matches Some(v) && v@ == int_str(
                end_date as int,
            )),
    {
        let mut q: Vec<(String, Option<String>)> = Vec::new();
        q.push((
            String::from_str("include_location_names"),
            Some(self.convert_bool_to_lower_string(include_location_names)),
        ));
        q.push((String::from_str("start_date"), Some(int_to_string(start_date))));
        q.push((String::from_str("end_date"), Some(int_to_string(end_date))));
        ApiParams::QueryString(q)
    }
}

/// The lower bound handed to the service's date parameters: one millisecond
/// before the window's first instant, because the service's `start` filter
/// excludes a timestamp exactly equal to the parameter while this tool wants
/// it included.
pub fn clickup_date_start_milles(date_range: &DateRange) -> (r: i64)
    requires
        date_range.wf(),
    ensures
        r == date_range.start_sec() * 1000 - 1,
{
    date_range.start_unixtime_millis() - 1
}

} // verus!
