//! One round of the bot: refreshing the event list, and deciding what to do
//! with the event chosen from it.
use vstd::prelude::*;
use crate::accept::{accept_failure_message, accept_url, accept_url_spec, AcceptError};
use crate::config::ConfigSet;
use crate::discord::{next_event_error_notice, next_event_error_notice_spec, success_message, success_message_spec};
use crate::events::{failure_message, next_result_view, EventRow, NextEventError, NextEventFailure, RowView};
use crate::time::{current_date_time_iso8601, utc_stamp_shape};
use crate::clock::is_clock_stamp;

verus! {

/// The address that lists a group's upcoming events, ending no earlier than `min_end`.
pub open spec fn events_url_spec(group_id: Seq<char>, min_end: Seq<char>) -> Seq<char> {
    "https://api.spond.com/core/v1/sponds?includeComments=false&includeHidden=false&addProfileInfo=false&scheduled=true&order=asc&max=20&groupId="@
        + group_id + "&minEndTimestamp="@ + min_end
}

/// Builds the address that lists a group's upcoming events.
pub fn events_url(group_id: &str, min_end: &str) -> (r: String)
    ensures
        r@ == events_url_spec(group_id@, min_end@),
{
    let mut url = "https://api.spond.com/core/v1/sponds?includeComments=false&includeHidden=false&addProfileInfo=false&scheduled=true&order=asc&max=20&groupId=".to_owned();
    url.append(group_id);
    url.append("&minEndTimestamp=");
    url.append(min_end);
    url
}

/// Builds the address that lists the configured group's events from the
/// current time on: the time is a stamp of the clock read during the call,
/// rendered as `%Y-%m-%dT%H:%M:%SZ`.
pub fn update_event_build(config: &ConfigSet) -> (r: String)
    ensures
        exists|now: Seq<char>| is_clock_stamp(now) && utc_stamp_shape(now) && r@ == #[trigger] events_url_spec(config.group_id@, now),
{
    let now = current_date_time_iso8601();
    events_url(config.group_id.as_str(), now.as_str())
}

/// The listing address ends with its `minEndTimestamp` exactly, so for one
/// group two addresses are equal only when they were built from the same
/// time stamp: the address built from another time than the clock's is
/// another address.
pub proof fn law_events_url_carries_stamp(group_id: Seq<char>, t1: Seq<char>, t2: Seq<char>)
    ensures
        ({
            let url = events_url_spec(group_id, t1);
            url.subrange(url.len() - t1.len(), url.len() as int) == t1
        }),
        events_url_spec(group_id, t1) == events_url_spec(group_id, t2) ==> t1 == t2,
{
    let u1 = events_url_spec(group_id, t1);
    let u2 = events_url_spec(group_id, t2);
    let head = "https://api.spond.com/core/v1/sponds?includeComments=false&includeHidden=false&addProfileInfo=false&scheduled=true&order=asc&max=20&groupId="@
        + group_id + "&minEndTimestamp="@;
    assert(u1 == head + t1);
    assert(u2 == head + t2);
    assert(u1.subrange(u1.len() - t1.len(), u1.len() as int) =~= t1);
    if u1 == u2 {
        assert(t1.len() == t2.len());
        assert(t2 =~= u2.subrange(u2.len() - t2.len(), u2.len() as int));
        assert(t1 =~= t2);
    }
}

/// What one round does with the outcome of choosing the next event.
#[derive(Debug, PartialEq, Eq)]
pub enum RoundPlan {
    /// Wait for the invitation to open, then answer it at `url`.
    Accept { url: String, invite_time: String, header: String },
    /// Print `console`, post `notice` to the webhook, and stop.
    Stop { console: String, notice: String },
    /// The event has no invitation time: start the round again.
    Retry,
}

pub enum RoundPlanView {
    Accept { url: Seq<char>, invite_time: Seq<char>, header: Seq<char> },
    Stop { console: Seq<char>, notice: Seq<char> },
    Retry,
}

impl View for RoundPlan {
    type V = RoundPlanView;

    open spec fn view(&self) -> RoundPlanView {
        match self {
            RoundPlan::Accept { url, invite_time, header } => RoundPlanView::Accept {
                url: url@,
                invite_time: invite_time@,
                header: header@,
            },
            RoundPlan::Stop { console, notice } => RoundPlanView::Stop { console: console@, notice: notice@ },
            RoundPlan::Retry => RoundPlanView::Retry,
        }
    }
}

/// The plan for a round: an event with an invitation time is answered at the
/// URL of the first configured member; no event stops the bot quietly; a
/// failure stops it with the failure's message.
pub open spec fn plan_round_spec(next: Result<Option<RowView>, NextEventFailure>, first_user_id: Seq<char>) -> RoundPlanView {
    match next {
        Ok(Some(row)) => match row.1 {
            Some(invite_time) => RoundPlanView::Accept {
                url: accept_url_spec(row.0, first_user_id),
                invite_time: invite_time,
                header: row.2,
            },
            None => RoundPlanView::Retry,
        },
        Ok(None) => RoundPlanView::Stop {
            console: "No more events to process."@,
            notice: "No more events to process"@,
        },
        Err(f) => RoundPlanView::Stop {
            console: "Error getting next event: "@ + failure_message(f),
            notice: next_event_error_notice_spec(failure_message(f)),
        },
    }
}

/// Decides what a round does with the outcome of choosing the next event.
pub fn plan_round(next: &Result<Option<EventRow>, NextEventError>, first_user_id: &str) -> (r: RoundPlan)
    ensures
        r@ == plan_round_spec(next_result_view(*next), first_user_id@),
{
    match next {
        Ok(Some(row)) => match &row.invite_time {
            Some(invite_time) => RoundPlan::Accept {
                url: accept_url(row.id.as_str(), first_user_id),
                invite_time: invite_time.clone(),
                header: row.heading.clone(),
            },
            None => RoundPlan::Retry,
        },
        Ok(None) => RoundPlan::Stop {
            console: "No more events to process.".to_owned(),
            notice: "No more events to process".to_owned(),
        },
        Err(e) => {
            let reason = e.message();
            let mut console = "Error getting next event: ".to_owned();
            console.append(reason.as_str());
            RoundPlan::Stop { console, notice: next_event_error_notice(reason.as_str()) }
        },
    }
}

/// What is reported after answering an invitation for one member.
#[derive(Debug, PartialEq, Eq)]
pub enum AcceptReport {
    /// Print this text and post it to the member's webhook.
    Accepted(String),
    /// Print this text.
    Failed(String),
}

pub enum AcceptReportView {
    Accepted(Seq<char>),
    Failed(Seq<char>),
}

impl View for AcceptReport {
    type V = AcceptReportView;

    open spec fn view(&self) -> AcceptReportView {
        match self {
            AcceptReport::Accepted(m) => AcceptReportView::Accepted(m@),
            AcceptReport::Failed(m) => AcceptReportView::Failed(m@),
        }
    }
}

/// The report after answering: the success message for any answer, or the
/// failure's message.
pub open spec fn acceptance_report_spec(
    result: Result<Seq<char>, crate::accept::AcceptFailure>,
    header: Seq<char>,
    delay_nanos: i64,
    user_name: Seq<char>,
) -> AcceptReportView {
    match result {
        Ok(_) => AcceptReportView::Accepted(success_message_spec(header, delay_nanos, user_name)),
        Err(f) => AcceptReportView::Failed("Failed to accept event: "@ + accept_failure_message(f)),
    }
}

/// Decides what is reported after answering an invitation for one member.
pub fn acceptance_report(
    result: &Result<String, AcceptError>,
    header: &str,
    delay_nanos: i64,
    user_name: &str,
) -> (r: AcceptReport)
    requires
        result is Ok ==> delay_nanos != i64::MIN,
    ensures
        r@ == acceptance_report_spec(crate::accept::accept_result_view(*result), header@, delay_nanos, user_name@),
{
    match result {
        Ok(_) => AcceptReport::Accepted(success_message(header, delay_nanos, user_name)),
        Err(e) => {
            let mut line = "Failed to accept event: ".to_owned();
            let reason = e.message();
            line.append(reason.as_str());
            AcceptReport::Failed(line)
        },
    }
}

} // verus!
