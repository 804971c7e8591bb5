//! Turning the configured actions into requests for the display device.
use vstd::prelude::*;

use crate::clock::{hour_of, LocalTime};
use crate::config::Action;
use crate::text::{contains_spec, contains_text, int_text, int_to_text, lemma_replace_absent, replace_all, replace_text};
use crate::wifidigit::{method_kind, WiFiDigit};

verus! {

/// What to do with one action.
#[derive(Clone, Debug)]
pub enum ActionPlan {
    /// Send the command with the device request.
    Send(WiFiDigit, String),
    /// The temperatures do not meet the action's thresholds.
    NotTriggered,
    /// The command needs the report hour, which is not known.
    MissingReportHour,
    /// The action names a method other than GET or PUT.
    UnknownMethod,
}

/// Placeholder for the lowest temperature.
pub open spec fn lowest_key() -> Seq<char> {
    "{tempLowest}"@
}

/// Placeholder for the highest temperature.
pub open spec fn highest_key() -> Seq<char> {
    "{tempHighest}"@
}

/// Placeholder for the local hour of the report.
pub open spec fn report_key() -> Seq<char> {
    "{reportHour}"@
}

/// Placeholder for the current hour on a 12-hour clock.
pub open spec fn now_key() -> Seq<char> {
    "{nowHour}"@
}

/// The command made from template `t`: the temperatures and hours written in decimal in
/// place of their placeholders. `None` when `t` asks for the report hour and it is unknown.
pub open spec fn command_spec(t: Seq<char>, low: i64, high: i64, report_hour: Option<u32>, now_hour: u32)
    -> Option<Seq<char>> {
    let c = replace_all(
        replace_all(t, lowest_key(), int_text(low as int)),
        highest_key(),
        int_text(high as int),
    );
    if contains_spec(c, report_key()) {
        match report_hour {
            None => None,
            Some(h) => Some(
                replace_all(replace_all(c, report_key(), int_text(h as int)), now_key(), int_text(now_hour as int)),
            ),
        }
    } else {
        Some(replace_all(c, now_key(), int_text(now_hour as int)))
    }
}

/// The action's thresholds let it fire: the lowest temperature is at or below `lowest`, and
/// the highest at or above `highest`, for each that is set.
pub open spec fn fires_spec(a: Action, low: i64, high: i64) -> bool {
    (match a.lowest {
        Some(t) => low <= t,
        None => true,
    }) && (match a.highest {
        Some(t) => high >= t,
        None => true,
    })
}

/// The name of the action's method, `GET` when it has none.
pub open spec fn method_name(a: Action) -> Seq<char> {
    match a.method {
        Some(m) => m@,
        None => "GET"@,
    }
}

/// `p` is the plan for action `a` with the device at `url`.
pub open spec fn plan_spec(
    p: ActionPlan,
    a: Action,
    url: Seq<char>,
    low: i64,
    high: i64,
    report_hour: Option<u32>,
    now_hour: u32,
) -> bool {
    match command_spec(a.command@, low, high, report_hour, now_hour) {
        None => p is MissingReportHour,
        Some(c) => if !fires_spec(a, low, high) {
            p is NotTriggered
        } else {
            match method_kind(method_name(a)) {
                None => p is UnknownMethod,
                Some(put) => p matches ActionPlan::Send(d, cmd) && cmd@ == c && d.url_spec() == url
                    && d.is_put_spec() == put,
            }
        },
    }
}

/// A template with none of the placeholders is sent as it stands.
pub proof fn lemma_plain_command_unchanged(t: Seq<char>, low: i64, high: i64, report_hour: Option<u32>, now_hour: u32)
    requires
        !contains_spec(t, lowest_key()),
        !contains_spec(t, highest_key()),
        !contains_spec(t, report_key()),
        !contains_spec(t, now_key()),
    ensures
        command_spec(t, low, high, report_hour, now_hour) == Some(t),
{
    lemma_replace_absent(t, lowest_key(), int_text(low as int));
    lemma_replace_absent(t, highest_key(), int_text(high as int));
    lemma_replace_absent(t, now_key(), int_text(now_hour as int));
}

/// An action with only a lowest-temperature threshold `t` fires exactly when the lowest
/// temperature is at or below `t`.
pub proof fn lemma_lowest_threshold(a: Action, t: i64, low: i64, high: i64)
    requires
        a.lowest == Some(t),
        a.highest is None,
    ensures
        fires_spec(a, low, high) <==> low <= t,
{
}

/// An action with only a highest-temperature threshold `t` fires exactly when the highest
/// temperature is at or above `t`.
pub proof fn lemma_highest_threshold(a: Action, t: i64, low: i64, high: i64)
    requires
        a.highest == Some(t),
        a.lowest is None,
    ensures
        fires_spec(a, low, high) <==> high >= t,
{
}

/// The command made from `template` (see `command_spec`).
pub fn build_command(template: &str, low: i64, high: i64, report_hour: Option<u32>, now_hour: u32) -> (r: Option<String>)
    ensures
        match r {
            Some(c) => command_spec(template@, low, high, report_hour, now_hour) == Some(c@),
            None => command_spec(template@, low, high, report_hour, now_hour) is None,
        },
{
    proof {
        reveal_strlit("{tempLowest}");
        reveal_strlit("{tempHighest}");
        reveal_strlit("{reportHour}");
        reveal_strlit("{nowHour}");
    }
    let c1 = replace_text(template, "{tempLowest}", int_to_text(low).as_str());
    let c = replace_text(c1.as_str(), "{tempHighest}", int_to_text(high).as_str());
    let c = if contains_text(c.as_str(), "{reportHour}") {
        match report_hour {
            None => return None,
            Some(h) => replace_text(c.as_str(), "{reportHour}", int_to_text(h as i64).as_str()),
        }
    } else {
        c
    };
    Some(replace_text(c.as_str(), "{nowHour}", int_to_text(now_hour as i64).as_str()))
}

/// Whether the action's thresholds let it fire.
pub fn fires(a: &Action, low: i64, high: i64) -> (r: bool)
    ensures
        r == fires_spec(*a, low, high),
{
    let low_ok = match a.lowest {
        Some(t) => low <= t,
        None => true,
    };
    let high_ok = match a.highest {
        Some(t) => high >= t,
        None => true,
    };
    low_ok && high_ok
}

/// The plan for action `a` with the device at `url`, the day's temperatures, the local
/// report hour if known, and the current hour on a 12-hour clock.
pub fn plan_action(a: &Action, url: &String, low: i64, high: i64, report_hour: Option<u32>, now_hour: u32) -> (r: ActionPlan)
    ensures
        plan_spec(r, *a, url@, low, high, report_hour, now_hour),
{
    let command = match build_command(a.command.as_str(), low, high, report_hour, now_hour) {
        None => return ActionPlan::MissingReportHour,
        Some(c) => c,
    };
    if !fires(a, low, high) {
        return ActionPlan::NotTriggered;
    }
    let method = match &a.method {
        Some(m) => m.clone(),
        None => String::from_str("GET"),
    };
    match WiFiDigit::new(method, url.clone()) {
        Ok(d) => ActionPlan::Send(d, command),
        Err(_) => ActionPlan::UnknownMethod,
    }
}

/// The plans for all actions, in their order. Each plan depends on its own action alone, so
/// what happens to one request has no bearing on the others.
pub fn plan_actions(
    actions: &Vec<Action>,
    url: &String,
    low: i64,
    high: i64,
    report_hour: Option<u32>,
    now_hour: u32,
) -> (r: Vec<ActionPlan>)
    ensures
        r@.len() == actions@.len(),
        forall|i: int|
            0 <= i < actions@.len() ==> plan_spec(
                #[trigger] r@[i],
                actions@[i],
                url@,
                low,
                high,
                report_hour,
                now_hour,
            ),
{
    let mut out: Vec<ActionPlan> = Vec::new();
    let mut i: usize = 0;
    while i < actions.len()
        invariant
            i <= actions@.len(),
            out@.len() == i,
            forall|j: int|
                0 <= j < i ==> plan_spec(
                    #[trigger] out@[j],
                    actions@[j],
                    url@,
                    low,
                    high,
                    report_hour,
                    now_hour,
                ),
        decreases actions@.len() - i,
    {
        let p = plan_action(&actions[i], url, low, high, report_hour, now_hour);
        out.push(p);
        i = i + 1;
    }
    out
}

/// The local hour of the report instant `report`, read with the offset of `now`; `None`
/// when there is no report instant or it lies outside the range of [`LocalTime`].
pub open spec fn report_hour_spec(report: Option<i64>, now: LocalTime) -> Option<u32> {
    match report {
        None => None,
        Some(t) => {
            let lt = LocalTime { epoch: t, utc_offset: now.utc_offset, midnight_offset: now.utc_offset };
            if lt.wf() {
                Some(hour_of(lt.local_secs()) as u32)
            } else {
                None
            }
        },
    }
}

/// The local hour of the report instant (see `report_hour_spec`).
pub fn report_hour(report: Option<i64>, now: &LocalTime) -> (r: Option<u32>)
    ensures
        r == report_hour_spec(report, *now),
{
    match report {
        None => None,
        Some(t) => {
            let lt = LocalTime { epoch: t, utc_offset: now.utc_offset, midnight_offset: now.utc_offset };
            if lt.is_valid() {
                Some(lt.hour())
            } else {
                None
            }
        },
    }
}

} // verus!
