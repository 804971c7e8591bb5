//! One run: the forecast day's temperatures, then the plan for every action.
use vstd::prelude::*;

use crate::clock::{hour12_of, hour_of, LocalTime};
use crate::config::Config;
use crate::dispatch::{plan_actions, plan_spec, report_hour, report_hour_spec, ActionPlan};
use crate::forecast::{resolve_spec, Forecast, ForecastDocument, ResolutionError};

verus! {

/// Takes the temperatures of the configured sub-area from `doc` at the local time `now`, and
/// plans every configured action with them. The forecast is returned whatever the outcome;
/// the plans only when the temperatures were found.
pub fn plan_run(config: &Config, doc: ForecastDocument, now: &LocalTime) -> (r: (
    Forecast,
    Result<Vec<ActionPlan>, ResolutionError>,
))
    requires
        now.wf(),
    ensures
        r.0.forecast == Some(doc),
        r.0.offices@ == config.area.jma_offices@,
        r.0.area_code@ == config.area.jma_area_code@,
        match resolve_spec(
            doc,
            config.area.jma_area_code@,
            match config.area.reference_time {
                Some(h) => h,
                None => crate::clock::DEFAULT_ROLLOVER_HOUR,
            },
            *now,
        ) {
            Err(e) => r.1 == Err::<Vec<ActionPlan>, ResolutionError>(e),
            Ok((name, lo, hi, t)) => r.0.area_name@ == name && r.0.temp_lowest == Some(lo)
                && r.0.temp_highest == Some(hi) && (r.1 matches Ok(plans) && plans@.len()
                == config.actions@.len() && forall|i: int|
                0 <= i < plans@.len() ==> plan_spec(
                    #[trigger] plans@[i],
                    config.actions@[i],
                    config.wifidigit.url@,
                    lo,
                    hi,
                    report_hour_spec(Some(t), *now),
                    hour12_of(hour_of(now.local_secs())) as u32,
                )),
        },
{
    let mut f = Forecast::new(
        config.area.jma_offices.clone(),
        config.area.jma_area_code.clone(),
        config.area.rollover_hour(),
    );
    assert(f.area_code@ == config.area.jma_area_code@);
    match f.update_temperature(doc, now) {
        Err(e) => (f, Err(e)),
        Ok(()) => {
            let low = f.temp_lowest.unwrap();
            let high = f.temp_highest.unwrap();
            let rh = report_hour(f.get_report_datetime(), now);
            let plans = plan_actions(&config.actions, &config.wifidigit.url, low, high, rh, now.hour12());
            (f, Ok(plans))
        },
    }
}

} // verus!
