//! The settings of a run: the forecast area, the display device and its actions.
use vstd::prelude::*;

use crate::clock::DEFAULT_ROLLOVER_HOUR;

verus! {

/// The regional office and the sub-area whose forecast is read.
#[derive(Clone, Debug)]
pub struct AreaCode {
    pub jma_offices: String,
    pub jma_area_code: String,
    /// Hour from which the next day's temperatures are taken.
    pub reference_time: Option<u32>,
}

impl AreaCode {
    /// The configured rollover hour, or the default one.
    pub fn rollover_hour(&self) -> (r: u32)
        ensures
            r == match self.reference_time {
                Some(h) => h,
                None => DEFAULT_ROLLOVER_HOUR,
            },
    {
        match self.reference_time {
            Some(h) => h,
            None => DEFAULT_ROLLOVER_HOUR,
        }
    }
}

/// Where the display device listens.
#[derive(Clone, Debug)]
pub struct WiFiDigit {
    pub url: String,
}

/// A request to the display device and the temperatures that trigger it.
#[derive(Clone, Debug)]
pub struct Action {
    /// Sent only when the lowest temperature is at or below this many degrees.
    pub lowest: Option<i64>,
    /// Sent only when the highest temperature is at or above this many degrees.
    pub highest: Option<i64>,
    /// `GET` or `PUT`, letters in any case; `GET` when absent.
    pub method: Option<String>,
    /// The command, with placeholders for the temperatures and hours.
    pub command: String,
}

/// All settings of a run.
#[derive(Clone, Debug)]
pub struct Config {
    pub area: AreaCode,
    pub wifidigit: WiFiDigit,
    pub actions: Vec<Action>,
}

} // verus!
