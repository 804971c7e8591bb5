//! The day's lowest and highest temperature for one sub-area of a regional forecast.
use vstd::prelude::*;

use crate::clock::{LocalTime, SECS_PER_DAY};
use crate::text::{int_of_text, parse_int};

verus! {

/// Index, within a forecast document, of the time series that holds the temperatures.
pub const TEMPS_SERIES: usize = 2;

/// Why no temperatures could be taken from a forecast document.
#[derive(Clone, Copy, Debug, PartialEq, Eq, Structural)]
pub enum ResolutionError {
    /// The temperature series has no sub-area with the configured code.
    AreaNotFound,
    /// A temperature sample is not an integer.
    MalformedData,
    /// A timestamp is not an RFC 3339 date and time.
    InvalidTimestamp,
    /// The forecast day does not hold exactly two temperature samples.
    AmbiguousWindow,
    /// The document has no report timestamp.
    MissingReportTime,
}

/// The temperature samples of one sub-area.
#[derive(Clone, Debug)]
pub struct AreaTemps {
    pub code: String,
    pub name: String,
    /// One sample per timestamp of the series, as decimal text.
    pub temps: Vec<String>,
}

/// A series of timestamps, and the sub-areas whose samples follow them position by position.
#[derive(Clone, Debug)]
pub struct TimeSeries {
    /// RFC 3339 timestamps.
    pub time_defines: Vec<String>,
    pub areas: Vec<AreaTemps>,
}

/// The part of a regional forecast that the resolver reads.
#[derive(Clone, Debug)]
pub struct ForecastDocument {
    /// RFC 3339 timestamp of the report.
    pub report_datetime: Option<String>,
    pub time_series: Vec<TimeSeries>,
}

/// The temperatures of the forecast day for one sub-area.
#[derive(Clone, Debug)]
pub struct ResolvedForecast {
    pub area_name: String,
    /// The earlier sample of the day.
    pub temp_lowest: i64,
    /// The later sample of the day.
    pub temp_highest: i64,
    /// The report instant, in seconds since 1970-01-01 00:00 UTC.
    pub report_time: i64,
}

/// The instant, in seconds since 1970-01-01 00:00 UTC, that the RFC 3339 text `s` denotes,
/// or `None` where `s` is no such text.
pub uninterp spec fn rfc3339_instant(s: Seq<char>) -> Option<i64>;

/// Relies on chrono's `DateTime::parse_from_rfc3339` to read the text, and on
/// `DateTime::timestamp` for its instant; both depend on the text alone.
#[verifier::external_body]
fn parse_rfc3339(s: &str) -> (r: Option<i64>)
    ensures
        r == rfc3339_instant(s@),
{
    match chrono::DateTime::parse_from_rfc3339(s) {
        Ok(d) => Some(d.timestamp()),
        Err(_) => None,
    }
}

/// Index of the first sub-area at or after `i` whose code is `code`.
pub open spec fn first_area_from(areas: Seq<AreaTemps>, code: Seq<char>, i: int) -> Option<int>
    decreases areas.len() - i,
{
    if i < 0 || i >= areas.len() {
        None
    } else if areas[i].code@ == code {
        Some(i)
    } else {
        first_area_from(areas, code, i + 1)
    }
}

/// Every sample is an integer.
pub open spec fn temps_valid(ts: Seq<String>) -> bool {
    forall|k: int| 0 <= k < ts.len() ==> (#[trigger] int_of_text(ts[k]@)) is Some
}

/// The values of the samples.
pub open spec fn temp_values(ts: Seq<String>) -> Seq<i64> {
    Seq::new(ts.len(), |k: int| int_of_text(ts[k]@)->Some_0 as i64)
}

/// Every timestamp is RFC 3339 text.
pub open spec fn instants_valid(tds: Seq<String>) -> bool {
    forall|k: int| 0 <= k < tds.len() ==> (#[trigger] rfc3339_instant(tds[k]@)) is Some
}

/// The instants of the timestamps.
pub open spec fn instant_values(tds: Seq<String>) -> Seq<i64> {
    Seq::new(tds.len(), |k: int| rfc3339_instant(tds[k]@)->Some_0)
}

/// `t` lies in the 24 hours that start at `start`.
pub open spec fn in_window(t: int, start: int) -> bool {
    start <= t < start + SECS_PER_DAY
}

/// The (instant, sample) pairs among the first `n` positions whose instant lies in the
/// window at `start`, in series order.
pub open spec fn window_temps(instants: Seq<i64>, temps: Seq<i64>, start: int, n: int) -> Seq<
    (i64, i64),
>
    decreases n,
{
    if n <= 0 {
        Seq::empty()
    } else if in_window(instants[n - 1] as int, start) {
        window_temps(instants, temps, start, n - 1).push((instants[n - 1], temps[n - 1]))
    } else {
        window_temps(instants, temps, start, n - 1)
    }
}

/// The smaller of two lengths.
pub open spec fn min_len(a: int, b: int) -> int {
    if a < b { a } else { b }
}

/// The two samples of the window that starts at `start`, pairing instants and samples by
/// position, the earlier first (in series order when both have one instant); an error
/// unless exactly two lie in it.
pub open spec fn select_pair_spec(instants: Seq<i64>, temps: Seq<i64>, start: int) -> Result<
    (i64, i64),
    ResolutionError,
> {
    let w = window_temps(instants, temps, start, min_len(instants.len() as int, temps.len() as int));
    if w.len() == 2 {
        if w[0].0 <= w[1].0 {
            Ok((w[0].1, w[1].1))
        } else {
            Ok((w[1].1, w[0].1))
        }
    } else {
        Err(ResolutionError::AmbiguousWindow)
    }
}

/// What resolving `doc` for the sub-area `code` yields at the local time `now`: the
/// sub-area's name, its two samples of the forecast day, and the report instant.
pub open spec fn resolve_spec(doc: ForecastDocument, code: Seq<char>, rollover: u32, now: LocalTime)
    -> Result<(Seq<char>, i64, i64, i64), ResolutionError> {
    if doc.time_series.len() <= TEMPS_SERIES {
        Err(ResolutionError::AreaNotFound)
    } else {
        let series = doc.time_series@[TEMPS_SERIES as int];
        match first_area_from(series.areas@, code, 0) {
            None => Err(ResolutionError::AreaNotFound),
            Some(i) => {
                let area = series.areas@[i];
                if !temps_valid(area.temps@) {
                    Err(ResolutionError::MalformedData)
                } else if !instants_valid(series.time_defines@) {
                    Err(ResolutionError::InvalidTimestamp)
                } else {
                    match select_pair_spec(
                        instant_values(series.time_defines@),
                        temp_values(area.temps@),
                        now.window_start_spec(rollover),
                    ) {
                        Err(e) => Err(e),
                        Ok((lo, hi)) => match doc.report_datetime {
                            None => Err(ResolutionError::MissingReportTime),
                            Some(s) => match rfc3339_instant(s@) {
                                None => Err(ResolutionError::InvalidTimestamp),
                                Some(t) => Ok((area.name@, lo, hi, t)),
                            },
                        },
                    }
                }
            },
        }
    }
}

/// Positions `a..b` that lie outside the window add no sample.
proof fn lemma_window_skip(instants: Seq<i64>, temps: Seq<i64>, start: int, a: int, b: int)
    requires
        0 <= a <= b,
        forall|k: int| a <= k < b ==> !in_window(#[trigger] instants[k] as int, start),
    ensures
        window_temps(instants, temps, start, b) == window_temps(instants, temps, start, a),
    decreases b - a,
{
    if b > a {
        lemma_window_skip(instants, temps, start, a, b - 1);
    }
}

/// Later positions never remove a sample.
proof fn lemma_window_grows(instants: Seq<i64>, temps: Seq<i64>, start: int, a: int, b: int)
    requires
        0 <= a <= b,
    ensures
        window_temps(instants, temps, start, a).len() <= window_temps(instants, temps, start, b).len(),
    decreases b - a,
{
    if b > a {
        lemma_window_grows(instants, temps, start, a, b - 1);
    }
}

/// With exactly two positions `k1 < k2` of the series in the forecast window, the day's
/// samples are those of `k1` and `k2`, ordered by their instants.
pub proof fn lemma_two_in_window(instants: Seq<i64>, temps: Seq<i64>, start: int, k1: int, k2: int)
    requires
        0 <= k1 < k2 < min_len(instants.len() as int, temps.len() as int),
        in_window(instants[k1] as int, start),
        in_window(instants[k2] as int, start),
        forall|k: int|
            0 <= k < min_len(instants.len() as int, temps.len() as int) && k != k1 && k != k2
                ==> !in_window(#[trigger] instants[k] as int, start),
    ensures
        instants[k1] <= instants[k2] ==> select_pair_spec(instants, temps, start) == Ok::<
            (i64, i64),
            ResolutionError,
        >((temps[k1], temps[k2])),
        instants[k1] > instants[k2] ==> select_pair_spec(instants, temps, start) == Ok::<
            (i64, i64),
            ResolutionError,
        >((temps[k2], temps[k1])),
{
    let n = min_len(instants.len() as int, temps.len() as int);
    lemma_window_skip(instants, temps, start, 0, k1);
    lemma_window_skip(instants, temps, start, k1 + 1, k2);
    lemma_window_skip(instants, temps, start, k2 + 1, n);
    assert(window_temps(instants, temps, start, n) =~= seq![
        (instants[k1], temps[k1]),
        (instants[k2], temps[k2]),
    ]);
}

/// With no position of the series in the forecast window there is no result.
pub proof fn lemma_none_in_window(instants: Seq<i64>, temps: Seq<i64>, start: int)
    requires
        forall|k: int|
            0 <= k < min_len(instants.len() as int, temps.len() as int) ==> !in_window(
                #[trigger] instants[k] as int,
                start,
            ),
    ensures
        select_pair_spec(instants, temps, start) == Err::<(i64, i64), ResolutionError>(
            ResolutionError::AmbiguousWindow,
        ),
{
    let n = min_len(instants.len() as int, temps.len() as int);
    if n > 0 {
        lemma_window_skip(instants, temps, start, 0, n);
    }
}

/// With exactly one position `k1` of the series in the forecast window there is no result.
pub proof fn lemma_one_in_window(instants: Seq<i64>, temps: Seq<i64>, start: int, k1: int)
    requires
        0 <= k1 < min_len(instants.len() as int, temps.len() as int),
        in_window(instants[k1] as int, start),
        forall|k: int|
            0 <= k < min_len(instants.len() as int, temps.len() as int) && k != k1 ==> !in_window(
                #[trigger] instants[k] as int,
                start,
            ),
    ensures
        select_pair_spec(instants, temps, start) == Err::<(i64, i64), ResolutionError>(
            ResolutionError::AmbiguousWindow,
        ),
{
    let n = min_len(instants.len() as int, temps.len() as int);
    lemma_window_skip(instants, temps, start, 0, k1);
    lemma_window_skip(instants, temps, start, k1 + 1, n);
    assert(window_temps(instants, temps, start, n).len() == 1);
}

/// With three or more positions of the series in the forecast window there is no result.
pub proof fn lemma_three_in_window(
    instants: Seq<i64>,
    temps: Seq<i64>,
    start: int,
    k1: int,
    k2: int,
    k3: int,
)
    requires
        0 <= k1 < k2 < k3 < min_len(instants.len() as int, temps.len() as int),
        in_window(instants[k1] as int, start),
        in_window(instants[k2] as int, start),
        in_window(instants[k3] as int, start),
    ensures
        select_pair_spec(instants, temps, start) == Err::<(i64, i64), ResolutionError>(
            ResolutionError::AmbiguousWindow,
        ),
{
    let n = min_len(instants.len() as int, temps.len() as int);
    lemma_window_grows(instants, temps, start, k1 + 1, k2);
    lemma_window_grows(instants, temps, start, k2 + 1, k3);
    lemma_window_grows(instants, temps, start, k3 + 1, n);
    assert(window_temps(instants, temps, start, n).len() >= 3);
}

/// Once the sub-area is found, its samples and the series' timestamps read, and the report
/// time read, resolution gives exactly what the window gives: its two samples, or its error.
pub proof fn lemma_resolve_follows_window(
    doc: ForecastDocument,
    code: Seq<char>,
    rollover: u32,
    now: LocalTime,
    i: int,
    report: i64,
)
    requires
        doc.time_series.len() > TEMPS_SERIES,
        first_area_from(doc.time_series@[TEMPS_SERIES as int].areas@, code, 0) == Some(i),
        temps_valid(doc.time_series@[TEMPS_SERIES as int].areas@[i].temps@),
        instants_valid(doc.time_series@[TEMPS_SERIES as int].time_defines@),
        doc.report_datetime matches Some(s) && rfc3339_instant(s@) == Some(report),
    ensures
        ({
            let series = doc.time_series@[TEMPS_SERIES as int];
            let area = series.areas@[i];
            resolve_spec(doc, code, rollover, now) == match select_pair_spec(
                instant_values(series.time_defines@),
                temp_values(area.temps@),
                now.window_start_spec(rollover),
            ) {
                Err(e) => Err(e),
                Ok((lo, hi)) => Ok((area.name@, lo, hi, report)),
            }
        }),
{
}

/// The samples whose instants lie in the 24 hours from `start`, paired by position with
/// `instants`; exactly two give them ordered by instant, any other number `AmbiguousWindow`.
pub fn select_pair(instants: &Vec<i64>, temps: &Vec<i64>, start: i64) -> (r: Result<
    (i64, i64),
    ResolutionError,
>)
    requires
        start <= i64::MAX - SECS_PER_DAY,
    ensures
        r == select_pair_spec(instants@, temps@, start as int),
{
    let n: usize = if instants.len() < temps.len() { instants.len() } else { temps.len() };
    let mut picked: Vec<(i64, i64)> = Vec::new();
    let mut k: usize = 0;
    while k < n
        invariant
            n == min_len(instants@.len() as int, temps@.len() as int),
            k <= n,
            start <= i64::MAX - SECS_PER_DAY,
            picked@ == window_temps(instants@, temps@, start as int, k as int),
        decreases n - k,
    {
        let t: i64 = instants[k];
        if start <= t && t < start + SECS_PER_DAY {
            picked.push((t, temps[k]));
        }
        k = k + 1;
    }
    if picked.len() == 2 {
        let (t0, v0) = picked[0];
        let (t1, v1) = picked[1];
        if t0 <= t1 {
            Ok((v0, v1))
        } else {
            Ok((v1, v0))
        }
    } else {
        Err(ResolutionError::AmbiguousWindow)
    }
}

/// The index of the first sub-area whose code is `code`.
fn find_area(areas: &Vec<AreaTemps>, code: &String) -> (r: Option<usize>)
    ensures
        match r {
            Some(i) => first_area_from(areas@, code@, 0) == Some(i as int),
            None => first_area_from(areas@, code@, 0) is None,
        },
        r matches Some(i) ==> i < areas@.len(),
{
    let mut i: usize = 0;
    while i < areas.len()
        invariant
            i <= areas@.len(),
            first_area_from(areas@, code@, 0) == first_area_from(areas@, code@, i as int),
        decreases areas@.len() - i,
    {
        if areas[i].code == *code {
            return Some(i);
        }
        i = i + 1;
    }
    None
}

/// The values of the samples, or `None` if one is not an integer.
fn parse_temps(ts: &Vec<String>) -> (r: Option<Vec<i64>>)
    ensures
        match r {
            Some(v) => temps_valid(ts@) && v@ == temp_values(ts@),
            None => !temps_valid(ts@),
        },
{
    let mut out: Vec<i64> = Vec::new();
    let mut k: usize = 0;
    while k < ts.len()
        invariant
            k <= ts@.len(),
            out@.len() == k,
            forall|j: int| 0 <= j < k ==> (#[trigger] int_of_text(ts@[j]@)) is Some,
            forall|j: int| 0 <= j < k ==> out@[j] == int_of_text(ts@[j]@)->Some_0 as i64,
        decreases ts@.len() - k,
    {
        match parse_int(ts[k].as_str()) {
            Some(v) => out.push(v),
            None => return None,
        }
        k = k + 1;
    }
    assert(out@ =~= temp_values(ts@));
    Some(out)
}

/// The instants of the timestamps, or `None` if one is not RFC 3339 text.
fn parse_instants(tds: &Vec<String>) -> (r: Option<Vec<i64>>)
    ensures
        match r {
            Some(v) => instants_valid(tds@) && v@ == instant_values(tds@),
            None => !instants_valid(tds@),
        },
{
    let mut out: Vec<i64> = Vec::new();
    let mut k: usize = 0;
    while k < tds.len()
        invariant
            k <= tds@.len(),
            out@.len() == k,
            forall|j: int| 0 <= j < k ==> (#[trigger] rfc3339_instant(tds@[j]@)) is Some,
            forall|j: int| 0 <= j < k ==> out@[j] == rfc3339_instant(tds@[j]@)->Some_0,
        decreases tds@.len() - k,
    {
        match parse_rfc3339(tds[k].as_str()) {
            Some(v) => out.push(v),
            None => return None,
        }
        k = k + 1;
    }
    assert(out@ =~= instant_values(tds@));
    Some(out)
}

/// The report instant of `doc`, if it has one that parses.
fn report_instant(doc: &ForecastDocument) -> (r: Option<i64>)
    ensures
        r == match doc.report_datetime {
            None => None,
            Some(s) => rfc3339_instant(s@),
        },
{
    match &doc.report_datetime {
        None => None,
        Some(s) => parse_rfc3339(s.as_str()),
    }
}

/// Takes from `doc` the name and the two samples of the forecast day of the sub-area `code`,
/// with the report instant. The forecast day is today before the `rollover` hour of `now`,
/// and tomorrow from that hour on.
pub fn resolve(doc: &ForecastDocument, code: &String, rollover: u32, now: &LocalTime) -> (r: Result<
    ResolvedForecast,
    ResolutionError,
>)
    requires
        now.wf(),
    ensures
        r matches Ok(v) ==> resolve_spec(*doc, code@, rollover, *now) == Ok::<
            (Seq<char>, i64, i64, i64),
            ResolutionError,
        >((v.area_name@, v.temp_lowest, v.temp_highest, v.report_time)),
        r matches Err(e) ==> resolve_spec(*doc, code@, rollover, *now) == Err::<
            (Seq<char>, i64, i64, i64),
            ResolutionError,
        >(e),
{
    if doc.time_series.len() <= TEMPS_SERIES {
        return Err(ResolutionError::AreaNotFound);
    }
    let series = &doc.time_series[TEMPS_SERIES];
    let i = match find_area(&series.areas, code) {
        None => return Err(ResolutionError::AreaNotFound),
        Some(i) => i,
    };
    let area = &series.areas[i];
    let temps = match parse_temps(&area.temps) {
        None => return Err(ResolutionError::MalformedData),
        Some(t) => t,
    };
    let instants = match parse_instants(&series.time_defines) {
        None => return Err(ResolutionError::InvalidTimestamp),
        Some(t) => t,
    };
    let start = now.window_start(rollover);
    let (lo, hi) = match select_pair(&instants, &temps, start) {
        Err(e) => return Err(e),
        Ok(p) => p,
    };
    if doc.report_datetime.is_none() {
        return Err(ResolutionError::MissingReportTime);
    }
    match report_instant(doc) {
        None => Err(ResolutionError::InvalidTimestamp),
        Some(t) => Ok(ResolvedForecast {
            area_name: area.name.clone(),
            temp_lowest: lo,
            temp_highest: hi,
            report_time: t,
        }),
    }
}

/// The forecast of one sub-area, and the temperatures last taken from it.
#[derive(Debug)]
pub struct Forecast {
    /// Code of the regional office whose forecast is read.
    pub offices: String,
    pub area_name: String,
    /// Code of the sub-area within the office's forecast.
    pub area_code: String,
    /// Hour from which the next day's temperatures are taken.
    pub reference_time: u32,
    pub temp_lowest: Option<i64>,
    pub temp_highest: Option<i64>,
    /// When the temperatures were last taken, in seconds since 1970-01-01 00:00 UTC.
    pub update: Option<i64>,
    /// The document that the temperatures were last taken from.
    pub forecast: Option<ForecastDocument>,
}

impl Forecast {
    /// A forecast of the sub-area `area_code` of `offices`, with no temperatures yet.
    pub fn new(offices: String, area_code: String, reference_time: u32) -> (r: Forecast)
        ensures
            r.offices@ == offices@,
            r.area_code@ == area_code@,
            r.area_name@ == Seq::<char>::empty(),
            r.reference_time == reference_time,
            r.temp_lowest is None,
            r.temp_highest is None,
            r.update is None,
            r.forecast is None,
    {
        Forecast {
            offices,
            area_name: String::new(),
            area_code,
            reference_time,
            temp_lowest: None,
            temp_highest: None,
            update: None,
            forecast: None,
        }
    }

    /// The report instant of the stored document, in seconds since 1970-01-01 00:00 UTC.
    pub fn get_report_datetime(&self) -> (r: Option<i64>)
        ensures
            r == match self.forecast {
                None => None,
                Some(doc) => match doc.report_datetime {
                    None => None,
                    Some(s) => rfc3339_instant(s@),
                },
            },
    {
        match &self.forecast {
            None => None,
            Some(doc) => report_instant(doc),
        }
    }

    /// Stores `doc` and takes from it this sub-area's temperatures of the forecast day at
    /// `now` (see [`resolve`]). On failure the temperatures and the name stay as they were.
    pub fn update_temperature(&mut self, doc: ForecastDocument, now: &LocalTime) -> (r: Result<
        (),
        ResolutionError,
    >)
        requires
            now.wf(),
        ensures
            final(self).forecast == Some(doc),
            final(self).offices == old(self).offices,
            final(self).area_code == old(self).area_code,
            final(self).reference_time == old(self).reference_time,
            match resolve_spec(doc, old(self).area_code@, old(self).reference_time, *now) {
                Ok((name, lo, hi, _)) => r is Ok && final(self).area_name@ == name
                    && final(self).temp_lowest == Some(lo) && final(self).temp_highest == Some(hi)
                    && final(self).update == Some(now.epoch),
                Err(e) => r == Err::<(), ResolutionError>(e) && final(self).area_name
                    == old(self).area_name && final(self).temp_lowest == old(self).temp_lowest
                    && final(self).temp_highest == old(self).temp_highest && final(self).update
                    == old(self).update,
            },
    {
        let res = resolve(&doc, &self.area_code, self.reference_time, now);
        self.forecast = Some(doc);
        match res {
            Ok(v) => {
                self.area_name = v.area_name;
                self.temp_lowest = Some(v.temp_lowest);
                self.temp_highest = Some(v.temp_highest);
                self.update = Some(now.epoch);
                Ok(())
            },
            Err(e) => Err(e),
        }
    }
}

} // verus!
